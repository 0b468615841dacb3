use doclookup::content::{ContentError, PageType};
use doclookup::source::{
    after_landing, index_address, landing_url, live_page, local_index_path, local_page,
    next_fetch_step, FetchStep, FileRead, IndexReply,
};

#[test]
fn cache_path_layout() {
    assert_eq!(local_index_path("/home/u/proj", "serde"), "/home/u/proj/target/doc/serde/all.html");
    assert_eq!(landing_url("serde"), "https://docs.rs/serde");
    assert_eq!(index_address("https://docs.rs/serde/1.0.0/serde/"), "https://docs.rs/serde/1.0.0/serde/all.html");
}

#[test]
fn local_miss_is_not_found() {
    let r = local_page(FileRead::Missing, "/p/all.html".to_owned());
    assert!(matches!(r, Err(ContentError::DoesNotExist)));
}

#[test]
fn corrupt_cache_is_load_failure() {
    let r = local_page(FileRead::Unreadable, "/p/all.html".to_owned());
    assert!(matches!(r, Err(ContentError::LoadFailure)));
}

#[test]
fn local_read_is_index_page() {
    let r = local_page(FileRead::Text("<ul></ul>".to_owned()), "/p/all.html".to_owned());
    match r {
        Ok((PageType::All(t), base)) => {
            assert_eq!(t, "<ul></ul>");
            assert_eq!(base, "/p/all.html");
        }
        _ => panic!("expected the index page"),
    }
}

#[test]
fn landing_timeout_is_load_failure() {
    assert!(matches!(after_landing(None), Err(ContentError::LoadFailure)));
    let next = after_landing(Some("https://docs.rs/foo/2.0.1/foo/".to_owned())).unwrap();
    assert_eq!(next, "https://docs.rs/foo/2.0.1/foo/all.html");
}

#[test]
fn index_status_404_is_not_found() {
    let r = live_page(IndexReply::Answered { status: 404, body: Some("gone".to_owned()) }, "u".to_owned());
    assert!(matches!(r, Err(ContentError::DoesNotExist)));
    let r = live_page(IndexReply::Answered { status: 302, body: None }, "u".to_owned());
    assert!(matches!(r, Err(ContentError::DoesNotExist)));
}

#[test]
fn index_transport_or_body_failure_is_load_failure() {
    assert!(matches!(live_page(IndexReply::Failed, "u".to_owned()), Err(ContentError::LoadFailure)));
    let r = live_page(IndexReply::Answered { status: 200, body: None }, "u".to_owned());
    assert!(matches!(r, Err(ContentError::LoadFailure)));
}

#[test]
fn index_success_is_index_page() {
    let r = live_page(IndexReply::Answered { status: 200, body: Some("<ul></ul>".to_owned()) }, "https://docs.rs/a/all.html".to_owned());
    match r {
        Ok((PageType::All(t), base)) => {
            assert_eq!(t, "<ul></ul>");
            assert_eq!(base, "https://docs.rs/a/all.html");
        }
        _ => panic!("expected the index page"),
    }
}

#[test]
fn fetch_steps() {
    assert_eq!(next_fetch_step(false, None), FetchStep::Open);
    assert_eq!(next_fetch_step(false, Some(ContentError::DoesNotExist)), FetchStep::AskToGoOnline);
    assert_eq!(next_fetch_step(true, Some(ContentError::DoesNotExist)), FetchStep::ReportMissing);
    assert_eq!(next_fetch_step(true, Some(ContentError::LoadFailure)), FetchStep::ReportOffline);
    assert_eq!(next_fetch_step(false, Some(ContentError::LoadFailure)), FetchStep::ReportError(ContentError::LoadFailure));
    assert_eq!(next_fetch_step(true, Some(ContentError::InvalidPage)), FetchStep::ReportError(ContentError::InvalidPage));
}
