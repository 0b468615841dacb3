use doclookup::content::{gen_doc_listings, ContentError, DocPage, DocType, PageType};
use doclookup::extract::listings_from_nodes;
use doclookup::markup::{Anchor, ListNode};

const PAGE: &str = r#"<html><body>
<ul class="pure-menu-list"><li><a href="settings.html">Settings</a></li></ul>
<ul><li><a href="plain.html">Plain</a></li></ul>
<h3>Structs</h3>
<ul class="structs docblock"><li><a href="struct.Foo.html">Foo</a></li><li><a>NoTarget</a></li><li><a href="struct.Bar.html">Bar</a></li></ul>
<ul class="enums"><li><a>Lonely</a></li></ul>
<ul class="modules"><li><a href="inner/index.html">inner</a></li></ul>
<ul class="macros"><li><a href="macro.m.html">m</a></li></ul>
<ul class="functions"><li><a href="fn.f.html"></a></li></ul>
</body></html>"#;

fn names_and_urls(page: &DocPage, i: usize) -> Vec<(String, String)> {
    page.doc_blocks[i].docs.iter().map(|d| (d.name.clone(), d.url.clone())).collect()
}

#[test]
fn extracts_groups_in_document_order() {
    let base = "https://docs.rs/foo/1.0.0/foo/all.html";
    let groups = gen_doc_listings(&PageType::All(PAGE.to_owned()), base).unwrap();
    let kinds: Vec<DocType> = groups.iter().map(|g| g.doc_type).collect();
    assert_eq!(kinds, vec![DocType::Struct, DocType::Module, DocType::Other, DocType::Function]);
    assert!(groups.iter().all(|g| !g.docs.is_empty()));
    let first: Vec<(&str, &str)> =
        groups[0].docs.iter().map(|d| (d.name.as_str(), d.url.as_str())).collect();
    assert_eq!(
        first,
        vec![
            ("Foo", "https://docs.rs/foo/1.0.0/foo/struct.Foo.html"),
            ("Bar", "https://docs.rs/foo/1.0.0/foo/struct.Bar.html"),
        ]
    );
    assert_eq!(groups[1].docs[0].url, "https://docs.rs/foo/1.0.0/foo/inner/index.html");
    assert_eq!(groups[3].docs[0].name, "");
}

#[test]
fn extracts_against_local_base() {
    let source = Ok((PageType::All(PAGE.to_owned()), "/w/target/doc/foo/all.html".to_owned()));
    let page = DocPage::fetch(source).unwrap();
    assert_eq!(page.doc_blocks.len(), 4);
    assert_eq!(
        names_and_urls(&page, 1),
        vec![("inner".to_owned(), "/w/target/doc/foo/inner/index.html".to_owned())]
    );
}

#[test]
fn malformed_base_gives_no_groups() {
    let groups = gen_doc_listings(&PageType::All(PAGE.to_owned()), "http://[::1").unwrap();
    assert!(groups.is_empty());
}

#[test]
fn other_page_is_invalid() {
    let r = gen_doc_listings(&PageType::Index(PAGE.to_owned()), "https://docs.rs/foo/");
    assert!(matches!(r, Err(ContentError::InvalidPage)));
}

#[test]
fn fetch_passes_errors_on() {
    assert!(matches!(DocPage::fetch(Err(ContentError::LoadFailure)), Err(ContentError::LoadFailure)));
    let r = DocPage::fetch(Ok((PageType::Index(String::new()), String::new())));
    assert!(matches!(r, Err(ContentError::InvalidPage)));
}

#[test]
fn empty_document_has_no_groups() {
    let groups = gen_doc_listings(&PageType::All(String::new()), "https://docs.rs/foo/").unwrap();
    assert!(groups.is_empty());
}

fn anchor(text: &str, href: Option<&str>) -> Anchor {
    Anchor { text: text.to_owned(), href: href.map(|h| h.to_owned()) }
}

#[test]
fn classifies_every_known_token() {
    let tokens = ["modules", "structs", "typedefs", "traits", "enums", "functions", "constants", "Modules", "", "unions"];
    let expected = [
        DocType::Module,
        DocType::Struct,
        DocType::Type,
        DocType::Trait,
        DocType::Enum,
        DocType::Function,
        DocType::Constant,
        DocType::Other,
        DocType::Other,
        DocType::Other,
    ];
    let nodes: Vec<ListNode> = tokens
        .iter()
        .map(|t| ListNode { class: Some(format!("{} extra", t)), anchors: vec![anchor("x", Some("x.html"))] })
        .collect();
    let groups = listings_from_nodes(&nodes, "/d/all.html");
    let kinds: Vec<DocType> = groups.iter().map(|g| g.doc_type).collect();
    assert_eq!(kinds, expected.to_vec());
    assert_eq!(groups[0].docs[0].url, "/d/x.html");
}

#[test]
fn skips_menus_and_classless_containers() {
    let nodes = vec![
        ListNode { class: None, anchors: vec![anchor("a", Some("a.html"))] },
        ListNode { class: Some("pure-menu".to_owned()), anchors: vec![anchor("b", Some("b.html"))] },
        ListNode { class: Some("purely".to_owned()), anchors: vec![anchor("c", Some("c.html"))] },
        ListNode { class: Some("traits".to_owned()), anchors: vec![anchor("d", Some("d.html"))] },
    ];
    let groups = listings_from_nodes(&nodes, "/d/all.html");
    assert_eq!(groups.len(), 1);
    assert_eq!(groups[0].doc_type, DocType::Trait);
    assert_eq!(groups[0].docs[0].name, "d");
}

#[test]
fn keeps_duplicates_across_groups() {
    let nodes = vec![
        ListNode { class: Some("structs".to_owned()), anchors: vec![anchor("A", Some("a.html"))] },
        ListNode { class: Some("enums".to_owned()), anchors: vec![] },
        ListNode { class: Some("traits".to_owned()), anchors: vec![anchor("A", Some("a.html")), anchor("B", None)] },
    ];
    let groups = listings_from_nodes(&nodes, "/d/all.html");
    assert_eq!(groups.len(), 2);
    assert_eq!(groups[1].docs.len(), 1);
    assert_eq!(groups[1].docs[0].url, "/d/a.html");
}

#[test]
fn labels_each_kind() {
    assert_eq!(DocType::Module.label(), "Modules");
    assert_eq!(DocType::Type.label(), "Types");
    assert_eq!(DocType::Other.label(), "Others");
    assert_eq!(DocType::Constant.label(), "Constants");
}
