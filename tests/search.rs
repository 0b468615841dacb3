use doclookup::content::{DocListing, DocPage, DocType, DocTypeListing, PageType};
use doclookup::state::DocState;

fn listing(name: &str) -> DocListing {
    DocListing { name: name.to_owned(), url: format!("https://docs.rs/foo/{}.html", name) }
}

fn state_of(groups: Vec<Vec<&str>>) -> DocState {
    let doc_blocks = groups
        .into_iter()
        .map(|g| DocTypeListing { doc_type: DocType::Struct, docs: g.into_iter().map(listing).collect() })
        .collect();
    DocState::from_page(DocPage { page_type: PageType::All(String::new()), doc_blocks })
}

#[test]
fn exact_match_outranks_earlier_suffix() {
    let s = state_of(vec![vec!["Foo", "BarFoo"]]);
    assert_eq!(s.search_doc_listings("Foo").unwrap().name, "Foo");
    let s = state_of(vec![vec!["BarFoo"], vec!["Foo"]]);
    let found = s.search_doc_listings("Foo").unwrap();
    assert_eq!(found.name, "Foo");
    assert_eq!(found.url, "https://docs.rs/foo/Foo.html");
}

#[test]
fn suffix_match_when_no_exact() {
    let s = state_of(vec![vec!["BarFoo"]]);
    assert_eq!(s.search_doc_listings("Foo").unwrap().name, "BarFoo");
    let s = state_of(vec![vec!["Other", "XFoo"], vec!["YFoo"]]);
    assert_eq!(s.search_doc_listings("Foo").unwrap().name, "XFoo");
}

#[test]
fn no_match_is_none() {
    let s = state_of(vec![vec!["Foo", "BarFoo"]]);
    assert!(s.search_doc_listings("Baz").is_none());
    assert!(s.search_doc_listings("FooBar").is_none());
    let empty = state_of(vec![]);
    assert!(empty.search_doc_listings("Foo").is_none());
}

#[test]
fn flattens_groups_in_order() {
    let s = state_of(vec![vec!["a", "b"], vec!["c"], vec!["a"]]);
    let names: Vec<&str> = s.available_docs.iter().map(|d| d.name.as_str()).collect();
    assert_eq!(names, vec!["a", "b", "c", "a"]);
    assert_eq!(s.page.doc_blocks.len(), 3);
}
