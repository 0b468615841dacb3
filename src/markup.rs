//! The parts of an HTML document that listings are read from: its list
//! containers, each with its class attribute and the links inside it.
use vstd::prelude::*;

verus! {

/// A link inside a list container: its text and its target, if it has one.
#[derive(Debug)]
pub struct Anchor {
    pub text: String,
    pub href: Option<String>,
}

/// A list container: its class attribute, if any, and its links in
/// document order.
#[derive(Debug)]
pub struct ListNode {
    pub class: Option<String>,
    pub anchors: Vec<Anchor>,
}

/// The text and target of a link.
pub type AnchorView = (Seq<char>, Option<Seq<char>>);

/// The class attribute and links of a list container.
pub type NodeView = (Option<Seq<char>>, Seq<AnchorView>);

/// The characters of an optional string.
pub open spec fn opt_view(o: Option<String>) -> Option<Seq<char>> {
    match o {
        Some(s) => Some(s@),
        None => None,
    }
}

impl Anchor {
    pub open spec fn view(&self) -> AnchorView {
        (self.text@, opt_view(self.href))
    }
}

/// What a sequence of links holds.
pub open spec fn anchors_view(v: Seq<Anchor>) -> Seq<AnchorView> {
    v.map_values(|a: Anchor| a.view())
}

impl ListNode {
    pub open spec fn view(&self) -> NodeView {
        (opt_view(self.class), anchors_view(self.anchors@))
    }
}

/// What a sequence of list containers holds.
pub open spec fn nodes_view(v: Seq<ListNode>) -> Seq<NodeView> {
    v.map_values(|n: ListNode| n.view())
}

/// The list containers that scraper finds in a document, in the order it
/// yields them; they depend on the document's text alone.
pub uninterp spec fn list_nodes_of(html: Seq<char>) -> Seq<NodeView>;

/// Relies on scraper: `Html::parse_document` on `html`, then for each `ul`
/// element that `Html::select` yields (in the order the parser created the
/// nodes), its `class` attribute (`ElementRef::attr`) and, for each `a`
/// element that `ElementRef::select` yields in it (in tree order), the
/// concatenation of `ElementRef::text` and its `href` attribute.
#[verifier::external_body]
pub(crate) fn list_nodes(html: &str) -> (r: Vec<ListNode>)
    ensures
        nodes_view(r@) == list_nodes_of(html@),
{
    let doc = scraper::Html::parse_document(html);
    let lists = scraper::Selector::parse("ul").unwrap();
    let links = scraper::Selector::parse("a").unwrap();
    let mut out = Vec::new();
    for c in doc.select(&lists) {
        let mut anchors = Vec::new();
        for a in c.select(&links) {
            anchors.push(Anchor { text: a.text().collect(), href: a.attr("href").map(String::from) });
        }
        out.push(ListNode { class: c.attr("class").map(String::from), anchors });
    }
    out
}

} // verus!
