//! The data a documentation index page is turned into: kinds of items, the
//! entries listed under each kind, and the errors of obtaining a page.
use vstd::prelude::*;
use crate::extract::{groups_of, listings_from_nodes};
use crate::markup::{list_nodes, list_nodes_of};
use crate::text::{chars_of, same_chars};

verus! {

/// Why a documentation page could not be had.
#[derive(Debug, Clone, Copy, PartialEq, Eq, Structural)]
pub enum ContentError {
    /// The subject has no documentation at the requested source.
    DoesNotExist,
    /// The source was reached but could not be read.
    LoadFailure,
    /// The page is not an index of all items.
    InvalidPage,
}

/// The kind of documented item that a group lists.
#[derive(Debug, Clone, Copy, PartialEq, Eq, Structural)]
pub enum DocType {
    Module,
    Struct,
    Type,
    Trait,
    Enum,
    Function,
    Constant,
    Other,
}

/// The kind that a container's first class token stands for.
pub open spec fn kind_of(token: Seq<char>) -> DocType {
    if token == "modules"@ {
        DocType::Module
    } else if token == "structs"@ {
        DocType::Struct
    } else if token == "typedefs"@ {
        DocType::Type
    } else if token == "traits"@ {
        DocType::Trait
    } else if token == "enums"@ {
        DocType::Enum
    } else if token == "functions"@ {
        DocType::Function
    } else if token == "constants"@ {
        DocType::Constant
    } else {
        DocType::Other
    }
}

/// The heading under which a kind's group is shown.
pub open spec fn label_of(kind: DocType) -> Seq<char> {
    match kind {
        DocType::Module => "Modules"@,
        DocType::Struct => "Structs"@,
        DocType::Type => "Types"@,
        DocType::Trait => "Traits"@,
        DocType::Enum => "Enums"@,
        DocType::Function => "Functions"@,
        DocType::Constant => "Constants"@,
        DocType::Other => "Others"@,
    }
}

/// Classifies a class token; the comparison is case-sensitive and every
/// token outside the table is `Other`.
pub fn doc_type_of(token: &Vec<char>) -> (r: DocType)
    ensures
        r == kind_of(token@),
{
    if same_chars(token, &chars_of("modules")) {
        DocType::Module
    } else if same_chars(token, &chars_of("structs")) {
        DocType::Struct
    } else if same_chars(token, &chars_of("typedefs")) {
        DocType::Type
    } else if same_chars(token, &chars_of("traits")) {
        DocType::Trait
    } else if same_chars(token, &chars_of("enums")) {
        DocType::Enum
    } else if same_chars(token, &chars_of("functions")) {
        DocType::Function
    } else if same_chars(token, &chars_of("constants")) {
        DocType::Constant
    } else {
        DocType::Other
    }
}

impl DocType {
    /// The heading under which this kind's group is shown.
    pub fn label(&self) -> (r: String)
        ensures
            r@ == label_of(*self),
    {
        match self {
            DocType::Module => "Modules".to_owned(),
            DocType::Struct => "Structs".to_owned(),
            DocType::Type => "Types".to_owned(),
            DocType::Trait => "Traits".to_owned(),
            DocType::Enum => "Enums".to_owned(),
            DocType::Function => "Functions".to_owned(),
            DocType::Constant => "Constants".to_owned(),
            DocType::Other => "Others".to_owned(),
        }
    }
}

/// One documented item: the text of its link and the absolute address it
/// points to.
#[derive(Debug)]
pub struct DocListing {
    pub name: String,
    pub url: String,
}

impl DocListing {
    pub open spec fn view(&self) -> (Seq<char>, Seq<char>) {
        (self.name@, self.url@)
    }
}

impl Clone for DocListing {
    fn clone(&self) -> (r: Self)
        ensures
            r.view() == self.view(),
    {
        DocListing { name: self.name.clone(), url: self.url.clone() }
    }
}

/// The entries of one kind, in the order the page lists them.
#[derive(Debug)]
pub struct DocTypeListing {
    pub doc_type: DocType,
    pub docs: Vec<DocListing>,
}

/// The characters of a listing's name and address.
pub type ListingView = (Seq<char>, Seq<char>);

/// The kind of a group and its entries.
pub type GroupView = (DocType, Seq<ListingView>);

/// What a sequence of listings holds.
pub open spec fn listings_view(v: Seq<DocListing>) -> Seq<ListingView> {
    v.map_values(|d: DocListing| d.view())
}

/// What a sequence of groups holds.
pub open spec fn groups_view(v: Seq<DocTypeListing>) -> Seq<GroupView> {
    v.map_values(|g: DocTypeListing| g.view())
}

impl DocTypeListing {
    pub open spec fn view(&self) -> GroupView {
        (self.doc_type, listings_view(self.docs@))
    }
}

proof fn lemma_listings_push(s: Seq<DocListing>, d: DocListing)
    ensures
        listings_view(s.push(d)) == listings_view(s).push(d.view()),
{
    assert(listings_view(s.push(d)) =~= listings_view(s).push(d.view()));
}

/// Clones each listing of `v`.
pub fn clone_listings(v: &Vec<DocListing>) -> (r: Vec<DocListing>)
    ensures
        listings_view(r@) == listings_view(v@),
{
    let mut out: Vec<DocListing> = Vec::new();
    let mut i: usize = 0;
    while i < v.len()
        invariant
            i <= v.len(),
            listings_view(out@) == listings_view(v@.take(i as int)),
        decreases v.len() - i,
    {
        let d = v[i].clone();
        assert(d.view() == v@[i as int].view());
        let ghost prev = out@;
        out.push(d);
        proof {
            lemma_listings_push(prev, d);
            lemma_listings_push(v@.take(i as int), v@[i as int]);
            assert(v@.take(i + 1) =~= v@.take(i as int).push(v@[i as int]));
        }
        i = i + 1;
    }
    assert(v@.take(v.len() as int) =~= v@);
    out
}

impl Clone for DocTypeListing {
    fn clone(&self) -> (r: Self)
        ensures
            r.view() == self.view(),
    {
        DocTypeListing { doc_type: self.doc_type, docs: clone_listings(&self.docs) }
    }
}

/// A fetched page: its raw HTML, tagged with the kind of page it is.
#[derive(Debug)]
pub enum PageType {
    /// The index of all items of a subject.
    All(String),
    /// Some other documentation page.
    Index(String),
}

/// The groups of listings on a page against `base_url`; only an index of all
/// items has them.
pub fn gen_doc_listings(page: &PageType, base_url: &str) -> (r: Result<
    Vec<DocTypeListing>,
    ContentError,
>)
    ensures
        match page {
            PageType::All(html) => r is Ok && groups_view(r->Ok_0@) == groups_of(
                list_nodes_of(html@),
                base_url@,
            ) && forall|i: int|
                0 <= i < r->Ok_0.len() ==> #[trigger] r->Ok_0@[i].docs.len() > 0,
            PageType::Index(_) => r == Err::<Vec<DocTypeListing>, ContentError>(
                ContentError::InvalidPage,
            ),
        },
{
    match page {
        PageType::All(html) => {
            let nodes = list_nodes(html.as_str());
            Ok(listings_from_nodes(&nodes, base_url))
        },
        PageType::Index(_) => Err(ContentError::InvalidPage),
    }
}

/// A page together with the groups of listings read from it.
#[derive(Debug)]
pub struct DocPage {
    pub page_type: PageType,
    pub doc_blocks: Vec<DocTypeListing>,
}

impl DocPage {
    /// Builds the page from what a page source gave: a page and its base
    /// location, or the error it failed with, which is passed on.
    pub fn fetch(source: Result<(PageType, String), ContentError>) -> (r: Result<
        Self,
        ContentError,
    >)
        ensures
            match source {
                Err(e) => r == Err::<Self, ContentError>(e),
                Ok((p, u)) => match p {
                    PageType::All(html) => r is Ok && r->Ok_0.page_type == p && groups_view(
                        r->Ok_0.doc_blocks@,
                    ) == groups_of(list_nodes_of(html@), u@),
                    PageType::Index(_) => r == Err::<Self, ContentError>(
                        ContentError::InvalidPage,
                    ),
                },
            },
    {
        match source {
            Err(e) => Err(e),
            Ok((p, u)) => {
                match gen_doc_listings(&p, u.as_str()) {
                    Err(e) => Err(e),
                    Ok(d) => Ok(DocPage { page_type: p, doc_blocks: d }),
                }
            },
        }
    }
}

} // verus!
