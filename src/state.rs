//! The searchable state of an open page: every listing of every group in one
//! flat sequence, and lookup by name in it.
use vstd::prelude::*;
use crate::content::{
    clone_listings, groups_view, listings_view, DocListing, DocPage, GroupView, ListingView,
};
use crate::text::{chars_of, ends_with, has_suffix, same_chars};

verus! {

/// The entries of all groups, group after group, each in its own order.
pub open spec fn flatten(groups: Seq<GroupView>) -> Seq<ListingView>
    decreases groups.len(),
{
    if groups.len() == 0 {
        Seq::empty()
    } else {
        flatten(groups.drop_last()) + groups.last().1
    }
}

/// Whether `r` is what a lookup of `q` in `e` answers: the first entry named
/// exactly `q`; where there is none, the first entry whose name ends with
/// `q`; where there is none either, nothing.
pub open spec fn is_lookup_of(e: Seq<ListingView>, q: Seq<char>, r: Option<ListingView>) -> bool {
    match r {
        None => forall|j: int| 0 <= j < e.len() ==> e[j].0 != q && !has_suffix(e[j].0, q),
        Some(x) => exists|i: int|
            0 <= i < e.len() && x == e[i] && {
                ||| e[i].0 == q && forall|j: int| 0 <= j < i ==> e[j].0 != q
                ||| (forall|j: int| 0 <= j < e.len() ==> e[j].0 != q) && has_suffix(e[i].0, q)
                    && forall|j: int| 0 <= j < i ==> !has_suffix(e[j].0, q)
            },
    }
}

/// Where some entry is named exactly `q`, a lookup of `q` answers an entry
/// named exactly `q`, however many entries before it end with `q`.
pub proof fn lemma_exact_first(e: Seq<ListingView>, q: Seq<char>, r: Option<ListingView>, k: int)
    requires
        is_lookup_of(e, q, r),
        0 <= k < e.len(),
        e[k].0 == q,
    ensures
        r is Some,
        r->Some_0.0 == q,
{
    assert(has_suffix(e[k].0, q)) by {
        assert(e[k].0.skip(0) =~= e[k].0);
    }
}

/// An open page and the flat sequence of its listings.
pub struct DocState {
    pub page: DocPage,
    pub available_docs: Vec<DocListing>,
}

/// The views of an optional listing.
pub open spec fn opt_listing_view(o: Option<DocListing>) -> Option<ListingView> {
    match o {
        Some(d) => Some(d.view()),
        None => None,
    }
}

impl DocState {
    /// Opens `page` for lookup.
    pub fn from_page(page: DocPage) -> (r: DocState)
        ensures
            r.page == page,
            listings_view(r.available_docs@) == flatten(groups_view(page.doc_blocks@)),
    {
        let mut listings: Vec<DocListing> = Vec::new();
        let mut i: usize = 0;
        while i < page.doc_blocks.len()
            invariant
                i <= page.doc_blocks.len(),
                listings_view(listings@) == flatten(groups_view(page.doc_blocks@.take(i as int))),
            decreases page.doc_blocks.len() - i,
        {
            let ghost prev = listings@;
            let mut more = clone_listings(&page.doc_blocks[i].docs);
            let ghost added = more@;
            listings.append(&mut more);
            proof {
                let gs = groups_view(page.doc_blocks@.take(i + 1));
                assert(gs.drop_last() =~= groups_view(page.doc_blocks@.take(i as int)));
                assert(gs.last() == page.doc_blocks@[i as int].view());
                assert(listings@ =~= prev + added);
                assert(listings_view(prev + added) =~= listings_view(prev) + listings_view(
                    added,
                ));
            }
            i = i + 1;
        }
        assert(page.doc_blocks@.take(page.doc_blocks.len() as int) =~= page.doc_blocks@);
        DocState { page, available_docs: listings }
    }

    /// Looks up `target`: an exact name first, then a name that ends with
    /// it, each time the first in listing order.
    pub fn search_doc_listings(&self, target: &str) -> (r: Option<DocListing>)
        ensures
            is_lookup_of(listings_view(self.available_docs@), target@, opt_listing_view(r)),
    {
        let ghost e = listings_view(self.available_docs@);
        let q = chars_of(target);
        let mut i: usize = 0;
        while i < self.available_docs.len()
            invariant
                i <= self.available_docs.len(),
                e == listings_view(self.available_docs@),
                q@ == target@,
                forall|j: int| 0 <= j < i ==> e[j].0 != q@,
            decreases self.available_docs.len() - i,
        {
            let doc = &self.available_docs[i];
            if same_chars(&chars_of(doc.name.as_str()), &q) {
                let r = doc.clone();
                assert(e[i as int] == r.view());
                return Some(r);
            }
            i = i + 1;
        }
        let mut k: usize = 0;
        while k < self.available_docs.len()
            invariant
                k <= self.available_docs.len(),
                e == listings_view(self.available_docs@),
                q@ == target@,
                forall|j: int| 0 <= j < e.len() ==> e[j].0 != q@,
                forall|j: int| 0 <= j < k ==> !has_suffix(e[j].0, q@),
            decreases self.available_docs.len() - k,
        {
            let doc = &self.available_docs[k];
            if ends_with(&chars_of(doc.name.as_str()), &q) {
                let r = doc.clone();
                assert(e[k as int] == r.view());
                return Some(r);
            }
            k = k + 1;
        }
        None
    }
}

} // verus!
