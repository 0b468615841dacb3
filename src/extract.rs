//! From the list containers of an index page to groups of listings.
use vstd::prelude::*;
use crate::content::{
    doc_type_of, DocType, groups_view, kind_of, listings_view, DocListing, DocTypeListing, GroupView,
    ListingView,
};
use crate::link::{resolve_link, resolved};
use crate::markup::{anchors_view, nodes_view, Anchor, AnchorView, ListNode, NodeView};
use crate::text::{chars_of, has_prefix, lemma_split_nonempty, split_chars, split_on, starts_with};

verus! {

/// The entry a link gives against `base`, or `None` where it has no target
/// or its target is dropped.
pub open spec fn entry_of(a: AnchorView, base: Seq<char>) -> Option<ListingView> {
    match a.1 {
        None => None,
        Some(h) => match resolved(base, h) {
            None => None,
            Some(u) => Some((a.0, u)),
        },
    }
}

/// The entries that a sequence of links gives, in order.
pub open spec fn entries_of(anchors: Seq<AnchorView>, base: Seq<char>) -> Seq<ListingView>
    decreases anchors.len(),
{
    if anchors.len() == 0 {
        Seq::empty()
    } else {
        let front = entries_of(anchors.drop_last(), base);
        match entry_of(anchors.last(), base) {
            Some(e) => front.push(e),
            None => front,
        }
    }
}

/// The first space-separated token of a class attribute.
pub open spec fn first_class(class: Seq<char>) -> Seq<char> {
    split_on(class, ' ')[0]
}

/// Whether a container with this class attribute lists documented items:
/// it has a class, and its first token is no menu marker.
pub open spec fn is_listing_container(class: Option<Seq<char>>) -> bool {
    match class {
        None => false,
        Some(c) => !has_prefix(first_class(c), "pure"@),
    }
}

/// The group that a container gives, if it lists items and at least one of
/// its links resolves.
pub open spec fn group_of(node: NodeView, base: Seq<char>) -> Option<GroupView> {
    if is_listing_container(node.0) && entries_of(node.1, base).len() > 0 {
        Some((kind_of(first_class(node.0->Some_0)), entries_of(node.1, base)))
    } else {
        None
    }
}

/// The groups that a sequence of containers gives, in order.
pub open spec fn groups_of(nodes: Seq<NodeView>, base: Seq<char>) -> Seq<GroupView>
    decreases nodes.len(),
{
    if nodes.len() == 0 {
        Seq::empty()
    } else {
        let front = groups_of(nodes.drop_last(), base);
        match group_of(nodes.last(), base) {
            Some(g) => front.push(g),
            None => front,
        }
    }
}

/// Every group that any sequence of containers gives has at least one entry.
pub proof fn lemma_groups_nonempty(nodes: Seq<NodeView>, base: Seq<char>)
    ensures
        forall|i: int|
            0 <= i < groups_of(nodes, base).len() ==> #[trigger] groups_of(nodes, base)[i].1.len()
                > 0,
    decreases nodes.len(),
{
    if nodes.len() > 0 {
        lemma_groups_nonempty(nodes.drop_last(), base);
        let front = groups_of(nodes.drop_last(), base);
        match group_of(nodes.last(), base) {
            Some(g) => {
                assert forall|i: int| 0 <= i < front.push(g).len() implies #[trigger] front.push(
                    g,
                )[i].1.len() > 0 by {
                    if i < front.len() {
                        assert(front.push(g)[i] == front[i]);
                    }
                }
            },
            None => {},
        }
    }
}

/// The entries of two runs of links, one after the other, are the entries of
/// the first run followed by those of the second: entries keep the order of
/// their links.
pub proof fn lemma_entries_concat(a: Seq<AnchorView>, b: Seq<AnchorView>, base: Seq<char>)
    ensures
        entries_of(a + b, base) == entries_of(a, base) + entries_of(b, base),
    decreases b.len(),
{
    if b.len() == 0 {
        assert(a + b =~= a);
        assert(entries_of(a, base) + entries_of(b, base) =~= entries_of(a, base));
    } else {
        assert((a + b).drop_last() =~= a + b.drop_last());
        assert((a + b).last() == b.last());
        lemma_entries_concat(a, b.drop_last(), base);
        match entry_of(b.last(), base) {
            Some(e) => {
                assert(entries_of(a, base) + entries_of(b.drop_last(), base).push(e)
                    =~= (entries_of(a, base) + entries_of(b.drop_last(), base)).push(e));
            },
            None => {},
        }
    }
}

/// The groups of two runs of containers, one after the other, are the groups
/// of the first run followed by those of the second: groups keep the order
/// of their containers.
pub proof fn lemma_groups_concat(a: Seq<NodeView>, b: Seq<NodeView>, base: Seq<char>)
    ensures
        groups_of(a + b, base) == groups_of(a, base) + groups_of(b, base),
    decreases b.len(),
{
    if b.len() == 0 {
        assert(a + b =~= a);
        assert(groups_of(a, base) + groups_of(b, base) =~= groups_of(a, base));
    } else {
        assert((a + b).drop_last() =~= a + b.drop_last());
        assert((a + b).last() == b.last());
        lemma_groups_concat(a, b.drop_last(), base);
        match group_of(b.last(), base) {
            Some(g) => {
                assert(groups_of(a, base) + groups_of(b.drop_last(), base).push(g)
                    =~= (groups_of(a, base) + groups_of(b.drop_last(), base)).push(g));
            },
            None => {},
        }
    }
}

/// A container without a class, or whose first class token marks a menu,
/// contributes no group wherever it stands.
pub proof fn lemma_non_listing_skipped(
    a: Seq<NodeView>,
    n: NodeView,
    b: Seq<NodeView>,
    base: Seq<char>,
)
    requires
        !is_listing_container(n.0),
    ensures
        groups_of(a + seq![n] + b, base) == groups_of(a + b, base),
{
    lemma_groups_concat(a + seq![n], b, base);
    lemma_groups_concat(a, seq![n], base);
    lemma_groups_concat(a, b, base);
    assert(seq![n].drop_last() =~= Seq::<NodeView>::empty());
    assert(seq![n].last() == n);
    assert(groups_of(Seq::<NodeView>::empty(), base) == Seq::<GroupView>::empty());
    assert(groups_of(seq![n], base) == Seq::<GroupView>::empty());
    assert(groups_of(a, base) + Seq::<GroupView>::empty() =~= groups_of(a, base));
}

/// Each known class token stands for its own kind, and every other token for
/// `Other`.
pub proof fn lemma_kind_table(t: Seq<char>)
    ensures
        kind_of("modules"@) == DocType::Module,
        kind_of("structs"@) == DocType::Struct,
        kind_of("typedefs"@) == DocType::Type,
        kind_of("traits"@) == DocType::Trait,
        kind_of("enums"@) == DocType::Enum,
        kind_of("functions"@) == DocType::Function,
        kind_of("constants"@) == DocType::Constant,
        t != "modules"@ && t != "structs"@ && t != "typedefs"@ && t != "traits"@ && t
            != "enums"@ && t != "functions"@ && t != "constants"@ ==> kind_of(t) == DocType::Other,
{
    reveal_strlit("modules");
    reveal_strlit("structs");
    reveal_strlit("typedefs");
    reveal_strlit("traits");
    reveal_strlit("enums");
    reveal_strlit("functions");
    reveal_strlit("constants");
    assert("structs"@[0] != "modules"@[0]);
    assert("modules"@.len() == 7 && "structs"@.len() == 7 && "typedefs"@.len() == 8);
    assert("traits"@.len() == 6 && "enums"@.len() == 5);
    assert("functions"@.len() == 9 && "constants"@.len() == 9);
    assert("constants"@[0] != "functions"@[0]);
}

/// `m` maps each entry that `anchors` give to the link it came from, and
/// maps later entries to later links.
pub open spec fn entries_traced_by(
    anchors: Seq<AnchorView>,
    base: Seq<char>,
    m: spec_fn(int) -> int,
) -> bool {
    let es = entries_of(anchors, base);
    &&& forall|i: int|
        0 <= i < es.len() ==> 0 <= #[trigger] m(i) < anchors.len() && entry_of(anchors[m(i)], base)
            == Some(es[i])
    &&& forall|i: int, j: int| 0 <= i < j < es.len() ==> #[trigger] m(i) < #[trigger] m(j)
}

/// `k` maps each group that `nodes` give to the container it came from, and
/// maps later groups to later containers; so no container gives two groups.
pub open spec fn groups_traced_by(
    nodes: Seq<NodeView>,
    base: Seq<char>,
    k: spec_fn(int) -> int,
) -> bool {
    let gs = groups_of(nodes, base);
    &&& forall|i: int|
        0 <= i < gs.len() ==> 0 <= #[trigger] k(i) < nodes.len() && group_of(nodes[k(i)], base)
            == Some(gs[i])
    &&& forall|i: int, j: int| 0 <= i < j < gs.len() ==> #[trigger] k(i) < #[trigger] k(j)
}

/// Entries keep the relative order of their links: some strictly increasing
/// map takes each entry to the link that gave it.
pub proof fn lemma_entries_in_link_order(anchors: Seq<AnchorView>, base: Seq<char>)
    ensures
        exists|m: spec_fn(int) -> int| entries_traced_by(anchors, base, m),
    decreases anchors.len(),
{
    if anchors.len() == 0 {
        assert(entries_traced_by(anchors, base, |i: int| 0int));
    } else {
        let front = anchors.drop_last();
        lemma_entries_in_link_order(front, base);
        let m = choose|m: spec_fn(int) -> int| entries_traced_by(front, base, m);
        let fes = entries_of(front, base);
        let last = anchors.len() - 1;
        match entry_of(anchors.last(), base) {
            Some(e) => {
                let m2 = |i: int|
                    if i < fes.len() {
                        m(i)
                    } else {
                        last
                    };
                assert forall|i: int| 0 <= i < fes.len() + 1 implies 0 <= #[trigger] m2(i)
                    < anchors.len() && entry_of(anchors[m2(i)], base) == Some(
                    fes.push(e)[i],
                ) by {
                    if i < fes.len() {
                        assert(m2(i) == m(i));
                        assert(anchors[m(i)] == front[m(i)]);
                    }
                }
                assert forall|i: int, j: int| 0 <= i < j < fes.len() + 1 implies #[trigger] m2(i)
                    < #[trigger] m2(j) by {
                    if j < fes.len() {
                        assert(m(i) < m(j));
                    } else {
                        assert(m(i) < front.len());
                    }
                }
                assert(entries_traced_by(anchors, base, m2));
            },
            None => {
                assert forall|i: int| 0 <= i < fes.len() implies 0 <= #[trigger] m(i)
                    < anchors.len() && entry_of(anchors[m(i)], base) == Some(fes[i]) by {
                    assert(anchors[m(i)] == front[m(i)]);
                }
                assert(entries_traced_by(anchors, base, m));
            },
        }
    }
}

/// Groups keep the relative order of their containers: some strictly
/// increasing map takes each group to the container that gave it, whose
/// links give exactly the group's entries.
pub proof fn lemma_groups_in_container_order(nodes: Seq<NodeView>, base: Seq<char>)
    ensures
        exists|k: spec_fn(int) -> int| groups_traced_by(nodes, base, k),
        forall|n: NodeView, g: GroupView|
            group_of(n, base) == Some(g) ==> g.1 == entries_of(n.1, base),
    decreases nodes.len(),
{
    if nodes.len() == 0 {
        assert(groups_traced_by(nodes, base, |i: int| 0int));
    } else {
        let front = nodes.drop_last();
        lemma_groups_in_container_order(front, base);
        let k = choose|k: spec_fn(int) -> int| groups_traced_by(front, base, k);
        let fgs = groups_of(front, base);
        let last = nodes.len() - 1;
        match group_of(nodes.last(), base) {
            Some(g) => {
                let k2 = |i: int|
                    if i < fgs.len() {
                        k(i)
                    } else {
                        last
                    };
                assert forall|i: int| 0 <= i < fgs.len() + 1 implies 0 <= #[trigger] k2(i)
                    < nodes.len() && group_of(nodes[k2(i)], base) == Some(fgs.push(g)[i]) by {
                    if i < fgs.len() {
                        assert(k2(i) == k(i));
                        assert(nodes[k(i)] == front[k(i)]);
                    }
                }
                assert forall|i: int, j: int| 0 <= i < j < fgs.len() + 1 implies #[trigger] k2(i)
                    < #[trigger] k2(j) by {
                    if j < fgs.len() {
                        assert(k(i) < k(j));
                    } else {
                        assert(k(i) < front.len());
                    }
                }
                assert(groups_traced_by(nodes, base, k2));
            },
            None => {
                assert forall|i: int| 0 <= i < fgs.len() implies 0 <= #[trigger] k(i)
                    < nodes.len() && group_of(nodes[k(i)], base) == Some(fgs[i]) by {
                    assert(nodes[k(i)] == front[k(i)]);
                }
                assert(groups_traced_by(nodes, base, k));
            },
        }
    }
}

/// The entries of the links of one container, resolved against `base`.
pub fn entries_from_anchors(anchors: &Vec<Anchor>, base: &str) -> (r: Vec<DocListing>)
    ensures
        listings_view(r@) == entries_of(anchors_view(anchors@), base@),
{
    let mut out: Vec<DocListing> = Vec::new();
    let mut i: usize = 0;
    while i < anchors.len()
        invariant
            i <= anchors.len(),
            listings_view(out@) == entries_of(anchors_view(anchors@.take(i as int)), base@),
        decreases anchors.len() - i,
    {
        let a = &anchors[i];
        let ghost prev = out@;
        proof {
            assert(anchors_view(anchors@.take(i + 1)).drop_last() =~= anchors_view(
                anchors@.take(i as int),
            ));
            assert(anchors_view(anchors@.take(i + 1)).last() == a.view());
        }
        match &a.href {
            None => {},
            Some(h) => {
                match resolve_link(base, h.as_str()) {
                    None => {},
                    Some(u) => {
                        out.push(DocListing { name: a.text.clone(), url: u });
                        assert(listings_view(out@) =~= listings_view(prev).push(
                            out@.last().view(),
                        ));
                    },
                }
            },
        }
        i = i + 1;
    }
    assert(anchors@.take(anchors.len() as int) =~= anchors@);
    out
}

/// The first token of a class attribute.
fn first_class_of(class: &String) -> (r: Vec<char>)
    ensures
        r@ == first_class(class@),
{
    let pieces = split_chars(&chars_of(class.as_str()), ' ');
    proof {
        lemma_split_nonempty(class@, ' ');
    }
    pieces[0].clone()
}

/// The groups that the containers give, in container order, with empty
/// groups and non-listing containers left out.
pub fn listings_from_nodes(nodes: &Vec<ListNode>, base_url: &str) -> (r: Vec<DocTypeListing>)
    ensures
        groups_view(r@) == groups_of(nodes_view(nodes@), base_url@),
        forall|i: int| 0 <= i < r.len() ==> #[trigger] r@[i].docs.len() > 0,
{
    let pure = chars_of("pure");
    let mut out: Vec<DocTypeListing> = Vec::new();
    let mut i: usize = 0;
    while i < nodes.len()
        invariant
            i <= nodes.len(),
            pure@ == "pure"@,
            groups_view(out@) == groups_of(nodes_view(nodes@.take(i as int)), base_url@),
        decreases nodes.len() - i,
    {
        let n = &nodes[i];
        let ghost prev = out@;
        proof {
            assert(nodes_view(nodes@.take(i + 1)).drop_last() =~= nodes_view(
                nodes@.take(i as int),
            ));
            assert(nodes_view(nodes@.take(i + 1)).last() == n.view());
        }
        match &n.class {
            None => {},
            Some(c) => {
                let token = first_class_of(c);
                if !starts_with(&token, &pure) {
                    let docs = entries_from_anchors(&n.anchors, base_url);
                    if docs.len() > 0 {
                        let doc_type = doc_type_of(&token);
                        out.push(DocTypeListing { doc_type, docs });
                        assert(groups_view(out@) =~= groups_view(prev).push(out@.last().view()));
                    }
                }
            },
        }
        i = i + 1;
    }
    assert(nodes@.take(nodes.len() as int) =~= nodes@);
    proof {
        lemma_groups_nonempty(nodes_view(nodes@), base_url@);
        assert forall|i: int| 0 <= i < out.len() implies #[trigger] out@[i].docs.len() > 0 by {
            assert(groups_view(out@)[i] == out@[i].view());
            assert(groups_of(nodes_view(nodes@), base_url@)[i].1.len() > 0);
            assert(listings_view(out@[i].docs@).len() == out@[i].docs@.len());
        }
    }
    out
}

} // verus!
