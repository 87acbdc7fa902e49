use vstd::prelude::*;
use crate::catalog::{CatalogNode, Category};
use crate::text::{contains_folded, contains_ignoring_case};

verus! {

/// A node is shown under a query when the query is empty, or when its name or
/// its description contains the query, ignoring case.
pub open spec fn node_matches(node: CatalogNode, query: Seq<char>) -> bool {
    query.len() == 0 || contains_folded(node.name@, query) || contains_folded(
        node.description@,
        query,
    )
}

/// The children `kids` that match `query`, in the order they come in `kids`.
pub open spec fn filtered(nodes: Seq<CatalogNode>, kids: Seq<usize>, query: Seq<char>) -> Seq<usize>
    decreases kids.len(),
{
    if kids.len() == 0 {
        Seq::empty()
    } else {
        let rest = filtered(nodes, kids.drop_last(), query);
        if node_matches(nodes[kids.last() as int], query) {
            rest.push(kids.last())
        } else {
            rest
        }
    }
}

/// Whether one node is shown under a query.
pub fn matches_query(node: &CatalogNode, query: &str) -> (r: bool)
    ensures
        r == node_matches(*node, query@),
{
    if query.unicode_len() == 0 {
        return true;
    }
    contains_ignoring_case(node.name.as_str(), query) || contains_ignoring_case(
        node.description.as_str(),
        query,
    )
}

/// The children of `parent` that are shown under `query`, in tree order.
pub fn filter_children(cat: &Category, parent: usize, query: &str) -> (r: Vec<usize>)
    requires
        cat.wf(),
        parent < cat.nodes@.len(),
    ensures
        r@ == filtered(cat.nodes@, cat.nodes@[parent as int].children@, query@),
{
    let kids = &cat.nodes[parent].children;
    let mut r: Vec<usize> = Vec::new();
    let mut i: usize = 0;
    while i < kids.len()
        invariant
            cat.wf(),
            parent < cat.nodes@.len(),
            kids == &cat.nodes@[parent as int].children,
            i <= kids@.len(),
            r@ == filtered(cat.nodes@, kids@.subrange(0, i as int), query@),
        decreases kids@.len() - i,
    {
        let id = kids[i];
        assert(kids@.subrange(0, i + 1).drop_last() =~= kids@.subrange(0, i as int));
        if matches_query(&cat.nodes[id], query) {
            r.push(id);
        }
        i = i + 1;
    }
    assert(kids@.subrange(0, i as int) =~= kids@);
    r
}

/// Every node the filter keeps is one of the unfiltered children, and its name or
/// description contains the query, ignoring case.
pub proof fn lemma_filtered_within(nodes: Seq<CatalogNode>, kids: Seq<usize>, query: Seq<char>)
    ensures
        forall|k: int|
            0 <= k < filtered(nodes, kids, query).len() ==> kids.contains(
                #[trigger] filtered(nodes, kids, query)[k],
            ) && node_matches(nodes[filtered(nodes, kids, query)[k] as int], query),
        filtered(nodes, kids, query).len() <= kids.len(),
    decreases kids.len(),
{
    if kids.len() > 0 {
        let rest = kids.drop_last();
        lemma_filtered_within(nodes, rest, query);
        let f = filtered(nodes, kids, query);
        assert forall|k: int| 0 <= k < f.len() implies kids.contains(#[trigger] f[k]) && node_matches(
            nodes[f[k] as int],
            query,
        ) by {
            if k < filtered(nodes, rest, query).len() {
                let x = filtered(nodes, rest, query)[k];
                let w = choose|w: int| 0 <= w < rest.len() && rest[w] == x;
                assert(kids[w] == x);
            } else {
                assert(kids[kids.len() - 1] == f[k]);
            }
        }
    }
}

/// An empty query shows every child, in order.
pub proof fn lemma_filtered_empty_query(nodes: Seq<CatalogNode>, kids: Seq<usize>, query: Seq<char>)
    requires
        query.len() == 0,
    ensures
        filtered(nodes, kids, query) == kids,
    decreases kids.len(),
{
    if kids.len() > 0 {
        lemma_filtered_empty_query(nodes, kids.drop_last(), query);
        assert(kids.drop_last().push(kids.last()) =~= kids);
    }
}

} // verus!
