//! The aggregated output of construction and the input of rendering: a node
//! with a name, a data quantity, and an ordered sequence of child subtrees.

use vstd::prelude::*;
use crate::size::{sat_add_u64, Size};

verus! {

/// The mathematical content of a [`Tree`]: the same shape over sequences
/// and plain integers.
#[verifier::ext_equal]
pub struct TreeV {
    pub name: Seq<char>,
    pub data: u64,
    pub children: Seq<TreeV>,
}

/// A node of the aggregated tree. `data` holds the node's own size plus the
/// `data` of every child (saturating at `u64::MAX`); children keep the order
/// the data source listed them in, which rendering preserves.
#[derive(Debug)]
pub struct Tree<D: Size> {
    /// The node's display name.
    pub name: String,
    /// The aggregated quantity of the whole subtree.
    pub data: D,
    /// The child subtrees, in source order.
    pub children: Vec<Tree<D>>,
}

impl<D: Size> View for Tree<D> {
    type V = TreeV;

    open spec fn view(&self) -> TreeV
        decreases self,
    {
        proof {
            vstd::std_specs::vec::axiom_vec_decreases_to_view(self.children);
        }
        TreeV { name: self.name@, data: self.data.val(), children: forest_view(self.children@) }
    }
}

/// The views of a sequence of subtrees, in order.
pub open spec fn forest_view<D: Size>(v: Seq<Tree<D>>) -> Seq<TreeV>
    decreases v,
{
    if v.len() == 0 {
        Seq::empty()
    } else {
        seq![v[0]@] + forest_view(v.drop_first())
    }
}

/// The forest view has one element per subtree: the view of that subtree.
pub proof fn lemma_forest_view_index<D: Size>(v: Seq<Tree<D>>)
    ensures
        forest_view(v).len() == v.len(),
        forall|i: int| 0 <= i < v.len() ==> forest_view(v)[i] == v[i]@,
    decreases v.len(),
{
    if v.len() > 0 {
        lemma_forest_view_index(v.drop_first());
        assert(forest_view(v) == seq![v[0]@] + forest_view(v.drop_first()));
        assert forall|i: int| 0 <= i < v.len() implies forest_view(v)[i] == v[i]@ by {
            if i > 0 {
                assert(v.drop_first()[i - 1] == v[i]);
                assert(forest_view(v)[i] == forest_view(v.drop_first())[i - 1]);
            } else {
                assert(forest_view(v)[0] == v[0]@);
            }
        }
    }
}

/// Appending a subtree appends its view.
pub proof fn lemma_forest_view_push<D: Size>(v: Seq<Tree<D>>, t: Tree<D>)
    ensures
        forest_view(v.push(t)) == forest_view(v).push(t@),
    decreases v.len(),
{
    lemma_forest_view_index(v);
    lemma_forest_view_index(v.push(t));
    assert(forest_view(v.push(t)) =~= forest_view(v).push(t@));
}

/// The exact sum of the `data` of the roots of a forest.
pub open spec fn children_total(cs: Seq<TreeV>) -> int
    decreases cs.len(),
{
    if cs.len() == 0 {
        0
    } else {
        cs[0].data + children_total(cs.drop_first())
    }
}

/// The saturating fold the builder computes: start from a node's own size
/// and add each child's `data` in order, sticking at `u64::MAX`.
pub open spec fn sat_data(own: u64, cs: Seq<TreeV>) -> u64
    decreases cs.len(),
{
    if cs.len() == 0 {
        own
    } else {
        sat_data(sat_add_u64(own, cs[0].data), cs.drop_first())
    }
}

/// The saturating fold absorbs one more child at the end.
pub proof fn lemma_sat_data_push(own: u64, cs: Seq<TreeV>, c: TreeV)
    ensures
        sat_data(own, cs.push(c)) == sat_add_u64(sat_data(own, cs), c.data),
    decreases cs.len(),
{
    assert(cs.push(c)[0] == if cs.len() == 0 {
        c
    } else {
        cs[0]
    });
    if cs.len() == 0 {
        assert(cs.push(c).drop_first() =~= Seq::<TreeV>::empty());
        assert(sat_data(sat_add_u64(own, c.data), cs.push(c).drop_first()) == sat_add_u64(
            own,
            c.data,
        ));
    } else {
        assert(cs.push(c).drop_first() =~= cs.drop_first().push(c));
        lemma_sat_data_push(sat_add_u64(own, cs[0].data), cs.drop_first(), c);
        assert(sat_data(own, cs) == sat_data(sat_add_u64(own, cs[0].data), cs.drop_first()));
    }
}

/// While nothing saturates, the saturating fold is the exact sum.
pub proof fn lemma_sat_data_exact(own: u64, cs: Seq<TreeV>)
    requires
        own + children_total(cs) <= u64::MAX,
    ensures
        sat_data(own, cs) == own + children_total(cs),
    decreases cs.len(),
{
    lemma_children_total_nonnegative(cs);
    if cs.len() > 0 {
        lemma_children_total_nonnegative(cs.drop_first());
        lemma_sat_data_exact(sat_add_u64(own, cs[0].data), cs.drop_first());
    }
}

/// A forest's exact data total is never negative.
pub proof fn lemma_children_total_nonnegative(cs: Seq<TreeV>)
    ensures
        children_total(cs) >= 0,
    decreases cs.len(),
{
    if cs.len() > 0 {
        lemma_children_total_nonnegative(cs.drop_first());
    }
}

/// The saturating fold dominates every single child's `data`, and the
/// starting value.
pub proof fn lemma_sat_data_dominates(own: u64, cs: Seq<TreeV>)
    ensures
        own <= sat_data(own, cs),
        forall|i: int| 0 <= i < cs.len() ==> cs[i].data <= sat_data(own, cs),
    decreases cs.len(),
{
    if cs.len() > 0 {
        let own2 = sat_add_u64(own, cs[0].data);
        lemma_sat_data_dominates(own2, cs.drop_first());
        assert forall|i: int| 0 <= i < cs.len() implies cs[i].data <= sat_data(own, cs) by {
            if i > 0 {
                assert(cs.drop_first()[i - 1] == cs[i]);
            }
        }
    }
}

/// Every node's `data` dominates the `data` of each of its children; this is
/// what the proportional bar column relies on.
pub open spec fn descending(t: TreeV) -> bool
    decreases t,
{
    forest_descending(t.children, t.data)
}

/// Every root of the forest has `data` at most `bound` and is itself
/// descending.
pub open spec fn forest_descending(cs: Seq<TreeV>, bound: u64) -> bool
    decreases cs,
{
    cs.len() == 0 || (cs[0].data <= bound && descending(cs[0]) && forest_descending(
        cs.drop_first(),
        bound,
    ))
}

} // verus!
