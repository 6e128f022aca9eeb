//! The relay-parents that a node works on.

use crate::collections::{lemma_filter_push, VecSet};
use crate::primitives;
use vstd::prelude::*;

verus! {

/// The relay-parents in `heads` that `other` does not hold, in the order of
/// `heads`.
pub open spec fn heads_without(heads: Seq<primitives::Hash>, other: Seq<primitives::Hash>) -> Seq<
    primitives::Hash,
> {
    heads.filter(|h: primitives::Hash| !other.contains(h))
}

/// The hashes of `heads` without repetitions: each where it first occurs.
pub open spec fn distinct_heads(heads: Seq<primitives::Hash>) -> Seq<primitives::Hash>
    decreases heads.len(),
{
    if heads.len() == 0 {
        Seq::empty()
    } else {
        let before = distinct_heads(heads.drop_last());
        if before.contains(heads.last()) {
            before
        } else {
            before.push(heads.last())
        }
    }
}

/// An ordered set of relay-parents: those that we, or a peer, currently
/// care about.
pub struct RelayView {
    heads: VecSet<primitives::Hash>,
}

impl View for RelayView {
    type V = Seq<primitives::Hash>;

    closed spec fn view(&self) -> Seq<primitives::Hash> {
        self.heads.elements()
    }
}

impl Default for RelayView {
    fn default() -> (v: RelayView)
        ensures
            v.wf(),
            v@ == Seq::<primitives::Hash>::empty(),
    {
        RelayView { heads: VecSet::new() }
    }
}

impl RelayView {
    /// The representation is sound; then no relay-parent occurs twice.
    pub closed spec fn wf(&self) -> bool {
        self.heads.wf()
    }

    /// A well-formed view holds no relay-parent twice.
    pub proof fn lemma_distinct(&self)
        requires
            self.wf(),
        ensures
            self@.no_duplicates(),
    {
    }

    /// The view of the given relay-parents; one that is given twice counts
    /// where it comes first.
    pub fn new(heads: Vec<primitives::Hash>) -> (v: RelayView)
        ensures
            v.wf(),
            v@ == distinct_heads(heads@),
    {
        let mut set: VecSet<primitives::Hash> = VecSet::new();
        let mut i: usize = 0;
        while i < heads.len()
            invariant
                i <= heads.len(),
                set.wf(),
                set.elements() == distinct_heads(heads@.subrange(0, i as int)),
            decreases heads.len() - i,
        {
            proof {
                let next = heads@.subrange(0, i + 1);
                assert(next.drop_last() =~= heads@.subrange(0, i as int));
            }
            set.insert(heads[i]);
            i = i + 1;
        }
        assert(heads@.subrange(0, i as int) =~= heads@);
        RelayView { heads: set }
    }

    pub fn len(&self) -> (n: usize)
        ensures
            n == self@.len(),
    {
        self.heads.len()
    }

    pub fn contains(&self, relay_parent: &primitives::Hash) -> (r: bool)
        ensures
            r == self@.contains(*relay_parent),
    {
        self.heads.contains(relay_parent)
    }

    /// The relay-parents of the view, in order.
    pub fn heads(&self) -> (v: Vec<primitives::Hash>)
        ensures
            v@ == self@,
    {
        let mut v: Vec<primitives::Hash> = Vec::new();
        let mut i: usize = 0;
        while i < self.heads.len()
            invariant
                i <= self.heads.elements().len(),
                v@ == self.heads.elements().subrange(0, i as int),
            decreases self.heads.elements().len() - i,
        {
            v.push(*self.heads.get(i));
            i = i + 1;
        }
        v
    }

    /// The relay-parents of this view that `other` does not hold, in the
    /// order of this view.
    pub fn difference(&self, other: &RelayView) -> (v: Vec<primitives::Hash>)
        ensures
            v@ == heads_without(self@, other@),
    {
        let ghost absent = |h: primitives::Hash| !other@.contains(h);
        let mut v: Vec<primitives::Hash> = Vec::new();
        let mut i: usize = 0;
        while i < self.heads.len()
            invariant
                i <= self.heads.elements().len(),
                absent == |h: primitives::Hash| !other@.contains(h),
                v@ == self.heads.elements().subrange(0, i as int).filter(absent),
            decreases self.heads.elements().len() - i,
        {
            let h = *self.heads.get(i);
            proof {
                let done = self.heads.elements().subrange(0, i as int);
                let next = self.heads.elements().subrange(0, i + 1);
                assert(next =~= done.push(h));
                lemma_filter_push(done, h, absent);
            }
            if !other.contains(&h) {
                v.push(h);
            }
            i = i + 1;
        }
        assert(self.heads.elements().subrange(0, i as int) =~= self.heads.elements());
        v
    }
}

} // verus!
