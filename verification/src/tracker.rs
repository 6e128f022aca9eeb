//! How many candidates one validator has seconded at one relay-parent, as
//! far as one peer knows: what we told the peer, and what the peer told us.

use crate::primitives::{self, Key, VC_THRESHOLD};
use arrayvec::{ArrayVec, CapacityError};
use vstd::prelude::*;

verus! {

/// A list of observed candidates: an `arrayvec::ArrayVec` with room for
/// `VC_THRESHOLD` hashes, stored inline. Nothing is known of a list but
/// what the functions below say.
#[verifier::external_body]
pub struct Observed {
    list: ArrayVec<[primitives::Hash; VC_THRESHOLD]>,
}

/// `arrayvec::CapacityError`, the error of a push to a full vector.
#[verifier::external_type_specification]
#[verifier::external_body]
#[verifier::reject_recursive_types(T)]
pub struct ExCapacityError<T>(CapacityError<T>);

/// The hashes that a list of observed candidates holds, oldest first.
pub uninterp spec fn observed_hashes(list: Observed) -> Seq<primitives::Hash>;

/// `ArrayVec::new`: a list that holds no hash.
#[verifier::external_body]
fn observed_new() -> (list: Observed)
    ensures
        observed_hashes(list) == Seq::<primitives::Hash>::empty(),
{
    Observed { list: ArrayVec::new() }
}

/// `ArrayVec::as_slice`: the hashes held, in order. A list never holds more
/// than its capacity.
#[verifier::external_body]
fn observed_slice(list: &Observed) -> (s: &[primitives::Hash])
    ensures
        s@ == observed_hashes(*list),
        s@.len() <= VC_THRESHOLD,
{
    list.list.as_slice()
}

/// `ArrayVec::is_full`: whether the list holds as many hashes as its
/// capacity allows, which it never exceeds.
#[verifier::external_body]
fn observed_is_full(list: &Observed) -> (full: bool)
    ensures
        full == (observed_hashes(*list).len() == VC_THRESHOLD),
        !full ==> observed_hashes(*list).len() < VC_THRESHOLD,
{
    list.list.is_full()
}

/// `ArrayVec::try_push`: below capacity the hash is appended; at capacity
/// the list stays as it is and the hash comes back in the error.
#[verifier::external_body]
fn observed_try_push(list: &mut Observed, h: primitives::Hash) -> (r: Result<
    (),
    CapacityError<primitives::Hash>,
>)
    ensures
        observed_hashes(*old(list)).len() < VC_THRESHOLD ==> r is Ok && observed_hashes(
            *final(list),
        ) == observed_hashes(*old(list)).push(h),
        observed_hashes(*old(list)).len() >= VC_THRESHOLD ==> r is Err && observed_hashes(
            *final(list),
        ) == observed_hashes(*old(list)),
{
    list.list.try_push(h)
}

/// What noting `h` does to a list of observed candidates, and whether the
/// list accounts for `h` afterwards: a hash already there is accepted as it
/// is, a new one is appended while there is room, and refused when the list
/// is full.
pub open spec fn note_hash_spec(observed: Seq<primitives::Hash>, h: primitives::Hash) -> (
    Seq<primitives::Hash>,
    bool,
) {
    if observed.contains(h) {
        (observed, true)
    } else if observed.len() < VC_THRESHOLD {
        (observed.push(h), true)
    } else {
        (observed, false)
    }
}

/// Whether the list already holds `h`.
fn observed_contains(observed: &Observed, h: &primitives::Hash) -> (r: bool)
    ensures
        r == observed_hashes(*observed).contains(*h),
{
    let s = observed_slice(observed);
    let mut i: usize = 0;
    while i < s.len()
        invariant
            i <= s.len(),
            s@ == observed_hashes(*observed),
            forall|j: int| 0 <= j < i ==> s@[j] != *h,
        decreases s.len() - i,
    {
        if s[i].same(h) {
            return true;
        }
        i = i + 1;
    }
    false
}

/// Notes `h` in `observed`; `false` when `h` is new and the list is full.
pub(crate) fn note_hash(observed: &mut Observed, h: primitives::Hash) -> (r: bool)
    ensures
        observed_hashes(*final(observed)) == note_hash_spec(observed_hashes(*old(observed)), h).0,
        r == note_hash_spec(observed_hashes(*old(observed)), h).1,
{
    if observed_contains(observed, &h) {
        return true;
    }
    if observed_is_full(observed) {
        false
    } else {
        match observed_try_push(observed, h) {
            Ok(()) => true,
            Err(_) => false,
        }
    }
}

/// The mathematical content of a [`VcPerPeerTracker`].
#[verifier::ext_equal]
pub struct TrackerView {
    /// Candidates we have told the peer about, oldest first.
    pub local_observed: Seq<primitives::Hash>,
    /// Candidates the peer has told us about, oldest first.
    pub remote_observed: Seq<primitives::Hash>,
}

impl TrackerView {
    /// The tracker that has seen nothing.
    pub open spec fn empty() -> TrackerView {
        TrackerView { local_observed: Seq::empty(), remote_observed: Seq::empty() }
    }

    /// Neither list is longer than the threshold.
    pub open spec fn wf(self) -> bool {
        &&& self.local_observed.len() <= VC_THRESHOLD
        &&& self.remote_observed.len() <= VC_THRESHOLD
    }

    /// The tracker after we have told the peer about `h`.
    pub open spec fn note_local(self, h: primitives::Hash) -> TrackerView {
        TrackerView { local_observed: note_hash_spec(self.local_observed, h).0, ..self }
    }

    /// Whether the peer may tell us about `h`.
    pub open spec fn remote_allows(self, h: primitives::Hash) -> bool {
        note_hash_spec(self.remote_observed, h).1
    }

    /// The tracker after the peer has told us about `h`.
    pub open spec fn note_remote(self, h: primitives::Hash) -> TrackerView {
        TrackerView { remote_observed: note_hash_spec(self.remote_observed, h).0, ..self }
    }
}

/// Tracks our impression of one peer's knowledge of the candidates that one
/// validator has seconded at one relay-parent.
///
/// The peer is expected to learn of at most `VC_THRESHOLD` candidates from
/// us, and to tell us of at most `VC_THRESHOLD`.
pub struct VcPerPeerTracker {
    local_observed: Observed,
    remote_observed: Observed,
}

impl View for VcPerPeerTracker {
    type V = TrackerView;

    closed spec fn view(&self) -> TrackerView {
        TrackerView {
            local_observed: observed_hashes(self.local_observed),
            remote_observed: observed_hashes(self.remote_observed),
        }
    }
}

impl Default for VcPerPeerTracker {
    fn default() -> (t: VcPerPeerTracker)
        ensures
            t@ == TrackerView::empty(),
    {
        VcPerPeerTracker { local_observed: observed_new(), remote_observed: observed_new() }
    }
}

impl VcPerPeerTracker {
    /// Notes that the peer now knows, from a message of ours, that the
    /// validator has seconded `h`.
    ///
    /// A hash beyond the threshold is not recorded: that we send one is a
    /// fault of ours and no misbehaviour of the peer.
    pub fn note_local(&mut self, h: primitives::Hash)
        ensures
            final(self)@ == old(self)@.note_local(h),
    {
        let _ = note_hash(&mut self.local_observed, h);
    }

    /// Notes that the peer has told us that the validator has seconded `h`.
    ///
    /// Returns `false`, and records nothing, when the peer has thereby gone
    /// beyond the threshold.
    pub fn note_remote(&mut self, h: primitives::Hash) -> (allowed: bool)
        ensures
            allowed == old(self)@.remote_allows(h),
            final(self)@ == old(self)@.note_remote(h),
    {
        note_hash(&mut self.remote_observed, h)
    }

    /// Whether `note_remote` would accept `h`.
    pub fn remote_allows(&self, h: &primitives::Hash) -> (allowed: bool)
        ensures
            allowed == self@.remote_allows(*h),
    {
        observed_contains(&self.remote_observed, h) || !observed_is_full(&self.remote_observed)
    }

    /// The candidates we have told the peer about, oldest first.
    pub fn local_observed(&self) -> (v: Vec<primitives::Hash>)
        ensures
            v@ == self@.local_observed,
    {
        copy_hashes(observed_slice(&self.local_observed))
    }

    /// The candidates the peer has told us about, oldest first.
    pub fn remote_observed(&self) -> (v: Vec<primitives::Hash>)
        ensures
            v@ == self@.remote_observed,
    {
        copy_hashes(observed_slice(&self.remote_observed))
    }
}

fn copy_hashes(src: &[primitives::Hash]) -> (r: Vec<primitives::Hash>)
    ensures
        r@ == src@,
{
    let mut r: Vec<primitives::Hash> = Vec::new();
    let mut i: usize = 0;
    while i < src.len()
        invariant
            i <= src.len(),
            r@ == src@.subrange(0, i as int),
        decreases src.len() - i,
    {
        r.push(src[i]);
        i = i + 1;
    }
    r
}

} // verus!
