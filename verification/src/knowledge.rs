//! What one peer knows of the goings-on at the relay-parents in its view,
//! and the rules that decide what may be sent to it and accepted from it.

use crate::collections::{VecMap, VecSet};
use crate::primitives::{
    self, CompactStatement, Fingerprint, Rep, ValidatorIndex, COST_APPARENT_FLOOD,
    COST_DUPLICATE_STATEMENT, COST_UNEXPECTED_STATEMENT, Valid,
};
use crate::relay_view::{heads_without, RelayView};
use crate::tracker::{TrackerView, VcPerPeerTracker};
use std::collections::HashMap;
use vstd::prelude::*;

verus! {

broadcast use vstd::std_specs::hash::group_hash_axioms;

/// The mathematical content of a [`PeerRelayParentKnowledge`].
#[verifier::ext_equal]
pub struct KnowledgeView {
    /// Candidates the peer is aware of.
    pub known_candidates: Set<primitives::Hash>,
    /// Fingerprints of the statements we have sent to the peer.
    pub sent_statements: Set<Fingerprint>,
    /// Fingerprints of the statements the peer has sent to us.
    pub received_statements: Set<Fingerprint>,
    /// The candidates seconded by each validator, as exchanged with the peer.
    pub seconded_counts: Map<ValidatorIndex, TrackerView>,
    /// How many statements the peer has sent us about each candidate.
    pub received_message_count: Map<primitives::Hash, nat>,
}

impl KnowledgeView {
    /// The knowledge of a peer with which nothing has been exchanged.
    pub open spec fn empty() -> KnowledgeView {
        KnowledgeView {
            known_candidates: Set::empty(),
            sent_statements: Set::empty(),
            received_statements: Set::empty(),
            seconded_counts: Map::empty(),
            received_message_count: Map::empty(),
        }
    }

    /// The tracker of validator `v`; one that has seen nothing where none
    /// is recorded.
    pub open spec fn tracker(self, v: ValidatorIndex) -> TrackerView {
        if self.seconded_counts.contains_key(v) {
            self.seconded_counts[v]
        } else {
            TrackerView::empty()
        }
    }

    /// How many statements about `h` the peer has sent us.
    pub open spec fn message_count(self, h: primitives::Hash) -> nat {
        if self.received_message_count.contains_key(h) {
            self.received_message_count[h]
        } else {
            0
        }
    }

    /// Whether the statement may be sent to the peer: it has not passed
    /// between us and the peer before, in either direction, and unless it
    /// announces its candidate the peer knows that candidate already.
    pub open spec fn can_send(self, fingerprint: Fingerprint) -> bool {
        &&& !self.sent_statements.contains(fingerprint)
        &&& !self.received_statements.contains(fingerprint)
        &&& (fingerprint.0 is Candidate || self.known_candidates.contains(
            fingerprint.0.spec_candidate_hash(),
        ))
    }

    /// What `send` returns: `None` where the statement may not be sent, and
    /// otherwise whether the peer learns of the candidate by it.
    pub open spec fn send_outcome(self, fingerprint: Fingerprint) -> Option<bool> {
        if self.can_send(fingerprint) {
            Some(
                fingerprint.0 is Candidate && !self.known_candidates.contains(
                    fingerprint.0.spec_candidate_hash(),
                ),
            )
        } else {
            None
        }
    }

    /// The knowledge after `send`.
    pub open spec fn after_send(self, fingerprint: Fingerprint) -> KnowledgeView {
        let h = fingerprint.0.spec_candidate_hash();
        if !self.can_send(fingerprint) {
            self
        } else if fingerprint.0 is Candidate {
            KnowledgeView {
                known_candidates: self.known_candidates.insert(h),
                sent_statements: self.sent_statements.insert(fingerprint),
                seconded_counts: self.seconded_counts.insert(
                    fingerprint.1,
                    self.tracker(fingerprint.1).note_local(h),
                ),
                ..self
            }
        } else {
            KnowledgeView { sent_statements: self.sent_statements.insert(fingerprint), ..self }
        }
    }

    /// What `receive` returns. The checks are made in this order: a
    /// statement the peer has sent before is a duplicate; a candidate beyond
    /// the validator's allowance, or a judgement of a candidate the peer has
    /// not been told of, is unexpected; a statement that would bring the
    /// count for its candidate up to `max_message_count` is a flood.
    /// Otherwise the result says whether the peer has just learnt of the
    /// candidate.
    pub open spec fn receive_outcome(self, fingerprint: Fingerprint, max_message_count: nat)
        -> Result<bool, Rep> {
        let h = fingerprint.0.spec_candidate_hash();
        if self.received_statements.contains(fingerprint) {
            Err(Rep::DuplicateStatement)
        } else if fingerprint.0 is Candidate && !self.tracker(fingerprint.1).remote_allows(h) {
            Err(Rep::UnexpectedStatement)
        } else if !(fingerprint.0 is Candidate) && !self.known_candidates.contains(h) {
            Err(Rep::UnexpectedStatement)
        } else if self.message_count(h) + 1 >= max_message_count {
            Err(Rep::ApparentFlood)
        } else {
            Ok(!self.known_candidates.contains(h))
        }
    }

    /// The knowledge after `receive`: unchanged where the statement is
    /// refused.
    pub open spec fn after_receive(self, fingerprint: Fingerprint, max_message_count: nat)
        -> KnowledgeView {
        let h = fingerprint.0.spec_candidate_hash();
        if self.receive_outcome(fingerprint, max_message_count) is Err {
            self
        } else {
            KnowledgeView {
                known_candidates: self.known_candidates.insert(h),
                received_statements: self.received_statements.insert(fingerprint),
                seconded_counts: if fingerprint.0 is Candidate {
                    self.seconded_counts.insert(
                        fingerprint.1,
                        self.tracker(fingerprint.1).note_remote(h),
                    )
                } else {
                    self.seconded_counts
                },
                received_message_count: self.received_message_count.insert(
                    h,
                    self.message_count(h) + 1,
                ),
                ..self
            }
        }
    }
}

/// Knowledge that a peer has about goings-on in a relay-parent.
pub struct PeerRelayParentKnowledge {
    known_candidates: VecSet<primitives::Hash>,
    sent_statements: VecSet<Fingerprint>,
    received_statements: VecSet<Fingerprint>,
    seconded_counts: HashMap<ValidatorIndex, VcPerPeerTracker>,
    received_message_count: VecMap<primitives::Hash, usize>,
}

impl View for PeerRelayParentKnowledge {
    type V = KnowledgeView;

    closed spec fn view(&self) -> KnowledgeView {
        KnowledgeView {
            known_candidates: self.known_candidates@,
            sent_statements: self.sent_statements@,
            received_statements: self.received_statements@,
            seconded_counts: self.seconded_counts@.map_values(|t: VcPerPeerTracker| t@),
            received_message_count: self.received_message_count@.map_values(
                |n: usize| n as nat,
            ),
        }
    }
}

impl Default for PeerRelayParentKnowledge {
    fn default() -> (k: PeerRelayParentKnowledge)
        ensures
            k.wf(),
            k@ == KnowledgeView::empty(),
    {
        let k = PeerRelayParentKnowledge {
            known_candidates: VecSet::new(),
            sent_statements: VecSet::new(),
            received_statements: VecSet::new(),
            seconded_counts: HashMap::new(),
            received_message_count: VecMap::new(),
        };
        k
    }
}

impl Valid for PeerRelayParentKnowledge {
    open spec fn valid(&self) -> bool {
        self.wf()
    }
}

impl PeerRelayParentKnowledge {
    /// The representation is sound: no set or map holds a key twice.
    pub closed spec fn wf(&self) -> bool {
        &&& self.known_candidates.wf()
        &&& self.sent_statements.wf()
        &&& self.received_statements.wf()
        &&& self.received_message_count.wf()
    }

    /// Attempt to update our view of the peer's knowledge with this
    /// statement's fingerprint, based on something that we would like to
    /// send to the peer.
    ///
    /// This returns `None` if the peer cannot accept this statement, without
    /// altering internal state. If the peer can accept the statement, this
    /// returns `Some` and updates the internal state. Once the knowledge has
    /// incorporated a statement, it cannot be incorporated again.
    ///
    /// This returns `Some(true)` if this is the first time the peer has
    /// become aware of a candidate with the given hash.
    pub fn send(&mut self, fingerprint: &Fingerprint) -> (r: Option<bool>)
        requires
            old(self).wf(),
        ensures
            final(self).wf(),
            r == old(self)@.send_outcome(*fingerprint),
            final(self)@ == old(self)@.after_send(*fingerprint),
    {
        let already_known = self.sent_statements.contains(fingerprint)
            || self.received_statements.contains(fingerprint);
        if already_known {
            return None;
        }
        let new_known = match fingerprint.0 {
            CompactStatement::Candidate(h) => {
                self.seconded_counts.entry(fingerprint.1).or_insert(
                    VcPerPeerTracker::default(),
                ).note_local(h);
                self.known_candidates.insert(h)
            },
            CompactStatement::Valid(h) | CompactStatement::Invalid(h) => {
                // The peer can only accept judgements of candidates that it is
                // aware of.
                if !self.known_candidates.contains(&h) {
                    return None;
                }
                false
            },
        };
        self.sent_statements.insert(*fingerprint);
        Some(new_known)
    }

    /// Attempt to update our view of the peer's knowledge with this
    /// statement's fingerprint, based on a message we are receiving from the
    /// peer.
    ///
    /// `max_message_count` bounds the statements accepted per candidate. No
    /// honest peer sends more statements about one candidate than its group
    /// has members, but equivocations may come from other groups, so twice
    /// the number of validators is the recommended bound. The message that
    /// would reach the bound is itself refused.
    ///
    /// This returns an error, and leaves the internal state as it was, if the
    /// peer should not have sent us this message. If it returns `Ok`, the
    /// internal state has been altered, and the result is `true` where this
    /// is the first time the peer has become aware of the candidate: we are
    /// then cleared to send the peer further statements about it.
    pub fn receive(&mut self, fingerprint: &Fingerprint, max_message_count: usize) -> (r: Result<
        bool,
        Rep,
    >)
        requires
            old(self).wf(),
        ensures
            final(self).wf(),
            r == old(self)@.receive_outcome(*fingerprint, max_message_count as nat),
            final(self)@ == old(self)@.after_receive(*fingerprint, max_message_count as nat),
    {
        // `sent_statements` is not consulted: a statement can be in flight
        // in both directions at the same time.
        if self.received_statements.contains(fingerprint) {
            return Err(COST_DUPLICATE_STATEMENT);
        }
        let candidate_hash = match fingerprint.0 {
            CompactStatement::Candidate(h) => {
                let allowed_remote = match self.seconded_counts.get(&fingerprint.1) {
                    Some(tracker) => tracker.remote_allows(&h),
                    None => true,
                };
                if !allowed_remote {
                    return Err(COST_UNEXPECTED_STATEMENT);
                }
                h
            },
            CompactStatement::Valid(h) | CompactStatement::Invalid(h) => {
                if !self.known_candidates.contains(&h) {
                    return Err(COST_UNEXPECTED_STATEMENT);
                }
                h
            },
        };
        let position = self.received_message_count.index_of(&candidate_hash);
        let received_per_candidate: usize = match position {
            Some(i) => *self.received_message_count.value_at(i),
            None => 0,
        };
        if max_message_count == 0 || received_per_candidate >= max_message_count - 1 {
            return Err(COST_APPARENT_FLOOD);
        }
        match position {
            Some(i) => {
                let count = self.received_message_count.value_mut(i);
                *count = received_per_candidate + 1;
            },
            None => {
                self.received_message_count.push(candidate_hash, 1);
            },
        }
        if let CompactStatement::Candidate(h) = fingerprint.0 {
            let _ = self.seconded_counts.entry(fingerprint.1).or_insert(
                VcPerPeerTracker::default(),
            ).note_remote(h);
        }
        self.received_statements.insert(*fingerprint);
        let new_known = self.known_candidates.insert(candidate_hash);
        Ok(new_known)
    }

    /// The candidates that the peer is aware of, in the order in which it
    /// became so.
    pub fn known_candidates(&self) -> (v: Vec<primitives::Hash>)
        requires
            self.wf(),
        ensures
            v@.to_set() == self@.known_candidates,
            v@.no_duplicates(),
    {
        let mut v: Vec<primitives::Hash> = Vec::new();
        let mut i: usize = 0;
        while i < self.known_candidates.len()
            invariant
                i <= self.known_candidates.elements().len(),
                v@ == self.known_candidates.elements().subrange(0, i as int),
            decreases self.known_candidates.elements().len() - i,
        {
            v.push(*self.known_candidates.get(i));
            i = i + 1;
        }
        assert(v@ =~= self.known_candidates.elements());
        v
    }

    /// Whether the peer is aware of the candidate.
    pub fn knows_candidate(&self, candidate_hash: &primitives::Hash) -> (r: bool)
        ensures
            r == self@.known_candidates.contains(*candidate_hash),
    {
        self.known_candidates.contains(candidate_hash)
    }

    /// Whether we have sent the statement to the peer.
    pub fn has_sent(&self, fingerprint: &Fingerprint) -> (r: bool)
        ensures
            r == self@.sent_statements.contains(*fingerprint),
    {
        self.sent_statements.contains(fingerprint)
    }

    /// Whether the peer has sent the statement to us.
    pub fn has_received(&self, fingerprint: &Fingerprint) -> (r: bool)
        ensures
            r == self@.received_statements.contains(*fingerprint),
    {
        self.received_statements.contains(fingerprint)
    }

    /// How many statements about the candidate the peer has sent us.
    pub fn received_message_count(&self, candidate_hash: &primitives::Hash) -> (n: usize)
        requires
            self.wf(),
        ensures
            n == self@.message_count(*candidate_hash),
    {
        match self.received_message_count.get(candidate_hash) {
            Some(n) => *n,
            None => 0,
        }
    }
}

/// The mathematical content of a [`PeerData`].
#[verifier::ext_equal]
pub struct PeerDataView {
    /// The relay-parents the peer works on, in order.
    pub view: Seq<primitives::Hash>,
    /// What the peer knows at each relay-parent that we track for it.
    pub view_knowledge: Map<primitives::Hash, KnowledgeView>,
}

impl PeerDataView {
    /// The data of a peer that has just connected.
    pub open spec fn empty() -> PeerDataView {
        PeerDataView { view: Seq::empty(), view_knowledge: Map::empty() }
    }

    /// The view holds no relay-parent twice, and we track for the peer only
    /// relay-parents of its view.
    pub open spec fn wf(self) -> bool {
        &&& self.view.no_duplicates()
        &&& forall|relay_parent: primitives::Hash| #[trigger]
            self.view_knowledge.contains_key(relay_parent) ==> self.view.contains(relay_parent)
    }

    /// The data with `new_view` for the view, and without what we knew at
    /// the relay-parents that have left the view.
    pub open spec fn with_view(self, new_view: Seq<primitives::Hash>) -> PeerDataView {
        PeerDataView {
            view: new_view,
            view_knowledge: self.view_knowledge.remove_keys(
                heads_without(self.view, new_view).to_set(),
            ),
        }
    }

    /// The data with the relay-parent tracked from now on, and nothing
    /// known there.
    pub open spec fn tracking(self, relay_parent: primitives::Hash) -> PeerDataView {
        PeerDataView {
            view_knowledge: self.view_knowledge.insert(relay_parent, KnowledgeView::empty()),
            ..self
        }
    }

    /// What `send` returns: `None` where we do not track the relay-parent
    /// for the peer, and otherwise what its knowledge there decides.
    pub open spec fn send_outcome(self, relay_parent: primitives::Hash, fingerprint: Fingerprint)
        -> Option<bool> {
        if self.view_knowledge.contains_key(relay_parent) {
            self.view_knowledge[relay_parent].send_outcome(fingerprint)
        } else {
            None
        }
    }

    /// The data after `send`.
    pub open spec fn after_send(self, relay_parent: primitives::Hash, fingerprint: Fingerprint)
        -> PeerDataView {
        if self.view_knowledge.contains_key(relay_parent) {
            PeerDataView {
                view_knowledge: self.view_knowledge.insert(
                    relay_parent,
                    self.view_knowledge[relay_parent].after_send(fingerprint),
                ),
                ..self
            }
        } else {
            self
        }
    }

    /// What `receive` returns: the statement is unexpected where we do not
    /// track the relay-parent for the peer, and otherwise the peer's
    /// knowledge there decides.
    pub open spec fn receive_outcome(
        self,
        relay_parent: primitives::Hash,
        fingerprint: Fingerprint,
        max_message_count: nat,
    ) -> Result<bool, Rep> {
        if self.view_knowledge.contains_key(relay_parent) {
            self.view_knowledge[relay_parent].receive_outcome(fingerprint, max_message_count)
        } else {
            Err(Rep::UnexpectedStatement)
        }
    }

    /// The data after `receive`.
    pub open spec fn after_receive(
        self,
        relay_parent: primitives::Hash,
        fingerprint: Fingerprint,
        max_message_count: nat,
    ) -> PeerDataView {
        if self.view_knowledge.contains_key(relay_parent) {
            PeerDataView {
                view_knowledge: self.view_knowledge.insert(
                    relay_parent,
                    self.view_knowledge[relay_parent].after_receive(fingerprint, max_message_count),
                ),
                ..self
            }
        } else {
            self
        }
    }
}

/// What we know of one connected peer: its view, and its knowledge at the
/// relay-parents that we track for it.
pub struct PeerData {
    view: RelayView,
    view_knowledge: VecMap<primitives::Hash, PeerRelayParentKnowledge>,
}

impl View for PeerData {
    type V = PeerDataView;

    closed spec fn view(&self) -> PeerDataView {
        PeerDataView {
            view: self.view@,
            view_knowledge: self.view_knowledge@,
        }
    }
}

impl Default for PeerData {
    fn default() -> (d: PeerData)
        ensures
            d.wf(),
            d@ == PeerDataView::empty(),
    {
        let d = PeerData { view: RelayView::default(), view_knowledge: VecMap::new() };
        d
    }
}

impl Valid for PeerData {
    open spec fn valid(&self) -> bool {
        self.wf()
    }
}

impl PeerData {
    /// The representation is sound, here and in every part, and the content
    /// is well-formed.
    pub closed spec fn wf(&self) -> bool {
        &&& self.view.wf()
        &&& self.view_knowledge.wf()
        &&& self@.wf()
    }

    /// The content of well-formed data is well-formed.
    pub proof fn lemma_wf_view(&self)
        requires
            self.wf(),
        ensures
            self@.wf(),
    {
    }

    /// Attempt to update our view of the peer's knowledge with this
    /// statement's fingerprint, based on something that we would like to
    /// send to the peer at the given relay-parent.
    ///
    /// This returns `None` if the peer cannot accept this statement, without
    /// altering internal state, and `Some` with the state updated if it can.
    /// `Some(true)` says that the peer has just become aware of the
    /// candidate.
    pub fn send(&mut self, relay_parent: &primitives::Hash, fingerprint: &Fingerprint) -> (r:
        Option<bool>)
        requires
            old(self).wf(),
        ensures
            final(self).wf(),
            r == old(self)@.send_outcome(*relay_parent, *fingerprint),
            final(self)@ == old(self)@.after_send(*relay_parent, *fingerprint),
    {
        match self.view_knowledge.index_of(relay_parent) {
            Some(i) => {
                let knowledge = self.view_knowledge.value_mut(i);
                let r = knowledge.send(fingerprint);
                r
            },
            None => None,
        }
    }

    /// Attempt to update our view of the peer's knowledge with this
    /// statement's fingerprint, based on a message we are receiving from the
    /// peer at the given relay-parent.
    ///
    /// See [`PeerRelayParentKnowledge::receive`]; a statement at a
    /// relay-parent that we do not track for the peer is unexpected.
    pub fn receive(
        &mut self,
        relay_parent: &primitives::Hash,
        fingerprint: &Fingerprint,
        max_message_count: usize,
    ) -> (r: Result<bool, Rep>)
        requires
            old(self).wf(),
        ensures
            final(self).wf(),
            r == old(self)@.receive_outcome(*relay_parent, *fingerprint, max_message_count as nat),
            final(self)@ == old(self)@.after_receive(
                *relay_parent,
                *fingerprint,
                max_message_count as nat,
            ),
    {
        match self.view_knowledge.index_of(relay_parent) {
            Some(i) => {
                let knowledge = self.view_knowledge.value_mut(i);
                let r = knowledge.receive(fingerprint, max_message_count);
                r
            },
            None => Err(COST_UNEXPECTED_STATEMENT),
        }
    }

    /// The relay-parents the peer works on.
    pub fn relay_view(&self) -> (v: &RelayView)
        requires
            self.wf(),
        ensures
            v.wf(),
            v@ == self@.view,
    {
        &self.view
    }

    /// Takes `new_view` for the peer's view, and drops what we knew at the
    /// relay-parents that have left the view. Returns the relay-parents
    /// that have come into the view, in the order of the new view.
    pub fn change_view(&mut self, new_view: RelayView) -> (added: Vec<primitives::Hash>)
        requires
            old(self).wf(),
            new_view.wf(),
        ensures
            final(self).wf(),
            final(self)@ == old(self)@.with_view(new_view@),
            added@ == heads_without(new_view@, old(self)@.view),
    {
        let removed = self.view.difference(&new_view);
        let added = new_view.difference(&self.view);
        self.view = new_view;
        // Remove entries for all relay-parents in the old view but not the new.
        let mut i: usize = 0;
        while i < removed.len()
            invariant
                i <= removed.len(),
                self.view.wf(),
                self.view_knowledge.wf(),
                self.view@ == new_view@,
                self.view_knowledge@ == old(self)@.view_knowledge.remove_keys(
                    removed@.subrange(0, i as int).to_set(),
                ),
            decreases removed.len() - i,
        {
            proof {
                let done = removed@.subrange(0, i as int);
                let next = removed@.subrange(0, i + 1);
                assert(next =~= done.push(removed[i as int]));
                done.lemma_push_to_set_commute(removed[i as int]);
            }
            let _ = self.view_knowledge.remove(&removed[i]);
            i = i + 1;
        }
        proof {
            assert(removed@.subrange(0, i as int) =~= removed@);
            new_view.lemma_distinct();
        }
        added
    }

    /// Starts to track a relay-parent of the peer's view, with nothing
    /// known there.
    pub fn track(&mut self, relay_parent: primitives::Hash)
        requires
            old(self).wf(),
            old(self)@.view.contains(relay_parent),
        ensures
            final(self).wf(),
            final(self)@ == old(self)@.tracking(relay_parent),
    {
        self.view_knowledge.insert(relay_parent, PeerRelayParentKnowledge::default());
        proof {
            lemma_tracking_wf(old(self)@, relay_parent);
        }
    }

    /// Whether we track the relay-parent for the peer.
    pub fn tracks(&self, relay_parent: &primitives::Hash) -> (r: bool)
        ensures
            r == self@.view_knowledge.contains_key(*relay_parent),
    {
        self.view_knowledge.contains_key(relay_parent)
    }

    /// The peer's knowledge at the relay-parent, if we track it.
    pub fn knowledge(&self, relay_parent: &primitives::Hash) -> (r: Option<
        &PeerRelayParentKnowledge,
    >)
        requires
            self.wf(),
        ensures
            match r {
                Some(k) => self@.view_knowledge.contains_key(*relay_parent) && k.wf() && k@
                    == self@.view_knowledge[*relay_parent],
                None => !self@.view_knowledge.contains_key(*relay_parent),
            },
    {
        match self.view_knowledge.index_of(relay_parent) {
            Some(i) => Some(self.view_knowledge.value_at(i)),
            None => None,
        }
    }
}

impl KnowledgeView {
    /// No statement has passed between us and the peer in both directions.
    pub open spec fn sent_and_received_apart(self) -> bool {
        self.sent_statements.disjoint(self.received_statements)
    }

    /// Every recorded count of received statements is below `bound`.
    pub open spec fn counts_below(self, bound: nat) -> bool {
        forall|h: primitives::Hash| #[trigger]
            self.received_message_count.contains_key(h) ==> self.received_message_count[h] < bound
    }

    /// Every tracker respects the threshold.
    pub open spec fn trackers_wf(self) -> bool {
        forall|v: ValidatorIndex| #[trigger]
            self.seconded_counts.contains_key(v) ==> self.seconded_counts[v].wf()
    }
}

/// A statement is sent only if it has not passed between us and the peer
/// before, in either direction. So sending never brings a statement into
/// both `sent_statements` and `received_statements`.
pub proof fn lemma_send_keeps_sent_and_received_apart(k: KnowledgeView, fingerprint: Fingerprint)
    requires
        k.sent_and_received_apart(),
    ensures
        k.send_outcome(fingerprint) is Some ==> !k.sent_statements.contains(fingerprint)
            && !k.received_statements.contains(fingerprint),
        k.after_send(fingerprint).sent_and_received_apart(),
{
}

/// Receiving a statement keeps `sent_statements` and `received_statements`
/// apart unless that very statement was sent to the peer before: one that
/// is in flight in both directions is accepted, and is then in both.
pub proof fn lemma_receive_keeps_sent_and_received_apart(
    k: KnowledgeView,
    fingerprint: Fingerprint,
    max_message_count: nat,
)
    requires
        k.sent_and_received_apart(),
        !k.sent_statements.contains(fingerprint),
    ensures
        k.after_receive(fingerprint, max_message_count).sent_and_received_apart(),
{
}

/// A judgement of a candidate is sent only to a peer that is known to be
/// aware of the candidate.
pub proof fn lemma_judgement_sent_only_for_known_candidate(
    k: KnowledgeView,
    fingerprint: Fingerprint,
)
    requires
        !(fingerprint.0 is Candidate),
        k.send_outcome(fingerprint) is Some,
    ensures
        k.known_candidates.contains(fingerprint.0.spec_candidate_hash()),
        k.after_send(fingerprint).known_candidates.contains(fingerprint.0.spec_candidate_hash()),
{
}

/// The same for a peer as a whole: a judgement of a candidate is sent at a
/// relay-parent only if we track that relay-parent for the peer and the
/// peer is known to be aware of the candidate there.
pub proof fn lemma_peer_judgement_sent_only_for_known_candidate(
    d: PeerDataView,
    relay_parent: primitives::Hash,
    fingerprint: Fingerprint,
)
    requires
        !(fingerprint.0 is Candidate),
        d.send_outcome(relay_parent, fingerprint) is Some,
    ensures
        d.view_knowledge.contains_key(relay_parent),
        d.view_knowledge[relay_parent].known_candidates.contains(
            fingerprint.0.spec_candidate_hash(),
        ),
{
}

/// Once a peer has been sent or has sent a statement that seconds a
/// candidate, it is known to be aware of the candidate.
pub proof fn lemma_candidate_becomes_known(
    k: KnowledgeView,
    fingerprint: Fingerprint,
    max_message_count: nat,
)
    ensures
        k.send_outcome(fingerprint) is Some ==> k.after_send(fingerprint).known_candidates.contains(
            fingerprint.0.spec_candidate_hash(),
        ),
        k.receive_outcome(fingerprint, max_message_count) is Ok ==> k.after_receive(
            fingerprint,
            max_message_count,
        ).known_candidates.contains(fingerprint.0.spec_candidate_hash()),
{
}

/// Receiving under the bound `max_message_count` keeps every count of
/// received statements below that bound: the statement that would reach it
/// is refused before it is counted.
pub proof fn lemma_receive_keeps_counts_below(
    k: KnowledgeView,
    fingerprint: Fingerprint,
    max_message_count: nat,
)
    requires
        k.counts_below(max_message_count),
    ensures
        k.after_receive(fingerprint, max_message_count).counts_below(max_message_count),
        k.receive_outcome(fingerprint, max_message_count) is Ok ==> k.after_receive(
            fingerprint,
            max_message_count,
        ).message_count(fingerprint.0.spec_candidate_hash()) == k.message_count(
            fingerprint.0.spec_candidate_hash(),
        ) + 1 < max_message_count,
{
}

/// Sending leaves the counts of received statements as they are.
pub proof fn lemma_send_keeps_counts(k: KnowledgeView, fingerprint: Fingerprint)
    ensures
        k.after_send(fingerprint).received_message_count == k.received_message_count,
{
}

/// A statement is accepted only if the peer has not sent it before. A
/// statement that was refused leaves the knowledge as it was, and one that
/// was accepted is a duplicate from then on.
pub proof fn lemma_received_statement_is_duplicate(
    k: KnowledgeView,
    fingerprint: Fingerprint,
    max_message_count: nat,
    later_max: nat,
)
    ensures
        k.receive_outcome(fingerprint, max_message_count) is Ok ==> !k.received_statements.contains(
            fingerprint,
        ),
        k.receive_outcome(fingerprint, max_message_count) is Err ==> k.after_receive(
            fingerprint,
            max_message_count,
        ) == k,
        k.receive_outcome(fingerprint, max_message_count) is Ok ==> k.after_receive(
            fingerprint,
            max_message_count,
        ).receive_outcome(fingerprint, later_max) == Err::<bool, Rep>(Rep::DuplicateStatement),
{
}

/// Sending and receiving leave a peer's view and the relay-parents that we
/// track for it as they are; so they keep the peer's data well-formed.
pub proof fn lemma_exchange_keeps_wf(
    d: PeerDataView,
    relay_parent: primitives::Hash,
    fingerprint: Fingerprint,
    max_message_count: nat,
)
    ensures
        d.after_send(relay_parent, fingerprint).view == d.view,
        d.after_send(relay_parent, fingerprint).view_knowledge.dom() == d.view_knowledge.dom(),
        d.after_receive(relay_parent, fingerprint, max_message_count).view == d.view,
        d.after_receive(relay_parent, fingerprint, max_message_count).view_knowledge.dom()
            == d.view_knowledge.dom(),
        d.wf() ==> d.after_send(relay_parent, fingerprint).wf() && d.after_receive(
            relay_parent,
            fingerprint,
            max_message_count,
        ).wf(),
{
    let sent = d.after_send(relay_parent, fingerprint);
    let received = d.after_receive(relay_parent, fingerprint, max_message_count);
    assert(sent.view_knowledge.dom() =~= d.view_knowledge.dom());
    assert(received.view_knowledge.dom() =~= d.view_knowledge.dom());
}

/// A change of view keeps a peer's data well-formed: what is tracked
/// afterwards was tracked before and has not left the view.
pub proof fn lemma_with_view_wf(d: PeerDataView, new_view: Seq<primitives::Hash>)
    requires
        d.wf(),
        new_view.no_duplicates(),
    ensures
        d.with_view(new_view).wf(),
{
}

/// To track a relay-parent of the view keeps a peer's data well-formed.
pub proof fn lemma_tracking_wf(d: PeerDataView, relay_parent: primitives::Hash)
    requires
        d.wf(),
        d.view.contains(relay_parent),
    ensures
        d.tracking(relay_parent).wf(),
{
}

/// For a peer as a whole: a statement that is refused, in either
/// direction, leaves what we know of the peer as it was.
pub proof fn lemma_peer_refusal_changes_nothing(
    d: PeerDataView,
    relay_parent: primitives::Hash,
    fingerprint: Fingerprint,
    max_message_count: nat,
)
    ensures
        d.receive_outcome(relay_parent, fingerprint, max_message_count) is Err ==> d.after_receive(
            relay_parent,
            fingerprint,
            max_message_count,
        ) == d,
        d.send_outcome(relay_parent, fingerprint) is None ==> d.after_send(
            relay_parent,
            fingerprint,
        ) == d,
{
    if d.view_knowledge.contains_key(relay_parent) {
        let k = d.view_knowledge[relay_parent];
        assert(d.view_knowledge.insert(relay_parent, k) =~= d.view_knowledge);
    }
}

/// A statement that was sent cannot be sent again.
pub proof fn lemma_sent_statement_is_not_sent_again(k: KnowledgeView, fingerprint: Fingerprint)
    ensures
        k.send_outcome(fingerprint) is Some ==> k.after_send(fingerprint).send_outcome(fingerprint)
            is None,
        k.send_outcome(fingerprint) is None ==> k.after_send(fingerprint) == k,
{
}

/// Trackers that respect the threshold keep doing so.
pub proof fn lemma_trackers_stay_wf(
    k: KnowledgeView,
    fingerprint: Fingerprint,
    max_message_count: nat,
)
    requires
        k.trackers_wf(),
    ensures
        k.after_send(fingerprint).trackers_wf(),
        k.after_receive(fingerprint, max_message_count).trackers_wf(),
{
}

} // verus!
