//! What we hold for one relay-parent that we work on: its validators, the
//! candidates announced at it, and the statements accepted so far.

use crate::collections::{lemma_filter_push, VecSet};
use crate::primitives::{
    self, CompactStatement, Fingerprint, Key, SessionIndex, SignedFullStatement,
    SignedFullStatementView, Valid, ValidatorId, ValidatorIndex, ValidatorSignature,
    VC_THRESHOLD,
};
use std::collections::HashMap;
use vstd::prelude::*;

verus! {

broadcast use vstd::std_specs::hash::group_hash_axioms;

/// What tells stored statements apart.
///
/// The compact statement, the validator's index and the signature are
/// enough to tell apart all kinds of equivocation, as long as the signature
/// has been checked: one statement under two signatures is two entries, and
/// so are two statements under whatever signatures.
#[derive(Clone, Copy, Debug, PartialEq, Eq)]
pub struct StoredStatementComparator {
    pub compact: CompactStatement,
    pub validator_index: ValidatorIndex,
    pub signature: ValidatorSignature,
}

impl View for StoredStatementComparator {
    type V = StoredStatementComparator;

    open spec fn view(&self) -> StoredStatementComparator {
        *self
    }
}

impl Key for StoredStatementComparator {
    fn same(&self, other: &StoredStatementComparator) -> (r: bool) {
        self.validator_index == other.validator_index && self.compact.same(&other.compact)
            && self.signature.same(&other.signature)
    }
}

impl SignedFullStatementView {
    /// The key under which the statement is stored.
    pub open spec fn comparator(self) -> StoredStatementComparator {
        StoredStatementComparator {
            compact: self.compact,
            validator_index: self.validator_index,
            signature: self.signature,
        }
    }
}

/// A statement stored while a relay-parent is active.
pub struct StoredStatement {
    comparator: StoredStatementComparator,
    statement: SignedFullStatement,
}

impl View for StoredStatement {
    type V = SignedFullStatementView;

    closed spec fn view(&self) -> SignedFullStatementView {
        self.statement@
    }
}

impl StoredStatement {
    /// The key is that of the statement.
    pub closed spec fn wf(&self) -> bool {
        self.comparator == self.statement@.comparator()
    }

    fn new(statement: SignedFullStatement) -> (s: StoredStatement)
        ensures
            s.wf(),
            s@ == statement@,
    {
        let comparator = StoredStatementComparator {
            compact: statement.to_compact(),
            validator_index: statement.validator_index(),
            signature: *statement.signature(),
        };
        StoredStatement { comparator, statement }
    }

    pub fn compact(&self) -> (c: &CompactStatement)
        requires
            self.wf(),
        ensures
            *c == self@.compact,
    {
        &self.comparator.compact
    }

    pub fn fingerprint(&self) -> (f: Fingerprint)
        requires
            self.wf(),
        ensures
            f == self@.fingerprint(),
    {
        (self.comparator.compact, self.statement.validator_index())
    }

    /// The key under which the statement is stored.
    pub fn comparator(&self) -> (c: &StoredStatementComparator)
        requires
            self.wf(),
        ensures
            *c == self@.comparator(),
    {
        &self.comparator
    }

    /// The statement as it was noted.
    pub fn statement(&self) -> (s: &SignedFullStatement)
        ensures
            s@ == self@,
    {
        &self.statement
    }
}

/// The mathematical content of a [`NotedStatement`].
pub enum Noted {
    NotUseful,
    Fresh(SignedFullStatementView),
    UsefulButKnown,
}

/// What became of a statement that was noted at an active head.
pub enum NotedStatement<'a> {
    /// The statement cannot be accepted: its validator has seconded enough
    /// already, or it judges a candidate that nobody has announced.
    NotUseful,
    /// The statement is new and has been stored.
    Fresh(&'a StoredStatement),
    /// The statement is acceptable and was stored before.
    UsefulButKnown,
}

impl<'a> View for NotedStatement<'a> {
    type V = Noted;

    open spec fn view(&self) -> Noted {
        match *self {
            NotedStatement::NotUseful => Noted::NotUseful,
            NotedStatement::Fresh(stored) => Noted::Fresh(stored@),
            NotedStatement::UsefulButKnown => Noted::UsefulButKnown,
        }
    }
}

/// Whether `statements` holds one with the key `c`.
pub open spec fn holds_key(statements: Seq<SignedFullStatementView>, c: StoredStatementComparator)
    -> bool {
    exists|i: int| 0 <= i < statements.len() && (#[trigger] statements[i]).comparator() == c
}

/// No two of `statements` have the same key.
pub open spec fn distinct_keys(statements: Seq<SignedFullStatementView>) -> bool {
    forall|i: int, j: int|
        0 <= i < j < statements.len() ==> (#[trigger] statements[i]).comparator() != (
        #[trigger] statements[j]).comparator()
}

/// The mathematical content of an [`ActiveHeadData`].
#[verifier::ext_equal]
pub struct ActiveHeadView {
    /// All candidates we are aware of for this head.
    pub candidates: Set<primitives::Hash>,
    /// The accepted statements that second a candidate, oldest first.
    pub seconded_statements: Seq<SignedFullStatementView>,
    /// The other accepted statements, oldest first.
    pub other_statements: Seq<SignedFullStatementView>,
    /// The validators at this head.
    pub validators: Seq<ValidatorId>,
    /// The session this head is in.
    pub session_index: SessionIndex,
    /// How many seconding statements we have counted for each validator.
    pub seconded_counts: Map<ValidatorIndex, nat>,
}

impl ActiveHeadView {
    /// A head at which nothing has been noted.
    pub open spec fn new(validators: Seq<ValidatorId>, session_index: SessionIndex)
        -> ActiveHeadView {
        ActiveHeadView {
            candidates: Set::empty(),
            seconded_statements: Seq::empty(),
            other_statements: Seq::empty(),
            validators,
            session_index,
            seconded_counts: Map::empty(),
        }
    }

    /// No validator is counted beyond the threshold, and no statement is
    /// stored twice.
    pub open spec fn wf(self) -> bool {
        &&& forall|v: ValidatorIndex| #[trigger]
            self.seconded_counts.contains_key(v) ==> self.seconded_counts[v] <= VC_THRESHOLD
        &&& distinct_keys(self.seconded_statements)
        &&& distinct_keys(self.other_statements)
    }

    /// How many seconding statements of validator `v` have been counted.
    pub open spec fn seconded_count(self, v: ValidatorIndex) -> nat {
        if self.seconded_counts.contains_key(v) {
            self.seconded_counts[v]
        } else {
            0
        }
    }

    /// All stored statements: those that second a candidate first.
    pub open spec fn statements(self) -> Seq<SignedFullStatementView> {
        self.seconded_statements + self.other_statements
    }

    /// The stored statements that are about the given candidate.
    pub open spec fn statements_about(self, candidate_hash: primitives::Hash) -> Seq<
        SignedFullStatementView,
    > {
        self.statements().filter(
            |s: SignedFullStatementView| s.compact.spec_candidate_hash() == candidate_hash,
        )
    }

    /// Whether the statement can be accepted: a seconding statement while
    /// its validator is below the threshold, a judgement where its candidate
    /// has been announced.
    pub open spec fn is_useful(self, statement: SignedFullStatementView) -> bool {
        if statement.compact is Candidate {
            self.seconded_count(statement.validator_index) < VC_THRESHOLD
        } else {
            self.candidates.contains(statement.compact.spec_candidate_hash())
        }
    }

    /// Whether a statement with the same key is stored already.
    pub open spec fn is_known(self, statement: SignedFullStatementView) -> bool {
        if statement.compact is Candidate {
            holds_key(self.seconded_statements, statement.comparator())
        } else {
            holds_key(self.other_statements, statement.comparator())
        }
    }

    /// What `note_statement` returns.
    pub open spec fn note_outcome(self, statement: SignedFullStatementView) -> Noted {
        if !self.is_useful(statement) {
            Noted::NotUseful
        } else if self.is_known(statement) {
            Noted::UsefulButKnown
        } else {
            Noted::Fresh(statement)
        }
    }

    /// The head after `note_statement`. A seconding statement that is
    /// accepted counts against its validator and announces its candidate
    /// whether or not it was stored before.
    pub open spec fn after_note(self, statement: SignedFullStatementView) -> ActiveHeadView {
        if !self.is_useful(statement) {
            self
        } else if statement.compact is Candidate {
            ActiveHeadView {
                candidates: self.candidates.insert(statement.compact.spec_candidate_hash()),
                seconded_counts: self.seconded_counts.insert(
                    statement.validator_index,
                    self.seconded_count(statement.validator_index) + 1,
                ),
                seconded_statements: if self.is_known(statement) {
                    self.seconded_statements
                } else {
                    self.seconded_statements.push(statement)
                },
                ..self
            }
        } else {
            ActiveHeadView {
                other_statements: if self.is_known(statement) {
                    self.other_statements
                } else {
                    self.other_statements.push(statement)
                },
                ..self
            }
        }
    }
}

/// The contents of a list of stored statements.
pub open spec fn stored_views(statements: Seq<StoredStatement>) -> Seq<SignedFullStatementView> {
    statements.map_values(|s: StoredStatement| s@)
}

/// The contents of a list of borrowed stored statements.
pub open spec fn borrowed_views(statements: Seq<&StoredStatement>) -> Seq<
    SignedFullStatementView,
> {
    statements.map_values(|s: &StoredStatement| s@)
}

/// The position in `statements` of the one stored under `comparator`.
fn position_of(statements: &Vec<StoredStatement>, comparator: &StoredStatementComparator) -> (r:
    Option<usize>)
    requires
        forall|i: int| 0 <= i < statements.len() ==> (#[trigger] statements[i]).wf(),
    ensures
        match r {
            Some(i) => i < statements.len() && statements[i as int]@.comparator() == *comparator,
            None => !holds_key(stored_views(statements@), *comparator),
        },
{
    let mut i: usize = 0;
    while i < statements.len()
        invariant
            i <= statements.len(),
            forall|j: int| 0 <= j < statements.len() ==> (#[trigger] statements[j]).wf(),
            forall|j: int| 0 <= j < i ==> stored_views(statements@)[j].comparator() != *comparator,
        decreases statements.len() - i,
    {
        if statements[i].comparator().same(comparator) {
            return Some(i);
        }
        i = i + 1;
    }
    None
}

/// What we hold for one relay-parent in our view.
pub struct ActiveHeadData {
    /// All candidates we are aware of for this head, keyed by hash.
    candidates: VecSet<primitives::Hash>,
    /// Stored seconded statements for circulation to peers.
    seconded_statements: Vec<StoredStatement>,
    /// Stored other statements for circulation to peers.
    other_statements: Vec<StoredStatement>,
    /// The validators at this head.
    validators: Vec<ValidatorId>,
    /// The session index this head is at.
    session_index: SessionIndex,
    /// How many `Seconded` statements we've seen per validator.
    seconded_counts: HashMap<ValidatorIndex, usize>,
}

impl View for ActiveHeadData {
    type V = ActiveHeadView;

    closed spec fn view(&self) -> ActiveHeadView {
        ActiveHeadView {
            candidates: self.candidates@,
            seconded_statements: stored_views(self.seconded_statements@),
            other_statements: stored_views(self.other_statements@),
            validators: self.validators@,
            session_index: self.session_index,
            seconded_counts: self.seconded_counts@.map_values(|n: usize| n as nat),
        }
    }
}

impl Valid for ActiveHeadData {
    open spec fn valid(&self) -> bool {
        self.wf()
    }
}

impl ActiveHeadData {
    /// The representation is sound, and the content is well-formed: in
    /// particular no validator is counted beyond the threshold.
    pub closed spec fn wf(&self) -> bool {
        &&& self.candidates.wf()
        &&& forall|i: int|
            0 <= i < self.seconded_statements.len() ==> (
            #[trigger] self.seconded_statements[i]).wf()
        &&& forall|i: int|
            0 <= i < self.other_statements.len() ==> (#[trigger] self.other_statements[i]).wf()
        &&& self@.wf()
    }

    /// The content of a well-formed head is well-formed.
    pub proof fn lemma_wf_view(&self)
        requires
            self.wf(),
        ensures
            self@.wf(),
    {
    }

    pub fn new(validators: Vec<ValidatorId>, session_index: SessionIndex) -> (head: ActiveHeadData)
        ensures
            head.wf(),
            head@ == ActiveHeadView::new(validators@, session_index),
    {
        let head = ActiveHeadData {
            candidates: VecSet::new(),
            seconded_statements: Vec::new(),
            other_statements: Vec::new(),
            validators,
            session_index,
            seconded_counts: HashMap::new(),
        };
        head
    }

    /// Note the given statement.
    ///
    /// If it was not already known and can be accepted, returns `Fresh` with
    /// a handle to the stored statement.
    ///
    /// We accept up to `VC_THRESHOLD` seconding statements per validator:
    /// the first ones we see. The statement is assumed to have been checked,
    /// including that the validator index is not out of bounds and that the
    /// signature is valid.
    ///
    /// Statements beyond that, and judgements of a candidate we are not
    /// aware of, cannot be accepted.
    pub fn note_statement(&mut self, statement: SignedFullStatement) -> (r: NotedStatement<'_>)
        requires
            old(self).wf(),
        ensures
            final(self).wf(),
            r@ == old(self)@.note_outcome(statement@),
            final(self)@ == old(self)@.after_note(statement@),
            r matches NotedStatement::Fresh(stored) ==> stored.wf(),
    {
        let validator_index = statement.validator_index();
        let stored = StoredStatement::new(statement);
        let comparator = stored.comparator;
        match comparator.compact {
            CompactStatement::Candidate(h) => {
                let seconded_so_far = self.seconded_counts.entry(validator_index).or_insert(0);
                if *seconded_so_far >= VC_THRESHOLD {
                    proof {
                        assert(self@.seconded_counts =~= old(self)@.seconded_counts);
                    }
                    return NotedStatement::NotUseful;
                } else {
                    *seconded_so_far += 1;
                }
                self.candidates.insert(h);
                proof {
                    assert(self@.seconded_counts =~= old(self)@.after_note(
                        statement@,
                    ).seconded_counts);
                }
                match position_of(&self.seconded_statements, &comparator) {
                    Some(i) => {
                        proof {
                            assert(old(self)@.seconded_statements[i as int].comparator()
                                == comparator);
                        }
                        NotedStatement::UsefulButKnown
                    },
                    None => {
                        self.seconded_statements.push(stored);
                        proof {
                            assert(self@.seconded_statements =~= old(
                                self,
                            )@.seconded_statements.push(statement@));
                        }
                        let n = self.seconded_statements.len();
                        NotedStatement::Fresh(&self.seconded_statements[n - 1])
                    },
                }
            },
            CompactStatement::Valid(h) | CompactStatement::Invalid(h) => {
                if !self.candidates.contains(&h) {
                    return NotedStatement::NotUseful;
                }
                match position_of(&self.other_statements, &comparator) {
                    Some(i) => {
                        proof {
                            assert(old(self)@.other_statements[i as int].comparator()
                                == comparator);
                        }
                        NotedStatement::UsefulButKnown
                    },
                    None => {
                        self.other_statements.push(stored);
                        proof {
                            assert(self@.other_statements =~= old(self)@.other_statements.push(
                                statement@,
                            ));
                            assert(self@.seconded_counts =~= old(self)@.seconded_counts);
                        }
                        let n = self.other_statements.len();
                        NotedStatement::Fresh(&self.other_statements[n - 1])
                    },
                }
            },
        }
    }
}

impl ActiveHeadData {
    /// All statements stored for the head, those that second a candidate
    /// first, each kind in the order in which it was stored.
    pub fn statements(&self) -> (v: Vec<&StoredStatement>)
        requires
            self.wf(),
        ensures
            borrowed_views(v@) == self@.statements(),
            forall|i: int| 0 <= i < v.len() ==> (#[trigger] v[i]).wf(),
    {
        let mut v: Vec<&StoredStatement> = Vec::new();
        let mut i: usize = 0;
        while i < self.seconded_statements.len()
            invariant
                self.wf(),
                i <= self.seconded_statements.len(),
                borrowed_views(v@) == self@.seconded_statements.subrange(0, i as int),
                forall|j: int| 0 <= j < v.len() ==> (#[trigger] v[j]).wf(),
            decreases self.seconded_statements.len() - i,
        {
            let ghost before = v@;
            v.push(&self.seconded_statements[i]);
            proof {
                assert(borrowed_views(v@) =~= borrowed_views(before).push(
                    self.seconded_statements[i as int]@,
                ));
            }
            i = i + 1;
        }
        let mut k: usize = 0;
        while k < self.other_statements.len()
            invariant
                self.wf(),
                k <= self.other_statements.len(),
                borrowed_views(v@) == self@.seconded_statements
                    + self@.other_statements.subrange(0, k as int),
                forall|j: int| 0 <= j < v.len() ==> (#[trigger] v[j]).wf(),
            decreases self.other_statements.len() - k,
        {
            let ghost before = v@;
            v.push(&self.other_statements[k]);
            proof {
                assert(borrowed_views(v@) =~= borrowed_views(before).push(
                    self.other_statements[k as int]@,
                ));
            }
            k = k + 1;
        }
        v
    }

    /// The stored statements that are about the given candidate, in the
    /// order of `statements`.
    pub fn statements_about(&self, candidate_hash: primitives::Hash) -> (v: Vec<&StoredStatement>)
        requires
            self.wf(),
        ensures
            borrowed_views(v@) == self@.statements_about(candidate_hash),
            forall|i: int| 0 <= i < v.len() ==> (#[trigger] v[i]).wf(),
    {
        let all = self.statements();
        let ghost about = |s: SignedFullStatementView|
            s.compact.spec_candidate_hash() == candidate_hash;
        let mut v: Vec<&StoredStatement> = Vec::new();
        let mut i: usize = 0;
        while i < all.len()
            invariant
                i <= all.len(),
                about == |s: SignedFullStatementView|
                    s.compact.spec_candidate_hash() == candidate_hash,
                forall|j: int| 0 <= j < all.len() ==> (#[trigger] all[j]).wf(),
                borrowed_views(v@) == borrowed_views(all@).subrange(0, i as int).filter(about),
                forall|j: int| 0 <= j < v.len() ==> (#[trigger] v[j]).wf(),
            decreases all.len() - i,
        {
            let stored = all[i];
            proof {
                let done = borrowed_views(all@).subrange(0, i as int);
                assert(borrowed_views(all@).subrange(0, i + 1) =~= done.push(stored@));
                lemma_filter_push(done, stored@, about);
            }
            if stored.compact().candidate_hash().same(&candidate_hash) {
                v.push(stored);
            }
            i = i + 1;
        }
        assert(borrowed_views(all@).subrange(0, i as int) =~= borrowed_views(all@));
        v
    }

    /// The validators at this head; a validator's index is its position.
    pub fn validators(&self) -> (v: &Vec<ValidatorId>)
        ensures
            v@ == self@.validators,
    {
        &self.validators
    }

    /// The session this head is in.
    pub fn session_index(&self) -> (i: SessionIndex)
        ensures
            i == self@.session_index,
    {
        self.session_index
    }

    /// Whether the candidate has been announced at this head.
    pub fn has_candidate(&self, candidate_hash: &primitives::Hash) -> (r: bool)
        ensures
            r == self@.candidates.contains(*candidate_hash),
    {
        self.candidates.contains(candidate_hash)
    }

    /// How many seconding statements of the validator have been counted;
    /// never more than `VC_THRESHOLD`.
    pub fn seconded_count(&self, validator_index: ValidatorIndex) -> (n: usize)
        requires
            self.wf(),
        ensures
            n == self@.seconded_count(validator_index),
            n <= VC_THRESHOLD,
    {
        match self.seconded_counts.get(&validator_index) {
            Some(n) => {
                assert(self@.seconded_counts.contains_key(validator_index));
                *n
            },
            None => 0,
        }
    }
}

/// Noting a statement keeps a head well-formed: no validator is ever
/// counted beyond the threshold, and no statement is stored twice.
pub proof fn lemma_note_statement_keeps_wf(head: ActiveHeadView, statement: SignedFullStatementView)
    requires
        head.wf(),
    ensures
        head.after_note(statement).wf(),
        forall|v: ValidatorIndex| head.after_note(statement).seconded_count(v) <= VC_THRESHOLD,
{
    if head.is_useful(statement) && !head.is_known(statement) {
        if statement.compact is Candidate {
            lemma_push_distinct(head.seconded_statements, statement);
        } else {
            lemma_push_distinct(head.other_statements, statement);
        }
    }
}

/// A head at which nothing has been noted is well-formed.
pub proof fn lemma_new_head_wf(validators: Seq<ValidatorId>, session_index: SessionIndex)
    ensures
        ActiveHeadView::new(validators, session_index).wf(),
{
}

/// A statement that has been noted is known from then on: noting it again
/// never stores it a second time.
pub proof fn lemma_noted_statement_is_known(
    head: ActiveHeadView,
    statement: SignedFullStatementView,
)
    requires
        head.is_useful(statement),
    ensures
        head.after_note(statement).is_known(statement),
        !(head.after_note(statement).note_outcome(statement) is Fresh),
{
    if !head.is_known(statement) {
        if statement.compact is Candidate {
            let pushed = head.seconded_statements.push(statement);
            assert(pushed[pushed.len() - 1].comparator() == statement.comparator());
        } else {
            let pushed = head.other_statements.push(statement);
            assert(pushed[pushed.len() - 1].comparator() == statement.comparator());
        }
    }
}

/// Noting a judgement twice is the same as noting it once, and the second
/// time it is known.
pub proof fn lemma_note_judgement_twice(head: ActiveHeadView, statement: SignedFullStatementView)
    requires
        !(statement.compact is Candidate),
    ensures
        head.after_note(statement).after_note(statement) == head.after_note(statement),
        head.note_outcome(statement) is Fresh ==> head.after_note(statement).note_outcome(
            statement,
        ) is UsefulButKnown,
{
    if head.is_useful(statement) {
        lemma_noted_statement_is_known(head, statement);
    }
}

/// A statement under a key that is not yet held can be added without
/// repeating a key.
pub proof fn lemma_push_distinct(
    statements: Seq<SignedFullStatementView>,
    statement: SignedFullStatementView,
)
    requires
        distinct_keys(statements),
        !holds_key(statements, statement.comparator()),
    ensures
        distinct_keys(statements.push(statement)),
{
}

} // verus!
