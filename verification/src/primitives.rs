//! Plain data shared by every part of the subsystem: hashes, validator
//! keys and signatures, statements, peer identifiers and reputation changes.

use vstd::prelude::*;

verus! {

/// Position of a validator in the validator set of a relay-parent.
pub type ValidatorIndex = u32;

/// Number of a session; part of the context under which statements are signed.
pub type SessionIndex = u32;

/// The identity of a statement on the wire: what is said, and who says it.
pub type Fingerprint = (CompactStatement, ValidatorIndex);

/// The most candidates one validator may second at one relay-parent: one
/// for an honest validator, a second for a single equivocation.
pub const VC_THRESHOLD: usize = 2;

/// A value that can be compared for equality at run time, where equality
/// means equality of views.
pub trait Key: View + Sized {
    fn same(&self, other: &Self) -> (r: bool)
        ensures
            r == (self@ == other@),
    ;
}

/// A value with a well-formedness condition of its own, which a collection
/// keeps for each value it holds.
pub trait Valid: View {
    spec fn valid(&self) -> bool;
}

impl Valid for usize {
    open spec fn valid(&self) -> bool {
        true
    }
}

/// Whether two byte strings are equal.
pub fn bytes_match(a: &[u8], b: &[u8]) -> (r: bool)
    ensures
        r == (a@ == b@),
{
    if a.len() != b.len() {
        return false;
    }
    let mut i: usize = 0;
    while i < a.len()
        invariant
            a.len() == b.len(),
            i <= a.len(),
            forall|j: int| 0 <= j < i ==> a@[j] == b@[j],
        decreases a.len() - i,
    {
        if a[i] != b[i] {
            return false;
        }
        i = i + 1;
    }
    assert(a@ =~= b@);
    true
}

/// A fresh vector holding the bytes of `src`.
pub fn copy_bytes(src: &[u8]) -> (r: Vec<u8>)
    ensures
        r@ == src@,
{
    let mut r: Vec<u8> = Vec::new();
    let mut i: usize = 0;
    while i < src.len()
        invariant
            i <= src.len(),
            r@ == src@.subrange(0, i as int),
        decreases src.len() - i,
    {
        r.push(src[i]);
        i = i + 1;
    }
    r
}

/// A 32-byte content identifier.
#[derive(Clone, Copy, Debug, PartialEq, Eq, Hash)]
pub struct Hash {
    pub bytes: [u8; 32],
}

impl View for Hash {
    type V = Hash;

    open spec fn view(&self) -> Hash {
        *self
    }
}

impl Hash {
    pub fn new(bytes: [u8; 32]) -> (h: Hash)
        ensures
            h.bytes == bytes,
    {
        Hash { bytes }
    }

    pub fn as_bytes(&self) -> (b: &[u8; 32])
        ensures
            *b == self.bytes,
    {
        &self.bytes
    }
}

impl Key for Hash {
    fn same(&self, other: &Hash) -> (r: bool) {
        let r = bytes_match(self.bytes.as_slice(), other.bytes.as_slice());
        assert(r == (self.bytes =~= other.bytes));
        r
    }
}

/// The public key of a validator.
#[derive(Clone, Copy, Debug, PartialEq, Eq)]
pub struct ValidatorId {
    pub bytes: [u8; 32],
}

impl ValidatorId {
    pub fn new(bytes: [u8; 32]) -> (v: ValidatorId)
        ensures
            v.bytes == bytes,
    {
        ValidatorId { bytes }
    }
}

/// A validator's signature over a statement.
#[derive(Clone, Copy, Debug, PartialEq, Eq)]
pub struct ValidatorSignature {
    pub bytes: [u8; 64],
}

impl View for ValidatorSignature {
    type V = ValidatorSignature;

    open spec fn view(&self) -> ValidatorSignature {
        *self
    }
}

impl ValidatorSignature {
    pub fn new(bytes: [u8; 64]) -> (s: ValidatorSignature)
        ensures
            s.bytes == bytes,
    {
        ValidatorSignature { bytes }
    }
}

impl Key for ValidatorSignature {
    fn same(&self, other: &ValidatorSignature) -> (r: bool) {
        let r = bytes_match(self.bytes.as_slice(), other.bytes.as_slice());
        assert(r == (self.bytes =~= other.bytes));
        r
    }
}

/// What a validator says of a candidate, with the candidate given by hash.
#[derive(Clone, Copy, Debug, PartialEq, Eq)]
pub enum CompactStatement {
    /// The validator seconds the candidate: this is what announces it.
    Candidate(Hash),
    /// The validator found an announced candidate valid.
    Valid(Hash),
    /// The validator found an announced candidate invalid.
    Invalid(Hash),
}

impl View for CompactStatement {
    type V = CompactStatement;

    open spec fn view(&self) -> CompactStatement {
        *self
    }
}

impl CompactStatement {
    /// The candidate the statement is about.
    pub open spec fn spec_candidate_hash(self) -> Hash {
        match self {
            CompactStatement::Candidate(h) => h,
            CompactStatement::Valid(h) => h,
            CompactStatement::Invalid(h) => h,
        }
    }

    /// The candidate the statement is about.
    pub fn candidate_hash(&self) -> (h: &Hash)
        ensures
            *h == self.spec_candidate_hash(),
    {
        match self {
            CompactStatement::Candidate(h) => h,
            CompactStatement::Valid(h) => h,
            CompactStatement::Invalid(h) => h,
        }
    }
}

impl Key for CompactStatement {
    fn same(&self, other: &CompactStatement) -> (r: bool) {
        match (self, other) {
            (CompactStatement::Candidate(a), CompactStatement::Candidate(b)) => a.same(b),
            (CompactStatement::Valid(a), CompactStatement::Valid(b)) => a.same(b),
            (CompactStatement::Invalid(a), CompactStatement::Invalid(b)) => a.same(b),
            _ => false,
        }
    }
}

impl Key for (CompactStatement, ValidatorIndex) {
    fn same(&self, other: &(CompactStatement, ValidatorIndex)) -> (r: bool) {
        self.1 == other.1 && self.0.same(&other.0)
    }
}

/// The context a statement is signed under.
#[derive(Clone, Copy, Debug, PartialEq, Eq)]
pub struct SigningContext {
    pub session_index: SessionIndex,
    pub parent_hash: Hash,
}

/// The mathematical content of a [`SignedFullStatement`].
#[verifier::ext_equal]
pub struct SignedFullStatementView {
    pub compact: CompactStatement,
    pub validator_index: ValidatorIndex,
    pub signature: ValidatorSignature,
    pub encoded: Seq<u8>,
}

/// A statement with its author and signature.
///
/// `encoded` is the canonical encoding of the whole signed statement,
/// full payload included; it is carried unread and is what goes on the
/// wire. `compact`, `validator_index` and `signature` are what the
/// subsystem's rules read.
#[derive(Clone, Debug, PartialEq, Eq)]
pub struct SignedFullStatement {
    pub compact: CompactStatement,
    pub validator_index: ValidatorIndex,
    pub signature: ValidatorSignature,
    pub encoded: Vec<u8>,
}

impl View for SignedFullStatement {
    type V = SignedFullStatementView;

    open spec fn view(&self) -> SignedFullStatementView {
        SignedFullStatementView {
            compact: self.compact,
            validator_index: self.validator_index,
            signature: self.signature,
            encoded: self.encoded@,
        }
    }
}

impl SignedFullStatementView {
    pub open spec fn fingerprint(self) -> Fingerprint {
        (self.compact, self.validator_index)
    }
}

impl SignedFullStatement {
    pub fn new(
        compact: CompactStatement,
        validator_index: ValidatorIndex,
        signature: ValidatorSignature,
        encoded: Vec<u8>,
    ) -> (s: SignedFullStatement)
        ensures
            s.compact == compact,
            s.validator_index == validator_index,
            s.signature == signature,
            s.encoded == encoded,
    {
        SignedFullStatement { compact, validator_index, signature, encoded }
    }

    /// The statement in compact form.
    pub fn to_compact(&self) -> (c: CompactStatement)
        ensures
            c == self@.compact,
    {
        self.compact
    }

    pub fn validator_index(&self) -> (i: ValidatorIndex)
        ensures
            i == self@.validator_index,
    {
        self.validator_index
    }

    pub fn signature(&self) -> (s: &ValidatorSignature)
        ensures
            *s == self@.signature,
    {
        &self.signature
    }

    /// An independent copy of the statement.
    pub fn duplicate(&self) -> (s: SignedFullStatement)
        ensures
            s@ == self@,
    {
        SignedFullStatement {
            compact: self.compact,
            validator_index: self.validator_index,
            signature: self.signature,
            encoded: copy_bytes(self.encoded.as_slice()),
        }
    }
}

/// The identity of a peer on the network, as an opaque byte string.
#[derive(Clone, Debug, PartialEq, Eq, Hash)]
pub struct PeerId {
    pub bytes: Vec<u8>,
}

impl View for PeerId {
    type V = Seq<u8>;

    open spec fn view(&self) -> Seq<u8> {
        self.bytes@
    }
}

impl PeerId {
    pub fn new(bytes: Vec<u8>) -> (p: PeerId)
        ensures
            p@ == bytes@,
    {
        PeerId { bytes }
    }

    /// An independent copy of the identifier.
    pub fn duplicate(&self) -> (p: PeerId)
        ensures
            p@ == self@,
    {
        PeerId { bytes: copy_bytes(self.bytes.as_slice()) }
    }
}

impl Key for PeerId {
    fn same(&self, other: &PeerId) -> (r: bool) {
        bytes_match(self.bytes.as_slice(), other.bytes.as_slice())
    }
}

/// A change to a peer's reputation, by the event that earns it.
#[derive(Clone, Copy, Debug, PartialEq, Eq, Structural)]
pub enum Rep {
    UnexpectedStatement,
    InvalidSignature,
    InvalidMessage,
    DuplicateStatement,
    ApparentFlood,
    ValidStatement,
    ValidStatementFirst,
}

pub const COST_UNEXPECTED_STATEMENT: Rep = Rep::UnexpectedStatement;

pub const COST_INVALID_SIGNATURE: Rep = Rep::InvalidSignature;

pub const COST_INVALID_MESSAGE: Rep = Rep::InvalidMessage;

pub const COST_DUPLICATE_STATEMENT: Rep = Rep::DuplicateStatement;

pub const COST_APPARENT_FLOOD: Rep = Rep::ApparentFlood;

pub const BENEFIT_VALID_STATEMENT: Rep = Rep::ValidStatement;

pub const BENEFIT_VALID_STATEMENT_FIRST: Rep = Rep::ValidStatementFirst;

impl Rep {
    /// By how much the event moves the peer's reputation.
    pub open spec fn spec_value(self) -> int {
        match self {
            Rep::UnexpectedStatement => -100,
            Rep::InvalidSignature => -500,
            Rep::InvalidMessage => -500,
            Rep::DuplicateStatement => -250,
            Rep::ApparentFlood => -1000,
            Rep::ValidStatement => 5,
            Rep::ValidStatementFirst => 25,
        }
    }

    /// By how much the event moves the peer's reputation.
    pub fn value(&self) -> (v: i32)
        ensures
            v == self.spec_value(),
    {
        match self {
            Rep::UnexpectedStatement => -100,
            Rep::InvalidSignature => -500,
            Rep::InvalidMessage => -500,
            Rep::DuplicateStatement => -250,
            Rep::ApparentFlood => -1000,
            Rep::ValidStatement => 5,
            Rep::ValidStatementFirst => 25,
        }
    }

    /// Whether the event counts against the peer.
    pub fn is_cost(&self) -> (b: bool)
        ensures
            b == (self.spec_value() < 0),
    {
        self.value() < 0
    }

    /// The reason reported along with the change.
    pub fn reason(&self) -> (s: &'static str)
        ensures
            s@ == self.spec_reason(),
    {
        match self {
            Rep::UnexpectedStatement => "Unexpected Statement",
            Rep::InvalidSignature => "Invalid Statement Signature",
            Rep::InvalidMessage => "Invalid message",
            Rep::DuplicateStatement => "Statement sent more than once by peer",
            Rep::ApparentFlood => "Peer appears to be flooding us with statements",
            Rep::ValidStatement => "Peer provided a valid statement",
            Rep::ValidStatementFirst => "Peer was the first to provide a valid statement",
        }
    }

    /// The reason reported along with the change.
    pub open spec fn spec_reason(self) -> Seq<char> {
        match self {
            Rep::UnexpectedStatement => "Unexpected Statement"@,
            Rep::InvalidSignature => "Invalid Statement Signature"@,
            Rep::InvalidMessage => "Invalid message"@,
            Rep::DuplicateStatement => "Statement sent more than once by peer"@,
            Rep::ApparentFlood => "Peer appears to be flooding us with statements"@,
            Rep::ValidStatement => "Peer provided a valid statement"@,
            Rep::ValidStatementFirst => "Peer was the first to provide a valid statement"@,
        }
    }
}

} // verus!
