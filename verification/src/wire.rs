//! The wire format of the subsystem's one message: a statement at a
//! relay-parent.
//!
//! A message is the byte `0`, the 32 bytes of the relay-parent, and the
//! canonical encoding of the signed statement.

use crate::primitives::{self, SignedFullStatement, SignedFullStatementView};
use vstd::prelude::*;

verus! {

/// The name under which the protocol is registered with the network: the
/// four bytes of `sdn1`.
pub const PROTOCOL_V1: [u8; 4] = [115, 100, 110, 49];

/// The tag of the one kind of message.
pub const STATEMENT_TAG: u8 = 0;

/// How many bytes come before the statement: the tag and the relay-parent.
pub const HEADER_LEN: usize = 33;

/// A message of the protocol.
pub enum WireMessage {
    /// relay-parent, full statement.
    Statement(primitives::Hash, SignedFullStatement),
}

/// The bytes of a message with the given relay-parent and statement
/// encoding.
pub open spec fn spec_encode(relay_parent: primitives::Hash, statement: Seq<u8>) -> Seq<u8> {
    seq![STATEMENT_TAG] + relay_parent.bytes@ + statement
}

/// Whether `bytes` are a message: at least a header, with the right tag.
pub open spec fn is_message(bytes: Seq<u8>) -> bool {
    bytes.len() >= HEADER_LEN && bytes[0] == STATEMENT_TAG
}

impl View for WireMessage {
    type V = (primitives::Hash, SignedFullStatementView);

    open spec fn view(&self) -> (primitives::Hash, SignedFullStatementView) {
        match *self {
            WireMessage::Statement(relay_parent, statement) => (relay_parent, statement@),
        }
    }
}

impl WireMessage {
    /// The bytes of the message.
    pub fn encode(&self) -> (bytes: Vec<u8>)
        ensures
            bytes@ == spec_encode(self@.0, self@.1.encoded),
    {
        match self {
            WireMessage::Statement(relay_parent, statement) => encode_statement(
                relay_parent,
                statement,
            ),
        }
    }
}

/// The bytes of the message that carries `statement` at `relay_parent`.
pub fn encode_statement(relay_parent: &primitives::Hash, statement: &SignedFullStatement) -> (bytes:
    Vec<u8>)
    ensures
        bytes@ == spec_encode(*relay_parent, statement@.encoded),
{
    let mut bytes: Vec<u8> = Vec::new();
    bytes.push(STATEMENT_TAG);
    let mut i: usize = 0;
    while i < 32
        invariant
            i <= 32,
            bytes@ == seq![STATEMENT_TAG] + relay_parent.bytes@.subrange(0, i as int),
        decreases 32 - i,
    {
        bytes.push(relay_parent.bytes[i]);
        i = i + 1;
    }
    let mut k: usize = 0;
    while k < statement.encoded.len()
        invariant
            k <= statement.encoded.len(),
            bytes@ == seq![STATEMENT_TAG] + relay_parent.bytes@ + statement.encoded@.subrange(
                0,
                k as int,
            ),
        decreases statement.encoded.len() - k,
    {
        bytes.push(statement.encoded[k]);
        k = k + 1;
    }
    bytes
}

/// Splits a message into its relay-parent and the encoding of its
/// statement; `None` where the bytes are no message.
pub fn decode(bytes: &[u8]) -> (r: Option<(primitives::Hash, Vec<u8>)>)
    ensures
        r is Some == is_message(bytes@),
        r matches Some((relay_parent, statement)) ==> bytes@ == spec_encode(
            relay_parent,
            statement@,
        ),
{
    if bytes.len() < HEADER_LEN || bytes[0] != STATEMENT_TAG {
        return None;
    }
    let mut hash_bytes: [u8; 32] = [0u8; 32];
    let mut i: usize = 0;
    while i < 32
        invariant
            i <= 32,
            bytes.len() >= HEADER_LEN,
            forall|j: int| 0 <= j < i ==> hash_bytes@[j] == bytes@[1 + j],
        decreases 32 - i,
    {
        hash_bytes[i] = bytes[1 + i];
        i = i + 1;
    }
    let relay_parent = primitives::Hash::new(hash_bytes);
    let mut statement: Vec<u8> = Vec::new();
    let mut k: usize = HEADER_LEN;
    while k < bytes.len()
        invariant
            HEADER_LEN <= k <= bytes.len(),
            statement@ == bytes@.subrange(HEADER_LEN as int, k as int),
        decreases bytes.len() - k,
    {
        statement.push(bytes[k]);
        k = k + 1;
    }
    Some((relay_parent, statement))
}

/// The encoding of a message is a message, and determines its relay-parent
/// and the encoding of its statement: decoding gives back what was encoded,
/// byte for byte.
pub proof fn lemma_encode_is_injective(
    relay_parent: primitives::Hash,
    statement: Seq<u8>,
    other_parent: primitives::Hash,
    other_statement: Seq<u8>,
)
    ensures
        is_message(spec_encode(relay_parent, statement)),
        spec_encode(relay_parent, statement) == spec_encode(other_parent, other_statement) ==> (
        relay_parent == other_parent && statement == other_statement),
{
    let a = spec_encode(relay_parent, statement);
    let b = spec_encode(other_parent, other_statement);
    if a == b {
        assert(a.subrange(1, HEADER_LEN as int) =~= relay_parent.bytes@);
        assert(relay_parent.bytes =~= other_parent.bytes);
        assert(a.subrange(HEADER_LEN as int, a.len() as int) =~= statement);
    }
}

} // verus!
