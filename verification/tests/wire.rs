use parity_scale_codec::Encode;
use statement_distribution::primitives::{
    self, CompactStatement, SignedFullStatement, ValidatorSignature,
};
use statement_distribution::wire::{
    decode, encode_statement, WireMessage, HEADER_LEN, PROTOCOL_V1, STATEMENT_TAG,
};

fn statement(encoded: Vec<u8>) -> SignedFullStatement {
    SignedFullStatement::new(
        CompactStatement::Valid(primitives::Hash::new([5; 32])),
        1,
        ValidatorSignature::new([6; 64]),
        encoded,
    )
}

#[test]
fn the_protocol_is_named_sdn1() {
    assert_eq!(&PROTOCOL_V1, b"sdn1");
    assert_eq!(STATEMENT_TAG, 0);
    assert_eq!(HEADER_LEN, 33);
}

#[test]
fn a_message_is_tag_relay_parent_and_statement() {
    let relay_parent = primitives::Hash::new([1; 32]);
    let bytes = encode_statement(&relay_parent, &statement(vec![0xde, 0xad]));
    let mut expected = vec![0u8];
    expected.extend_from_slice(&[1u8; 32]);
    expected.extend_from_slice(&[0xde, 0xad]);
    assert_eq!(bytes, expected);
    let message = WireMessage::Statement(relay_parent, statement(vec![0xde, 0xad]));
    assert_eq!(message.encode(), expected);
}

#[test]
fn the_header_is_what_the_codec_writes_for_a_tag_and_a_hash() {
    let mut parent = [0u8; 32];
    for (i, byte) in parent.iter_mut().enumerate() {
        *byte = 3 * i as u8 + 1;
    }
    let body = vec![9u8, 8, 7, 6];
    let bytes = encode_statement(&primitives::Hash::new(parent), &statement(body.clone()));
    let mut expected = (0u8, parent).encode();
    assert_eq!(expected.len(), HEADER_LEN);
    expected.extend_from_slice(&body);
    assert_eq!(bytes, expected);
}

#[test]
fn decoding_gives_back_what_was_encoded() {
    let mut parent = [0u8; 32];
    for (i, byte) in parent.iter_mut().enumerate() {
        *byte = 255 - i as u8;
    }
    let relay_parent = primitives::Hash::new(parent);
    for body in [vec![], vec![0u8], vec![1u8, 2, 3, 4, 5], vec![0u8; 100]] {
        let bytes = encode_statement(&relay_parent, &statement(body.clone()));
        assert_eq!(decode(&bytes), Some((relay_parent, body)));
    }
}

#[test]
fn bytes_that_are_no_message_do_not_decode() {
    assert_eq!(decode(&[]), None);
    assert_eq!(decode(&[0u8; 32]), None);
    let mut wrong_tag = vec![1u8];
    wrong_tag.extend_from_slice(&[0u8; 40]);
    assert_eq!(decode(&wrong_tag), None);
    // The shortest message is a header with an empty statement.
    assert_eq!(decode(&[0u8; 33]), Some((primitives::Hash::new([0; 32]), vec![])));
}
