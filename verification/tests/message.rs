use raft::message::DecodeError;
use raft::message::Envelope;
use raft::message::MessageType;
use raft::rpc::RpcError;
use raft::rpc::validate_message;

#[test]
fn envelope_round_trip_all_types() {
    let cases = vec![
        (MessageType::Vote, 0u8, 0u32),
        (MessageType::VoteReply, 1, 7),
        (MessageType::Append, 0x80, 0x01020304),
        (MessageType::AppendReply, 0xff, u32::MAX),
        (MessageType::Error, 3, 1),
    ];
    for (message_type, flags, size) in cases {
        let e = Envelope { message_type, flags, size };
        let buf = e.encode();
        let back = Envelope::decode(&buf).expect("recognized");
        assert_eq!(back.message_type, message_type);
        assert_eq!(back.flags, flags);
        assert_eq!(back.size, size);
    }
}

#[test]
fn envelope_wire_layout_is_big_endian() {
    let e = Envelope { message_type: MessageType::Append, flags: 0x55, size: 0x01020304 };
    let buf = e.encode();
    assert_eq!(buf, [10, 0x55, 1, 2, 3, 4, 0, 0]);
}

#[test]
fn message_type_discriminants() {
    assert_eq!(Envelope { message_type: MessageType::Vote, flags: 0, size: 0 }.encode()[0], 0);
    assert_eq!(Envelope { message_type: MessageType::VoteReply, flags: 0, size: 0 }.encode()[0], 1);
    assert_eq!(Envelope { message_type: MessageType::Append, flags: 0, size: 0 }.encode()[0], 10);
    assert_eq!(
        Envelope { message_type: MessageType::AppendReply, flags: 0, size: 0 }.encode()[0],
        11
    );
    assert_eq!(Envelope { message_type: MessageType::Error, flags: 0, size: 0 }.encode()[0], 255);
}

#[test]
fn decode_rejects_unknown_discriminant() {
    let buf = [7u8, 0, 0, 0, 0, 0, 0, 0];
    assert_eq!(Envelope::decode(&buf), Err(DecodeError::InvalidMessageType(7)));
    let buf = [12u8, 1, 2, 3, 4, 5, 6, 7];
    assert_eq!(Envelope::decode(&buf), Err(DecodeError::InvalidMessageType(12)));
}

#[test]
fn validate_message_accepts_known_frames_only() {
    assert_eq!(validate_message([0, 0, 0, 0, 0, 0, 0, 0]), Ok(()));
    assert_eq!(validate_message([11, 2, 3, 4, 5, 6, 0, 0]), Ok(()));
    let bad = [42u8, 0, 0, 0, 0, 0, 0, 0];
    assert_eq!(validate_message(bad), Err(RpcError::InvalidMessage(bad)));
}

#[test]
fn decode_reads_size_big_endian() {
    let buf = [1u8, 9, 0xde, 0xad, 0xbe, 0xef, 0, 0];
    let e = Envelope::decode(&buf).expect("recognized");
    assert_eq!(e.message_type, MessageType::VoteReply);
    assert_eq!(e.flags, 9);
    assert_eq!(e.size, 0xdeadbeef);
}
