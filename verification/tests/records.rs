use wormhole_core::record::{
    encode_record, parse_record, Input, Output, ParseError, PingID, Record, RecordError,
    RecordHandler, Role, Seqnum, SubchannelID,
};
use wormhole_core::wire::Frame;

fn roundtrip(r: Record) {
    let encoded = encode_record(r.clone());
    let back = parse_record(&encoded).unwrap();
    assert_eq!(back, r);
}

#[test]
fn every_record_type_roundtrips() {
    roundtrip(Record::KCM);
    roundtrip(Record::Ping(PingID(0x01020304)));
    roundtrip(Record::Pong(PingID(0xfffefdfc)));
    roundtrip(Record::Open(SubchannelID(1), Seqnum(2)));
    roundtrip(Record::Data(SubchannelID(3), Seqnum(4), vec![5, 6, 7]));
    roundtrip(Record::Data(SubchannelID(0), Seqnum(0), Vec::new()));
    roundtrip(Record::Close(SubchannelID(8), Seqnum(9)));
    roundtrip(Record::Ack(Seqnum(0xdeadbeef)));
}

#[test]
fn encodings_are_tagged_and_big_endian() {
    assert_eq!(encode_record(Record::KCM), vec![0x00]);
    assert_eq!(
        encode_record(Record::Ping(PingID(0x01020304))),
        vec![0x01, 1, 2, 3, 4]
    );
    assert_eq!(
        encode_record(Record::Pong(PingID(7))),
        vec![0x02, 0, 0, 0, 7]
    );
    assert_eq!(
        encode_record(Record::Open(SubchannelID(1), Seqnum(2))),
        vec![0x03, 0, 0, 0, 1, 0, 0, 0, 2]
    );
    assert_eq!(
        encode_record(Record::Data(SubchannelID(1), Seqnum(2), vec![0xaa, 0xbb])),
        vec![0x04, 0, 0, 0, 1, 0, 0, 0, 2, 0xaa, 0xbb]
    );
    assert_eq!(
        encode_record(Record::Close(SubchannelID(1), Seqnum(2))),
        vec![0x05, 0, 0, 0, 1, 0, 0, 0, 2]
    );
    assert_eq!(
        encode_record(Record::Ack(Seqnum(3))),
        vec![0x06, 0, 0, 0, 3]
    );
}

#[test]
fn empty_message_is_rejected() {
    assert_eq!(parse_record(&[]), Err(ParseError::EmptyMessage));
}

#[test]
fn unknown_type_tag_is_rejected() {
    assert_eq!(parse_record(&[0x07]), Err(ParseError::UnknownType(0x07)));
    assert_eq!(parse_record(&[0xff, 1]), Err(ParseError::UnknownType(0xff)));
}

#[test]
fn wrong_payload_lengths_are_rejected() {
    // a PING with 3 trailing bytes instead of 4
    assert_eq!(
        parse_record(&[0x01, 9, 9, 9]),
        Err(ParseError::WrongLength { got: 4, wanted: 5 })
    );
    // a KCM with leftover data
    assert_eq!(
        parse_record(&[0x00, 1]),
        Err(ParseError::WrongLength { got: 2, wanted: 1 })
    );
    // an OPEN one byte short
    assert_eq!(
        parse_record(&[0x03, 0, 0, 0, 1, 0, 0, 0]),
        Err(ParseError::WrongLength { got: 8, wanted: 9 })
    );
    // a DATA record needs at least id and seqnum
    assert_eq!(
        parse_record(&[0x04, 0, 0, 0, 1, 0, 0, 0]),
        Err(ParseError::WrongLength { got: 8, wanted: 9 })
    );
    // an ACK with too much
    assert_eq!(
        parse_record(&[0x06, 0, 0, 0, 1, 2]),
        Err(ParseError::WrongLength { got: 6, wanted: 5 })
    );
}

fn frame(bytes: &[u8]) -> Input {
    Input::FrameReceived(Frame(bytes.to_vec()))
}

#[test]
fn leader_speaks_first_then_records_flow() {
    let mut leader = RecordHandler::new(Role::Leader);
    // the prologue-confirming frame cycle: the leader emits its
    // handshake message
    let outs = leader.process(frame(b"")).unwrap();
    assert_eq!(outs.len(), 1);
    assert!(matches!(outs[0], Output::SendFrame(_)));
    // the follower's handshake reply completes the handshake quietly
    let outs = leader.process(frame(b"")).unwrap();
    assert!(outs.is_empty());
    // now records flow: sending wraps the encoding as one frame
    let outs = leader
        .process(Input::SendRecord(Record::Ping(PingID(5))))
        .unwrap();
    let sent = match &outs[0] {
        Output::SendFrame(f) => f.0.clone(),
        _ => panic!("expected SendFrame"),
    };
    assert_eq!(sent, encode_record(Record::Ping(PingID(5))));
    // and a received frame decodes to exactly its record
    let outs = leader.process(frame(&sent)).unwrap();
    assert_eq!(outs.len(), 1);
    assert!(matches!(&outs[0], Output::GotRecord(r) if *r == Record::Ping(PingID(5))));
}

#[test]
fn follower_replies_on_handshake() {
    let mut follower = RecordHandler::new(Role::Follower);
    let outs = follower.process(frame(b"")).unwrap();
    assert!(outs.is_empty());
    let outs = follower.process(frame(b"")).unwrap();
    assert_eq!(outs.len(), 1);
    assert!(matches!(outs[0], Output::SendFrame(_)));
}

#[test]
fn sending_before_handshake_is_refused() {
    let mut leader = RecordHandler::new(Role::Leader);
    let r = leader.process(Input::SendRecord(Record::KCM));
    assert!(matches!(r, Err(RecordError::SendBeforeHandshake)));
    leader.process(frame(b"")).unwrap();
    let r = leader.process(Input::SendRecord(Record::KCM));
    assert!(matches!(r, Err(RecordError::SendBeforeHandshake)));
}

#[test]
fn malformed_record_is_a_fatal_parse_error() {
    let mut leader = RecordHandler::new(Role::Leader);
    leader.process(frame(b"")).unwrap();
    leader.process(frame(b"")).unwrap();
    let r = leader.process(frame(&[0x07, 1, 2]));
    assert!(matches!(r, Err(RecordError::Parse(ParseError::UnknownType(0x07)))));
    let r = leader.process(frame(&[0x01, 9, 9, 9]));
    assert!(matches!(
        r,
        Err(RecordError::Parse(ParseError::WrongLength { got: 4, wanted: 5 }))
    ));
}
