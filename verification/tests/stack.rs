//! The stack wired together: records encoded by one side travel as
//! length-prefixed frames over an in-memory wire and come out as the
//! same records on the other side.

use wormhole_core::framer::{Framer, Input as FramerInput, Output as FramerOutput};
use wormhole_core::record::{
    Input as RecordInput, Output as RecordOutput, Record, RecordHandler, Role, Seqnum,
    SubchannelID,
};
use wormhole_core::wire::Frame;

const INBOUND: &[u8] = b"psst v1 client\n";
const OUTBOUND: &[u8] = b"psst v1 server\n";

fn framer_at_frames() -> Framer {
    let mut f = Framer::new(None, INBOUND.to_vec(), OUTBOUND.to_vec());
    f.process(FramerInput::Connected).unwrap();
    let outs = f.data_received(INBOUND.to_vec()).unwrap();
    assert!(matches!(outs[0], FramerOutput::GotPrologue));
    f
}

fn only_sent_frame(outs: Vec<RecordOutput>) -> Frame {
    assert_eq!(outs.len(), 1);
    match outs.into_iter().next().unwrap() {
        RecordOutput::SendFrame(f) => f,
        other => panic!("expected SendFrame, got {:?}", other),
    }
}

/// Wraps `frame` on the sender's framer, moves the bytes over the
/// wire, and unwraps them on the receiver's framer.
fn over_the_wire(sender: &mut Framer, receiver: &mut Framer, frame: Frame) -> Frame {
    let outs = sender.send_frame(frame).unwrap();
    let bytes = match outs.into_iter().next().unwrap() {
        FramerOutput::Send(b) => b,
        other => panic!("expected Send, got {:?}", other),
    };
    let outs = receiver.data_received(bytes).unwrap();
    assert_eq!(outs.len(), 1);
    match outs.into_iter().next().unwrap() {
        FramerOutput::GotFrame(f) => f,
        other => panic!("expected GotFrame, got {:?}", other),
    }
}

#[test]
fn a_record_crosses_the_whole_stack_intact() {
    let mut leader_framer = framer_at_frames();
    let mut follower_framer = framer_at_frames();
    let mut leader = RecordHandler::new(Role::Leader);
    let mut follower = RecordHandler::new(Role::Follower);

    // the prologue-confirming cycle: the leader produces its
    // handshake message, the follower produces nothing yet
    let handshake = only_sent_frame(leader.process(RecordInput::FrameReceived(Frame(Vec::new()))).unwrap());
    assert!(follower
        .process(RecordInput::FrameReceived(Frame(Vec::new())))
        .unwrap()
        .is_empty());

    // the leader's handshake reaches the follower over framed bytes;
    // the follower replies with its own
    let arrived = over_the_wire(&mut leader_framer, &mut follower_framer, handshake);
    let reply = only_sent_frame(follower.process(RecordInput::FrameReceived(arrived)).unwrap());

    // the reply completes the leader's handshake quietly
    let arrived = over_the_wire(&mut follower_framer, &mut leader_framer, reply);
    assert!(leader.process(RecordInput::FrameReceived(arrived)).unwrap().is_empty());

    // now a data record crosses the whole stack unchanged
    let record = Record::Data(SubchannelID(3), Seqnum(1), vec![0xde, 0xad, 0xbe, 0xef]);
    let framed = only_sent_frame(
        leader.process(RecordInput::SendRecord(record.clone())).unwrap(),
    );
    let arrived = over_the_wire(&mut leader_framer, &mut follower_framer, framed);
    let outs = follower.process(RecordInput::FrameReceived(arrived)).unwrap();
    assert_eq!(outs.len(), 1);
    assert!(matches!(&outs[0], RecordOutput::GotRecord(r) if *r == record));
}
