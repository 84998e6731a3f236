use wormhole_core::framer::{Framer, FramerError, Output, RelayHandshakes};
use wormhole_core::wire::{frame_data, u32_to_be, Frame};

const INBOUND: &[u8] = b"psst v1 client\n";
const OUTBOUND: &[u8] = b"psst v1 server\n";

fn plain_framer() -> Framer {
    Framer::new(None, INBOUND.to_vec(), OUTBOUND.to_vec())
}

fn framer_at_frames() -> Framer {
    let mut f = plain_framer();
    let outs = f.process(wormhole_core::framer::Input::Connected).unwrap();
    assert!(outs.is_empty());
    let outs = f.data_received(INBOUND.to_vec()).unwrap();
    assert_eq!(outs.len(), 1);
    assert!(matches!(outs[0], Output::GotPrologue));
    f
}

#[test]
fn length_prefix_is_four_big_endian_bytes() {
    assert_eq!(u32_to_be(0x01020304), vec![1, 2, 3, 4]);
    let bytes = frame_data(Frame(vec![9, 8, 7]));
    assert_eq!(bytes, vec![0, 0, 0, 3, 9, 8, 7]);
}

#[test]
fn frame_roundtrip_in_one_call() {
    let mut f = framer_at_frames();
    let payload = vec![1, 2, 3, 4, 5];
    let outs = f.send_frame(Frame(payload.clone())).unwrap();
    let wire_bytes = match &outs[0] {
        Output::Send(b) => b.clone(),
        _ => panic!("expected Send"),
    };
    let outs = f.data_received(wire_bytes).unwrap();
    assert_eq!(outs.len(), 1);
    assert!(matches!(&outs[0], Output::GotFrame(g) if g.0 == payload));
}

#[test]
fn frame_roundtrip_byte_at_a_time() {
    let mut f = framer_at_frames();
    let payload = vec![42, 0, 255, 7];
    let wire_bytes = frame_data(Frame(payload.clone()));
    let mut got = Vec::new();
    for b in wire_bytes {
        let mut outs = f.data_received(vec![b]).unwrap();
        got.append(&mut outs);
    }
    assert_eq!(got.len(), 1);
    assert!(matches!(&got[0], Output::GotFrame(g) if g.0 == payload));
}

#[test]
fn two_frames_in_one_chunk_come_out_in_order() {
    let mut f = framer_at_frames();
    let mut bytes = frame_data(Frame(vec![1]));
    bytes.extend_from_slice(&frame_data(Frame(vec![2, 2])));
    let outs = f.data_received(bytes).unwrap();
    assert_eq!(outs.len(), 2);
    assert!(matches!(&outs[0], Output::GotFrame(g) if g.0 == vec![1]));
    assert!(matches!(&outs[1], Output::GotFrame(g) if g.0 == vec![2, 2]));
}

#[test]
fn empty_frame_roundtrips() {
    let mut f = framer_at_frames();
    let outs = f.data_received(frame_data(Frame(Vec::new()))).unwrap();
    assert_eq!(outs.len(), 1);
    assert!(matches!(&outs[0], Output::GotFrame(g) if g.0.is_empty()));
}

#[test]
fn prologue_match_confirms_even_split_oddly() {
    let mut f = plain_framer();
    f.process(wormhole_core::framer::Input::Connected).unwrap();
    let outs = f.data_received(INBOUND[..7].to_vec()).unwrap();
    assert!(outs.is_empty());
    let outs = f.data_received(INBOUND[7..].to_vec()).unwrap();
    assert_eq!(outs.len(), 1);
    assert!(matches!(outs[0], Output::GotPrologue));
}

#[test]
fn prologue_mismatch_reports_malformed_prefix() {
    let mut f = plain_framer();
    f.process(wormhole_core::framer::Input::Connected).unwrap();
    let garbage = vec![b'x'; INBOUND.len()];
    let r = f.data_received(garbage.clone());
    match r {
        Err(FramerError::BadPrologue(prefix)) => assert_eq!(prefix, garbage),
        other => panic!("expected BadPrologue, got {:?}", other),
    }
}

#[test]
fn short_garbage_with_newline_is_reported() {
    let mut f = plain_framer();
    f.process(wormhole_core::framer::Input::Connected).unwrap();
    let r = f.data_received(b"zz\n".to_vec());
    match r {
        Err(FramerError::BadPrologue(prefix)) => assert_eq!(prefix, b"zz\n".to_vec()),
        other => panic!("expected BadPrologue, got {:?}", other),
    }
}

#[test]
fn relay_handshake_runs_before_prologue() {
    let relay = RelayHandshakes {
        outbound: b"please relay\n".to_vec(),
        expected_inbound: b"ok\n".to_vec(),
    };
    let mut f = Framer::new(Some(relay), INBOUND.to_vec(), OUTBOUND.to_vec());
    let outs = f.process(wormhole_core::framer::Input::Connected).unwrap();
    assert_eq!(outs.len(), 1);
    assert!(matches!(&outs[0], Output::Send(b) if b == &b"please relay\n".to_vec()));
    let outs = f.data_received(b"ok\n".to_vec()).unwrap();
    assert_eq!(outs.len(), 1);
    assert!(matches!(&outs[0], Output::Send(b) if b == &OUTBOUND.to_vec()));
    let outs = f.data_received(INBOUND.to_vec()).unwrap();
    assert!(matches!(outs[0], Output::GotPrologue));
}

#[test]
fn relay_mismatch_reports_malformed_prefix() {
    let relay = RelayHandshakes {
        outbound: b"please relay\n".to_vec(),
        expected_inbound: b"ok\n".to_vec(),
    };
    let mut f = Framer::new(Some(relay), INBOUND.to_vec(), OUTBOUND.to_vec());
    f.process(wormhole_core::framer::Input::Connected).unwrap();
    let r = f.data_received(b"no\n".to_vec());
    match r {
        Err(FramerError::BadRelay(prefix)) => assert_eq!(prefix, b"no\n".to_vec()),
        other => panic!("expected BadRelay, got {:?}", other),
    }
}

#[test]
fn lifecycle_misuse_is_refused() {
    let mut f = plain_framer();
    assert!(matches!(
        f.data_received(vec![1]),
        Err(FramerError::NotYetConnected)
    ));
    assert!(matches!(
        f.send_frame(Frame(vec![1])),
        Err(FramerError::NotYetConnected)
    ));
    f.process(wormhole_core::framer::Input::Connected).unwrap();
    assert!(matches!(
        f.send_frame(Frame(vec![1])),
        Err(FramerError::NotReadyForFrames)
    ));
    let r = f.process(wormhole_core::framer::Input::Connected);
    assert!(matches!(r, Err(FramerError::AlreadyConnected)));
}

#[test]
fn disconnect_is_not_honoured_twice() {
    let mut f = plain_framer();
    f.process(wormhole_core::framer::Input::Connected).unwrap();
    let outs = f.disconnected().unwrap();
    assert_eq!(outs.len(), 1);
    assert!(matches!(outs[0], Output::Disconnected));
    assert!(matches!(
        f.disconnected(),
        Err(FramerError::AlreadyDisconnected)
    ));
    assert!(matches!(
        f.data_received(vec![1]),
        Err(FramerError::AlreadyDisconnected)
    ));
}
