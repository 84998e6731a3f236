use wormhole_core::subchannel::{
    SubChannel, SubChannelError, SubChannelEvent, SubChannelOutput, SubChannelState,
};

#[test]
fn local_close_then_remote_close_runs_to_closed() {
    let mut sc = SubChannel::new(7);
    assert_eq!(sc.scid(), 7);
    assert_eq!(sc.current_state(), SubChannelState::Open);

    let outs = sc.process(SubChannelEvent::LocalData(vec![1, 2])).unwrap();
    assert_eq!(outs.len(), 1);
    assert!(matches!(&outs[0], SubChannelOutput::SendDataRecord(d) if d == &vec![1, 2]));
    assert_eq!(sc.current_state(), SubChannelState::Open);

    let outs = sc.process(SubChannelEvent::LocalClose).unwrap();
    assert_eq!(outs.len(), 1);
    assert!(matches!(outs[0], SubChannelOutput::SendCloseRecord));
    assert_eq!(sc.current_state(), SubChannelState::Closing);

    // already closing: the remote close is not answered again, only
    // signalled to the application
    let outs = sc.process(SubChannelEvent::RemoteClose).unwrap();
    assert_eq!(outs.len(), 1);
    assert!(matches!(outs[0], SubChannelOutput::ConnectionLost));
    assert_eq!(sc.current_state(), SubChannelState::Closed);
}

#[test]
fn remote_close_alone_answers_and_signals() {
    let mut sc = SubChannel::new(1);
    let outs = sc.process(SubChannelEvent::RemoteClose).unwrap();
    assert_eq!(outs.len(), 2);
    assert!(matches!(outs[0], SubChannelOutput::SendCloseRecord));
    assert!(matches!(outs[1], SubChannelOutput::ConnectionLost));
    assert_eq!(sc.current_state(), SubChannelState::Closed);
}

#[test]
fn remote_data_is_delivered_while_open_and_closing() {
    let mut sc = SubChannel::new(2);
    let outs = sc.process(SubChannelEvent::RemoteData(vec![9])).unwrap();
    assert!(matches!(&outs[0], SubChannelOutput::DeliverData(d) if d == &vec![9]));
    sc.process(SubChannelEvent::LocalClose).unwrap();
    let outs = sc.process(SubChannelEvent::RemoteData(vec![8])).unwrap();
    assert!(matches!(&outs[0], SubChannelOutput::DeliverData(d) if d == &vec![8]));
}

#[test]
fn local_writes_after_closing_are_refused() {
    let mut sc = SubChannel::new(3);
    sc.process(SubChannelEvent::LocalClose).unwrap();
    let r = sc.process(SubChannelEvent::LocalData(vec![1]));
    assert!(matches!(r, Err(SubChannelError::WriteAfterClose)));
    let r = sc.process(SubChannelEvent::LocalClose);
    assert!(matches!(r, Err(SubChannelError::WriteAfterClose)));
    assert_eq!(sc.current_state(), SubChannelState::Closing);
}

#[test]
fn closed_subchannel_rejects_every_event() {
    let mut sc = SubChannel::new(4);
    sc.process(SubChannelEvent::RemoteClose).unwrap();
    let r = sc.process(SubChannelEvent::RemoteData(vec![1]));
    assert!(matches!(r, Err(SubChannelError::AlreadyClosed)));
    let r = sc.process(SubChannelEvent::RemoteClose);
    assert!(matches!(r, Err(SubChannelError::AlreadyClosed)));
    let r = sc.process(SubChannelEvent::LocalData(vec![1]));
    assert!(matches!(r, Err(SubChannelError::AlreadyClosed)));
    let r = sc.process(SubChannelEvent::LocalClose);
    assert!(matches!(r, Err(SubChannelError::AlreadyClosed)));
    assert_eq!(sc.current_state(), SubChannelState::Closed);
}
