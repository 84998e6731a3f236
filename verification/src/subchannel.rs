//! Subchannel lifecycle: one logical stream multiplexed over the
//! encrypted connection, with independent open/close semantics. Data
//! still flows in from the peer while a local close is waiting for its
//! answer.

use vstd::prelude::*;

verus! {

/// Where a subchannel stands. `Closing` is entered only by a local
/// close and still accepts remote data until the matching remote
/// close arrives; `Closed` is terminal.
#[derive(Clone, Copy, PartialEq, Eq, Structural, Debug)]
pub enum SubChannelState {
    Open,
    Closing,
    Closed,
}

/// What the router feeds a subchannel: data or a close, from the
/// local application or from the remote peer.
#[derive(Debug)]
pub enum SubChannelEvent {
    RemoteData(Vec<u8>),
    RemoteClose,
    LocalData(Vec<u8>),
    LocalClose,
}

/// What a subchannel asks of its surroundings: send a data or close
/// record to the peer, hand received data to the application, or tell
/// the application the stream is gone.
#[derive(Debug)]
pub enum SubChannelOutput {
    SendDataRecord(Vec<u8>),
    SendCloseRecord,
    DeliverData(Vec<u8>),
    ConnectionLost,
}

/// A subchannel output with its payload as a byte sequence.
pub enum SubChannelAction {
    SendDataRecord(Seq<u8>),
    SendCloseRecord,
    DeliverData(Seq<u8>),
    ConnectionLost,
}

impl View for SubChannelOutput {
    type V = SubChannelAction;

    open spec fn view(&self) -> SubChannelAction {
        match self {
            SubChannelOutput::SendDataRecord(d) => SubChannelAction::SendDataRecord(d@),
            SubChannelOutput::SendCloseRecord => SubChannelAction::SendCloseRecord,
            SubChannelOutput::DeliverData(d) => SubChannelAction::DeliverData(d@),
            SubChannelOutput::ConnectionLost => SubChannelAction::ConnectionLost,
        }
    }
}

/// The outputs of a call, each with its payload as a sequence.
pub open spec fn acts(outs: Seq<SubChannelOutput>) -> Seq<SubChannelAction> {
    outs.map_values(|o: SubChannelOutput| o@)
}

/// Why a subchannel refused an event.
#[derive(Clone, Copy, PartialEq, Eq, Structural, Debug)]
pub enum SubChannelError {
    /// The local side wrote to or closed a subchannel that is already
    /// closing or closed.
    WriteAfterClose,
    /// An event reached a closed subchannel; it should have been
    /// dropped from the router's table.
    AlreadyClosed,
}

/// One logical stream over the encrypted connection, identified by a
/// numeric id.
pub struct SubChannel {
    scid: u32,
    state: SubChannelState,
}

impl SubChannel {
    /// The subchannel's id.
    pub closed spec fn spec_scid(&self) -> u32 {
        self.scid
    }

    /// The subchannel's current lifecycle state.
    pub closed spec fn spec_state(&self) -> SubChannelState {
        self.state
    }

    /// A fresh, open subchannel for the given id.
    pub fn new(scid: u32) -> (r: SubChannel)
        ensures
            r.spec_scid() == scid,
            r.spec_state() == SubChannelState::Open,
    {
        SubChannel { scid, state: SubChannelState::Open }
    }

    /// The subchannel's id, as the router keys it.
    pub fn scid(&self) -> (r: u32)
        ensures
            r == self.spec_scid(),
    {
        self.scid
    }

    /// The subchannel's current lifecycle state.
    pub fn current_state(&self) -> (r: SubChannelState)
        ensures
            r == self.spec_state(),
    {
        self.state
    }

    /// One subchannel transition. Local data is sent while `Open`;
    /// remote data is delivered while `Open` or `Closing`; a local
    /// close sends a close record and waits in `Closing`; a remote
    /// close is answered with a close record when the local side had
    /// not closed yet, and either way ends the stream with a
    /// connection-lost signal. Local writes after closing, and any
    /// event on a closed subchannel, are refused with the subchannel
    /// unchanged.
    pub fn process(&mut self, event: SubChannelEvent) -> (r: Result<
        Vec<SubChannelOutput>,
        SubChannelError,
    >)
        ensures
            final(self).spec_scid() == old(self).spec_scid(),
            match old(self).spec_state() {
                SubChannelState::Open => match event {
                    SubChannelEvent::LocalData(data) => (r matches Ok(outs) && acts(outs@)
                        == seq![SubChannelAction::SendDataRecord(data@)]) && final(self).spec_state() == SubChannelState::Open,
                    SubChannelEvent::RemoteData(data) => (r matches Ok(outs) && acts(outs@)
                        == seq![SubChannelAction::DeliverData(data@)]) && final(self).spec_state()
                        == SubChannelState::Open,
                    SubChannelEvent::LocalClose => (r matches Ok(outs) && acts(outs@) == seq![
                        SubChannelAction::SendCloseRecord,
                    ]) && final(self).spec_state() == SubChannelState::Closing,
                    SubChannelEvent::RemoteClose => (r matches Ok(outs) && acts(outs@) == seq![
                        SubChannelAction::SendCloseRecord,
                        SubChannelAction::ConnectionLost,
                    ]) && final(self).spec_state() == SubChannelState::Closed,
                },
                SubChannelState::Closing => match event {
                    SubChannelEvent::RemoteData(data) => (r matches Ok(outs) && acts(outs@)
                        == seq![SubChannelAction::DeliverData(data@)]) && final(self).spec_state()
                        == SubChannelState::Closing,
                    SubChannelEvent::RemoteClose => (r matches Ok(outs) && acts(outs@) == seq![
                        SubChannelAction::ConnectionLost,
                    ]) && final(self).spec_state() == SubChannelState::Closed,
                    _ => (r matches Err(e) && e == SubChannelError::WriteAfterClose) && final(self).spec_state() == SubChannelState::Closing,
                },
                SubChannelState::Closed => (r matches Err(e) && e
                    == SubChannelError::AlreadyClosed) && final(self).spec_state()
                    == SubChannelState::Closed,
            },
    {
        match self.state {
            SubChannelState::Open => match event {
                SubChannelEvent::LocalData(data) => {
                    let ghost dv = data@;
                    let mut outs: Vec<SubChannelOutput> = Vec::new();
                    outs.push(SubChannelOutput::SendDataRecord(data));
                    assert(acts(outs@) =~= seq![SubChannelAction::SendDataRecord(dv)]);
                    Ok(outs)
                },
                SubChannelEvent::RemoteData(data) => {
                    let ghost dv = data@;
                    let mut outs: Vec<SubChannelOutput> = Vec::new();
                    outs.push(SubChannelOutput::DeliverData(data));
                    assert(acts(outs@) =~= seq![SubChannelAction::DeliverData(dv)]);
                    Ok(outs)
                },
                SubChannelEvent::LocalClose => {
                    self.state = SubChannelState::Closing;
                    let mut outs: Vec<SubChannelOutput> = Vec::new();
                    outs.push(SubChannelOutput::SendCloseRecord);
                    assert(acts(outs@) =~= seq![SubChannelAction::SendCloseRecord]);
                    Ok(outs)
                },
                SubChannelEvent::RemoteClose => {
                    self.state = SubChannelState::Closed;
                    let mut outs: Vec<SubChannelOutput> = Vec::new();
                    outs.push(SubChannelOutput::SendCloseRecord);
                    outs.push(SubChannelOutput::ConnectionLost);
                    assert(acts(outs@) =~= seq![
                        SubChannelAction::SendCloseRecord,
                        SubChannelAction::ConnectionLost,
                    ]);
                    Ok(outs)
                },
            },
            SubChannelState::Closing => match event {
                SubChannelEvent::RemoteData(data) => {
                    let ghost dv = data@;
                    let mut outs: Vec<SubChannelOutput> = Vec::new();
                    outs.push(SubChannelOutput::DeliverData(data));
                    assert(acts(outs@) =~= seq![SubChannelAction::DeliverData(dv)]);
                    Ok(outs)
                },
                SubChannelEvent::RemoteClose => {
                    self.state = SubChannelState::Closed;
                    let mut outs: Vec<SubChannelOutput> = Vec::new();
                    outs.push(SubChannelOutput::ConnectionLost);
                    assert(acts(outs@) =~= seq![SubChannelAction::ConnectionLost]);
                    Ok(outs)
                },
                SubChannelEvent::LocalData(_) => Err(SubChannelError::WriteAfterClose),
                SubChannelEvent::LocalClose => Err(SubChannelError::WriteAfterClose),
            },
            SubChannelState::Closed => Err(SubChannelError::AlreadyClosed),
        }
    }
}

} // verus!
