//! Connection framing: consumes the raw byte stream (after an optional
//! relay-server handshake and a fixed prologue exchange) and cuts it
//! into discrete length-prefixed frames, and wraps outgoing frames for
//! the wire.

use vstd::prelude::*;
use crate::wire::{Frame, from_be4, frame_bytes, u32_from_be};
use vstd::math::min;

verus! {

/// Where the framer stands: nothing yet, the optional relay
/// handshake, the prologue exchange, steady frame traffic, or torn
/// down.
#[derive(Clone, Copy, PartialEq, Eq, Structural, Debug)]
pub enum FramerState {
    NotConnected,
    WantRelay,
    WantPrologue,
    WantFrame,
    Disconnected,
}

/// The byte strings exchanged with a relay server before the
/// prologue: what to send on connect, and the exact inbound marker
/// that must come back.
#[derive(Clone, PartialEq, Eq, Debug)]
pub struct RelayHandshakes {
    pub outbound: Vec<u8>,
    pub expected_inbound: Vec<u8>,
}

/// The relay handshake strings as byte sequences.
pub struct RelayView {
    pub outbound: Seq<u8>,
    pub expected_inbound: Seq<u8>,
}

impl View for RelayHandshakes {
    type V = RelayView;

    open spec fn view(&self) -> RelayView {
        RelayView { outbound: self.outbound@, expected_inbound: self.expected_inbound@ }
    }
}

/// What the framer is fed: connection lifecycle notices, raw bytes off
/// the wire, or a frame to send.
#[derive(Debug)]
pub enum Input {
    Connected,
    Data(Vec<u8>),
    Disconnected,
    SendFrame(Frame),
}

/// What the framer hands back: bytes to write to the wire, the
/// prologue confirmation, a received frame, or the disconnect notice.
#[derive(Debug)]
pub enum Output {
    Send(Vec<u8>),
    GotPrologue,
    GotFrame(Frame),
    Disconnected,
}

/// A framer output with its byte payloads as sequences.
pub enum Action {
    Send(Seq<u8>),
    GotPrologue,
    GotFrame(Seq<u8>),
    Disconnected,
}

impl View for Output {
    type V = Action;

    open spec fn view(&self) -> Action {
        match self {
            Output::Send(d) => Action::Send(d@),
            Output::GotPrologue => Action::GotPrologue,
            Output::GotFrame(f) => Action::GotFrame(f@),
            Output::Disconnected => Action::Disconnected,
        }
    }
}

/// The outputs of a call, each with its payloads as sequences.
pub open spec fn acts(outs: Seq<Output>) -> Seq<Action> {
    outs.map_values(|o: Output| o@)
}

/// Why the framer refused an input or tore the connection down.
#[derive(Clone, PartialEq, Eq, Debug)]
pub enum FramerError {
    /// The bytes at hand cannot be the expected relay marker; the
    /// malformed prefix is carried for diagnostics.
    BadRelay(Vec<u8>),
    /// The bytes at hand cannot be the expected prologue; the
    /// malformed prefix is carried for diagnostics.
    BadPrologue(Vec<u8>),
    /// `connected` was called on a framer that already connected once.
    AlreadyConnected,
    /// Bytes, a frame or a disconnect arrived before `connected`.
    NotYetConnected,
    /// An input arrived after the framer was torn down.
    AlreadyDisconnected,
    /// A frame was handed in for sending before the prologue matched.
    NotReadyForFrames,
}

/// A framer error with its diagnostic prefix as a byte sequence.
pub enum FramerFault {
    BadRelay(Seq<u8>),
    BadPrologue(Seq<u8>),
    AlreadyConnected,
    NotYetConnected,
    AlreadyDisconnected,
    NotReadyForFrames,
}

impl View for FramerError {
    type V = FramerFault;

    open spec fn view(&self) -> FramerFault {
        match self {
            FramerError::BadRelay(p) => FramerFault::BadRelay(p@),
            FramerError::BadPrologue(p) => FramerFault::BadPrologue(p@),
            FramerError::AlreadyConnected => FramerFault::AlreadyConnected,
            FramerError::NotYetConnected => FramerFault::NotYetConnected,
            FramerError::AlreadyDisconnected => FramerFault::AlreadyDisconnected,
            FramerError::NotReadyForFrames => FramerFault::NotReadyForFrames,
        }
    }
}

/// The framer's fixed configuration: the optional relay handshake and
/// the two prologue marker strings.
pub struct FramerConfig {
    pub relay: Option<RelayView>,
    pub inbound_prologue: Seq<u8>,
    pub outbound_prologue: Seq<u8>,
}

/// What looking for an expected marker at the head of the buffer
/// yields: the marker is there, more bytes are needed, or the bytes
/// can no longer be the marker (with the malformed prefix).
pub enum MatchResult {
    Found,
    Waiting,
    Bad(Seq<u8>),
}

/// Whether the buffer starts with the expected marker. While the bytes
/// so far are consistent with the marker the matcher waits; once they
/// are not, it still waits for a newline or for the marker's length
/// before giving up, so the error can carry the whole malformed
/// prefix.
pub open spec fn match_expected(buf: Seq<u8>, expected: Seq<u8>) -> MatchResult {
    if buf.len() >= expected.len() && buf.take(expected.len() as int) == expected {
        MatchResult::Found
    } else if buf.len() <= expected.len() && expected.take(buf.len() as int) == buf {
        MatchResult::Waiting
    } else if buf.contains(10u8) || buf.len() >= expected.len() {
        MatchResult::Bad(buf.take(min(expected.len() as int, buf.len() as int)))
    } else {
        MatchResult::Waiting
    }
}

/// Where a run of the framer's consumption loop comes to rest: the
/// state and buffered remainder it stops in, and the outputs it
/// produced along the way, in order.
#[verifier::ext_equal]
pub struct Consumed {
    pub state: FramerState,
    pub buffer: Seq<u8>,
    pub outputs: Seq<Action>,
}

/// Prefixes outputs onto the outcome of the rest of a consumption
/// run; an error throws accumulated outputs away.
pub open spec fn prepend(outs: Seq<Action>, r: Result<Consumed, FramerFault>) -> Result<
    Consumed,
    FramerFault,
> {
    match r {
        Ok(c) => Ok(Consumed { state: c.state, buffer: c.buffer, outputs: outs + c.outputs }),
        Err(e) => Err(e),
    }
}

/// How far a state is from the steady frame-parsing state.
pub open spec fn state_rank(state: FramerState) -> nat {
    match state {
        FramerState::WantRelay => 2nat,
        FramerState::WantPrologue => 1nat,
        _ => 0nat,
    }
}

/// The framer's whole consumption loop as one function: starting in
/// `state` with `buf` buffered, repeatedly consume the relay marker,
/// the prologue, then length-prefixed frames, until no further
/// progress is possible or the bytes are malformed. Total over
/// arbitrary chunking: whatever is incomplete stays buffered.
pub open spec fn consume(cfg: FramerConfig, state: FramerState, buf: Seq<u8>) -> Result<
    Consumed,
    FramerFault,
>
    decreases state_rank(state), buf.len(),
{
    if state == FramerState::WantRelay {
        match cfg.relay {
            Some(relay) => match match_expected(buf, relay.expected_inbound) {
                MatchResult::Found => prepend(
                    seq![Action::Send(cfg.outbound_prologue)],
                    consume(
                        cfg,
                        FramerState::WantPrologue,
                        buf.skip(relay.expected_inbound.len() as int),
                    ),
                ),
                MatchResult::Waiting => Ok(
                    Consumed { state, buffer: buf, outputs: Seq::empty() },
                ),
                MatchResult::Bad(p) => Err(FramerFault::BadRelay(p)),
            },
            None => Ok(Consumed { state, buffer: buf, outputs: Seq::empty() }),
        }
    } else if state == FramerState::WantPrologue {
        match match_expected(buf, cfg.inbound_prologue) {
            MatchResult::Found => prepend(
                seq![Action::GotPrologue],
                consume(cfg, FramerState::WantFrame, buf.skip(cfg.inbound_prologue.len() as int)),
            ),
            MatchResult::Waiting => Ok(Consumed { state, buffer: buf, outputs: Seq::empty() }),
            MatchResult::Bad(p) => Err(FramerFault::BadPrologue(p)),
        }
    } else if state == FramerState::WantFrame {
        if buf.len() < 4 {
            Ok(Consumed { state, buffer: buf, outputs: Seq::empty() })
        } else {
            let n = from_be4(buf.take(4)) as int;
            if buf.len() < 4 + n {
                Ok(Consumed { state, buffer: buf, outputs: Seq::empty() })
            } else {
                prepend(
                    seq![Action::GotFrame(buf.subrange(4, 4 + n))],
                    consume(cfg, FramerState::WantFrame, buf.skip(4 + n)),
                )
            }
        }
    } else {
        Ok(Consumed { state, buffer: buf, outputs: Seq::empty() })
    }
}

/// Whether the buffer holds a newline byte.
fn contains_newline(v: &Vec<u8>) -> (r: bool)
    ensures
        r == v@.contains(10u8),
{
    let n = v.len();
    let mut i: usize = 0;
    while i < n
        invariant
            0 <= i <= n,
            n == v@.len(),
            forall|j: int| 0 <= j < i ==> v@[j] != 10u8,
        decreases n - i,
    {
        if v[i] == 10u8 {
            assert(v@[i as int] == 10u8);
            return true;
        }
        i = i + 1;
    }
    assert(!v@.contains(10u8));
    false
}

/// Copies the first `k` bytes of the buffer.
fn take_prefix(v: &Vec<u8>, k: usize) -> (r: Vec<u8>)
    requires
        k <= v@.len(),
    ensures
        r@ == v@.take(k as int),
{
    let mut r: Vec<u8> = Vec::new();
    let mut i: usize = 0;
    while i < k
        invariant
            0 <= i <= k,
            k <= v@.len(),
            r@ =~= v@.take(i as int),
        decreases k - i,
    {
        r.push(v[i]);
        i = i + 1;
    }
    assert(r@ =~= v@.take(k as int));
    r
}

/// Copies the buffer with its first `k` bytes removed.
fn drop_prefix(v: &Vec<u8>, k: usize) -> (r: Vec<u8>)
    requires
        k <= v@.len(),
    ensures
        r@ == v@.skip(k as int),
{
    let n = v.len();
    let mut r: Vec<u8> = Vec::new();
    let mut i: usize = k;
    while i < n
        invariant
            k <= i <= n,
            n == v@.len(),
            r@ =~= v@.subrange(k as int, i as int),
        decreases n - i,
    {
        r.push(v[i]);
        i = i + 1;
    }
    assert(r@ =~= v@.skip(k as int));
    r
}

/// The matcher's executable outcome: the marker was consumed off the
/// buffer, or more bytes are needed.
#[derive(Clone, Copy, PartialEq, Eq, Structural, Debug)]
enum Expected {
    Found,
    Waiting,
}

/// Looks for the expected marker at the head of the buffer, consuming
/// it when it is there in full; a hopeless buffer comes back as the
/// malformed prefix.
fn get_expected(buffer: &mut Vec<u8>, expected: &Vec<u8>) -> (r: Result<Expected, Vec<u8>>)
    ensures
        match match_expected(old(buffer)@, expected@) {
            MatchResult::Found => r == Ok::<Expected, Vec<u8>>(Expected::Found) && final(buffer)@
                == old(buffer)@.skip(expected@.len() as int),
            MatchResult::Waiting => r == Ok::<Expected, Vec<u8>>(Expected::Waiting)
                && final(buffer)@ == old(buffer)@,
            MatchResult::Bad(p) => (r matches Err(v) && v@ == p)
                && final(buffer)@ == old(buffer)@,
        },
{
    let lb = buffer.len();
    let le = expected.len();
    let common = if lb < le {
        lb
    } else {
        le
    };
    let mut i: usize = 0;
    let mut mismatch = false;
    while i < common && !mismatch
        invariant
            0 <= i <= common,
            common == min(lb as int, le as int),
            lb == buffer@.len(),
            le == expected@.len(),
            !mismatch ==> forall|j: int| 0 <= j < i ==> buffer@[j] == expected@[j],
            mismatch ==> i < common && buffer@[i as int] != expected@[i as int],
        decreases common - i, (if mismatch { 0int } else { 1int }),
    {
        if buffer[i] != expected[i] {
            mismatch = true;
        } else {
            i = i + 1;
        }
    }
    if !mismatch && le <= lb {
        // the whole marker is there: consume it
        assert(buffer@.take(le as int) =~= expected@);
        let rest = drop_prefix(buffer, le);
        *buffer = rest;
        Ok(Expected::Found)
    } else if !mismatch {
        // consistent so far, just waiting for the rest
        assert(expected@.take(lb as int) =~= buffer@);
        Ok(Expected::Waiting)
    } else {
        // off track: complain once a newline appears in the garbage or
        // enough bytes have accumulated to cover the marker
        assert(buffer@[i as int] != expected@[i as int]);
        assert(!(buffer@.len() >= expected@.len() && buffer@.take(expected@.len() as int)
            == expected@)) by {
            if buffer@.len() >= expected@.len() && buffer@.take(expected@.len() as int)
                == expected@ {
                assert(buffer@.take(expected@.len() as int)[i as int] == buffer@[i as int]);
            }
        }
        assert(!(buffer@.len() <= expected@.len() && expected@.take(buffer@.len() as int)
            == buffer@)) by {
            if buffer@.len() <= expected@.len() && expected@.take(buffer@.len() as int)
                == buffer@ {
                assert(expected@.take(buffer@.len() as int)[i as int] == expected@[i as int]);
            }
        }
        if contains_newline(buffer) || lb >= le {
            Err(take_prefix(buffer, common))
        } else {
            Ok(Expected::Waiting)
        }
    }
}

/// Copies a byte buffer.
fn copy_bytes(v: &Vec<u8>) -> (r: Vec<u8>)
    ensures
        r@ == v@,
{
    let r = take_prefix(v, v.len());
    assert(v@.take(v@.len() as int) =~= v@);
    r
}

/// Mapping the outputs of two calls one after the other is the two
/// mappings one after the other.
pub proof fn lemma_acts_add(s1: Seq<Output>, s2: Seq<Output>)
    ensures
        acts(s1 + s2) == acts(s1) + acts(s2),
{
    assert(acts(s1 + s2) =~= acts(s1) + acts(s2)) by {
        assert forall|i: int| 0 <= i < (s1 + s2).len() implies acts((s1 + s2))[i] == (acts(s1)
            + acts(s2))[i] by {
            if i < s1.len() {
            } else {
            }
        }
    }
}

/// Prefixing two output runs one after the other is prefixing their
/// concatenation.
pub proof fn lemma_prepend_add(a: Seq<Action>, b: Seq<Action>, r: Result<Consumed, FramerFault>)
    ensures
        prepend(a + b, r) == prepend(a, prepend(b, r)),
{
    match r {
        Ok(c) => {
            assert(a + b + c.outputs =~= a + (b + c.outputs));
            assert(Consumed { state: c.state, buffer: c.buffer, outputs: a + b + c.outputs }
                =~= Consumed { state: c.state, buffer: c.buffer, outputs: a + (b + c.outputs) });
        },
        Err(_) => {},
    }
}

/// One step of the consumption loop: what the framer does with the
/// buffer exactly once in its current state — nothing yet, one
/// consumed item with its outputs and successor state, or a framing
/// error.
pub enum Step {
    Stuck,
    Next(FramerState, Seq<u8>, Seq<Action>),
    Failed(FramerFault),
}

/// The single step that `consume` repeats.
pub open spec fn consume_step(cfg: FramerConfig, state: FramerState, buf: Seq<u8>) -> Step {
    if state == FramerState::WantRelay {
        match cfg.relay {
            Some(relay) => match match_expected(buf, relay.expected_inbound) {
                MatchResult::Found => Step::Next(
                    FramerState::WantPrologue,
                    buf.skip(relay.expected_inbound.len() as int),
                    seq![Action::Send(cfg.outbound_prologue)],
                ),
                MatchResult::Waiting => Step::Stuck,
                MatchResult::Bad(p) => Step::Failed(FramerFault::BadRelay(p)),
            },
            None => Step::Stuck,
        }
    } else if state == FramerState::WantPrologue {
        match match_expected(buf, cfg.inbound_prologue) {
            MatchResult::Found => Step::Next(
                FramerState::WantFrame,
                buf.skip(cfg.inbound_prologue.len() as int),
                seq![Action::GotPrologue],
            ),
            MatchResult::Waiting => Step::Stuck,
            MatchResult::Bad(p) => Step::Failed(FramerFault::BadPrologue(p)),
        }
    } else if state == FramerState::WantFrame {
        if buf.len() < 4 {
            Step::Stuck
        } else {
            let n = from_be4(buf.take(4)) as int;
            if buf.len() < 4 + n {
                Step::Stuck
            } else {
                Step::Next(
                    FramerState::WantFrame,
                    buf.skip(4 + n),
                    seq![Action::GotFrame(buf.subrange(4, 4 + n))],
                )
            }
        }
    } else {
        Step::Stuck
    }
}

/// `consume` is the transitive closure of `consume_step`: a stuck
/// state is its own resting point, a step's outputs come first, and a
/// failed step fails the run.
pub proof fn lemma_consume_unfold(cfg: FramerConfig, state: FramerState, buf: Seq<u8>)
    ensures
        match consume_step(cfg, state, buf) {
            Step::Stuck => consume(cfg, state, buf) == Ok::<Consumed, FramerFault>(
                Consumed { state, buffer: buf, outputs: Seq::empty() },
            ),
            Step::Next(s2, b2, o) => consume(cfg, state, buf) == prepend(o, consume(cfg, s2, b2)),
            Step::Failed(e) => consume(cfg, state, buf) == Err::<Consumed, FramerFault>(e),
        },
{
}

/// Consumes raw connection bytes into framing events: the optional
/// relay marker, then the prologue, then length-prefixed frames, each
/// confirmed or collected as bytes arrive in arbitrary chunks.
pub struct Framer {
    state: FramerState,
    buffer: Vec<u8>,
    relay_handshakes: Option<RelayHandshakes>,
    inbound_prologue: Vec<u8>,
    outbound_prologue: Vec<u8>,
}

impl Framer {
    /// The framer's fixed configuration.
    pub closed spec fn cfg(&self) -> FramerConfig {
        FramerConfig {
            relay: match self.relay_handshakes {
                Some(rh) => Some(rh@),
                None => None,
            },
            inbound_prologue: self.inbound_prologue@,
            outbound_prologue: self.outbound_prologue@,
        }
    }

    /// The framer's current state.
    pub closed spec fn spec_state(&self) -> FramerState {
        self.state
    }

    /// The bytes received but not yet consumed.
    pub closed spec fn spec_buffer(&self) -> Seq<u8> {
        self.buffer@
    }

    /// The relay-handshake state is only ever entered when a relay
    /// handshake was configured.
    pub closed spec fn wf(&self) -> bool {
        self.state == FramerState::WantRelay ==> self.relay_handshakes is Some
    }

    /// A fresh framer, not yet connected, with nothing buffered.
    pub fn new(
        relay_handshakes: Option<RelayHandshakes>,
        inbound_prologue: Vec<u8>,
        outbound_prologue: Vec<u8>,
    ) -> (r: Framer)
        ensures
            r.wf(),
            r.spec_state() == FramerState::NotConnected,
            r.spec_buffer() == Seq::<u8>::empty(),
            r.cfg().inbound_prologue == inbound_prologue@,
            r.cfg().outbound_prologue == outbound_prologue@,
            match relay_handshakes {
                Some(rh) => r.cfg().relay matches Some(rv) && rv == rh@,
                None => r.cfg().relay is None,
            },
    {
        Framer {
            state: FramerState::NotConnected,
            buffer: Vec::new(),
            relay_handshakes,
            inbound_prologue,
            outbound_prologue,
        }
    }

    /// The transport is up. With a relay configured the framer sends
    /// the relay handshake and waits for its marker; otherwise it
    /// waits for the prologue directly. A second call is refused.
    pub fn connected(&mut self) -> (r: Result<Vec<Output>, FramerError>)
        requires
            old(self).wf(),
        ensures
            final(self).wf(),
            final(self).cfg() == old(self).cfg(),
            final(self).spec_buffer() == old(self).spec_buffer(),
            match old(self).spec_state() {
                FramerState::NotConnected => match old(self).cfg().relay {
                    Some(relay) => final(self).spec_state() == FramerState::WantRelay && (
                    r matches Ok(outs) && acts(outs@) == seq![Action::Send(relay.outbound)]),
                    None => final(self).spec_state() == FramerState::WantPrologue && (
                    r matches Ok(outs) && outs@.len() == 0),
                },
                _ => (r matches Err(e) && e@ == FramerFault::AlreadyConnected) && final(self).spec_state() == old(self).spec_state(),
            },
    {
        match self.state {
            FramerState::NotConnected => match &self.relay_handshakes {
                Some(rh) => {
                    let out_bytes = copy_bytes(&rh.outbound);
                    self.state = FramerState::WantRelay;
                    let mut outs: Vec<Output> = Vec::new();
                    outs.push(Output::Send(out_bytes));
                    assert(acts(outs@) =~= seq![Action::Send(old(self).cfg().relay->Some_0.outbound)]);
                    Ok(outs)
                },
                None => {
                    self.state = FramerState::WantPrologue;
                    Ok(Vec::new())
                },
            },
            _ => Err(FramerError::AlreadyConnected),
        }
    }

    /// The transport is gone: a disconnect event is emitted and the
    /// framer is torn down. Disconnecting before connecting, or a
    /// second time, is refused rather than honoured twice.
    pub fn disconnected(&mut self) -> (r: Result<Vec<Output>, FramerError>)
        requires
            old(self).wf(),
        ensures
            final(self).wf(),
            final(self).cfg() == old(self).cfg(),
            final(self).spec_buffer() == old(self).spec_buffer(),
            match old(self).spec_state() {
                FramerState::NotConnected => (r matches Err(e) && e@
                    == FramerFault::NotYetConnected) && final(self).spec_state() == old(self).spec_state(),
                FramerState::Disconnected => (r matches Err(e) && e@
                    == FramerFault::AlreadyDisconnected) && final(self).spec_state() == old(self).spec_state(),
                _ => (r matches Ok(outs) && acts(outs@) == seq![Action::Disconnected]) && final(self).spec_state() == FramerState::Disconnected,
            },
    {
        match self.state {
            FramerState::NotConnected => Err(FramerError::NotYetConnected),
            FramerState::Disconnected => Err(FramerError::AlreadyDisconnected),
            _ => {
                self.state = FramerState::Disconnected;
                let mut outs: Vec<Output> = Vec::new();
                outs.push(Output::Disconnected);
                assert(acts(outs@) =~= seq![Action::Disconnected]);
                Ok(outs)
            },
        }
    }

    /// Wraps a frame for the wire: its payload length as four
    /// big-endian bytes, then the payload. Valid only while frames
    /// are flowing.
    pub fn send_frame(&mut self, frame: Frame) -> (r: Result<Vec<Output>, FramerError>)
        requires
            old(self).wf(),
            frame@.len() <= u32::MAX,
        ensures
            final(self).wf(),
            final(self).cfg() == old(self).cfg(),
            final(self).spec_buffer() == old(self).spec_buffer(),
            final(self).spec_state() == old(self).spec_state(),
            match old(self).spec_state() {
                FramerState::WantFrame => r matches Ok(outs) && acts(outs@) == seq![
                    Action::Send(frame_bytes(frame@)),
                ],
                FramerState::NotConnected => r matches Err(e) && e@
                    == FramerFault::NotYetConnected,
                FramerState::Disconnected => r matches Err(e) && e@
                    == FramerFault::AlreadyDisconnected,
                _ => r matches Err(e) && e@ == FramerFault::NotReadyForFrames,
            },
    {
        match self.state {
            FramerState::NotConnected => Err(FramerError::NotYetConnected),
            FramerState::WantRelay => Err(FramerError::NotReadyForFrames),
            FramerState::WantPrologue => Err(FramerError::NotReadyForFrames),
            FramerState::WantFrame => {
                let ghost payload = frame@;
                let data = crate::wire::frame_data(frame);
                let mut outs: Vec<Output> = Vec::new();
                outs.push(Output::Send(data));
                assert(acts(outs@) =~= seq![Action::Send(frame_bytes(payload))]);
                Ok(outs)
            },
            FramerState::Disconnected => Err(FramerError::AlreadyDisconnected),
        }
    }

    /// Cuts one length-prefixed frame off the head of the buffer, if
    /// it is there in full.
    fn parse_frame(&mut self) -> (r: Option<Frame>)
        ensures
            final(self).cfg() == old(self).cfg(),
            final(self).spec_state() == old(self).spec_state(),
            ({
                let b = old(self).spec_buffer();
                if b.len() < 4 {
                    r is None && final(self).spec_buffer() == b
                } else {
                    let n = from_be4(b.take(4)) as int;
                    if b.len() < 4 + n {
                        r is None && final(self).spec_buffer() == b
                    } else {
                        (r matches Some(f) && f@ == b.subrange(4, 4 + n)) && final(self).spec_buffer() == b.skip(4 + n)
                    }
                }
            }),
    {
        let ghost b = self.buffer@;
        if self.buffer.len() < 4 {
            return None;
        }
        let n32 = u32_from_be(self.buffer[0], self.buffer[1], self.buffer[2], self.buffer[3]);
        proof {
            assert(seq![b[0], b[1], b[2], b[3]] =~= b.take(4));
        }
        let n = n32 as usize;
        if self.buffer.len() - 4 < n {
            return None;
        }
        // discard the length prefix, then peel off the frame
        let rest = drop_prefix(&self.buffer, 4);
        let payload = take_prefix(&rest, n);
        let newbuf = drop_prefix(&rest, n);
        self.buffer = newbuf;
        proof {
            assert(payload@ =~= b.subrange(4, 4 + n as int));
            assert(self.buffer@ =~= b.skip(4 + n as int));
        }
        Some(Frame(payload))
    }

    /// Makes at most one unit of progress on the buffer in the
    /// current state, exactly as `consume_step` says.
    fn parse_next(&mut self) -> (r: Result<Vec<Output>, FramerError>)
        requires
            old(self).wf(),
        ensures
            final(self).wf(),
            final(self).cfg() == old(self).cfg(),
            match consume_step(old(self).cfg(), old(self).spec_state(), old(self).spec_buffer()) {
                Step::Stuck => (r matches Ok(outs) && outs@.len() == 0) && final(self).spec_state()
                    == old(self).spec_state() && final(self).spec_buffer() == old(self).spec_buffer(),
                Step::Next(s2, b2, o) => (r matches Ok(outs) && acts(outs@) == o && outs@.len()
                    > 0) && final(self).spec_state() == s2 && final(self).spec_buffer() == b2,
                Step::Failed(e) => r matches Err(err) && err@ == e,
            },
    {
        match self.state {
            FramerState::WantRelay => {
                let step = match &self.relay_handshakes {
                    Some(rh) => get_expected(&mut self.buffer, &rh.expected_inbound),
                    None => Ok(Expected::Waiting),
                };
                match step {
                    Ok(Expected::Found) => {
                        self.state = FramerState::WantPrologue;
                        let out_bytes = copy_bytes(&self.outbound_prologue);
                        let mut outs: Vec<Output> = Vec::new();
                        outs.push(Output::Send(out_bytes));
                        assert(acts(outs@) =~= seq![
                            Action::Send(old(self).cfg().outbound_prologue),
                        ]);
                        Ok(outs)
                    },
                    Ok(Expected::Waiting) => Ok(Vec::new()),
                    Err(prefix) => Err(FramerError::BadRelay(prefix)),
                }
            },
            FramerState::WantPrologue => {
                match get_expected(&mut self.buffer, &self.inbound_prologue) {
                    Ok(Expected::Found) => {
                        self.state = FramerState::WantFrame;
                        let mut outs: Vec<Output> = Vec::new();
                        outs.push(Output::GotPrologue);
                        assert(acts(outs@) =~= seq![Action::GotPrologue]);
                        Ok(outs)
                    },
                    Ok(Expected::Waiting) => Ok(Vec::new()),
                    Err(prefix) => Err(FramerError::BadPrologue(prefix)),
                }
            },
            FramerState::WantFrame => {
                match self.parse_frame() {
                    Some(frame) => {
                        let ghost payload = frame@;
                        let mut outs: Vec<Output> = Vec::new();
                        outs.push(Output::GotFrame(frame));
                        assert(acts(outs@) =~= seq![Action::GotFrame(payload)]);
                        Ok(outs)
                    },
                    None => Ok(Vec::new()),
                }
            },
            _ => Ok(Vec::new()),
        }
    }

    /// Raw bytes arrived. They join the buffer, and the framer
    /// consumes relay marker, prologue and frames as far as the bytes
    /// at hand allow — exactly `consume` of the buffered and the new
    /// bytes together, however the stream was chunked. Bytes before
    /// `connected` or after `disconnected` are refused.
    pub fn data_received(&mut self, data: Vec<u8>) -> (r: Result<Vec<Output>, FramerError>)
        requires
            old(self).wf(),
        ensures
            final(self).wf(),
            final(self).cfg() == old(self).cfg(),
            ({
                let s0 = old(self).spec_state();
                if s0 == FramerState::NotConnected {
                    (r matches Err(e) && e@ == FramerFault::NotYetConnected) && final(self).spec_state() == s0 && final(self).spec_buffer() == old(self).spec_buffer()
                } else if s0 == FramerState::Disconnected {
                    (r matches Err(e) && e@ == FramerFault::AlreadyDisconnected) && final(self).spec_state() == s0 && final(self).spec_buffer() == old(self).spec_buffer()
                } else {
                    match consume(old(self).cfg(), s0, old(self).spec_buffer() + data@) {
                        Ok(c) => (r matches Ok(outs) && acts(outs@) == c.outputs) && final(self).spec_state() == c.state && final(self).spec_buffer() == c.buffer,
                        Err(e) => r matches Err(err) && err@ == e,
                    }
                }
            }),
    {
        match self.state {
            FramerState::NotConnected => {
                return Err(FramerError::NotYetConnected);
            },
            FramerState::Disconnected => {
                return Err(FramerError::AlreadyDisconnected);
            },
            _ => {},
        }
        let mut incoming = data;
        self.buffer.append(&mut incoming);
        let ghost cfg0 = self.cfg();
        let ghost s0 = self.spec_state();
        let ghost b0 = self.spec_buffer();
        let mut output: Vec<Output> = Vec::new();
        proof {
            assert(acts(output@) =~= Seq::<Action>::empty());
            assert(prepend(Seq::empty(), consume(cfg0, s0, b0)) == consume(cfg0, s0, b0)) by {
                match consume(cfg0, s0, b0) {
                    Ok(c) => {
                        assert(Seq::empty() + c.outputs =~= c.outputs);
                        assert(Consumed {
                            state: c.state,
                            buffer: c.buffer,
                            outputs: Seq::empty() + c.outputs,
                        } =~= c);
                    },
                    Err(_) => {},
                }
            }
        }
        loop
            invariant
                self.wf(),
                cfg0 == old(self).cfg(),
                s0 == old(self).spec_state(),
                b0 == old(self).spec_buffer() + data@,
                s0 == FramerState::WantRelay || s0 == FramerState::WantPrologue || s0
                    == FramerState::WantFrame,
                self.cfg() == cfg0,
                self.spec_state() == s0 || self.spec_state() == FramerState::WantPrologue
                    || self.spec_state() == FramerState::WantFrame,
                consume(cfg0, s0, b0) == prepend(
                    acts(output@),
                    consume(cfg0, self.spec_state(), self.spec_buffer()),
                ),
            decreases state_rank(self.spec_state()), self.spec_buffer().len(),
        {
            let ghost s_cur = self.spec_state();
            let ghost b_cur = self.spec_buffer();
            proof {
                lemma_consume_unfold(cfg0, s_cur, b_cur);
            }
            let step = self.parse_next();
            match step {
                Err(e) => {
                    return Err(e);
                },
                Ok(mut outs) => {
                    if outs.len() == 0 {
                        proof {
                            assert(consume(cfg0, s0, b0) == Ok::<Consumed, FramerFault>(
                                Consumed {
                                    state: s_cur,
                                    buffer: b_cur,
                                    outputs: acts(output@) + Seq::empty(),
                                },
                            ));
                            assert(acts(output@) + Seq::<Action>::empty() =~= acts(output@));
                            assert(Consumed {
                                state: s_cur,
                                buffer: b_cur,
                                outputs: acts(output@) + Seq::empty(),
                            } =~= Consumed { state: s_cur, buffer: b_cur, outputs: acts(output@) });
                        }
                        return Ok(output);
                    }
                    let ghost pre = output@;
                    let ghost outs_pre = outs@;
                    let ghost step_acts = acts(outs@);
                    output.append(&mut outs);
                    proof {
                        lemma_acts_add(pre, outs_pre);
                        lemma_prepend_add(
                            acts(pre),
                            step_acts,
                            consume(cfg0, self.spec_state(), self.spec_buffer()),
                        );
                    }
                },
            }
        }
    }

    /// One framer transition, whichever input arrived.
    pub fn process(&mut self, input: Input) -> (r: Result<Vec<Output>, FramerError>)
        requires
            old(self).wf(),
            input matches Input::SendFrame(f) ==> f@.len() <= u32::MAX,
        ensures
            final(self).wf(),
            final(self).cfg() == old(self).cfg(),
            match input {
                Input::Connected => final(self).spec_buffer() == old(self).spec_buffer() && match
                    old(self).spec_state() {
                    FramerState::NotConnected => match old(self).cfg().relay {
                        Some(relay) => final(self).spec_state() == FramerState::WantRelay && (
                        r matches Ok(outs) && acts(outs@) == seq![Action::Send(relay.outbound)]),
                        None => final(self).spec_state() == FramerState::WantPrologue && (
                        r matches Ok(outs) && outs@.len() == 0),
                    },
                    _ => (r matches Err(e) && e@ == FramerFault::AlreadyConnected) && final(self).spec_state() == old(self).spec_state(),
                },
                Input::Data(data) => ({
                    let s0 = old(self).spec_state();
                    if s0 == FramerState::NotConnected {
                        (r matches Err(e) && e@ == FramerFault::NotYetConnected) && final(self).spec_state() == s0 && final(self).spec_buffer() == old(self).spec_buffer()
                    } else if s0 == FramerState::Disconnected {
                        (r matches Err(e) && e@ == FramerFault::AlreadyDisconnected) && final(self).spec_state() == s0 && final(self).spec_buffer() == old(self).spec_buffer()
                    } else {
                        match consume(old(self).cfg(), s0, old(self).spec_buffer() + data@) {
                            Ok(c) => (r matches Ok(outs) && acts(outs@) == c.outputs) && final(self).spec_state() == c.state && final(self).spec_buffer() == c.buffer,
                            Err(e) => r matches Err(err) && err@ == e,
                        }
                    }
                }),
                Input::Disconnected => final(self).spec_buffer() == old(self).spec_buffer()
                    && match old(self).spec_state() {
                    FramerState::NotConnected => (r matches Err(e) && e@
                        == FramerFault::NotYetConnected) && final(self).spec_state() == old(self).spec_state(),
                    FramerState::Disconnected => (r matches Err(e) && e@
                        == FramerFault::AlreadyDisconnected) && final(self).spec_state() == old(self).spec_state(),
                    _ => (r matches Ok(outs) && acts(outs@) == seq![Action::Disconnected])
                        && final(self).spec_state() == FramerState::Disconnected,
                },
                Input::SendFrame(frame) => final(self).spec_buffer() == old(self).spec_buffer()
                    && final(self).spec_state() == old(self).spec_state() && match old(self).spec_state() {
                    FramerState::WantFrame => r matches Ok(outs) && acts(outs@) == seq![
                        Action::Send(frame_bytes(frame@)),
                    ],
                    FramerState::NotConnected => r matches Err(e) && e@
                        == FramerFault::NotYetConnected,
                    FramerState::Disconnected => r matches Err(e) && e@
                        == FramerFault::AlreadyDisconnected,
                    _ => r matches Err(e) && e@ == FramerFault::NotReadyForFrames,
                },
            },
    {
        match input {
            Input::Connected => self.connected(),
            Input::Data(data) => self.data_received(data),
            Input::Disconnected => self.disconnected(),
            Input::SendFrame(frame) => self.send_frame(frame),
        }
    }
}

/// Prefixing nothing changes nothing.
pub proof fn lemma_prepend_empty(r: Result<Consumed, FramerFault>)
    ensures
        prepend(Seq::empty(), r) == r,
{
    match r {
        Ok(c) => {
            assert(Seq::empty() + c.outputs =~= c.outputs);
            assert(Consumed { state: c.state, buffer: c.buffer, outputs: Seq::empty() + c.outputs }
                =~= c);
        },
        Err(_) => {},
    }
}

/// Chunking does not matter: when a run on `b1` comes to rest without
/// an error, feeding `b1 + b2` at once is the run on `b1` followed by
/// a run on what it left buffered plus `b2`, outputs in order. Feeding
/// a stream byte by byte, in pieces, or at once therefore yields the
/// same outputs, states and buffers.
pub proof fn lemma_consume_extend(cfg: FramerConfig, state: FramerState, b1: Seq<u8>, b2: Seq<u8>)
    requires
        consume(cfg, state, b1) is Ok,
    ensures
        ({
            let c = consume(cfg, state, b1)->Ok_0;
            consume(cfg, state, b1 + b2) == prepend(
                c.outputs,
                consume(cfg, c.state, c.buffer + b2),
            )
        }),
    decreases state_rank(state), b1.len(),
{
    let c = consume(cfg, state, b1)->Ok_0;
    if state == FramerState::WantRelay {
        match cfg.relay {
            Some(relay) => {
                let e = relay.expected_inbound;
                match match_expected(b1, e) {
                    MatchResult::Found => {
                        assert((b1 + b2).take(e.len() as int) =~= e);
                        assert((b1 + b2).skip(e.len() as int) =~= b1.skip(e.len() as int) + b2);
                        let rest1 = b1.skip(e.len() as int);
                        lemma_consume_extend(cfg, FramerState::WantPrologue, rest1, b2);
                        let c1 = consume(cfg, FramerState::WantPrologue, rest1)->Ok_0;
                        lemma_prepend_add(
                            seq![Action::Send(cfg.outbound_prologue)],
                            c1.outputs,
                            consume(cfg, c1.state, c1.buffer + b2),
                        );
                    },
                    MatchResult::Waiting => {
                        assert(c =~= Consumed { state, buffer: b1, outputs: Seq::empty() });
                        lemma_prepend_empty(consume(cfg, state, b1 + b2));
                    },
                    MatchResult::Bad(_) => {
                        assert(false);
                    },
                }
            },
            None => {
                lemma_prepend_empty(consume(cfg, state, b1 + b2));
            },
        }
    } else if state == FramerState::WantPrologue {
        let e = cfg.inbound_prologue;
        match match_expected(b1, e) {
            MatchResult::Found => {
                assert((b1 + b2).take(e.len() as int) =~= e);
                assert((b1 + b2).skip(e.len() as int) =~= b1.skip(e.len() as int) + b2);
                let rest1 = b1.skip(e.len() as int);
                lemma_consume_extend(cfg, FramerState::WantFrame, rest1, b2);
                let c1 = consume(cfg, FramerState::WantFrame, rest1)->Ok_0;
                lemma_prepend_add(
                    seq![Action::GotPrologue],
                    c1.outputs,
                    consume(cfg, c1.state, c1.buffer + b2),
                );
            },
            MatchResult::Waiting => {
                lemma_prepend_empty(consume(cfg, state, b1 + b2));
            },
            MatchResult::Bad(_) => {
                assert(false);
            },
        }
    } else if state == FramerState::WantFrame {
        if b1.len() < 4 {
            lemma_prepend_empty(consume(cfg, state, b1 + b2));
        } else {
            let n = from_be4(b1.take(4)) as int;
            if b1.len() < 4 + n {
                lemma_prepend_empty(consume(cfg, state, b1 + b2));
            } else {
                assert((b1 + b2).take(4) =~= b1.take(4));
                assert((b1 + b2).subrange(4, 4 + n) =~= b1.subrange(4, 4 + n));
                assert((b1 + b2).skip(4 + n) =~= b1.skip(4 + n) + b2);
                let rest1 = b1.skip(4 + n);
                lemma_consume_extend(cfg, FramerState::WantFrame, rest1, b2);
                let c1 = consume(cfg, FramerState::WantFrame, rest1)->Ok_0;
                lemma_prepend_add(
                    seq![Action::GotFrame(b1.subrange(4, 4 + n))],
                    c1.outputs,
                    consume(cfg, c1.state, c1.buffer + b2),
                );
            }
        }
    } else {
        lemma_prepend_empty(consume(cfg, state, b1 + b2));
    }
}

/// Round trip: the wire form of a frame, fed back to a framer that is
/// parsing frames, yields exactly one received frame with the original
/// payload and leaves nothing buffered.
pub proof fn lemma_frame_roundtrip(cfg: FramerConfig, payload: Seq<u8>)
    requires
        payload.len() <= u32::MAX,
    ensures
        consume(cfg, FramerState::WantFrame, frame_bytes(payload)) == Ok::<Consumed, FramerFault>(
            Consumed {
                state: FramerState::WantFrame,
                buffer: Seq::empty(),
                outputs: seq![Action::GotFrame(payload)],
            },
        ),
{
    let b = frame_bytes(payload);
    crate::wire::lemma_be4_from_be4(payload.len() as u32);
    assert(b.take(4) =~= crate::wire::be4(payload.len() as u32));
    let n = from_be4(b.take(4)) as int;
    assert(n == payload.len());
    assert(b.len() == 4 + n);
    assert(b.subrange(4, 4 + n) =~= payload);
    assert(b.skip(4 + n) =~= Seq::<u8>::empty());
    assert(consume(cfg, FramerState::WantFrame, Seq::<u8>::empty()) == Ok::<
        Consumed,
        FramerFault,
    >(
        Consumed {
            state: FramerState::WantFrame,
            buffer: Seq::empty(),
            outputs: Seq::empty(),
        },
    ));
    assert(seq![Action::GotFrame(payload)] + Seq::<Action>::empty() =~= seq![
        Action::GotFrame(payload),
    ]);
    assert(Consumed {
        state: FramerState::WantFrame,
        buffer: Seq::empty(),
        outputs: seq![Action::GotFrame(payload)] + Seq::empty(),
    } =~= Consumed {
        state: FramerState::WantFrame,
        buffer: Seq::empty(),
        outputs: seq![Action::GotFrame(payload)],
    });
}

/// A buffer that differs from the marker in its first byte and has
/// grown to the marker's length can no longer match: the matcher gives
/// up and carries the malformed prefix.
pub proof fn lemma_match_expected_mismatch(buf: Seq<u8>, expected: Seq<u8>)
    requires
        expected.len() > 0,
        buf.len() >= expected.len(),
        buf[0] != expected[0],
    ensures
        match_expected(buf, expected) == MatchResult::Bad(buf.take(expected.len() as int)),
{
    let le = expected.len() as int;
    assert(!(buf.len() >= expected.len() && buf.take(le) == expected)) by {
        if buf.take(le) == expected {
            assert(buf.take(le)[0] == buf[0]);
        }
    }
    assert(!(buf.len() <= expected.len() && expected.take(buf.len() as int) == buf)) by {
        if buf.len() <= expected.len() && expected.take(buf.len() as int) == buf {
            assert(expected.take(buf.len() as int)[0] == expected[0]);
        }
    }
    assert(min(expected.len() as int, buf.len() as int) == le);
}

/// Feeding exactly the expected inbound prologue while waiting for it
/// confirms the prologue and readies the framer for frames, with
/// nothing left buffered.
pub proof fn lemma_prologue_match(cfg: FramerConfig)
    requires
        cfg.inbound_prologue.len() > 0,
    ensures
        consume(cfg, FramerState::WantPrologue, cfg.inbound_prologue) == Ok::<
            Consumed,
            FramerFault,
        >(
            Consumed {
                state: FramerState::WantFrame,
                buffer: Seq::empty(),
                outputs: seq![Action::GotPrologue],
            },
        ),
{
    let e = cfg.inbound_prologue;
    assert(e.take(e.len() as int) =~= e);
    assert(e.skip(e.len() as int) =~= Seq::<u8>::empty());
    assert(match_expected(Seq::empty(), e) == MatchResult::Waiting) by {
        assert(e.take(0) =~= Seq::<u8>::empty());
    }
    assert(consume(cfg, FramerState::WantFrame, Seq::<u8>::empty()) == Ok::<
        Consumed,
        FramerFault,
    >(
        Consumed {
            state: FramerState::WantFrame,
            buffer: Seq::empty(),
            outputs: Seq::empty(),
        },
    ));
    assert(Consumed {
        state: FramerState::WantFrame,
        buffer: Seq::empty(),
        outputs: seq![Action::GotPrologue] + Seq::empty(),
    } =~= Consumed {
        state: FramerState::WantFrame,
        buffer: Seq::empty(),
        outputs: seq![Action::GotPrologue],
    });
}

/// Feeding exactly the expected relay marker while waiting for it
/// sends the outbound prologue and leaves the framer waiting for the
/// inbound prologue, with nothing left buffered.
pub proof fn lemma_relay_match(cfg: FramerConfig, relay: RelayView)
    requires
        cfg.relay == Some(relay),
        cfg.inbound_prologue.len() > 0,
    ensures
        consume(cfg, FramerState::WantRelay, relay.expected_inbound) == Ok::<
            Consumed,
            FramerFault,
        >(
            Consumed {
                state: FramerState::WantPrologue,
                buffer: Seq::empty(),
                outputs: seq![Action::Send(cfg.outbound_prologue)],
            },
        ),
{
    let e = relay.expected_inbound;
    assert(e.take(e.len() as int) =~= e);
    assert(e.skip(e.len() as int) =~= Seq::<u8>::empty());
    assert(match_expected(Seq::empty(), cfg.inbound_prologue) == MatchResult::Waiting) by {
        assert(cfg.inbound_prologue.take(0) =~= Seq::<u8>::empty());
    }
    assert(consume(cfg, FramerState::WantPrologue, Seq::<u8>::empty()) == Ok::<
        Consumed,
        FramerFault,
    >(
        Consumed {
            state: FramerState::WantPrologue,
            buffer: Seq::empty(),
            outputs: Seq::empty(),
        },
    ));
    assert(Consumed {
        state: FramerState::WantPrologue,
        buffer: Seq::empty(),
        outputs: seq![Action::Send(cfg.outbound_prologue)] + Seq::empty(),
    } =~= Consumed {
        state: FramerState::WantPrologue,
        buffer: Seq::empty(),
        outputs: seq![Action::Send(cfg.outbound_prologue)],
    });
}

/// A prologue whose first byte is already wrong is reported as a
/// framing error carrying the malformed prefix, once enough bytes have
/// arrived to cover the expected marker.
pub proof fn lemma_prologue_mismatch(cfg: FramerConfig, buf: Seq<u8>)
    requires
        cfg.inbound_prologue.len() > 0,
        buf.len() >= cfg.inbound_prologue.len(),
        buf[0] != cfg.inbound_prologue[0],
    ensures
        consume(cfg, FramerState::WantPrologue, buf) == Err::<Consumed, FramerFault>(
            FramerFault::BadPrologue(buf.take(cfg.inbound_prologue.len() as int)),
        ),
{
    lemma_match_expected_mismatch(buf, cfg.inbound_prologue);
}

/// A relay marker whose first byte is already wrong is reported as a
/// framing error carrying the malformed prefix, once enough bytes have
/// arrived to cover the expected marker.
pub proof fn lemma_relay_mismatch(cfg: FramerConfig, relay: RelayView, buf: Seq<u8>)
    requires
        cfg.relay == Some(relay),
        relay.expected_inbound.len() > 0,
        buf.len() >= relay.expected_inbound.len(),
        buf[0] != relay.expected_inbound[0],
    ensures
        consume(cfg, FramerState::WantRelay, buf) == Err::<Consumed, FramerFault>(
            FramerFault::BadRelay(buf.take(relay.expected_inbound.len() as int)),
        ),
{
    lemma_match_expected_mismatch(buf, relay.expected_inbound);
}

/// One byte stream out of many chunks.
pub open spec fn concat_of(chunks: Seq<Seq<u8>>) -> Seq<u8>
    decreases chunks.len(),
{
    if chunks.len() == 0 {
        Seq::empty()
    } else {
        chunks[0] + concat_of(chunks.skip(1))
    }
}

/// Feeding chunks one call at a time, each call consuming from where
/// the previous one came to rest, outputs in order.
pub open spec fn consume_chunks(
    cfg: FramerConfig,
    state: FramerState,
    buf: Seq<u8>,
    chunks: Seq<Seq<u8>>,
) -> Result<Consumed, FramerFault>
    decreases chunks.len(),
{
    if chunks.len() == 0 {
        Ok(Consumed { state, buffer: buf, outputs: Seq::empty() })
    } else {
        match consume(cfg, state, buf + chunks[0]) {
            Ok(c) => prepend(
                c.outputs,
                consume_chunks(cfg, c.state, c.buffer, chunks.skip(1)),
            ),
            Err(e) => Err(e),
        }
    }
}

/// Chunking is irrelevant: a stream cut into any chunks — several
/// calls, or one byte per call — yields the same outputs in the same
/// order, and leaves the same state and buffer, as the whole stream
/// fed in one call.
pub proof fn lemma_chunking(
    cfg: FramerConfig,
    state: FramerState,
    buf: Seq<u8>,
    chunks: Seq<Seq<u8>>,
)
    requires
        chunks.len() > 0,
        consume_chunks(cfg, state, buf, chunks) is Ok,
    ensures
        consume_chunks(cfg, state, buf, chunks) == consume(cfg, state, buf + concat_of(chunks)),
    decreases chunks.len(),
{
    let c0 = chunks[0];
    let rest = chunks.skip(1);
    let c = consume(cfg, state, buf + c0)->Ok_0;
    if chunks.len() == 1 {
        assert(concat_of(rest) =~= Seq::<u8>::empty());
        assert(buf + concat_of(chunks) =~= buf + c0);
        assert(consume_chunks(cfg, c.state, c.buffer, rest) == Ok::<Consumed, FramerFault>(
            Consumed { state: c.state, buffer: c.buffer, outputs: Seq::empty() },
        ));
        assert(c.outputs + Seq::<Action>::empty() =~= c.outputs);
        assert(Consumed { state: c.state, buffer: c.buffer, outputs: c.outputs + Seq::empty() }
            =~= c);
    } else {
        lemma_chunking(cfg, c.state, c.buffer, rest);
        lemma_consume_extend(cfg, state, buf + c0, concat_of(rest));
        assert(buf + concat_of(chunks) =~= (buf + c0) + concat_of(rest));
    }
}

} // verus!
