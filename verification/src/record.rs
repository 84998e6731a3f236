//! The encrypted record layer: a Noise-style handshake driven over the
//! first frames exchanged, then a codec for the small set of typed
//! records that flow over the encrypted channel.

use vstd::prelude::*;
use crate::wire::{Frame, be4, from_be4, u32_to_be, u32_from_be, lemma_be4_from_be4};

verus! {

/// A 4-byte opaque ping identifier, held as the 32-bit value its four
/// big-endian wire bytes spell.
#[derive(Clone, Copy, PartialEq, Eq, Structural, Debug)]
pub struct PingID(pub u32);

/// Orders records within a subchannel.
#[derive(Clone, Copy, PartialEq, Eq, Structural, Debug)]
pub struct Seqnum(pub u32);

/// Distinguishes independent logical streams on one connection.
#[derive(Clone, Copy, PartialEq, Eq, Structural, Debug)]
pub struct SubchannelID(pub u32);

/// A typed protocol message exchanged after the handshake completes.
#[derive(Clone, PartialEq, Eq, Debug)]
pub enum Record {
    KCM,
    Ping(PingID),
    Pong(PingID),
    Open(SubchannelID, Seqnum),
    Data(SubchannelID, Seqnum, Vec<u8>),
    Close(SubchannelID, Seqnum),
    Ack(Seqnum),
}

/// The mathematical shape of a record: identifiers as 32-bit values,
/// the data payload as a byte sequence.
pub enum RecordView {
    KCM,
    Ping(u32),
    Pong(u32),
    Open(u32, u32),
    Data(u32, u32, Seq<u8>),
    Close(u32, u32),
    Ack(u32),
}

impl View for Record {
    type V = RecordView;

    open spec fn view(&self) -> RecordView {
        match self {
            Record::KCM => RecordView::KCM,
            Record::Ping(id) => RecordView::Ping(id.0),
            Record::Pong(id) => RecordView::Pong(id.0),
            Record::Open(scid, seq) => RecordView::Open(scid.0, seq.0),
            Record::Data(scid, seq, d) => RecordView::Data(scid.0, seq.0, d@),
            Record::Close(scid, seq) => RecordView::Close(scid.0, seq.0),
            Record::Ack(seq) => RecordView::Ack(seq.0),
        }
    }
}

pub const T_KCM: u8 = 0x00;

pub const T_PING: u8 = 0x01;

pub const T_PONG: u8 = 0x02;

pub const T_OPEN: u8 = 0x03;

pub const T_DATA: u8 = 0x04;

pub const T_CLOSE: u8 = 0x05;

pub const T_ACK: u8 = 0x06;

/// Why a decrypted payload failed to parse as a record.
#[derive(Clone, Copy, PartialEq, Eq, Structural, Debug)]
pub enum ParseError {
    /// The decrypted payload held no bytes at all.
    EmptyMessage,
    /// The leading type tag names no known record type.
    UnknownType(u8),
    /// The payload's length does not fit the type the tag declares.
    /// For a DATA record `wanted` is the least acceptable length.
    WrongLength { got: usize, wanted: usize },
}

/// The wire encoding of a record: a one-byte type tag, then the
/// payload the type prescribes, identifiers in big-endian order.
pub open spec fn encoded(r: RecordView) -> Seq<u8> {
    match r {
        RecordView::KCM => seq![T_KCM],
        RecordView::Ping(id) => seq![T_PING] + be4(id),
        RecordView::Pong(id) => seq![T_PONG] + be4(id),
        RecordView::Open(scid, seq) => seq![T_OPEN] + be4(scid) + be4(seq),
        RecordView::Data(scid, seq, d) => seq![T_DATA] + be4(scid) + be4(seq) + d,
        RecordView::Close(scid, seq) => seq![T_CLOSE] + be4(scid) + be4(seq),
        RecordView::Ack(seq) => seq![T_ACK] + be4(seq),
    }
}

/// What a decrypted payload parses to: the record it spells, or the
/// exact reason it is rejected. Unknown tags and payloads of the wrong
/// length for their tag are errors, never accepted.
pub open spec fn parsed(pt: Seq<u8>) -> Result<RecordView, ParseError> {
    if pt.len() == 0 {
        Err(ParseError::EmptyMessage)
    } else {
        let t = pt[0];
        if t == T_KCM {
            if pt.len() == 1 {
                Ok(RecordView::KCM)
            } else {
                Err(ParseError::WrongLength { got: pt.len() as usize, wanted: 1 })
            }
        } else if t == T_PING {
            if pt.len() == 5 {
                Ok(RecordView::Ping(from_be4(pt.subrange(1, 5))))
            } else {
                Err(ParseError::WrongLength { got: pt.len() as usize, wanted: 5 })
            }
        } else if t == T_PONG {
            if pt.len() == 5 {
                Ok(RecordView::Pong(from_be4(pt.subrange(1, 5))))
            } else {
                Err(ParseError::WrongLength { got: pt.len() as usize, wanted: 5 })
            }
        } else if t == T_OPEN {
            if pt.len() == 9 {
                Ok(RecordView::Open(from_be4(pt.subrange(1, 5)), from_be4(pt.subrange(5, 9))))
            } else {
                Err(ParseError::WrongLength { got: pt.len() as usize, wanted: 9 })
            }
        } else if t == T_DATA {
            if pt.len() >= 9 {
                Ok(RecordView::Data(
                    from_be4(pt.subrange(1, 5)),
                    from_be4(pt.subrange(5, 9)),
                    pt.skip(9),
                ))
            } else {
                Err(ParseError::WrongLength { got: pt.len() as usize, wanted: 9 })
            }
        } else if t == T_CLOSE {
            if pt.len() == 9 {
                Ok(RecordView::Close(from_be4(pt.subrange(1, 5)), from_be4(pt.subrange(5, 9))))
            } else {
                Err(ParseError::WrongLength { got: pt.len() as usize, wanted: 9 })
            }
        } else if t == T_ACK {
            if pt.len() == 5 {
                Ok(RecordView::Ack(from_be4(pt.subrange(1, 5))))
            } else {
                Err(ParseError::WrongLength { got: pt.len() as usize, wanted: 5 })
            }
        } else {
            Err(ParseError::UnknownType(t))
        }
    }
}

/// Decoding an encoded record yields the record unchanged, for every
/// record type and every payload, the empty DATA payload included.
pub proof fn lemma_record_roundtrip(r: RecordView)
    ensures
        parsed(encoded(r)) == Ok::<RecordView, ParseError>(r),
{
    let e = encoded(r);
    match r {
        RecordView::KCM => {
            assert(e =~= seq![T_KCM]);
        },
        RecordView::Ping(id) => {
            assert(e[0] == T_PING);
            assert(e.subrange(1, 5) =~= be4(id));
            lemma_be4_from_be4(id);
        },
        RecordView::Pong(id) => {
            assert(e[0] == T_PONG);
            assert(e.subrange(1, 5) =~= be4(id));
            lemma_be4_from_be4(id);
        },
        RecordView::Open(scid, seq) => {
            assert(e[0] == T_OPEN);
            assert(e.subrange(1, 5) =~= be4(scid));
            assert(e.subrange(5, 9) =~= be4(seq));
            lemma_be4_from_be4(scid);
            lemma_be4_from_be4(seq);
        },
        RecordView::Data(scid, seq, d) => {
            assert(e[0] == T_DATA);
            assert(e.subrange(1, 5) =~= be4(scid));
            assert(e.subrange(5, 9) =~= be4(seq));
            assert(e.skip(9) =~= d);
            lemma_be4_from_be4(scid);
            lemma_be4_from_be4(seq);
        },
        RecordView::Close(scid, seq) => {
            assert(e[0] == T_CLOSE);
            assert(e.subrange(1, 5) =~= be4(scid));
            assert(e.subrange(5, 9) =~= be4(seq));
            lemma_be4_from_be4(scid);
            lemma_be4_from_be4(seq);
        },
        RecordView::Ack(seq) => {
            assert(e[0] == T_ACK);
            assert(e.subrange(1, 5) =~= be4(seq));
            lemma_be4_from_be4(seq);
        },
    }
}

/// Reads the 32-bit big-endian value at `offset`.
fn extract_be4(plaintext: &[u8], offset: usize) -> (r: u32)
    requires
        offset + 4 <= plaintext@.len(),
    ensures
        r == from_be4(plaintext@.subrange(offset as int, offset as int + 4)),
{
    let r = u32_from_be(
        plaintext[offset],
        plaintext[offset + 1],
        plaintext[offset + 2],
        plaintext[offset + 3],
    );
    assert(seq![
        plaintext@[offset as int],
        plaintext@[offset as int + 1],
        plaintext@[offset as int + 2],
        plaintext@[offset as int + 3],
    ] =~= plaintext@.subrange(offset as int, offset as int + 4));
    r
}

/// Parses one decrypted payload into a typed record, or says exactly
/// why it is malformed.
pub fn parse_record(plaintext: &[u8]) -> (r: Result<Record, ParseError>)
    ensures
        match parsed(plaintext@) {
            Ok(rv) => r matches Ok(rec) && rec@ == rv,
            Err(e) => r matches Err(pe) && pe == e,
        },
{
    let n = plaintext.len();
    if n == 0 {
        return Err(ParseError::EmptyMessage);
    }
    let t = plaintext[0];
    if t == T_KCM {
        if n == 1 {
            Ok(Record::KCM)
        } else {
            Err(ParseError::WrongLength { got: n, wanted: 1 })
        }
    } else if t == T_PING {
        if n == 5 {
            Ok(Record::Ping(PingID(extract_be4(plaintext, 1))))
        } else {
            Err(ParseError::WrongLength { got: n, wanted: 5 })
        }
    } else if t == T_PONG {
        if n == 5 {
            Ok(Record::Pong(PingID(extract_be4(plaintext, 1))))
        } else {
            Err(ParseError::WrongLength { got: n, wanted: 5 })
        }
    } else if t == T_OPEN {
        if n == 9 {
            Ok(Record::Open(SubchannelID(extract_be4(plaintext, 1)), Seqnum(extract_be4(plaintext, 5))))
        } else {
            Err(ParseError::WrongLength { got: n, wanted: 9 })
        }
    } else if t == T_DATA {
        if n >= 9 {
            let scid = SubchannelID(extract_be4(plaintext, 1));
            let seq = Seqnum(extract_be4(plaintext, 5));
            let mut d: Vec<u8> = Vec::new();
            let mut i: usize = 9;
            while i < n
                invariant
                    9 <= i <= n,
                    n == plaintext@.len(),
                    d@ =~= plaintext@.subrange(9, i as int),
                decreases n - i,
            {
                d.push(plaintext[i]);
                i = i + 1;
            }
            assert(d@ =~= plaintext@.skip(9));
            Ok(Record::Data(scid, seq, d))
        } else {
            Err(ParseError::WrongLength { got: n, wanted: 9 })
        }
    } else if t == T_CLOSE {
        if n == 9 {
            Ok(Record::Close(SubchannelID(extract_be4(plaintext, 1)), Seqnum(extract_be4(plaintext, 5))))
        } else {
            Err(ParseError::WrongLength { got: n, wanted: 9 })
        }
    } else if t == T_ACK {
        if n == 5 {
            Ok(Record::Ack(Seqnum(extract_be4(plaintext, 1))))
        } else {
            Err(ParseError::WrongLength { got: n, wanted: 5 })
        }
    } else {
        Err(ParseError::UnknownType(t))
    }
}

/// Writes a record in its wire encoding.
pub fn encode_record(record: Record) -> (r: Vec<u8>)
    ensures
        r@ == encoded(record@),
{
    let ghost rv = record@;
    match record {
        Record::KCM => {
            let mut r: Vec<u8> = Vec::new();
            r.push(T_KCM);
            assert(r@ =~= encoded(rv));
            r
        },
        Record::Ping(id) => {
            let mut r: Vec<u8> = Vec::new();
            r.push(T_PING);
            let mut b = u32_to_be(id.0);
            r.append(&mut b);
            assert(r@ =~= encoded(rv));
            r
        },
        Record::Pong(id) => {
            let mut r: Vec<u8> = Vec::new();
            r.push(T_PONG);
            let mut b = u32_to_be(id.0);
            r.append(&mut b);
            assert(r@ =~= encoded(rv));
            r
        },
        Record::Open(scid, seq) => {
            let mut r: Vec<u8> = Vec::new();
            r.push(T_OPEN);
            let mut b = u32_to_be(scid.0);
            r.append(&mut b);
            let mut c = u32_to_be(seq.0);
            r.append(&mut c);
            assert(r@ =~= encoded(rv));
            r
        },
        Record::Data(scid, seq, data) => {
            let mut r: Vec<u8> = Vec::new();
            r.push(T_DATA);
            let mut b = u32_to_be(scid.0);
            r.append(&mut b);
            let mut c = u32_to_be(seq.0);
            r.append(&mut c);
            let mut d = data;
            r.append(&mut d);
            assert(r@ =~= encoded(rv));
            r
        },
        Record::Close(scid, seq) => {
            let mut r: Vec<u8> = Vec::new();
            r.push(T_CLOSE);
            let mut b = u32_to_be(scid.0);
            r.append(&mut b);
            let mut c = u32_to_be(seq.0);
            r.append(&mut c);
            assert(r@ =~= encoded(rv));
            r
        },
        Record::Ack(seq) => {
            let mut r: Vec<u8> = Vec::new();
            r.push(T_ACK);
            let mut b = u32_to_be(seq.0);
            r.append(&mut b);
            assert(r@ =~= encoded(rv));
            r
        },
    }
}

/// A failure reported by the cipher when reading or decrypting.
#[derive(Clone, Copy, PartialEq, Eq, Structural, Debug)]
pub struct DecryptError {}

/// A stand-in cipher with the shape of a Noise session: it writes an
/// empty handshake message and passes payload bytes through unchanged,
/// so the record layer can be exercised without any key agreement.
#[derive(Clone, PartialEq, Eq, Structural, Debug)]
pub struct Noise {}

impl Noise {
    /// Produces the next handshake message to send; here empty.
    pub fn write_message(&mut self) -> (r: Vec<u8>)
        ensures
            r@ == Seq::<u8>::empty(),
    {
        Vec::new()
    }

    /// Consumes the peer's handshake message, yielding any plaintext
    /// it carried; here the message itself.
    pub fn read_message(&mut self, message: Vec<u8>) -> (r: Result<Vec<u8>, DecryptError>)
        ensures
            r matches Ok(p) && p@ == message@,
    {
        Ok(message)
    }

    /// Encrypts a payload for the wire; here the payload unchanged.
    pub fn encrypt(&mut self, plaintext: Vec<u8>) -> (r: Vec<u8>)
        ensures
            r@ == plaintext@,
    {
        plaintext
    }

    /// Decrypts a payload from the wire; here the payload unchanged.
    pub fn decrypt(&mut self, ciphertext: Vec<u8>) -> (r: Result<Vec<u8>, DecryptError>)
        ensures
            r matches Ok(p) && p@ == ciphertext@,
    {
        Ok(ciphertext)
    }
}

/// What the record handler is fed: a frame off the wire, or a record
/// the application wants sent.
#[derive(Debug)]
pub enum Input {
    FrameReceived(Frame),
    SendRecord(Record),
}

/// What the record handler hands back: a decoded record, or a frame to
/// put on the wire.
#[derive(Debug)]
pub enum Output {
    GotHandshake,
    GotRecord(Record),
    SendFrame(Frame),
}

/// Why the record handler refused an input.
#[derive(Clone, Copy, PartialEq, Eq, Structural, Debug)]
pub enum RecordError {
    /// A decrypted payload was no well-formed record.
    Parse(ParseError),
    /// The cipher could not read or decrypt a frame.
    Decrypt(DecryptError),
    /// A record was handed in for sending before the handshake was done.
    SendBeforeHandshake,
}

/// Where the handler stands: one prologue-confirming frame cycle, then
/// one handshake frame, then the steady message state for the rest of
/// the connection.
#[derive(Clone, Copy, PartialEq, Eq, Structural, Debug)]
pub enum State {
    WantPrologue,
    WantHandshake,
    WantMessage,
}

/// Which side of the handshake this peer plays: the leader sends the
/// first handshake message, the follower replies.
#[derive(Clone, Copy, PartialEq, Eq, Structural, Debug)]
pub enum Role {
    Leader,
    Follower,
}

/// Drives the handshake over the first frames exchanged, then encodes
/// and decodes typed records over the encrypted channel.
pub struct RecordHandler {
    role: Role,
    state: State,
    noise: Noise,
}

impl RecordHandler {
    /// The handler's current position in the handshake.
    pub closed spec fn spec_state(&self) -> State {
        self.state
    }

    /// The side of the handshake this handler plays.
    pub closed spec fn spec_role(&self) -> Role {
        self.role
    }

    /// A fresh handler waiting for the prologue to be confirmed.
    pub fn new(role: Role) -> (r: RecordHandler)
        ensures
            r.spec_state() == State::WantPrologue,
            r.spec_role() == role,
    {
        RecordHandler { role, state: State::WantPrologue, noise: Noise {} }
    }

    fn send_handshake(&mut self) -> (r: Vec<Output>)
        ensures
            r@.len() == 1,
            r@[0] matches Output::SendFrame(_),
            final(self).state == old(self).state,
            final(self).role == old(self).role,
    {
        let handshake = Frame(self.noise.write_message());
        let mut r: Vec<Output> = Vec::new();
        r.push(Output::SendFrame(handshake));
        r
    }

    fn process_handshake(&mut self, frame: Frame) -> (r: Result<(), RecordError>)
        ensures
            r matches Ok(()),
            final(self).state == old(self).state,
            final(self).role == old(self).role,
    {
        // Noise may carry plaintext inside the handshake message, but
        // this layer makes no use of it.
        match self.noise.read_message(frame.0) {
            Ok(_payload) => Ok(()),
            Err(e) => Err(RecordError::Decrypt(e)),
        }
    }

    fn frame_received(&mut self, frame: Frame) -> (r: Result<Vec<Output>, RecordError>)
        ensures
            final(self).spec_role() == old(self).spec_role(),
            match old(self).spec_state() {
                State::WantPrologue => {
                    &&& final(self).spec_state() == State::WantHandshake
                    &&& r matches Ok(outs)
                    &&& (old(self).spec_role() == Role::Leader ==> outs@.len() == 1 && outs@[0]
                        matches Output::SendFrame(_))
                    &&& (old(self).spec_role() == Role::Follower ==> outs@.len() == 0)
                },
                State::WantHandshake => {
                    &&& final(self).spec_state() == State::WantMessage
                    &&& r matches Ok(outs)
                    &&& (old(self).spec_role() == Role::Follower ==> outs@.len() == 1 && outs@[0]
                        matches Output::SendFrame(_))
                    &&& (old(self).spec_role() == Role::Leader ==> outs@.len() == 0)
                },
                State::WantMessage => {
                    &&& final(self).spec_state() == State::WantMessage
                    &&& match parsed(frame@) {
                        Ok(rv) => {
                            &&& r matches Ok(outs)
                            &&& outs@.len() == 1
                            &&& (outs@[0] matches Output::GotRecord(rec) && rec@ == rv)
                        },
                        Err(e) => r matches Err(re) && re == RecordError::Parse(e),
                    }
                },
            },
    {
        match self.state {
            State::WantPrologue => {
                self.state = State::WantHandshake;
                match self.role {
                    Role::Leader => Ok(self.send_handshake()),
                    Role::Follower => Ok(Vec::new()),
                }
            },
            State::WantHandshake => {
                self.state = State::WantMessage;
                match self.process_handshake(frame) {
                    Ok(()) => match self.role {
                        Role::Leader => Ok(Vec::new()),
                        Role::Follower => Ok(self.send_handshake()),
                    },
                    Err(e) => Err(e),
                }
            },
            State::WantMessage => {
                let pt = match self.noise.decrypt(frame.0) {
                    Ok(pt) => pt,
                    Err(e) => {
                        return Err(RecordError::Decrypt(e));
                    },
                };
                match parse_record(pt.as_slice()) {
                    Ok(rec) => {
                        let mut outs: Vec<Output> = Vec::new();
                        outs.push(Output::GotRecord(rec));
                        Ok(outs)
                    },
                    Err(e) => Err(RecordError::Parse(e)),
                }
            },
        }
    }

    fn send_record(&mut self, record: Record) -> (r: Result<Vec<Output>, RecordError>)
        ensures
            final(self).spec_role() == old(self).spec_role(),
            final(self).spec_state() == old(self).spec_state(),
            match old(self).spec_state() {
                State::WantMessage => {
                    &&& r matches Ok(outs)
                    &&& outs@.len() == 1
                    &&& (outs@[0] matches Output::SendFrame(f) && f@ == encoded(record@))
                },
                _ => r matches Err(e) && e == RecordError::SendBeforeHandshake,
            },
    {
        match self.state {
            State::WantMessage => {
                let frame = Frame(self.noise.encrypt(encode_record(record)));
                let mut outs: Vec<Output> = Vec::new();
                outs.push(Output::SendFrame(frame));
                Ok(outs)
            },
            _ => Err(RecordError::SendBeforeHandshake),
        }
    }

    /// One transition of the record layer. A received frame advances
    /// the handshake or, once it is done, decodes to exactly the
    /// record its decrypted bytes spell; a record to send is encoded,
    /// encrypted and wrapped as one frame, and is refused before the
    /// handshake completes. Parse failures report the exact fault and
    /// are fatal for the connection, never a crash.
    pub fn process(&mut self, input: Input) -> (r: Result<Vec<Output>, RecordError>)
        ensures
            final(self).spec_role() == old(self).spec_role(),
            match input {
                Input::FrameReceived(frame) => match old(self).spec_state() {
                    State::WantPrologue => {
                        &&& final(self).spec_state() == State::WantHandshake
                        &&& r matches Ok(outs)
                        &&& (old(self).spec_role() == Role::Leader ==> outs@.len() == 1 && outs@[0]
                            matches Output::SendFrame(_))
                        &&& (old(self).spec_role() == Role::Follower ==> outs@.len() == 0)
                    },
                    State::WantHandshake => {
                        &&& final(self).spec_state() == State::WantMessage
                        &&& r matches Ok(outs)
                        &&& (old(self).spec_role() == Role::Follower ==> outs@.len() == 1
                            && outs@[0] matches Output::SendFrame(_))
                        &&& (old(self).spec_role() == Role::Leader ==> outs@.len() == 0)
                    },
                    State::WantMessage => {
                        &&& final(self).spec_state() == State::WantMessage
                        &&& match parsed(frame@) {
                            Ok(rv) => {
                                &&& r matches Ok(outs)
                                &&& outs@.len() == 1
                                &&& (outs@[0] matches Output::GotRecord(rec) && rec@ == rv)
                            },
                            Err(e) => r matches Err(re) && re == RecordError::Parse(e),
                        }
                    },
                },
                Input::SendRecord(record) => {
                    &&& final(self).spec_state() == old(self).spec_state()
                    &&& match old(self).spec_state() {
                        State::WantMessage => {
                            &&& r matches Ok(outs)
                            &&& outs@.len() == 1
                            &&& (outs@[0] matches Output::SendFrame(f) && f@ == encoded(record@))
                        },
                        _ => r matches Err(e) && e == RecordError::SendBeforeHandshake,
                    }
                },
            },
    {
        match input {
            Input::FrameReceived(frame) => self.frame_received(frame),
            Input::SendRecord(record) => self.send_record(record),
        }
    }
}

} // verus!
