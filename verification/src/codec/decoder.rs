//! The incremental frame decoder.
//!
//! A [`FrameBuilder`] owns a buffer of fixed size and is fed the bytes of the
//! line as they arrive. What it does with each byte is defined by
//! [`FrameState::step`]; a whole call of [`FrameBuilder::feed`] is defined by
//! [`FrameState::feed`].

use vstd::prelude::*;
use crate::codec::frame::{Data, ParsedFrame};
use crate::codec::control::ControlByte;

verus! {

/// Why a call of [`FrameBuilder::feed`] ended without a complete frame.
#[derive(Clone, Copy, Debug, PartialEq, Eq, Structural)]
pub enum BuildError {
    /// The input ran out before the frame was closed. Feed more bytes.
    NeedMoreData,
    /// The frame holds more data than the buffer can take.
    TooMuchData,
    /// The byte after an escape byte was not a reserved byte.
    BadEscaping,
}

/// Where the decoder stands within a frame.
#[derive(Clone, Copy, Debug, PartialEq, Eq, Structural)]
pub enum Phase {
    /// No start byte has been seen yet.
    AwaitingStart,
    /// A frame is open and data is being collected.
    Receiving,
    /// A frame is open and the last byte was an escape byte.
    EscapePending,
    /// The frame has been closed.
    Complete,
}

/// The decoder as a mathematical value: the size of its buffer, its phase,
/// and the data collected since the last start byte.
pub struct FrameState {
    pub capacity: nat,
    pub phase: Phase,
    pub payload: Seq<u8>,
}

impl FrameState {
    /// A decoder that has seen nothing yet.
    pub open spec fn fresh(capacity: nat) -> FrameState {
        FrameState { capacity, phase: Phase::AwaitingStart, payload: Seq::empty() }
    }

    /// The collected data fits the buffer.
    pub open spec fn wf(self) -> bool {
        &&& self.payload.len() <= self.capacity
        &&& self.phase is AwaitingStart ==> self.payload.len() == 0
    }

    /// The same decoder in another phase.
    pub open spec fn enter(self, phase: Phase) -> FrameState {
        FrameState { phase, ..self }
    }

    /// The decoder at the start of a frame, with nothing collected.
    pub open spec fn restart(self) -> FrameState {
        FrameState { phase: Phase::Receiving, payload: Seq::empty(), ..self }
    }

    /// The decoder with `byte` stored as data.
    pub open spec fn store(self, byte: u8) -> FrameState {
        FrameState { phase: Phase::Receiving, payload: self.payload.push(byte), ..self }
    }

    /// The decoder with `byte` stored as data if there is room for it, and
    /// else the error of too much data.
    pub open spec fn try_store(self, byte: u8) -> Result<FrameState, BuildError> {
        if self.payload.len() < self.capacity {
            Ok(self.store(byte))
        } else {
            Err(BuildError::TooMuchData)
        }
    }

    /// What one byte does to the decoder: the next state, or the error that
    /// ends the attempt.
    ///
    /// Before the start byte everything is discarded. After an escape byte a
    /// reserved byte is stored as data and anything else is an error. Within
    /// a frame the stop byte completes it, the escape byte announces a
    /// literal, a start byte begins the frame anew, the reserved byte `0x01`
    /// is ignored, and every other byte is stored as long as there is room.
    /// A complete decoder takes nothing more.
    pub open spec fn step(self, byte: u8) -> Result<FrameState, BuildError> {
        let code = ControlByte::spec_classify(byte);
        match self.phase {
            Phase::Complete => Ok(self),
            Phase::AwaitingStart => match code {
                Some(ControlByte::Start) => Ok(self.restart()),
                _ => Ok(self),
            },
            Phase::EscapePending => match code {
                None => Err(BuildError::BadEscaping),
                Some(_) => self.try_store(byte),
            },
            Phase::Receiving => match code {
                Some(ControlByte::End) => Ok(self.enter(Phase::Complete)),
                Some(ControlByte::Escape) => Ok(self.enter(Phase::EscapePending)),
                Some(ControlByte::Start) => Ok(self.restart()),
                Some(ControlByte::Reserved) => Ok(self),
                None => self.try_store(byte),
            },
        }
    }

    /// What one call of `feed` does: the state it leaves and what it returns.
    ///
    /// Bytes are taken one at a time until the frame is complete, a byte is
    /// refused, or the input ends. A refused byte leaves the state as it was
    /// before that byte. Bytes after the stop byte are not looked at.
    pub open spec fn feed(self, bytes: Seq<u8>) -> (FrameState, Result<(), BuildError>)
        decreases bytes.len(),
    {
        if self.phase is Complete {
            (self, Ok(()))
        } else if bytes.len() == 0 {
            (self, Err(BuildError::NeedMoreData))
        } else {
            match self.step(bytes.first()) {
                Err(e) => (self, Err(e)),
                Ok(next) => next.feed(bytes.drop_first()),
            }
        }
    }
}

/// The decoder's position, with the write cursor where there is one.
#[derive(Clone, Copy, Debug, PartialEq, Eq, Structural)]
enum DecodeState {
    AwaitingStart,
    Receiving { cursor: usize },
    EscapePending { cursor: usize },
    Complete { len: usize },
}

impl DecodeState {
    spec fn phase(self) -> Phase {
        match self {
            DecodeState::AwaitingStart => Phase::AwaitingStart,
            DecodeState::Receiving { .. } => Phase::Receiving,
            DecodeState::EscapePending { .. } => Phase::EscapePending,
            DecodeState::Complete { .. } => Phase::Complete,
        }
    }

    spec fn cursor(self) -> usize {
        match self {
            DecodeState::AwaitingStart => 0,
            DecodeState::Receiving { cursor } => cursor,
            DecodeState::EscapePending { cursor } => cursor,
            DecodeState::Complete { len } => len,
        }
    }
}

/// One decode of one incoming frame.
pub struct FrameBuilder {
    buffer: Data,
    state: DecodeState,
}

impl View for FrameBuilder {
    type V = FrameState;

    closed spec fn view(&self) -> FrameState {
        FrameState {
            capacity: self.buffer@.len(),
            phase: self.state.phase(),
            payload: self.buffer@.take(self.state.cursor() as int),
        }
    }
}

impl FrameBuilder {
    #[verifier::type_invariant]
    spec fn cursor_in_buffer(self) -> bool {
        self.state.cursor() <= self.buffer@.len()
    }

    /// A decoder with a zeroed buffer of `capacity` bytes.
    pub fn new(capacity: usize) -> (builder: FrameBuilder)
        ensures
            builder@ == FrameState::fresh(capacity as nat),
    {
        FrameBuilder::from(Data(vec![0u8; capacity]))
    }

    /// A decoder that collects into `data`, whose length is the capacity.
    /// What `data` holds is overwritten.
    pub fn from(data: Data) -> (builder: FrameBuilder)
        ensures
            builder@ == FrameState::fresh(data@.len()),
    {
        let builder = FrameBuilder { buffer: data, state: DecodeState::AwaitingStart };
        assert(builder@.payload =~= Seq::empty());
        builder
    }

    /// The number of data bytes that one frame may hold.
    pub fn capacity(&self) -> (capacity: usize)
        ensures
            capacity == self@.capacity,
    {
        self.buffer.0.len()
    }

    /// Whether the stop byte of the frame has been taken.
    pub fn is_complete(&self) -> (complete: bool)
        ensures
            complete == (self@.phase is Complete),
    {
        match self.state {
            DecodeState::Complete { .. } => true,
            _ => false,
        }
    }

    /// Writes `byte` at `cursor` and moves on, or refuses it when the buffer
    /// is full.
    fn store(&mut self, cursor: usize, byte: u8) -> (outcome: Result<(), BuildError>)
        requires
            old(self).state.cursor() == cursor,
            !(old(self).state is AwaitingStart),
        ensures
            outcome is Ok <==> old(self)@.try_store(byte) is Ok,
            outcome is Ok ==> final(self)@ == old(self)@.store(byte),
            outcome is Err ==> outcome == Err::<(), BuildError>(BuildError::TooMuchData)
                && *final(self) == *old(self),
    {
        proof {
            use_type_invariant(&*self);
        }
        if cursor < self.buffer.0.len() {
            self.buffer.0[cursor] = byte;
            self.state = DecodeState::Receiving { cursor: cursor + 1 };
            assert(self@.payload =~= old(self)@.payload.push(byte));
            Ok(())
        } else {
            Err(BuildError::TooMuchData)
        }
    }

    /// Takes one byte.
    fn advance(&mut self, byte: u8) -> (outcome: Result<(), BuildError>)
        ensures
            outcome is Ok <==> old(self)@.step(byte) is Ok,
            old(self)@.step(byte) matches Ok(next) ==> final(self)@ == next,
            old(self)@.step(byte) matches Err(e) ==> outcome == Err::<(), BuildError>(e)
                && *final(self) == *old(self),
    {
        proof {
            use_type_invariant(&*self);
        }
        let code = ControlByte::classify(byte);
        match self.state {
            DecodeState::Complete { .. } => Ok(()),
            DecodeState::AwaitingStart => match code {
                Some(ControlByte::Start) => {
                    self.state = DecodeState::Receiving { cursor: 0 };
                    assert(self@.payload =~= Seq::empty());
                    Ok(())
                },
                _ => Ok(()),
            },
            DecodeState::EscapePending { cursor } => match code {
                None => Err(BuildError::BadEscaping),
                Some(_) => self.store(cursor, byte),
            },
            DecodeState::Receiving { cursor } => match code {
                Some(ControlByte::End) => {
                    self.state = DecodeState::Complete { len: cursor };
                    Ok(())
                },
                Some(ControlByte::Escape) => {
                    self.state = DecodeState::EscapePending { cursor };
                    Ok(())
                },
                Some(ControlByte::Start) => {
                    self.state = DecodeState::Receiving { cursor: 0 };
                    assert(self@.payload =~= Seq::empty());
                    Ok(())
                },
                // Reserved without a meaning: inside a frame it is passed over.
                Some(ControlByte::Reserved) => Ok(()),
                None => self.store(cursor, byte),
            },
        }
    }

    /// Takes the bytes of `data` in order until the frame is complete, a byte
    /// is refused or `data` ends.
    ///
    /// `Ok` means that the frame is complete; bytes after its stop byte are
    /// left alone. `NeedMoreData` means that `data` ended first: the decoder
    /// keeps what it has and goes on with the next call. `TooMuchData` and
    /// `BadEscaping` end the attempt; the decoder is left as it was before
    /// the byte that was refused.
    pub fn feed(&mut self, data: &[u8]) -> (outcome: Result<(), BuildError>)
        ensures
            (final(self)@, outcome) == old(self)@.feed(data@),
            final(self)@.wf(),
            outcome is Ok <==> final(self)@.phase is Complete,
    {
        proof {
            use_type_invariant(&*self);
        }
        if self.is_complete() {
            return Ok(());
        }
        let mut i: usize = 0;
        assert(data@.skip(0) =~= data@);
        while i < data.len()
            invariant
                0 <= i <= data.len(),
                !(self@.phase is Complete),
                self@.wf(),
                old(self)@.feed(data@) == self@.feed(data@.skip(i as int)),
            decreases data.len() - i,
        {
            assert(data@.skip(i as int).first() == data@[i as int]);
            assert(data@.skip(i as int).drop_first() =~= data@.skip(i + 1));
            match self.advance(data[i]) {
                Err(e) => {
                    return Err(e);
                },
                Ok(()) => {
                    proof {
                        use_type_invariant(&*self);
                    }
                    if self.is_complete() {
                        assert(self@.feed(data@.skip(i + 1)) == (self@, Ok::<(), BuildError>(())));
                        return Ok(());
                    }
                },
            }
            i += 1;
        }
        Err(BuildError::NeedMoreData)
    }

    /// Hands over the body of the completed frame: the data collected
    /// between the start byte and the stop byte.
    pub fn finalize(self) -> (frame: ParsedFrame)
        requires
            self@.phase is Complete,
        ensures
            frame@ == self@.payload,
    {
        proof {
            use_type_invariant(&self);
        }
        let FrameBuilder { buffer, state } = self;
        let Data(mut bytes) = buffer;
        match state {
            DecodeState::Complete { len } => {
                bytes.truncate(len);
            },
            _ => {},
        }
        ParsedFrame::from_body(Data(bytes))
    }
}

} // verus!
