//! What holds of the encoder and the decoder together.

use vstd::prelude::*;
use crate::codec::checksum::{checksum_bytes, crc16_genibus};
use crate::codec::control::{is_reserved, CONTROL_CODE_DLE, CONTROL_CODE_ETX, CONTROL_CODE_STX};
use crate::codec::decoder::{BuildError, FrameState, Phase};
use crate::codec::encoder::{encode_spec, escape, escape_byte, frame_body};
use crate::codec::frame::{body_checksum, body_payload, is_intact};

verus! {

/// What a caller does with input that arrives in pieces: feed one chunk
/// after the other, and stop when a byte is refused.
pub open spec fn feed_chunks(state: FrameState, chunks: Seq<Seq<u8>>) -> (
    FrameState,
    Result<(), BuildError>,
)
    decreases chunks.len(),
{
    if chunks.len() == 0 {
        state.feed(Seq::empty())
    } else {
        let fed = state.feed(chunks.first());
        if fed.1 is Ok || fed.1 == Err::<(), BuildError>(BuildError::NeedMoreData) {
            feed_chunks(fed.0, chunks.drop_first())
        } else {
            fed
        }
    }
}

/// No byte moves the write cursor past the end of the buffer, and a byte
/// that is refused is refused as too much data or as bad escaping.
pub proof fn lemma_step_within_capacity(state: FrameState, byte: u8)
    requires
        state.wf(),
    ensures
        state.step(byte) matches Ok(next) ==> next.wf() && next.capacity == state.capacity,
        state.step(byte) matches Err(e) ==> e != BuildError::NeedMoreData,
{
}

/// A frame becomes complete only through a stop byte that arrives inside a
/// frame and outside an escape.
pub proof fn lemma_complete_only_on_stop(state: FrameState, byte: u8)
    requires
        !(state.phase is Complete),
        state.step(byte) matches Ok(next) && next.phase is Complete,
    ensures
        state.phase is Receiving,
        byte == CONTROL_CODE_ETX,
        state.step(byte) == Ok::<FrameState, BuildError>(state.enter(Phase::Complete)),
{
}

/// After an escape byte exactly the four reserved bytes are accepted.
pub proof fn lemma_escape_accepts_reserved_only(state: FrameState, byte: u8)
    requires
        state.phase is EscapePending,
    ensures
        !is_reserved(byte) ==> state.step(byte) == Err::<FrameState, BuildError>(
            BuildError::BadEscaping,
        ),
        is_reserved(byte) && state.payload.len() < state.capacity ==> state.step(byte) == Ok::<
            FrameState,
            BuildError,
        >(state.store(byte)),
{
}

/// A whole call of `feed` keeps the collected data within the buffer and
/// keeps the capacity.
pub proof fn lemma_feed_within_capacity(state: FrameState, bytes: Seq<u8>)
    requires
        state.wf(),
    ensures
        state.feed(bytes).0.wf(),
        state.feed(bytes).0.capacity == state.capacity,
    decreases bytes.len(),
{
    if !(state.phase is Complete) && bytes.len() > 0 {
        lemma_step_within_capacity(state, bytes.first());
        if let Ok(next) = state.step(bytes.first()) {
            lemma_feed_within_capacity(next, bytes.drop_first());
        }
    }
}

/// Feeding `head` and then, if the decoder asks for more, `tail` is the same
/// as feeding both in one call.
pub proof fn lemma_feed_split(state: FrameState, head: Seq<u8>, tail: Seq<u8>)
    ensures
        state.feed(head + tail) == if state.feed(head).1 == Err::<(), BuildError>(
            BuildError::NeedMoreData,
        ) {
            state.feed(head).0.feed(tail)
        } else {
            state.feed(head)
        },
    decreases head.len(),
{
    if state.phase is Complete {
    } else if head.len() == 0 {
        assert(head + tail =~= tail);
    } else {
        assert((head + tail).first() == head.first());
        assert((head + tail).drop_first() =~= head.drop_first() + tail);
        match state.step(head.first()) {
            Err(e) => {},
            Ok(next) => {
                lemma_feed_split(next, head.drop_first(), tail);
            },
        }
    }
}

/// A call of `feed` returns `Ok` exactly when it leaves the frame complete.
pub proof fn lemma_ok_is_complete(state: FrameState, bytes: Seq<u8>)
    ensures
        state.feed(bytes).1 is Ok <==> state.feed(bytes).0.phase is Complete,
        state.feed(bytes).1 is Ok ==> state.feed(bytes).1 == Ok::<(), BuildError>(()),
    decreases bytes.len(),
{
    if !(state.phase is Complete) && bytes.len() > 0 {
        if let Ok(next) = state.step(bytes.first()) {
            lemma_ok_is_complete(next, bytes.drop_first());
        }
    }
}

/// A complete decoder stays as it is, whatever is fed to it.
pub proof fn lemma_complete_is_final(state: FrameState, chunks: Seq<Seq<u8>>)
    requires
        state.phase is Complete,
    ensures
        feed_chunks(state, chunks) == (state, Ok::<(), BuildError>(())),
    decreases chunks.len(),
{
    if chunks.len() > 0 {
        lemma_complete_is_final(state, chunks.drop_first());
    }
}

/// However the input is cut into chunks, feeding the chunks one by one ends
/// in the same state and with the same answer as feeding all of it at once.
pub proof fn lemma_feed_chunks(state: FrameState, chunks: Seq<Seq<u8>>)
    ensures
        feed_chunks(state, chunks) == state.feed(chunks.flatten()),
    decreases chunks.len(),
{
    if chunks.len() == 0 {
    } else {
        let fed = state.feed(chunks.first());
        lemma_feed_split(state, chunks.first(), chunks.drop_first().flatten());
        if fed.1 is Ok {
            lemma_ok_is_complete(state, chunks.first());
            lemma_complete_is_final(fed.0, chunks.drop_first());
        } else if fed.1 == Err::<(), BuildError>(BuildError::NeedMoreData) {
            lemma_feed_chunks(fed.0, chunks.drop_first());
        }
    }
}

/// Inside a frame, escaped data that fits the buffer is collected byte for
/// byte, and the decoder goes on in the frame with what follows.
pub proof fn lemma_feed_escaped(state: FrameState, data: Seq<u8>, rest: Seq<u8>)
    requires
        state.phase is Receiving,
        state.payload.len() + data.len() <= state.capacity,
    ensures
        state.feed(escape(data) + rest) == (FrameState {
            payload: state.payload + data,
            ..state
        }).feed(rest),
    decreases data.len(),
{
    if data.len() == 0 {
        assert(escape(data) + rest =~= rest);
        assert(state.payload + data =~= state.payload);
    } else {
        let byte = data.first();
        let stream = escape(data) + rest;
        let after = escape(data.drop_first()) + rest;
        let stored = state.store(byte);
        assert(stored.payload + data.drop_first() =~= state.payload + data);
        lemma_feed_escaped(stored, data.drop_first(), rest);
        if is_reserved(byte) {
            let pending = state.enter(Phase::EscapePending);
            assert(stream.first() == CONTROL_CODE_DLE);
            assert(stream.drop_first() =~= seq![byte] + after);
            assert(state.step(CONTROL_CODE_DLE) == Ok::<FrameState, BuildError>(pending));
            assert(stream.drop_first().first() == byte);
            assert(stream.drop_first().drop_first() =~= after);
            assert(pending.step(byte) == Ok::<FrameState, BuildError>(stored));
            assert(pending.feed(stream.drop_first()) == stored.feed(after));
        } else {
            assert(stream.first() == byte);
            assert(stream.drop_first() =~= after);
            assert(state.step(byte) == Ok::<FrameState, BuildError>(stored));
        }
    }
}

/// Inside a frame, escaped data that does not fit the buffer is refused as
/// too much data, whatever follows it.
pub proof fn lemma_feed_escaped_overflow(state: FrameState, data: Seq<u8>, rest: Seq<u8>)
    requires
        state.phase is Receiving,
        state.payload.len() <= state.capacity,
        state.payload.len() + data.len() > state.capacity,
    ensures
        state.feed(escape(data) + rest).1 == Err::<(), BuildError>(BuildError::TooMuchData),
    decreases data.len(),
{
    let byte = data.first();
    let stream = escape(data) + rest;
    let after = escape(data.drop_first()) + rest;
    let stored = state.store(byte);
    if state.payload.len() < state.capacity {
        lemma_feed_escaped_overflow(stored, data.drop_first(), rest);
    }
    if is_reserved(byte) {
        let pending = state.enter(Phase::EscapePending);
        assert(stream.first() == CONTROL_CODE_DLE);
        assert(stream.drop_first() =~= seq![byte] + after);
        assert(state.step(CONTROL_CODE_DLE) == Ok::<FrameState, BuildError>(pending));
        assert(stream.drop_first().first() == byte);
        assert(stream.drop_first().drop_first() =~= after);
        assert(state.feed(stream) == pending.feed(stream.drop_first()));
    } else {
        assert(stream.first() == byte);
        assert(stream.drop_first() =~= after);
    }
}

/// The body of an encoded frame is intact: cut before its last two bytes it
/// gives the payload back, and those two bytes are the payload's checksum.
pub proof fn lemma_frame_body_intact(payload: Seq<u8>)
    ensures
        is_intact(frame_body(payload)),
        body_payload(frame_body(payload)) == payload,
        body_checksum(frame_body(payload)) == checksum_bytes(crc16_genibus(payload)),
{
    let body = frame_body(payload);
    assert(body_payload(body) =~= payload);
    assert(body_checksum(body) =~= checksum_bytes(crc16_genibus(payload)));
}

/// Round trip: a decoder that waits for a frame, or sits in one that was
/// never closed, and is fed the encoded frame of any payload, reserved bytes
/// or not, completes with that payload followed by its checksum, provided
/// its buffer has room for both. Bytes after the frame are left alone.
pub proof fn lemma_roundtrip(state: FrameState, payload: Seq<u8>, rest: Seq<u8>)
    requires
        state.phase is AwaitingStart || state.phase is Receiving,
        payload.len() + 2 <= state.capacity,
    ensures
        state.feed(encode_spec(payload) + rest) == (
            FrameState {
                capacity: state.capacity,
                phase: Phase::Complete,
                payload: frame_body(payload),
            },
            Ok::<(), BuildError>(()),
        ),
        body_payload(frame_body(payload)) == payload,
        is_intact(frame_body(payload)),
{
    lemma_frame_body_intact(payload);
    let body = frame_body(payload);
    let stream = encode_spec(payload) + rest;
    let tail = seq![CONTROL_CODE_ETX] + rest;
    let opened = state.restart();
    let filled = FrameState { payload: body, ..opened };
    assert(stream.first() == CONTROL_CODE_STX);
    assert(stream.drop_first() =~= escape(body) + tail);
    assert(state.step(CONTROL_CODE_STX) == Ok::<FrameState, BuildError>(opened));
    lemma_feed_escaped(opened, body, tail);
    assert(opened.payload + body =~= body);
    assert(tail.first() == CONTROL_CODE_ETX);
    assert(filled.step(CONTROL_CODE_ETX) == Ok::<FrameState, BuildError>(
        filled.enter(Phase::Complete),
    ));
    assert(filled.feed(tail) == filled.enter(Phase::Complete).feed(tail.drop_first()));
}

/// Overflow: a frame that carries more data than the buffer holds is
/// refused as too much data, whatever follows it.
pub proof fn lemma_overflow(state: FrameState, data: Seq<u8>, rest: Seq<u8>)
    requires
        state.phase is AwaitingStart || state.phase is Receiving,
        data.len() > state.capacity,
    ensures
        state.feed(seq![CONTROL_CODE_STX] + escape(data) + rest).1 == Err::<(), BuildError>(
            BuildError::TooMuchData,
        ),
{
    let stream = seq![CONTROL_CODE_STX] + escape(data) + rest;
    let opened = state.restart();
    assert(stream.first() == CONTROL_CODE_STX);
    assert(stream.drop_first() =~= escape(data) + rest);
    assert(state.step(CONTROL_CODE_STX) == Ok::<FrameState, BuildError>(opened));
    lemma_feed_escaped_overflow(opened, data, rest);
}

/// Incremental round trip: an encoded frame that reaches a fresh decoder
/// cut into chunks, at whatever places, completes with the same body as in
/// one piece.
pub proof fn lemma_roundtrip_chunked(capacity: nat, payload: Seq<u8>, chunks: Seq<Seq<u8>>)
    requires
        payload.len() + 2 <= capacity,
        chunks.flatten() == encode_spec(payload),
    ensures
        feed_chunks(FrameState::fresh(capacity), chunks) == (
            FrameState { capacity, phase: Phase::Complete, payload: frame_body(payload) },
            Ok::<(), BuildError>(()),
        ),
{
    let fresh = FrameState::fresh(capacity);
    lemma_feed_chunks(fresh, chunks);
    lemma_roundtrip(fresh, payload, Seq::empty());
    assert(encode_spec(payload) + Seq::<u8>::empty() =~= encode_spec(payload));
}

} // verus!
