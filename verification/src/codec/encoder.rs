//! The frame encoder.

use vstd::prelude::*;
use crate::codec::checksum::{calc_checksum, checksum_bytes, crc16_genibus};
use crate::codec::control::{
    is_reserved,
    ControlByte,
    CONTROL_CODE_DLE,
    CONTROL_CODE_ETX,
    CONTROL_CODE_STX,
};
use crate::codec::frame::Data;

verus! {

/// One byte as it travels inside a frame: a reserved byte is preceded by
/// the escape byte, any other byte stands for itself.
pub open spec fn escape_byte(byte: u8) -> Seq<u8> {
    if is_reserved(byte) {
        seq![CONTROL_CODE_DLE, byte]
    } else {
        seq![byte]
    }
}

/// The bytes of `data` as they travel inside a frame.
pub open spec fn escape(data: Seq<u8>) -> Seq<u8>
    decreases data.len(),
{
    if data.len() == 0 {
        Seq::empty()
    } else {
        escape_byte(data.first()) + escape(data.drop_first())
    }
}

/// The number of reserved bytes in `data`.
pub open spec fn reserved_count(data: Seq<u8>) -> nat
    decreases data.len(),
{
    if data.len() == 0 {
        0
    } else {
        reserved_count(data.drop_first()) + if is_reserved(data.first()) {
            1nat
        } else {
            0nat
        }
    }
}

/// The body of the frame for `payload`: the payload, then its checksum.
pub open spec fn frame_body(payload: Seq<u8>) -> Seq<u8> {
    payload + checksum_bytes(crc16_genibus(payload))
}

/// The frame for `payload`: start byte, escaped body, stop byte.
pub open spec fn encode_spec(payload: Seq<u8>) -> Seq<u8> {
    seq![CONTROL_CODE_STX] + escape(frame_body(payload)) + seq![CONTROL_CODE_ETX]
}

/// Escaping one more byte at the end appends that byte's escaped form.
pub proof fn lemma_escape_push(data: Seq<u8>, byte: u8)
    ensures
        escape(data.push(byte)) == escape(data) + escape_byte(byte),
    decreases data.len(),
{
    if data.len() == 0 {
        assert(data.push(byte).drop_first() =~= Seq::<u8>::empty());
        assert(escape(data.push(byte).drop_first()) =~= Seq::<u8>::empty());
        assert(escape(data.push(byte)) =~= escape(data) + escape_byte(byte));
    } else {
        lemma_escape_push(data.drop_first(), byte);
        assert(data.push(byte).drop_first() =~= data.drop_first().push(byte));
        assert(escape(data.push(byte)) =~= escape(data) + escape_byte(byte));
    }
}

/// Escaping goes through concatenation.
pub proof fn lemma_escape_concat(a: Seq<u8>, b: Seq<u8>)
    ensures
        escape(a + b) == escape(a) + escape(b),
    decreases a.len(),
{
    if a.len() == 0 {
        assert(a + b =~= b);
        assert(escape(a + b) =~= escape(a) + escape(b));
    } else {
        lemma_escape_concat(a.drop_first(), b);
        assert((a + b).drop_first() =~= a.drop_first() + b);
        assert(escape(a + b) =~= escape(a) + escape(b));
    }
}

/// Escaping adds one byte for each reserved byte.
pub proof fn lemma_escape_len(data: Seq<u8>)
    ensures
        escape(data).len() == data.len() + reserved_count(data),
    decreases data.len(),
{
    if data.len() > 0 {
        lemma_escape_len(data.drop_first());
    }
}

/// A frame is four bytes longer than its payload, and one byte more for
/// each reserved byte in the payload and in the checksum.
pub proof fn lemma_encoded_len(payload: Seq<u8>)
    ensures
        encode_spec(payload).len() == payload.len() + 4 + reserved_count(frame_body(payload)),
{
    lemma_escape_len(frame_body(payload));
}

/// Appends the escaped form of `byte` to `out`.
fn push_escaped(out: &mut Vec<u8>, byte: u8)
    ensures
        final(out)@ == old(out)@ + escape_byte(byte),
{
    if ControlByte::classify(byte).is_some() {
        out.push(CONTROL_CODE_DLE);
    }
    out.push(byte);
    assert(out@ =~= old(out)@ + escape_byte(byte));
}

/// One outbound message: a payload and the checksum of that payload.
pub struct Packet {
    data: Data,
    crc16_genibus: u16,
}

impl View for Packet {
    type V = Seq<u8>;

    /// The payload.
    closed spec fn view(&self) -> Seq<u8> {
        self.data@
    }
}

impl Packet {
    #[verifier::type_invariant]
    spec fn checksum_matches(self) -> bool {
        self.crc16_genibus == crc16_genibus(self.data@)
    }

    /// A packet for `data`. The checksum is taken over the payload as it is
    /// given, before any escaping.
    pub fn from(data: Data) -> (packet: Packet)
        ensures
            packet@ == data@,
    {
        let crc16_genibus = calc_checksum(data.0.as_slice());
        Packet { data, crc16_genibus }
    }

    /// The CRC-16/GENIBUS checksum of the payload.
    pub fn checksum(&self) -> (checksum: u16)
        ensures
            checksum == crc16_genibus(self@),
    {
        proof {
            use_type_invariant(self);
        }
        self.crc16_genibus
    }

    /// The payload.
    pub fn payload(&self) -> (data: &Data)
        ensures
            data@ == self@,
    {
        &self.data
    }

    /// The frame for this packet: start byte, the payload and the two
    /// checksum bytes (high, then low) with every reserved byte escaped,
    /// stop byte.
    pub fn as_vec(&self) -> (frame: Vec<u8>)
        ensures
            frame@ == encode_spec(self@),
            frame@.len() == self@.len() + 4 + reserved_count(frame_body(self@)),
    {
        proof {
            use_type_invariant(self);
            lemma_encoded_len(self@);
        }
        build_frame(self.data.0.as_slice(), self.crc16_genibus)
    }
}

/// Puts `payload` and `checksum` between a start byte and a stop byte.
fn build_frame(payload: &[u8], checksum: u16) -> (frame: Vec<u8>)
    ensures
        frame@ == seq![CONTROL_CODE_STX] + escape(payload@ + checksum_bytes(checksum))
            + seq![CONTROL_CODE_ETX],
{
    let crc16_high: u8 = (checksum >> 8) as u8;
    let crc16_low: u8 = (checksum & 0xff) as u8;

    let mut frame: Vec<u8> = Vec::new();
    frame.push(CONTROL_CODE_STX);
    let n = payload.len();
    let mut i: usize = 0;
    assert(payload@.take(0) =~= Seq::empty());
    assert(frame@ =~= seq![CONTROL_CODE_STX] + escape(payload@.take(0)));
    while i < n
        invariant
            0 <= i <= n,
            n == payload@.len(),
            frame@ == seq![CONTROL_CODE_STX] + escape(payload@.take(i as int)),
        decreases n - i,
    {
        let byte = payload[i];
        push_escaped(&mut frame, byte);
        proof {
            lemma_escape_push(payload@.take(i as int), byte);
            assert(payload@.take(i as int).push(byte) =~= payload@.take(i + 1));
            assert(frame@ =~= seq![CONTROL_CODE_STX] + escape(payload@.take(i + 1)));
        }
        i += 1;
    }
    push_escaped(&mut frame, crc16_high);
    push_escaped(&mut frame, crc16_low);
    frame.push(CONTROL_CODE_ETX);
    proof {
        let sum = checksum_bytes(checksum);
        assert(payload@.take(n as int) =~= payload@);
        assert(sum =~= seq![crc16_high] + seq![crc16_low]);
        lemma_escape_concat(seq![crc16_high], seq![crc16_low]);
        lemma_escape_push(Seq::empty(), crc16_high);
        lemma_escape_push(Seq::empty(), crc16_low);
        assert(Seq::<u8>::empty().push(crc16_high) =~= seq![crc16_high]);
        assert(Seq::<u8>::empty().push(crc16_low) =~= seq![crc16_low]);
        assert(escape(Seq::<u8>::empty()) =~= Seq::<u8>::empty());
        assert(escape(sum) =~= escape_byte(crc16_high) + escape_byte(crc16_low));
        lemma_escape_concat(payload@, sum);
        assert(frame@ =~= seq![CONTROL_CODE_STX] + escape(payload@ + sum) + seq![
            CONTROL_CODE_ETX,
        ]);
    }
    frame
}

/// Encodes `payload` as one frame.
pub fn encode(payload: &[u8]) -> (frame: Vec<u8>)
    ensures
        frame@ == encode_spec(payload@),
        frame@.len() == payload@.len() + 4 + reserved_count(frame_body(payload@)),
{
    proof {
        lemma_encoded_len(payload@);
    }
    build_frame(payload, calc_checksum(payload))
}

} // verus!
