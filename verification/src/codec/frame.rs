//! The values that cross the codec's boundary: raw bytes going in and
//! decoded frame bodies coming out.

use vstd::prelude::*;
use vstd::slice::slice_subrange;
use crate::codec::checksum::{calc_checksum, checksum_bytes, crc16_genibus};

verus! {

/// Raw bytes that change hands as a whole.
pub struct Data(pub Vec<u8>);

impl View for Data {
    type V = Seq<u8>;

    open spec fn view(&self) -> Seq<u8> {
        self.0@
    }
}

/// The part of a frame body that precedes its two checksum bytes.
pub open spec fn body_payload(body: Seq<u8>) -> Seq<u8>
    recommends
        body.len() >= 2,
{
    body.take(body.len() - 2)
}

/// The two checksum bytes at the end of a frame body.
pub open spec fn body_checksum(body: Seq<u8>) -> Seq<u8>
    recommends
        body.len() >= 2,
{
    body.skip(body.len() - 2)
}

/// A frame body is intact when it ends in the checksum of what precedes it.
pub open spec fn is_intact(body: Seq<u8>) -> bool {
    body.len() >= 2 && body_checksum(body) == checksum_bytes(crc16_genibus(body_payload(body)))
}

/// A frame body that the decoder has put together: the bytes between the
/// start byte and the stop byte, with the escaping removed. Its checksum has
/// not been looked at yet.
pub struct ParsedFrame {
    data: Data,
}

impl View for ParsedFrame {
    type V = Seq<u8>;

    closed spec fn view(&self) -> Seq<u8> {
        self.data@
    }
}

impl ParsedFrame {
    pub(crate) fn from_body(data: Data) -> (frame: ParsedFrame)
        ensures
            frame@ == data@,
    {
        ParsedFrame { data }
    }

    /// The bytes of the frame body.
    pub fn data(&self) -> (data: &Data)
        ensures
            data@ == self@,
    {
        &self.data
    }

    /// The frame body, given up by the frame.
    pub fn into_data(self) -> (data: Data)
        ensures
            data@ == self@,
    {
        self.data
    }

    /// Recomputes the checksum over the payload part and compares it with
    /// the two bytes that were transmitted after it.
    pub fn checksum_ok(&self) -> (ok: bool)
        ensures
            ok == is_intact(self@),
    {
        let n = self.data.0.len();
        if n < 2 {
            return false;
        }
        let sum = calc_checksum(slice_subrange(self.data.0.as_slice(), 0, n - 2));
        let high: u8 = (sum >> 8) as u8;
        let low: u8 = (sum & 0xff) as u8;
        let ok = self.data.0[n - 2] == high && self.data.0[n - 1] == low;
        proof {
            let body = self@;
            assert(body.subrange(0, n - 2) =~= body_payload(body));
            assert(checksum_bytes(sum) =~= seq![high, low]);
            if ok {
                assert(body_checksum(body) =~= seq![high, low]);
            } else {
                assert(body_checksum(body)[0] == body[n - 2]);
                assert(body_checksum(body)[1] == body[n - 1]);
            }
        }
        ok
    }

    /// The payload, if the transmitted checksum matches it.
    pub fn into_payload(self) -> (payload: Option<Data>)
        ensures
            payload is Some <==> is_intact(self@),
            payload matches Some(data) ==> data@ == body_payload(self@),
    {
        if self.checksum_ok() {
            let Data(mut bytes) = self.data;
            let n = bytes.len();
            bytes.truncate(n - 2);
            Some(Data(bytes))
        } else {
            None
        }
    }
}

} // verus!
