//! The frame checksum: CRC-16/GENIBUS.
//!
//! Polynomial `0x1021`, initial value `0xFFFF`, no reflection of input or
//! output, final XOR `0xFFFF`.

use vstd::prelude::*;

verus! {

/// Generator polynomial of the checksum.
pub const CRC16_POLY: u16 = 0x1021;

/// Register value before the first byte.
pub const CRC16_INIT: u16 = 0xFFFF;

/// Value XORed onto the register after the last byte.
pub const CRC16_XOROUT: u16 = 0xFFFF;

/// One shift of the register: the top bit leaves, and the polynomial is
/// XORed in when that bit was set.
pub open spec fn crc16_shift(value: u16) -> u16 {
    if value & 0x8000 != 0 {
        (value << 1) ^ CRC16_POLY
    } else {
        value << 1
    }
}

/// The register after `index`, placed in the high byte, has been shifted out
/// over eight steps.
pub open spec fn crc16_entry(index: u8) -> u16 {
    let v0 = (index as u16) << 8;
    let v1 = crc16_shift(v0);
    let v2 = crc16_shift(v1);
    let v3 = crc16_shift(v2);
    let v4 = crc16_shift(v3);
    let v5 = crc16_shift(v4);
    let v6 = crc16_shift(v5);
    let v7 = crc16_shift(v6);
    crc16_shift(v7)
}

/// The register after one more byte of input.
pub open spec fn crc16_update(crc: u16, byte: u8) -> u16 {
    crc16_entry(((crc >> 8) as u8) ^ byte) ^ (crc << 8)
}

/// The register after all of `data`, starting from `crc`.
pub open spec fn crc16_fold(crc: u16, data: Seq<u8>) -> u16
    decreases data.len(),
{
    if data.len() == 0 {
        crc
    } else {
        crc16_update(crc16_fold(crc, data.drop_last()), data.last())
    }
}

/// The CRC-16/GENIBUS checksum of `data`.
pub open spec fn crc16_genibus(data: Seq<u8>) -> u16 {
    crc16_fold(CRC16_INIT, data) ^ CRC16_XOROUT
}

/// The checksum as it travels on the wire: high byte, then low byte.
pub open spec fn checksum_bytes(checksum: u16) -> Seq<u8> {
    seq![(checksum >> 8) as u8, (checksum & 0xff) as u8]
}

/// The check value of the profile: the checksum of the nine ASCII digits
/// `"123456789"` is `0xD64E`.
pub proof fn lemma_check_value()
    ensures
        crc16_genibus(seq![0x31u8, 0x32u8, 0x33u8, 0x34u8, 0x35u8, 0x36u8, 0x37u8, 0x38u8, 0x39u8])
            == 0xD64Eu16,
{
    let digits = seq![0x31u8, 0x32u8, 0x33u8, 0x34u8, 0x35u8, 0x36u8, 0x37u8, 0x38u8, 0x39u8];
    assert(crc16_fold(CRC16_INIT, digits.take(0)) == 0xffffu16);
    assert(digits.take(1).drop_last() =~= digits.take(0));
    assert(crc16_update(0xffffu16, 0x31u8) == 0xc782u16) by (bit_vector);
    assert(crc16_fold(CRC16_INIT, digits.take(1)) == 0xc782u16);
    assert(digits.take(2).drop_last() =~= digits.take(1));
    assert(crc16_update(0xc782u16, 0x32u8) == 0x3dbau16) by (bit_vector);
    assert(crc16_fold(CRC16_INIT, digits.take(2)) == 0x3dbau16);
    assert(digits.take(3).drop_last() =~= digits.take(2));
    assert(crc16_update(0x3dbau16, 0x33u8) == 0x5bceu16) by (bit_vector);
    assert(crc16_fold(CRC16_INIT, digits.take(3)) == 0x5bceu16);
    assert(digits.take(4).drop_last() =~= digits.take(3));
    assert(crc16_update(0x5bceu16, 0x34u8) == 0x5349u16) by (bit_vector);
    assert(crc16_fold(CRC16_INIT, digits.take(4)) == 0x5349u16);
    assert(digits.take(5).drop_last() =~= digits.take(4));
    assert(crc16_update(0x5349u16, 0x35u8) == 0x4560u16) by (bit_vector);
    assert(crc16_fold(CRC16_INIT, digits.take(5)) == 0x4560u16);
    assert(digits.take(6).drop_last() =~= digits.take(5));
    assert(crc16_update(0x4560u16, 0x36u8) == 0x2ef4u16) by (bit_vector);
    assert(crc16_fold(CRC16_INIT, digits.take(6)) == 0x2ef4u16);
    assert(digits.take(7).drop_last() =~= digits.take(6));
    assert(crc16_update(0x2ef4u16, 0x37u8) == 0x7718u16) by (bit_vector);
    assert(crc16_fold(CRC16_INIT, digits.take(7)) == 0x7718u16);
    assert(digits.take(8).drop_last() =~= digits.take(7));
    assert(crc16_update(0x7718u16, 0x38u8) == 0xa12bu16) by (bit_vector);
    assert(crc16_fold(CRC16_INIT, digits.take(8)) == 0xa12bu16);
    assert(digits.take(9).drop_last() =~= digits.take(8));
    assert(crc16_update(0xa12bu16, 0x39u8) == 0x29b1u16) by (bit_vector);
    assert(crc16_fold(CRC16_INIT, digits.take(9)) == 0x29b1u16);
    assert(digits.take(9) =~= digits);
    assert(0x29b1u16 ^ 0xffffu16 == 0xd64eu16) by (bit_vector);
}

/// Computes the CRC-16/GENIBUS checksum of `data`.
///
/// Not proved: the body hands `data` to the `crc` crate (`Crc::<u16>::new` on
/// `CRC_16_GENIBUS`, then `digest`, `Digest::update` and `Digest::finalize`).
/// The contract claims that this digest is the checksum defined by
/// [`crc16_genibus`]: the register starts at `0xFFFF`, takes each byte through
/// the table entry for the register's high byte XOR the input byte, and is
/// XORed with `0xFFFF` at the end.
#[verifier::external_body]
pub(crate) fn calc_checksum(data: &[u8]) -> (checksum: u16)
    ensures
        checksum == crc16_genibus(data@),
{
    let crc = crc::Crc::<u16>::new(&crc::CRC_16_GENIBUS);
    let mut digest = crc.digest();
    digest.update(data);
    digest.finalize()
}

} // verus!
