//! Integrity and header checks on the game executable `iw3mp.exe`.
use vstd::prelude::*;
use vstd::arithmetic::div_mod::{lemma_add_mod_noop, lemma_add_mod_noop_right};

verus! {

/// The modulus of the Adler-32 checksum.
pub const ADLER_MODULUS: u32 = 65521;

/// Adler-32 checksum that the unmodified `.text` section of the game has.
pub const PURE_TEXT_CHECKSUM: u32 = 0xD0D368F6;

/// Adler-32 checksum that the unmodified `.rdata` section of the game has.
pub const PURE_RDATA_CHECKSUM: u32 = 0xAA33BC12;

/// Offset in the executable file of the COFF `Characteristics` field.
pub const CHARACTERISTICS_FILE_OFFSET: u64 = 286;

/// The `IMAGE_FILE_LARGE_ADDRESS_AWARE` flag of the COFF `Characteristics` field.
pub const IMAGE_FILE_LARGE_ADDRESS_AWARE: u16 = 0x0020;

/// Sum of all bytes of `s`.
pub open spec fn byte_sum(s: Seq<u8>) -> int
    decreases s.len(),
{
    if s.len() == 0 {
        0
    } else {
        byte_sum(s.drop_last()) + s.last()
    }
}

/// Sum, over every non-empty prefix `p` of `s`, of `1 + byte_sum(p)`.
pub open spec fn prefix_total(s: Seq<u8>) -> int
    decreases s.len(),
{
    if s.len() == 0 {
        0
    } else {
        prefix_total(s.drop_last()) + 1 + byte_sum(s)
    }
}

/// The low half `A` of the Adler-32 checksum (RFC 1950): `1 + D1 + ... + Dn` modulo 65521.
pub open spec fn adler_low(s: Seq<u8>) -> int {
    (1 + byte_sum(s)) % (ADLER_MODULUS as int)
}

/// The high half `B` of the Adler-32 checksum (RFC 1950): the sum of the successive
/// values of `A`, modulo 65521.
pub open spec fn adler_high(s: Seq<u8>) -> int {
    prefix_total(s) % (ADLER_MODULUS as int)
}

/// The Adler-32 checksum of `s`: `B * 65536 + A`.
pub open spec fn adler32_spec(s: Seq<u8>) -> int {
    adler_high(s) * 65536 + adler_low(s)
}

/// Computes the Adler-32 checksum of `data`.
pub fn adler32(data: &[u8]) -> (checksum: u32)
    ensures
        checksum == adler32_spec(data@),
        checksum % 65536 == adler_low(data@),
        checksum / 65536 == adler_high(data@),
{
    let mut a: u32 = 1;
    let mut b: u32 = 0;
    let len: usize = data.len();
    let mut i: usize = 0;
    while i < len
        invariant
            len == data@.len(),
            i <= len,
            a == adler_low(data@.take(i as int)),
            b == adler_high(data@.take(i as int)),
        decreases len - i,
    {
        let ghost prev = data@.take(i as int);
        let ghost next = data@.take(i + 1);
        proof {
            assert(next.drop_last() =~= prev);
            assert(next.last() == data@[i as int]);
            lemma_add_mod_noop_right(data@[i as int] as int, 1 + byte_sum(prev), ADLER_MODULUS as int);
            lemma_add_mod_noop_right(prefix_total(prev), 1 + byte_sum(next), ADLER_MODULUS as int);
            lemma_add_mod_noop(prefix_total(prev), 1 + byte_sum(next), ADLER_MODULUS as int);
        }
        a = (a + data[i] as u32) % ADLER_MODULUS;
        b = (b + a) % ADLER_MODULUS;
        i = i + 1;
    }
    proof {
        assert(data@.take(len as int) =~= data@);
        assert(a < 65536 && b < 65536);
        assert((b << 16u32) | a == b * 65536 + a) by (bit_vector)
            requires
                a < 65536,
                b < 65536,
        ;
    }
    (b << 16u32) | a
}

/// Whether the game's code and read-only data are unmodified: both sections have
/// the Adler-32 checksums of the original executable.
pub fn is_pure(text: &[u8], rdata: &[u8]) -> (pure: bool)
    ensures
        pure == (adler32_spec(text@) == PURE_TEXT_CHECKSUM && adler32_spec(rdata@)
            == PURE_RDATA_CHECKSUM),
{
    let text_checksum = adler32(text);
    if text_checksum != PURE_TEXT_CHECKSUM {
        return false;
    }
    let rdata_checksum = adler32(rdata);
    if rdata_checksum != PURE_RDATA_CHECKSUM {
        return false;
    }
    true
}

/// The little-endian 16-bit value of two bytes.
pub open spec fn le_u16(bytes: [u8; 2]) -> int {
    bytes[0] + 256 * bytes[1]
}

/// Whether the `Characteristics` field, given by its two bytes as stored in the file,
/// carries `IMAGE_FILE_LARGE_ADDRESS_AWARE`.
pub fn characteristics_large_address_aware(bytes: [u8; 2]) -> (aware: bool)
    ensures
        aware == ((le_u16(bytes) as u16) & IMAGE_FILE_LARGE_ADDRESS_AWARE != 0),
{
    let low: u8 = bytes[0];
    let high: u8 = bytes[1];
    let flags: u16 = (low as u16) | ((high as u16) << 8u16);
    assert(flags == low + 256 * high) by (bit_vector)
        requires
            flags == (low as u16) | ((high as u16) << 8u16),
    ;
    flags & IMAGE_FILE_LARGE_ADDRESS_AWARE != 0
}

/// Whether the game executable is large-address aware. `characteristics` holds the two
/// bytes read at `CHARACTERISTICS_FILE_OFFSET`, or `None` when they could not be read;
/// an unreadable header counts as aware.
pub fn is_large_address_aware(characteristics: Option<[u8; 2]>) -> (aware: bool)
    ensures
        aware == match characteristics {
            Some(bytes) => (le_u16(bytes) as u16) & IMAGE_FILE_LARGE_ADDRESS_AWARE != 0,
            None => true,
        },
{
    match characteristics {
        Some(bytes) => characteristics_large_address_aware(bytes),
        None => true,
    }
}

} // verus!
