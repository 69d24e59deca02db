//! Identifiers: random UUIDs, their text form, and checksums.
use vstd::prelude::*;
use crate::text::hex_char;

verus! {

/// `uuid::Uuid::new_v4`: sixteen bytes, random but for the version and the variant.
#[verifier::external_body]
pub(crate) fn new_uuid() -> (r: Vec<u8>)
    ensures
        r@.len() == 16,
        r@[6] / 16 == 4,
        r@[8] / 64 == 2,
{
    uuid::Uuid::new_v4().as_bytes().to_vec()
}

/// The checksum that `crc32fast::hash` gives of a byte string.
pub uninterp spec fn crc32_of(bytes: Seq<u8>) -> u32;

/// `crc32fast::hash`: the CRC-32 checksum, which depends on the bytes alone.
#[verifier::external_body]
pub(crate) fn crc32(bytes: &[u8]) -> (r: u32)
    ensures
        r == crc32_of(bytes@),
{
    crc32fast::hash(bytes)
}

/// Two hexadecimal digits of a byte.
pub open spec fn byte_text(b: u8) -> Seq<char> {
    seq![hex_char((b / 16) as nat), hex_char((b % 16) as nat)]
}

/// The digits of a run of bytes.
pub open spec fn bytes_text(b: Seq<u8>) -> Seq<char>
    decreases b.len(),
{
    if b.len() == 0 {
        Seq::empty()
    } else {
        bytes_text(b.drop_last()) + byte_text(b.last())
    }
}

/// The text of a UUID: its digits in groups of four, two, two, two and six bytes.
pub open spec fn uuid_text_of(b: Seq<u8>) -> Seq<char> {
    bytes_text(b.subrange(0, 4)) + "-"@ + bytes_text(b.subrange(4, 6)) + "-"@ + bytes_text(
        b.subrange(6, 8),
    ) + "-"@ + bytes_text(b.subrange(8, 10)) + "-"@ + bytes_text(b.subrange(10, 16))
}

fn hex_digit(d: u8) -> (r: char)
    requires
        d < 16,
    ensures
        r == hex_char(d as nat),
{
    if d < 10 {
        (48u8 + d) as char
    } else {
        (87u8 + d) as char
    }
}

fn push_bytes(s: &mut String, b: &Vec<u8>, from: usize, to: usize)
    requires
        from <= to <= b@.len(),
    ensures
        final(s)@ == old(s)@ + bytes_text(b@.subrange(from as int, to as int)),
{
    let ghost start = s@;
    let mut i: usize = from;
    proof {
        assert(start + bytes_text(b@.subrange(from as int, from as int)) =~= start);
    }
    while i < to
        invariant
            from <= i <= to <= b@.len(),
            s@ == start + bytes_text(b@.subrange(from as int, i as int)),
        decreases to - i,
    {
        let x: u8 = b[i];
        s.push(hex_digit(x / 16));
        s.push(hex_digit(x % 16));
        i = i + 1;
        proof {
            let now = b@.subrange(from as int, i as int);
            assert(now.drop_last() =~= b@.subrange(from as int, i - 1));
            assert(s@ =~= start + bytes_text(now));
        }
    }
}

/// The text of a UUID.
pub fn uuid_text(b: &Vec<u8>) -> (r: String)
    requires
        b@.len() == 16,
    ensures
        r@ == uuid_text_of(b@),
{
    let mut s = String::new();
    push_bytes(&mut s, b, 0, 4);
    s.append("-");
    push_bytes(&mut s, b, 4, 6);
    s.append("-");
    push_bytes(&mut s, b, 6, 8);
    s.append("-");
    push_bytes(&mut s, b, 8, 10);
    s.append("-");
    push_bytes(&mut s, b, 10, 16);
    proof {
        assert(Seq::<char>::empty() + bytes_text(b@.subrange(0, 4)) =~= bytes_text(
            b@.subrange(0, 4),
        ));
    }
    s
}

} // verus!
