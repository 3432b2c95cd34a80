//! Unique identifiers: generation of fresh 128-bit ids, their hyphenated
//! hexadecimal rendering, and a validity check for identifier text.

use vstd::prelude::*;
use crate::text::hex_digit;

verus! {

/// Whether `s` is accepted as a unique-identifier string.
pub uninterp spec fn uuid_parses(s: Seq<char>) -> bool;

/// Relies on uuid's `Uuid::new_v4`: sixteen bytes from the system RNG.
#[verifier::external_body]
pub(crate) fn new_uuid_bytes() -> (r: Vec<u8>)
    ensures
        r@.len() == 16,
{
    uuid::Uuid::new_v4().as_bytes().to_vec()
}

/// Relies on uuid's `Uuid::parse_str`: acceptance of an identifier string is
/// a function of the text alone.
#[verifier::external_body]
pub fn check_valid_uuid(value: &str) -> (r: bool)
    ensures
        r == uuid_parses(value@),
{
    uuid::Uuid::parse_str(value).is_ok()
}

/// The two lowercase hex digits of one byte.
pub open spec fn byte_hex(b: u8) -> Seq<char> {
    seq![hex_digit(b as int / 16), hex_digit(b as int % 16)]
}

/// The lowercase hex rendering of a byte sequence.
pub open spec fn bytes_hex(s: Seq<u8>) -> Seq<char>
    decreases s.len(),
{
    if s.len() == 0 {
        Seq::<char>::empty()
    } else {
        byte_hex(s[0]) + bytes_hex(s.skip(1))
    }
}

/// The hyphenated rendering of a 16-byte identifier: 8-4-4-4-12 hex digits.
pub open spec fn uuid_text(b: Seq<u8>) -> Seq<char>
    recommends
        b.len() == 16,
{
    bytes_hex(b.subrange(0, 4)) + seq!['-'] + bytes_hex(b.subrange(4, 6)) + seq!['-'] + bytes_hex(
        b.subrange(6, 8),
    ) + seq!['-'] + bytes_hex(b.subrange(8, 10)) + seq!['-'] + bytes_hex(b.subrange(10, 16))
}

proof fn lemma_bytes_hex_append(a: Seq<u8>, b: Seq<u8>)
    ensures
        bytes_hex(a + b) == bytes_hex(a) + bytes_hex(b),
    decreases a.len(),
{
    if a.len() == 0 {
        assert(a + b =~= b);
        assert(bytes_hex(a) + bytes_hex(b) =~= bytes_hex(b));
    } else {
        assert((a + b).skip(1) =~= a.skip(1) + b);
        lemma_bytes_hex_append(a.skip(1), b);
        assert((a + b)[0] == a[0]);
        assert(bytes_hex(a + b) =~= bytes_hex(a) + bytes_hex(b));
    }
}

/// Appends the hex rendering of `v[a..b]` to `out`.
fn bytes_hex_into(out: &mut String, v: &Vec<u8>, a: usize, b: usize)
    requires
        a <= b <= v@.len(),
    ensures
        final(out)@ == old(out)@ + bytes_hex(v@.subrange(a as int, b as int)),
{
    let mut k = a;
    proof {
        assert(v@.subrange(a as int, a as int) =~= Seq::<u8>::empty());
        assert(out@ =~= old(out)@ + bytes_hex(v@.subrange(a as int, a as int)));
    }
    while k < b
        invariant
            a <= k <= b <= v@.len(),
            out@ == old(out)@ + bytes_hex(v@.subrange(a as int, k as int)),
        decreases b - k,
    {
        let byte = v[k];
        out.append(crate::text::hex_digit_str((byte / 16) as u32));
        out.append(crate::text::hex_digit_str((byte % 16) as u32));
        proof {
            let kk = k as int;
            assert(v@.subrange(a as int, kk + 1) =~= v@.subrange(a as int, kk) + seq![v@[kk]]);
            lemma_bytes_hex_append(v@.subrange(a as int, kk), seq![v@[kk]]);
            assert(seq![v@[kk]].skip(1) =~= Seq::<u8>::empty());
            assert(bytes_hex(Seq::<u8>::empty()) =~= Seq::<char>::empty());
            assert(seq![v@[kk]][0] == v@[kk]);
            assert(bytes_hex(seq![v@[kk]]) =~= byte_hex(v@[kk]));
            assert(out@ =~= old(out)@ + bytes_hex(v@.subrange(a as int, kk + 1)));
        }
        k += 1;
    }
}

/// Renders a 16-byte identifier in its hyphenated form.
pub fn uuid_string(b: &Vec<u8>) -> (r: String)
    requires
        b@.len() == 16,
    ensures
        r@ == uuid_text(b@),
{
    proof {
        reveal_strlit("-");
    }
    let mut s = String::new();
    bytes_hex_into(&mut s, b, 0, 4);
    s.append("-");
    bytes_hex_into(&mut s, b, 4, 6);
    s.append("-");
    bytes_hex_into(&mut s, b, 6, 8);
    s.append("-");
    bytes_hex_into(&mut s, b, 8, 10);
    s.append("-");
    bytes_hex_into(&mut s, b, 10, 16);
    proof {
        assert(s@ =~= uuid_text(b@));
    }
    s
}

} // verus!
