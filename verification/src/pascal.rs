//! Length-prefixed ("pascal") string codec. A stored string is a single
//! length byte followed by that many character bytes; each byte stands for
//! one character.
use vstd::prelude::*;
use vstd::string::StrSliceExecFns;

verus! {

/// The characters encoded by a length-prefixed buffer: the first byte gives
/// the count, the following bytes the characters.
pub open spec fn spec_from_pascal(b: Seq<u8>) -> Seq<char>
    recommends
        b.len() >= 1,
        1 + b[0] <= b.len(),
{
    Seq::new(b[0] as nat, |i: int| b[i + 1] as char)
}

/// Whether a character can be stored as a single byte.
pub open spec fn fits_in_byte(c: char) -> bool {
    c as u32 <= 0xFF
}

/// The length-prefixed encoding of `s`, capped to a field of `max_len` bytes:
/// a length byte of `min(s.len(), max_len - 1)` followed by that many
/// character bytes (an empty string or a zero-sized field encode as a single
/// zero byte). Characters wider than a byte are truncated to their low 8 bits.
pub open spec fn spec_to_pascal(s: Seq<char>, max_len: u8) -> Seq<u8> {
    if s.len() == 0 || max_len == 0 {
        seq![0u8]
    } else {
        let l = if s.len() <= (max_len - 1) as int {
            s.len() as int
        } else {
            (max_len - 1) as int
        };
        seq![l as u8] + Seq::new(l as nat, |i: int| s[i] as u8)
    }
}

/// A character that fits in a byte survives the trip through `u8`.
pub proof fn lemma_char_byte_roundtrip(c: char)
    requires
        fits_in_byte(c),
    ensures
        (c as u8) as char == c,
{
    let u = c as u32;
    assert(u <= 0xFF ==> ((u as u8) as u32) == u) by (bit_vector);
    assert(c as u8 == u as u8);
    vstd::utf8::char_u32_cast(c, u);
}

/// Decoding inverts encoding: a string of byte-width characters that is
/// strictly shorter than its field decodes back to itself. In particular a
/// 255-byte field round-trips every such string of up to 254 characters.
pub proof fn lemma_pascal_roundtrip(s: Seq<char>, max_len: u8)
    requires
        s.len() < max_len,
        forall|i: int| 0 <= i < s.len() ==> fits_in_byte(#[trigger] s[i]),
    ensures
        spec_from_pascal(spec_to_pascal(s, max_len)) == s,
{
    let e = spec_to_pascal(s, max_len);
    let d = spec_from_pascal(e);
    assert forall|i: int| 0 <= i < s.len() implies d[i] == s[i] by {
        lemma_char_byte_roundtrip(s[i]);
    }
    assert(d =~= s);
}

/// Relies on `String::push`: appends exactly the given character.
#[verifier::external_body]
fn push_char(s: &mut String, c: char)
    ensures
        final(s)@ == old(s)@.push(c),
{
    s.push(c)
}

/// Convert a byte length-prefixed string into a Rust string.
/// Only single-byte lengths are supported (max 255 chars); the buffer must
/// hold at least as many bytes as its length prefix promises.
pub fn from_pascal_string(pstring: &[u8]) -> (r: String)
    requires
        pstring@.len() >= 1,
        1 + pstring@[0] <= pstring@.len(),
    ensures
        r@ == spec_from_pascal(pstring@),
{
    let length = pstring[0] as usize;
    let mut r = String::new();
    let mut i: usize = 0;
    while i < length
        invariant
            pstring@.len() >= 1,
            length == pstring@[0],
            1 + length <= pstring@.len(),
            i <= length,
            r@ == Seq::new(i as nat, |j: int| pstring@[j + 1] as char),
        decreases length - i,
    {
        let c = pstring[i + 1] as char;
        push_char(&mut r, c);
        i += 1;
        proof {
            assert(r@ =~= Seq::new(i as nat, |j: int| pstring@[j + 1] as char));
        }
    }
    proof {
        assert(r@ =~= spec_from_pascal(pstring@));
    }
    r
}

/// Encode `text` as a length-prefixed string for a field of `max_length`
/// bytes. The length byte never exceeds the number of character bytes that
/// follow it, and never exceeds `max_length - 1`, so the encoding always fits
/// the field.
pub fn to_pascal_string(text: &str, max_length: u8) -> (r: Vec<u8>)
    ensures
        r@ == spec_to_pascal(text@, max_length),
{
    let n = text.unicode_len();
    if n == 0 || max_length == 0 {
        let mut r: Vec<u8> = Vec::new();
        r.push(0u8);
        proof {
            assert(r@ =~= spec_to_pascal(text@, max_length));
        }
        return r;
    }
    let cap = (max_length - 1) as usize;
    let l = if n <= cap {
        n
    } else {
        cap
    };
    let mut r: Vec<u8> = Vec::new();
    r.push(l as u8);
    let mut i: usize = 0;
    while i < l
        invariant
            l <= 254,
            l <= text@.len(),
            i <= l,
            r@.len() == 1 + i,
            r@[0] == l as u8,
            forall|j: int| 0 <= j < i ==> r@[j + 1] == text@[j] as u8,
        decreases l - i,
    {
        let c = text.get_char(i);
        r.push(c as u8);
        i += 1;
    }
    proof {
        assert(r@ =~= spec_to_pascal(text@, max_length));
    }
    r
}

} // verus!
