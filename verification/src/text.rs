//! Small string toolkit: decimal rendering, byte-level comparisons and
//! splitting of `str` values at ASCII delimiters.

use vstd::prelude::*;
use vstd::utf8::*;
use vstd::string::StringSliceAdditionalSpecFns;

verus! {

broadcast use {vstd::utf8::group_utf8_lib, vstd::string::group_string_axioms};

/// `String::push` appends one `char` to the string.
pub assume_specification[ String::push ](s: &mut String, ch: char)
    ensures
        final(s)@ == old(s)@.push(ch),
;

/// The ASCII character of the decimal digit `d`.
pub open spec fn digit_char(d: nat) -> char {
    (d + 48) as char
}

/// Decimal rendering of a natural number, most significant digit first and
/// without leading zeros.
pub open spec fn decimal(n: nat) -> Seq<char>
    decreases n,
{
    if n < 10 {
        seq![digit_char(n)]
    } else {
        decimal(n / 10).push(digit_char(n % 10))
    }
}

/// Decimal rendering of a signed integer, with a leading `-` for negatives.
pub open spec fn signed_decimal(v: int) -> Seq<char> {
    if v < 0 {
        seq!['-'] + decimal((-v) as nat)
    } else {
        decimal(v as nat)
    }
}

/// Appends the decimal digits of `n` to `s`.
pub fn push_decimal(s: &mut String, n: u64)
    ensures
        final(s)@ == old(s)@ + decimal(n as nat),
    decreases n,
{
    if n >= 10 {
        push_decimal(s, n / 10);
    }
    let d: u8 = (n % 10) as u8;
    let c: char = (d + 48) as char;
    assert(c == digit_char((n % 10) as nat));
    s.push(c);
    assert(decimal(n as nat) == if n < 10 { seq![digit_char(n as nat)] } else {
        decimal((n / 10) as nat).push(digit_char((n % 10) as nat))
    });
}

/// Appends the decimal rendering of the signed integer `v` to `s`.
pub fn push_signed_decimal(s: &mut String, v: i64)
    ensures
        final(s)@ == old(s)@ + signed_decimal(v as int),
{
    if v < 0 {
        s.push('-');
        let m: u64 = (0i128 - (v as i128)) as u64;
        push_decimal(s, m);
        assert(s@ =~= old(s)@ + signed_decimal(v as int));
    } else {
        push_decimal(s, v as u64);
    }
}

/// Appends a string slice to `s`.
pub fn push_str(s: &mut String, t: &str)
    ensures
        final(s)@ == old(s)@ + t@,
{
    s.append(t);
}

/// A string is determined by its UTF-8 encoding.
pub proof fn lemma_encode_injective(a: Seq<char>, b: Seq<char>)
    requires
        encode_utf8(a) == encode_utf8(b),
    ensures
        a == b,
{
    encode_utf8_decode_utf8(a);
    encode_utf8_decode_utf8(b);
}

/// Whether two string slices hold the same characters.
pub fn str_eq(a: &str, b: &str) -> (r: bool)
    ensures
        r == (a@ == b@),
{
    let x = a.as_bytes();
    let y = b.as_bytes();
    if x.len() != y.len() {
        return false;
    }
    let mut i: usize = 0;
    while i < x.len()
        invariant
            x@ == a.spec_bytes(),
            y@ == b.spec_bytes(),
            x@.len() == y@.len(),
            0 <= i <= x@.len(),
            forall|j: int| 0 <= j < i ==> x@[j] == y@[j],
        decreases x@.len() - i,
    {
        if x[i] != y[i] {
            return false;
        }
        i = i + 1;
    }
    assert(x@ =~= y@);
    proof {
        lemma_encode_injective(a@, b@);
    }
    true
}

/// Whether the byte sequence `b` starts with `prefix`.
pub open spec fn bytes_start_with(b: Seq<u8>, prefix: Seq<u8>) -> bool {
    prefix.len() <= b.len() && b.subrange(0, prefix.len() as int) == prefix
}

/// Every string's view is the decoding of its bytes.
pub proof fn lemma_view_is_decoded_bytes(s: &str)
    ensures
        s@ == decode_utf8(s.spec_bytes()),
        valid_utf8(s.spec_bytes()),
{
}

/// An ASCII byte is never a UTF-8 continuation byte.
pub proof fn lemma_ascii_not_continuation(b: u8)
    requires
        b < 128,
    ensures
        !is_continuation_byte(b),
{
    assert(b < 128 ==> (b & 0xc0) != 0x80) by (bit_vector);
}

/// In valid UTF-8, the position right after an ASCII byte is a character
/// boundary.
pub proof fn lemma_boundary_after_ascii(b: Seq<u8>, i: int)
    requires
        valid_utf8(b),
        0 < i <= b.len(),
        b[i - 1] < 128,
    ensures
        is_char_boundary(b, i),
    decreases b.len(),
{
    if i == b.len() {
        is_char_boundary_start_end_of_seq(b);
    } else {
        lemma_ascii_not_continuation(b[i - 1]);
        is_char_boundary_iff_not_is_continuation_byte(b, i - 1);
        let len = length_of_first_scalar(b);
        if i - 1 == 0 {
            assert(len == 1);
            assert(is_char_boundary(pop_first_scalar(b), 0));
        } else {
            let t = pop_first_scalar(b);
            assert(is_char_boundary(t, i - 1 - len));
            assert(t[i - 1 - len] == b[i - 1]);
            lemma_boundary_after_ascii(t, i - len);
        }
    }
}

/// Splits `s` at a byte offset that directly follows an ASCII byte.
pub fn split_after_ascii(s: &str, mid: usize) -> (r: (&str, &str))
    requires
        0 < mid <= s.spec_bytes().len(),
        s.spec_bytes()[mid - 1] < 128,
    ensures
        r.0.spec_bytes() == s.spec_bytes().subrange(0, mid as int),
        r.1.spec_bytes() == s.spec_bytes().subrange(mid as int, s.spec_bytes().len() as int),
        r.0@ == decode_utf8(s.spec_bytes().subrange(0, mid as int)),
        r.1@ == decode_utf8(s.spec_bytes().subrange(mid as int, s.spec_bytes().len() as int)),
{
    proof {
        lemma_boundary_after_ascii(s.spec_bytes(), mid as int);
    }
    let r = s.split_at(mid);
    proof {
        lemma_view_is_decoded_bytes(r.0);
        lemma_view_is_decoded_bytes(r.1);
    }
    r
}

/// Splits `s` at the byte offset `mid`, which is either the end of `s` or the
/// position of an ASCII byte.
pub fn split_at_ascii(s: &str, mid: usize) -> (r: (&str, &str))
    requires
        mid <= s.spec_bytes().len(),
        mid < s.spec_bytes().len() ==> s.spec_bytes()[mid as int] < 128,
    ensures
        r.0.spec_bytes() == s.spec_bytes().subrange(0, mid as int),
        r.1.spec_bytes() == s.spec_bytes().subrange(mid as int, s.spec_bytes().len() as int),
        r.0@ == decode_utf8(s.spec_bytes().subrange(0, mid as int)),
        r.1@ == decode_utf8(s.spec_bytes().subrange(mid as int, s.spec_bytes().len() as int)),
{
    proof {
        let b = s.spec_bytes();
        if mid < b.len() {
            lemma_ascii_not_continuation(b[mid as int]);
        }
        assert(is_char_boundary(b, mid as int));
    }
    let r = s.split_at(mid);
    proof {
        lemma_view_is_decoded_bytes(r.0);
        lemma_view_is_decoded_bytes(r.1);
    }
    r
}

} // verus!
