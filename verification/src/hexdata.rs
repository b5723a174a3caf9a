//! Hex and decimal text handling: parsing hex-encoded keys, addresses and
//! signatures, and formatting bytes and numbers for the responses. All of it
//! works on the UTF-8 bytes of the request strings; ASCII results are turned
//! back into strings at the edge.

use vstd::prelude::*;
use vstd::string::StringExecFns;

verus! {

/// Whether the byte is an ASCII hex digit (either case).
pub open spec fn is_hex_digit(b: u8) -> bool {
    (48 <= b && b <= 57) || (97 <= b && b <= 102) || (65 <= b && b <= 70)
}

/// The value of an ASCII hex digit.
pub open spec fn hex_digit_value(b: u8) -> u8
    recommends
        is_hex_digit(b),
{
    if 48 <= b && b <= 57 {
        (b - 48) as u8
    } else if 97 <= b && b <= 102 {
        (b - 87) as u8
    } else {
        (b - 55) as u8
    }
}

/// Whether every byte of the sequence is an ASCII hex digit.
pub open spec fn all_hex_digits(s: Seq<u8>) -> bool {
    forall|i: int| 0 <= i < s.len() ==> is_hex_digit(#[trigger] s[i])
}

/// The bytes denoted by a sequence of hex digits, two digits per byte.
pub open spec fn hex_decoded(s: Seq<u8>) -> Seq<u8>
    recommends
        s.len() % 2 == 0,
        all_hex_digits(s),
{
    Seq::new((s.len() / 2) as nat, |i: int|
        (hex_digit_value(s[2 * i]) * 16 + hex_digit_value(s[2 * i + 1])) as u8)
}

/// The lowercase hex character for a nibble.
pub open spec fn hex_digit_char(n: u8) -> char
    recommends
        n < 16,
{
    if n < 10 {
        ((n + 48) as u8) as char
    } else {
        ((n + 87) as u8) as char
    }
}

/// The lowercase hex rendering of a byte sequence, two characters per byte.
pub open spec fn hex_chars(s: Seq<u8>) -> Seq<char> {
    Seq::new((s.len() * 2) as nat, |i: int|
        if i % 2 == 0 {
            hex_digit_char(s[i / 2] / 16)
        } else {
            hex_digit_char(s[i / 2] % 16)
        })
}

/// The `0x`-prefixed lowercase hex rendering of a byte sequence.
pub open spec fn hex_chars_0x(s: Seq<u8>) -> Seq<char> {
    "0x"@ + hex_chars(s)
}

/// The sequence with every leading `0x` pair removed, as
/// `trim_start_matches("0x")` leaves it.
pub open spec fn strip_hex_prefixes(s: Seq<u8>) -> Seq<u8>
    decreases s.len(),
{
    if s.len() >= 2 && s[0] == 48 && s[1] == 120 {
        strip_hex_prefixes(s.skip(2))
    } else {
        s
    }
}

/// The sequence with a single leading `0x` pair removed, as
/// `strip_prefix("0x")` leaves it.
pub open spec fn strip_one_hex_prefix(s: Seq<u8>) -> Seq<u8> {
    if s.len() >= 2 && s[0] == 48 && s[1] == 120 {
        s.skip(2)
    } else {
        s
    }
}

/// The value of an ASCII hex digit, or `None` for any other byte.
pub fn hex_value(b: u8) -> (r: Option<u8>)
    ensures
        r is Some <==> is_hex_digit(b),
        is_hex_digit(b) ==> r == Some(hex_digit_value(b)),
{
    if 48 <= b && b <= 57 {
        Some(b - 48)
    } else if 97 <= b && b <= 102 {
        Some(b - 87)
    } else if 65 <= b && b <= 70 {
        Some(b - 55)
    } else {
        None
    }
}

/// Copy the input with every leading `0x` pair removed.
pub fn strip_prefixes(s: &[u8]) -> (r: Vec<u8>)
    ensures
        r@ == strip_hex_prefixes(s@),
{
    let mut i: usize = 0;
    proof {
        assert(s@.skip(0) =~= s@);
    }
    while s.len() - i >= 2 && s[i] == 48 && s[i + 1] == 120
        invariant
            i <= s.len(),
            strip_hex_prefixes(s@) == strip_hex_prefixes(s@.skip(i as int)),
        decreases s.len() - i,
    {
        proof {
            assert(s@.skip(i as int).len() >= 2);
            assert(s@.skip(i as int)[0] == s@[i as int]);
            assert(s@.skip(i as int)[1] == s@[i as int + 1]);
            assert(s@.skip(i as int).skip(2) =~= s@.skip(i as int + 2));
        }
        i = i + 2;
    }
    proof {
        assert(strip_hex_prefixes(s@.skip(i as int)) == s@.skip(i as int));
    }
    let r = vstd::slice::slice_to_vec(vstd::slice::slice_subrange(s, i, s.len()));
    proof {
        assert(s@.subrange(i as int, s@.len() as int) =~= s@.skip(i as int));
    }
    r
}

/// Copy the input with at most one leading `0x` pair removed.
pub fn strip_one_prefix(s: &[u8]) -> (r: Vec<u8>)
    ensures
        r@ == strip_one_hex_prefix(s@),
{
    let i: usize = if s.len() >= 2 && s[0] == 48 && s[1] == 120 {
        2
    } else {
        0
    };
    let r = vstd::slice::slice_to_vec(vstd::slice::slice_subrange(s, i, s.len()));
    proof {
        assert(s@.subrange(i as int, s@.len() as int) =~= s@.skip(i as int));
    }
    r
}

/// Decode a sequence of hex digits into bytes; `None` when the length is odd
/// or some byte is not a hex digit.
pub fn decode_hex(s: &[u8]) -> (r: Option<Vec<u8>>)
    ensures
        r is Some <==> (s@.len() % 2 == 0 && all_hex_digits(s@)),
        r is Some ==> r.unwrap()@ == hex_decoded(s@),
{
    if s.len() % 2 != 0 {
        return None;
    }
    let mut out: Vec<u8> = Vec::new();
    let mut i: usize = 0;
    while i < s.len()
        invariant
            i <= s@.len(),
            i % 2 == 0,
            s@.len() % 2 == 0,
            forall|j: int| 0 <= j < i ==> is_hex_digit(#[trigger] s@[j]),
            out@ =~= hex_decoded(s@.take(i as int)),
        decreases s.len() - i,
    {
        let hi = match hex_value(s[i]) {
            Some(v) => v,
            None => {
                return None;
            },
        };
        let lo = match hex_value(s[i + 1]) {
            Some(v) => v,
            None => {
                return None;
            },
        };
        out.push(hi * 16 + lo);
        i = i + 2;
        proof {
            assert(out@ =~= hex_decoded(s@.take(i as int)));
        }
    }
    proof {
        assert(s@.take(i as int) =~= s@);
    }
    Some(out)
}

/// The sequence with a single leading `0x` or `0X` pair removed, as the hex
/// decoder of the signature parser strips it.
pub open spec fn strip_one_hex_prefix_any(s: Seq<u8>) -> Seq<u8> {
    if s.len() >= 2 && s[0] == 48 && (s[1] == 120 || s[1] == 88) {
        s.skip(2)
    } else {
        s
    }
}

/// Copy the input with at most one leading `0x` or `0X` pair removed.
pub fn strip_one_prefix_any(s: &[u8]) -> (r: Vec<u8>)
    ensures
        r@ == strip_one_hex_prefix_any(s@),
{
    let i: usize = if s.len() >= 2 && s[0] == 48 && (s[1] == 120 || s[1] == 88) {
        2
    } else {
        0
    };
    let r = vstd::slice::slice_to_vec(vstd::slice::slice_subrange(s, i, s.len()));
    proof {
        assert(s@.subrange(i as int, s@.len() as int) =~= s@.skip(i as int));
    }
    r
}

/// The characters of an ASCII byte sequence.
pub open spec fn ascii_chars(s: Seq<u8>) -> Seq<char> {
    s.map_values(|b: u8| b as char)
}

/// The decimal byte-list rendering `[1, 2, 3]`, as the standard debug form
/// of a byte sequence writes it.
pub open spec fn byte_list_inner(s: Seq<u8>) -> Seq<u8>
    decreases s.len(),
{
    if s.len() == 0 {
        Seq::empty()
    } else if s.len() == 1 {
        crate::numbers::dec_digits(s[0] as nat)
    } else {
        crate::numbers::dec_digits(s[0] as nat) + seq![44u8, 32u8] + byte_list_inner(s.skip(1))
    }
}

/// The byte-list rendering with its brackets.
pub open spec fn byte_list_bytes(s: Seq<u8>) -> Seq<u8> {
    seq![91u8] + byte_list_inner(s) + seq![93u8]
}

/// Appending one byte extends the rendering by a separator and its digits.
pub proof fn lemma_byte_list_inner_push(t: Seq<u8>, x: u8)
    ensures
        byte_list_inner(t.push(x)) == if t.len() == 0 {
            crate::numbers::dec_digits(x as nat)
        } else {
            byte_list_inner(t) + seq![44u8, 32u8] + crate::numbers::dec_digits(x as nat)
        },
    decreases t.len(),
{
    if t.len() == 0 {
        assert(t.push(x).len() == 1);
        assert(t.push(x)[0] == x);
    } else {
        assert(t.push(x)[0] == t[0]);
        assert(t.push(x).skip(1) =~= t.skip(1).push(x));
        lemma_byte_list_inner_push(t.skip(1), x);
        if t.len() == 1 {
            assert(byte_list_inner(t) =~= crate::numbers::dec_digits(t[0] as nat));
            assert(byte_list_inner(t.push(x)) =~= byte_list_inner(t) + seq![44u8, 32u8]
                + crate::numbers::dec_digits(x as nat));
        } else {
            assert(byte_list_inner(t.push(x)) =~= byte_list_inner(t) + seq![44u8, 32u8]
                + crate::numbers::dec_digits(x as nat));
        }
    }
}

/// Render a byte sequence as a decimal list. Every output byte is ASCII.
pub fn format_byte_list(s: &[u8]) -> (r: Vec<u8>)
    ensures
        r@ == byte_list_bytes(s@),
        forall|i: int| 0 <= i < r@.len() ==> r@[i] < 128,
{
    let mut r: Vec<u8> = Vec::new();
    r.push(91);
    let mut i: usize = 0;
    proof {
        assert(s@.take(0) =~= Seq::<u8>::empty());
        assert(r@ =~= seq![91u8] + byte_list_inner(s@.take(0)));
    }
    while i < s.len()
        invariant
            i <= s@.len(),
            r@ == seq![91u8] + byte_list_inner(s@.take(i as int)),
            forall|j: int| 0 <= j < r@.len() ==> r@[j] < 128,
        decreases s@.len() - i,
    {
        if i > 0 {
            r.push(44);
            r.push(32);
        }
        let mut digits = crate::numbers::format_u128(s[i] as u128);
        proof {
            crate::numbers::lemma_dec_digits_ascii(s@[i as int] as nat);
        }
        r.append(&mut digits);
        proof {
            assert(s@.take(i as int).push(s@[i as int]) =~= s@.take(i as int + 1));
            lemma_byte_list_inner_push(s@.take(i as int), s@[i as int]);
            assert(r@ =~= seq![91u8] + byte_list_inner(s@.take(i as int + 1)));
        }
        i = i + 1;
    }
    r.push(93);
    proof {
        assert(s@.take(i as int) =~= s@);
        assert(r@ =~= byte_list_bytes(s@));
    }
    r
}

/// Render bytes as `0x`-prefixed lowercase hex.
pub fn hex_string_0x(data: &[u8]) -> (r: String)
    ensures
        r@ == hex_chars_0x(data@),
{
    let tail = crate::crypto::hex_encode(data);
    let mut r = "0x".to_owned();
    r.append(tail.as_str());
    r
}

/// Prefix a string with `0x`.
pub fn with_0x(tail: &str) -> (r: String)
    ensures
        r@ == "0x"@ + tail@,
{
    let mut r = "0x".to_owned();
    r.append(tail);
    r
}

/// Whether two byte sequences are equal.
pub fn bytes_eq(a: &[u8], b: &[u8]) -> (r: bool)
    ensures
        r == (a@ == b@),
{
    if a.len() != b.len() {
        proof {
            assert(a@ != b@);
        }
        return false;
    }
    let mut i: usize = 0;
    while i < a.len()
        invariant
            i <= a@.len(),
            a@.len() == b@.len(),
            forall|j: int| 0 <= j < i ==> a@[j] == b@[j],
        decreases a@.len() - i,
    {
        if a[i] != b[i] {
            proof {
                assert(a@[i as int] != b@[i as int]);
            }
            return false;
        }
        i = i + 1;
    }
    proof {
        assert(a@ =~= b@);
    }
    true
}

} // verus!

