//! Lowercase hexadecimal encoding and decoding of byte strings.
//!
//! Encoding maps every byte to two lowercase hex digits, high nibble
//! first; decoding inverts it exactly, rejecting odd-length input and
//! any character outside `0-9a-f`.

use vstd::prelude::*;

verus! {

/// A byte is a lowercase hex digit: `'0'..='9'` or `'a'..='f'`.
pub open spec fn is_hex_digit(c: u8) -> bool {
    (48 <= c <= 57) || (97 <= c <= 102)
}

/// The lowercase hex digit standing for a nibble value below 16.
pub open spec fn spec_hex_digit(n: u8) -> u8
    recommends
        n < 16,
{
    if n < 10 {
        (48 + n) as u8
    } else {
        (87 + n) as u8
    }
}

/// The nibble value of a lowercase hex digit byte.
pub open spec fn spec_digit_val(c: u8) -> u8
    recommends
        is_hex_digit(c),
{
    if c <= 57 {
        (c - 48) as u8
    } else {
        (c - 87) as u8
    }
}

/// The hex encoding of a byte string: two digits per byte.
pub open spec fn hex_of(s: Seq<u8>) -> Seq<u8>
    decreases s.len(),
{
    if s.len() == 0 {
        Seq::empty()
    } else {
        hex_of(s.drop_last()) + seq![
            spec_hex_digit((s.last() / 16) as u8),
            spec_hex_digit((s.last() % 16) as u8),
        ]
    }
}

/// The byte string a hex encoding stands for, two digits at a time.
/// Meaningful when the input has even length and holds hex digits only.
pub open spec fn unhex_of(s: Seq<u8>) -> Seq<u8>
    decreases s.len(),
{
    if s.len() < 2 {
        Seq::empty()
    } else {
        unhex_of(s.drop_last().drop_last()) + seq![
            (spec_digit_val(s[s.len() - 2]) * 16 + spec_digit_val(s[s.len() - 1])) as u8,
        ]
    }
}

/// The hex encoding as characters, for rendering as a string.
pub open spec fn hex_chars_of(s: Seq<u8>) -> Seq<char> {
    hex_of(s).map(|_i: int, b: u8| b as char)
}

/// Each nibble below 16 round-trips through its digit, and the digit is
/// a lowercase hex digit.
pub proof fn lemma_hex_digit_val(n: u8)
    requires
        n < 16,
    ensures
        is_hex_digit(spec_hex_digit(n)),
        spec_digit_val(spec_hex_digit(n)) == n,
{
}

/// A hex encoding is exactly twice as long as what it encodes.
pub proof fn lemma_hex_len(b: Seq<u8>)
    ensures
        hex_of(b).len() == 2 * b.len(),
    decreases b.len(),
{
    if b.len() > 0 {
        lemma_hex_len(b.drop_last());
    }
}

/// A hex encoding holds lowercase hex digits and nothing else.
pub proof fn lemma_hex_of_digits(b: Seq<u8>)
    ensures
        forall|i: int| 0 <= i < hex_of(b).len() ==> is_hex_digit(#[trigger] hex_of(b)[i]),
    decreases b.len(),
{
    if b.len() > 0 {
        lemma_hex_of_digits(b.drop_last());
        lemma_hex_len(b.drop_last());
        lemma_hex_digit_val((b.last() / 16) as u8);
        lemma_hex_digit_val((b.last() % 16) as u8);
    }
}

/// Decoding inverts encoding: every byte string comes back unchanged.
pub proof fn lemma_hex_round_trip(b: Seq<u8>)
    ensures
        unhex_of(hex_of(b)) == b,
    decreases b.len(),
{
    if b.len() == 0 {
        assert(unhex_of(hex_of(b)) =~= b);
    } else {
        lemma_hex_round_trip(b.drop_last());
        lemma_hex_len(b.drop_last());
        let hi = (b.last() / 16) as u8;
        let lo = (b.last() % 16) as u8;
        lemma_hex_digit_val(hi);
        lemma_hex_digit_val(lo);
        let h = hex_of(b);
        assert(h.drop_last().drop_last() =~= hex_of(b.drop_last()));
        assert(hi * 16 + lo == b.last());
        assert(unhex_of(h) =~= b);
    }
}

/// Encoding is injective: equal encodings come from equal byte strings.
/// With the round trip this makes encoding a bijection onto the strings
/// of even length made of hex digits.
pub proof fn lemma_hex_injective(a: Seq<u8>, b: Seq<u8>)
    requires
        hex_of(a) == hex_of(b),
    ensures
        a == b,
{
    lemma_hex_round_trip(a);
    lemma_hex_round_trip(b);
}

/// Encoding inverts decoding on its image: an even-length string of hex
/// digits is the encoding of what it decodes to.
pub proof fn lemma_unhex_round_trip(s: Seq<u8>)
    requires
        s.len() % 2 == 0,
        forall|i: int| 0 <= i < s.len() ==> is_hex_digit(#[trigger] s[i]),
    ensures
        hex_of(unhex_of(s)) == s,
    decreases s.len(),
{
    if s.len() == 0 {
        assert(hex_of(unhex_of(s)) =~= s);
    } else {
        let t = s.drop_last().drop_last();
        lemma_unhex_round_trip(t);
        let c1 = s[s.len() - 2];
        let c2 = s[s.len() - 1];
        let a = spec_digit_val(c1);
        let b = spec_digit_val(c2);
        let v = (a * 16 + b) as u8;
        assert(a < 16 && b < 16);
        assert(v / 16 == a && v % 16 == b) by (nonlinear_arith)
            requires
                a < 16,
                b < 16,
                v == a * 16 + b,
        ;
        assert(spec_hex_digit(a) == c1);
        assert(spec_hex_digit(b) == c2);
        let u = unhex_of(s);
        assert(u == unhex_of(t) + seq![v]);
        assert(u.drop_last() =~= unhex_of(t));
        assert(hex_of(u) =~= s);
    }
}

/// The lowercase hex digit for a nibble value below 16.
pub fn hex_digit(n: u8) -> (c: u8)
    requires
        n < 16,
    ensures
        c == spec_hex_digit(n),
{
    if n < 10 {
        48 + n
    } else {
        87 + n
    }
}

/// Whether a byte is a lowercase hex digit.
pub fn hex_digit_check(c: u8) -> (r: bool)
    ensures
        r == is_hex_digit(c),
{
    (48 <= c && c <= 57) || (97 <= c && c <= 102)
}

/// The nibble value of a lowercase hex digit byte.
pub fn digit_val(c: u8) -> (n: u8)
    requires
        is_hex_digit(c),
    ensures
        n == spec_digit_val(c),
        n < 16,
{
    if c <= 57 {
        c - 48
    } else {
        c - 87
    }
}

/// Hex-encode a byte string: two lowercase digits per byte, high nibble
/// first.
pub fn hex_encode_bytes(bytes: &Vec<u8>) -> (out: Vec<u8>)
    ensures
        out@ == hex_of(bytes@),
{
    let mut out: Vec<u8> = Vec::new();
    let mut i: usize = 0;
    while i < bytes.len()
        invariant
            i <= bytes@.len(),
            out@ == hex_of(bytes@.take(i as int)),
        decreases bytes@.len() - i,
    {
        let b = bytes[i];
        out.push(hex_digit(b / 16));
        out.push(hex_digit(b % 16));
        proof {
            let t = bytes@.take(i as int + 1);
            assert(t.drop_last() =~= bytes@.take(i as int));
            assert(t.last() == bytes@[i as int]);
            assert(out@ =~= hex_of(t));
        }
        i = i + 1;
    }
    proof {
        assert(bytes@.take(bytes@.len() as int) =~= bytes@);
    }
    out
}

/// Relies on std's `String::from_utf8`: bytes below 128 are ASCII, one
/// character each, so the call returns the string of exactly those
/// characters and cannot fail.
#[verifier::external_body]
fn ascii_string(v: Vec<u8>) -> (s: String)
    requires
        forall|i: int| 0 <= i < v@.len() ==> v@[i] < 128,
    ensures
        s@ == v@.map(|_i: int, b: u8| b as char),
{
    String::from_utf8(v).unwrap()
}

/// Hex-encode a byte string as a lowercase hex `String`, two digits per
/// byte, high nibble first.
pub fn hex_encode(bytes: &Vec<u8>) -> (s: String)
    ensures
        s@ == hex_chars_of(bytes@),
{
    let v = hex_encode_bytes(bytes);
    proof {
        lemma_hex_of_digits(bytes@);
        assert forall|i: int| 0 <= i < v@.len() implies v@[i] < 128 by {
            assert(is_hex_digit(hex_of(bytes@)[i]));
        }
    }
    ascii_string(v)
}

/// Decode a hex string given as bytes. Returns the decoded bytes
/// exactly when the input has even length and holds lowercase hex
/// digits only; returns `None` otherwise.
pub fn hex_decode_bytes(s: &Vec<u8>) -> (r: Option<Vec<u8>>)
    ensures
        r is Some <==> (s@.len() % 2 == 0 && forall|i: int|
            0 <= i < s@.len() ==> is_hex_digit(#[trigger] s@[i])),
        r matches Some(v) ==> v@ == unhex_of(s@),
{
    if s.len() % 2 != 0 {
        return None;
    }
    let mut out: Vec<u8> = Vec::new();
    let mut i: usize = 0;
    while i < s.len()
        invariant
            s@.len() % 2 == 0,
            i % 2 == 0,
            i <= s@.len(),
            forall|j: int| 0 <= j < i ==> is_hex_digit(#[trigger] s@[j]),
            out@ == unhex_of(s@.take(i as int)),
        decreases s@.len() - i,
    {
        assert(i + 1 < s@.len());
        let c1 = s[i];
        let c2 = s[i + 1];
        if !hex_digit_check(c1) {
            assert(!is_hex_digit(s@[i as int]));
            return None;
        }
        if !hex_digit_check(c2) {
            assert(!is_hex_digit(s@[i as int + 1]));
            return None;
        }
        let v = digit_val(c1) * 16 + digit_val(c2);
        out.push(v);
        proof {
            let t = s@.take(i as int + 2);
            assert(t.drop_last().drop_last() =~= s@.take(i as int));
            assert(t[t.len() - 2] == s@[i as int]);
            assert(t[t.len() - 1] == s@[i as int + 1]);
            assert(out@ =~= unhex_of(t));
        }
        i = i + 2;
    }
    proof {
        assert(s@.take(s@.len() as int) =~= s@);
    }
    Some(out)
}

} // verus!
