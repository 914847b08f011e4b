//! Binary values and their hexadecimal wire form.

use crate::json::{Decode, DecodeError, Encode, JsonValue, JsonView};
use std::cmp::Ordering;
use vstd::prelude::*;
use vstd::string::*;

verus! {

/// The sixteen digits of the canonical form, by their value.
pub open spec fn hex_digits() -> Seq<char> {
    seq!['0', '1', '2', '3', '4', '5', '6', '7', '8', '9', 'a', 'b', 'c', 'd', 'e', 'f']
}

/// The digits of a byte sequence: two for each byte, the high half first,
/// in lower case.
pub open spec fn hex_string(bytes: Seq<u8>) -> Seq<char> {
    Seq::new(
        2 * bytes.len(),
        |i: int|
            if i % 2 == 0 {
                hex_digits()[bytes[i / 2] as int / 16]
            } else {
                hex_digits()[bytes[i / 2] as int % 16]
            },
    )
}

/// The two characters that open the wire form of a binary value.
pub open spec fn hex_prefix() -> Seq<char> {
    seq!['0', 'x']
}

/// The canonical wire form of a byte sequence.
pub open spec fn to_hex_spec(bytes: Seq<u8>) -> Seq<char> {
    hex_prefix() + hex_string(bytes)
}

/// `hex::encode`: the lower-case digits of the bytes, two for each byte and
/// the high half first, with nothing before, between or after them.
#[verifier::external_body]
fn hex_encode(bytes: &[u8]) -> (digits: String)
    ensures
        digits@ == hex_string(bytes@),
{
    hex::encode(bytes)
}

/// Writes bytes in their canonical wire form: `0x`, then their lower-case
/// digits.
pub fn to_hex(bytes: &[u8]) -> (text: String)
    ensures
        text@ == to_hex_spec(bytes@),
{
    let digits = hex_encode(bytes);
    let text = "0x".to_owned().concat(digits.as_str());
    proof {
        reveal_strlit("0x");
        assert("0x"@ =~= hex_prefix());
    }
    text
}

/// The value of a hexadecimal digit, in either case; `None` for any other
/// character.
pub open spec fn hex_value(c: char) -> Option<int> {
    if '0' <= c <= '9' {
        Some(c as int - '0' as int)
    } else if 'a' <= c <= 'f' {
        Some(c as int - 'a' as int + 10)
    } else if 'A' <= c <= 'F' {
        Some(c as int - 'A' as int + 10)
    } else {
        None
    }
}

/// The characters that the reading of hexadecimal text passes over.
pub open spec fn is_blank(c: char) -> bool {
    c == ' ' || c == '\r' || c == '\n' || c == '\t'
}

/// A hexadecimal text without its opening `0x`, where it has one.
pub open spec fn hex_payload(text: Seq<char>) -> Seq<char> {
    if text.len() >= 2 && text[0] == '0' && text[1] == 'x' {
        text.subrange(2, text.len() as int)
    } else {
        text
    }
}

/// Whether every character is a hexadecimal digit.
pub open spec fn all_hex(digits: Seq<char>) -> bool {
    forall|i: int| 0 <= i < digits.len() ==> (#[trigger] hex_value(digits[i])) is Some
}

/// Whether every character is a hexadecimal digit or a blank.
pub open spec fn all_hex_or_blank(digits: Seq<char>) -> bool {
    forall|i: int|
        0 <= i < digits.len() ==> (#[trigger] hex_value(digits[i])) is Some || is_blank(digits[i])
}

/// The bytes that a run of hexadecimal digits stands for. Two digits make a
/// byte; where their number is odd, the first digit makes a byte alone.
pub open spec fn hex_bytes(digits: Seq<char>) -> Seq<u8> {
    let odd = digits.len() % 2;
    Seq::new(
        ((digits.len() + 1) / 2) as nat,
        |i: int|
            if odd == 1 && i == 0 {
                hex_value(digits[0])->0 as u8
            } else {
                (hex_value(digits[2 * i - odd])->0 * 16 + hex_value(digits[2 * i - odd + 1])->0) as u8
            },
    )
}

/// What the reading of a text that holds blanks among its digits returns.
pub uninterp spec fn hex_bytes_with_blanks(text: Seq<char>) -> Seq<u8>;

/// The bytes that a hexadecimal text stands for, with or without an opening
/// `0x`; `None` where it holds a character that is neither a digit nor a
/// blank.
pub open spec fn from_hex_spec(text: Seq<char>) -> Option<Seq<u8>> {
    let digits = hex_payload(text);
    if all_hex(digits) {
        Some(hex_bytes(digits))
    } else if all_hex_or_blank(digits) {
        Some(hex_bytes_with_blanks(text))
    } else {
        None
    }
}

/// `impl_serde::serialize::from_hex`: an opening `0x` is dropped, then the
/// digits are read two to a byte, a first digit alone where their number is
/// odd. Blanks (space, carriage return, line feed, tab) are passed over, and
/// any other character is an error.
#[verifier::external_body]
fn hex_decode(text: &str) -> (r: Option<Vec<u8>>)
    ensures
        match r {
            Some(bytes) => all_hex_or_blank(hex_payload(text@)) && bytes@ == if all_hex(
                hex_payload(text@),
            ) {
                hex_bytes(hex_payload(text@))
            } else {
                hex_bytes_with_blanks(text@)
            },
            None => !all_hex_or_blank(hex_payload(text@)),
        },
{
    impl_serde::serialize::from_hex(text).ok()
}

/// Reads bytes from their hexadecimal wire form.
pub fn from_hex(text: &str) -> (r: Result<Vec<u8>, DecodeError>)
    ensures
        match r {
            Ok(bytes) => from_hex_spec(text@) == Some(bytes@),
            Err(_) => from_hex_spec(text@) is None,
        },
{
    match hex_decode(text) {
        Some(bytes) => Ok(bytes),
        None => Err(DecodeError),
    }
}

/// The order of two byte sequences, as a sign: they are compared byte by
/// byte from the front, the first unequal pair decides, and a sequence that
/// is a beginning of another comes before it.
pub open spec fn lex_sign(a: Seq<u8>, b: Seq<u8>) -> int
    decreases a.len(),
{
    if a.len() == 0 {
        if b.len() == 0 {
            0
        } else {
            -1
        }
    } else if b.len() == 0 {
        1
    } else if a[0] < b[0] {
        -1
    } else if a[0] > b[0] {
        1
    } else {
        lex_sign(a.drop_first(), b.drop_first())
    }
}

/// Compares two byte sequences.
fn compare_bytes(a: &[u8], b: &[u8]) -> (sign: i8)
    ensures
        sign == lex_sign(a@, b@),
{
    let mut i: usize = 0;
    assert(a@.skip(0) =~= a@ && b@.skip(0) =~= b@);
    while i < a.len() && i < b.len()
        invariant
            i <= a.len(),
            i <= b.len(),
            lex_sign(a@, b@) == lex_sign(a@.skip(i as int), b@.skip(i as int)),
        decreases a.len() - i,
    {
        assert(a@.skip(i as int)[0] == a@[i as int]);
        assert(b@.skip(i as int)[0] == b@[i as int]);
        assert(a@.skip(i as int).drop_first() =~= a@.skip(i + 1));
        assert(b@.skip(i as int).drop_first() =~= b@.skip(i + 1));
        if a[i] < b[i] {
            return -1;
        }
        if a[i] > b[i] {
            return 1;
        }
        i = i + 1;
    }
    if i < b.len() {
        -1
    } else if i < a.len() {
        1
    } else {
        0
    }
}

/// Two byte sequences compare as equal exactly when they are equal.
pub proof fn lemma_lex_sign_equal(a: Seq<u8>, b: Seq<u8>)
    ensures
        lex_sign(a, b) == 0 <==> a == b,
    decreases a.len(),
{
    if a.len() > 0 && b.len() > 0 && a[0] == b[0] {
        lemma_lex_sign_equal(a.drop_first(), b.drop_first());
        if a.drop_first() == b.drop_first() {
            assert(a =~= seq![a[0]] + a.drop_first());
            assert(b =~= seq![b[0]] + b.drop_first());
        }
    } else if a.len() == 0 && b.len() == 0 {
        assert(a =~= b);
    }
}

/// Comparing the other way round gives the opposite sign, and the sign is
/// -1, 0 or 1.
pub proof fn lemma_lex_sign_flip(a: Seq<u8>, b: Seq<u8>)
    ensures
        lex_sign(b, a) == -lex_sign(a, b),
        -1 <= lex_sign(a, b) <= 1,
    decreases a.len(),
{
    if a.len() > 0 && b.len() > 0 && a[0] == b[0] {
        lemma_lex_sign_flip(a.drop_first(), b.drop_first());
    }
}

/// The order is transitive: what is not after a second sequence that is
/// not after a third is not after the third, and is before the third where
/// one of the two steps is strict.
pub proof fn lemma_lex_sign_transitive(a: Seq<u8>, b: Seq<u8>, c: Seq<u8>)
    requires
        lex_sign(a, b) <= 0,
        lex_sign(b, c) <= 0,
    ensures
        lex_sign(a, c) <= 0,
        lex_sign(a, b) < 0 || lex_sign(b, c) < 0 ==> lex_sign(a, c) < 0,
    decreases a.len(),
{
    if a.len() > 0 && b.len() > 0 && c.len() > 0 && a[0] == b[0] && b[0] == c[0] {
        lemma_lex_sign_transitive(a.drop_first(), b.drop_first(), c.drop_first());
    }
}

/// A byte sequence whose wire form is hexadecimal text. Two of them are
/// ordered as their bytes are, see [`lex_sign`].
#[derive(Eq, Clone, Hash, Ord, Debug)]
pub struct Bytes(pub Vec<u8>);

impl PartialEq for Bytes {
    fn eq(&self, other: &Bytes) -> (r: bool) {
        proof {
            lemma_lex_sign_equal(self.0@, other.0@);
        }
        compare_bytes(self.0.as_slice(), other.0.as_slice()) == 0
    }
}

impl vstd::std_specs::cmp::PartialEqSpecImpl for Bytes {
    open spec fn obeys_eq_spec() -> bool {
        true
    }

    open spec fn eq_spec(&self, other: &Bytes) -> bool {
        self.0@ == other.0@
    }
}

impl PartialOrd for Bytes {
    fn partial_cmp(&self, other: &Bytes) -> (r: Option<Ordering>) {
        let sign = compare_bytes(self.0.as_slice(), other.0.as_slice());
        if sign < 0 {
            Some(Ordering::Less)
        } else if sign > 0 {
            Some(Ordering::Greater)
        } else {
            Some(Ordering::Equal)
        }
    }
}

impl vstd::std_specs::cmp::PartialOrdSpecImpl for Bytes {
    open spec fn obeys_partial_cmp_spec() -> bool {
        true
    }

    open spec fn partial_cmp_spec(&self, other: &Bytes) -> Option<Ordering> {
        if lex_sign(self.0@, other.0@) < 0 {
            Some(Ordering::Less)
        } else if lex_sign(self.0@, other.0@) > 0 {
            Some(Ordering::Greater)
        } else {
            Some(Ordering::Equal)
        }
    }
}

impl View for Bytes {
    type V = Seq<u8>;

    open spec fn view(&self) -> Seq<u8> {
        self.0@
    }
}

impl From<Vec<u8>> for Bytes {
    fn from(s: Vec<u8>) -> (bytes: Bytes) {
        Bytes(s)
    }
}

impl vstd::std_specs::convert::FromSpecImpl<Vec<u8>> for Bytes {
    open spec fn obeys_from_spec() -> bool {
        true
    }

    open spec fn from_spec(s: Vec<u8>) -> Bytes {
        Bytes(s)
    }
}

impl std::ops::Deref for Bytes {
    type Target = [u8];

    fn deref(&self) -> (slice: &[u8])
        ensures
            slice@ == self@,
    {
        self.0.as_slice()
    }
}

impl Decode for Bytes {
    open spec fn decode_spec(v: JsonView) -> Option<Seq<u8>> {
        match v {
            JsonView::String(text) => from_hex_spec(text),
            _ => None,
        }
    }

    fn decode(v: &JsonValue) -> (r: Result<Bytes, DecodeError>) {
        match v {
            JsonValue::String(text) => match from_hex(text.as_str()) {
                Ok(bytes) => Ok(Bytes(bytes)),
                Err(e) => Err(e),
            },
            _ => Err(DecodeError),
        }
    }
}

impl Encode for Bytes {
    open spec fn encode_spec(x: Seq<u8>) -> JsonView {
        JsonView::String(to_hex_spec(x))
    }

    fn encode(&self) -> (r: JsonValue) {
        JsonValue::String(to_hex(self.0.as_slice()))
    }
}

/// The value of a canonical digit is its place among the sixteen.
pub proof fn lemma_hex_digit_value(n: int)
    requires
        0 <= n < 16,
    ensures
        hex_value(hex_digits()[n]) == Some(n),
{
}

/// Reading the wire form of a binary value gives the value back.
pub proof fn lemma_bytes_round_trip(bytes: Seq<u8>)
    ensures
        Bytes::decode_spec(Bytes::encode_spec(bytes)) == Some(bytes),
{
    lemma_hex_round_trip(bytes);
}

/// Reading what [`to_hex`] wrote gives the bytes back.
pub proof fn lemma_hex_round_trip(bytes: Seq<u8>)
    ensures
        from_hex_spec(to_hex_spec(bytes)) == Some(bytes),
{
    let text = to_hex_spec(bytes);
    let digits = hex_string(bytes);
    assert(hex_payload(text) =~= digits);
    assert forall|i: int| 0 <= i < digits.len() implies (#[trigger] hex_value(digits[i])) is Some by {
        let b = bytes[i / 2] as int;
        lemma_hex_digit_value(b / 16);
        lemma_hex_digit_value(b % 16);
    }
    assert forall|i: int| 0 <= i < bytes.len() implies hex_bytes(digits)[i] == bytes[i] by {
        let b = bytes[i] as int;
        lemma_hex_digit_value(b / 16);
        lemma_hex_digit_value(b % 16);
        assert(digits[2 * i] == hex_digits()[b / 16]);
        assert(digits[2 * i + 1] == hex_digits()[b % 16]);
    }
    assert(hex_bytes(digits) =~= bytes);
}

} // verus!
