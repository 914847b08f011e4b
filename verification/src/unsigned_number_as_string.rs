//! An unsigned integer that servers send either as a JSON number or as a
//! string of decimal digits.

use crate::json::{DecodeError, JsonValue, JsonView};
use vstd::prelude::*;
use vstd::string::*;

verus! {

/// Whether a character is a decimal digit.
pub open spec fn is_digit(c: char) -> bool {
    '0' <= c <= '9'
}

/// Whether a text is made of decimal digits alone.
pub open spec fn all_digits(text: Seq<char>) -> bool {
    forall|i: int| 0 <= i < text.len() ==> is_digit(#[trigger] text[i])
}

/// The number that a run of decimal digits writes, the empty run being 0.
pub open spec fn digits_value(text: Seq<char>) -> nat
    decreases text.len(),
{
    if text.len() == 0 {
        0
    } else {
        (digits_value(text.drop_last()) * 10 + (text.last() as int - '0' as int)) as nat
    }
}

/// An unsigned integer type that a number can be read into.
pub trait Unsigned: Sized {
    /// The largest number that the type holds.
    spec fn limit() -> nat;

    /// The number that a value of the type is.
    spec fn number(self) -> nat;

    /// No type holds more than 128 bits.
    proof fn lemma_limit()
        ensures
            Self::limit() <= u128::MAX,
    ;

    /// The value of the type for a number, where the type holds it.
    fn narrow(n: u128) -> (r: Option<Self>)
        ensures
            match r {
                Some(x) => n <= Self::limit() && x.number() == n,
                None => n > Self::limit(),
            },
    ;
}

impl Unsigned for u8 {
    open spec fn limit() -> nat {
        u8::MAX as nat
    }

    open spec fn number(self) -> nat {
        self as nat
    }

    proof fn lemma_limit() {
    }

    fn narrow(n: u128) -> (r: Option<u8>) {
        if n <= u8::MAX as u128 {
            Some(n as u8)
        } else {
            None
        }
    }
}

impl Unsigned for u16 {
    open spec fn limit() -> nat {
        u16::MAX as nat
    }

    open spec fn number(self) -> nat {
        self as nat
    }

    proof fn lemma_limit() {
    }

    fn narrow(n: u128) -> (r: Option<u16>) {
        if n <= u16::MAX as u128 {
            Some(n as u16)
        } else {
            None
        }
    }
}

impl Unsigned for u32 {
    open spec fn limit() -> nat {
        u32::MAX as nat
    }

    open spec fn number(self) -> nat {
        self as nat
    }

    proof fn lemma_limit() {
    }

    fn narrow(n: u128) -> (r: Option<u32>) {
        if n <= u32::MAX as u128 {
            Some(n as u32)
        } else {
            None
        }
    }
}

impl Unsigned for u64 {
    open spec fn limit() -> nat {
        u64::MAX as nat
    }

    open spec fn number(self) -> nat {
        self as nat
    }

    proof fn lemma_limit() {
    }

    fn narrow(n: u128) -> (r: Option<u64>) {
        if n <= u64::MAX as u128 {
            Some(n as u64)
        } else {
            None
        }
    }
}

impl Unsigned for usize {
    open spec fn limit() -> nat {
        usize::MAX as nat
    }

    open spec fn number(self) -> nat {
        self as nat
    }

    proof fn lemma_limit() {
    }

    fn narrow(n: u128) -> (r: Option<usize>) {
        if n <= usize::MAX as u128 {
            Some(n as usize)
        } else {
            None
        }
    }
}

impl Unsigned for u128 {
    open spec fn limit() -> nat {
        u128::MAX as nat
    }

    open spec fn number(self) -> nat {
        self as nat
    }

    proof fn lemma_limit() {
    }

    fn narrow(n: u128) -> (r: Option<u128>) {
        Some(n)
    }
}

/// The number that a text stands for in a type: the text holds at least
/// one character and only decimal digits, and the type holds the number
/// that they write.
pub open spec fn parse_spec<N: Unsigned>(text: Seq<char>) -> Option<nat> {
    if text.len() > 0 && all_digits(text) && digits_value(text) <= N::limit() {
        Some(digits_value(text))
    } else {
        None
    }
}

/// The number that a document stands for in a type: a JSON number that is
/// an unsigned integer, or a string that [`parse_spec`] reads, where the
/// type holds the number.
pub open spec fn number_spec<N: Unsigned>(v: JsonView) -> Option<nat> {
    match v {
        JsonView::Unsigned(n) => if n <= N::limit() {
            Some(n as nat)
        } else {
            None
        },
        JsonView::String(text) => parse_spec::<N>(text),
        _ => None,
    }
}

/// The decimal digits of a number, without leading zeros.
pub open spec fn decimal_text(n: nat) -> Seq<char>
    decreases n,
{
    if n < 10 {
        seq![(n + '0' as nat) as char]
    } else {
        decimal_text(n / 10).push((n % 10 + '0' as nat) as char)
    }
}

/// A run of digits writes no less than any of its beginnings.
proof fn lemma_value_grows(text: Seq<char>, k: int)
    requires
        0 <= k <= text.len(),
        all_digits(text),
    ensures
        digits_value(text.take(k)) <= digits_value(text),
    decreases text.len() - k,
{
    if k == text.len() {
        assert(text.take(k) =~= text);
    } else {
        lemma_value_grows(text, k + 1);
        assert(text.take(k + 1).drop_last() =~= text.take(k));
        assert(is_digit(text[k]));
    }
}

/// What the reading of a number returned, as a number.
pub open spec fn read_number<N: Unsigned>(r: Option<N>) -> Option<nat> {
    match r {
        Some(x) => Some(x.number()),
        None => None,
    }
}

/// Reads the decimal digits of a text into a type.
pub fn parse<N: Unsigned>(text: &str) -> (r: Option<N>)
    ensures
        read_number(r) == parse_spec::<N>(text@),
{
    if !text.is_ascii() {
        proof {
            let i = choose|i: int| 0 <= i < text@.len() && !('\0' <= #[trigger] text@[i] <= '\u{7f}');
            assert(!is_digit(text@[i]));
        }
        return None;
    }
    let bytes = text.as_bytes();
    proof {
        is_ascii_spec_bytes(text);
    }
    if bytes.len() == 0 {
        return None;
    }
    let mut value: u128 = 0;
    let mut i: usize = 0;
    assert(text@.take(0) =~= Seq::empty());
    while i < bytes.len()
        invariant
            i <= bytes.len(),
            bytes@.len() == text@.len(),
            is_ascii(text),
            forall|j: int| 0 <= j < text@.len() ==> bytes@[j] == (#[trigger] text@[j]) as u8,
            all_digits(text@.take(i as int)),
            value == digits_value(text@.take(i as int)),
        decreases bytes.len() - i,
    {
        let b = bytes[i];
        let ghost c = text@[i as int];
        assert('\0' <= c <= '\u{7f}');
        assert(b == c as u8);
        if b < 48 || b > 57 {
            assert(!is_digit(c));
            return None;
        }
        assert(is_digit(c));
        proof {
            assert(text@.take(i + 1).drop_last() =~= text@.take(i as int));
            assert(text@.take(i + 1).last() == c);
            assert forall|j: int| 0 <= j < i + 1 implies is_digit(
                #[trigger] text@.take(i + 1)[j],
            ) by {
                if j < i {
                    assert(text@.take(i as int)[j] == text@.take(i + 1)[j]);
                }
            }
        }
        let digit: u128 = (b - 48) as u128;
        let next = match value.checked_mul(10) {
            Some(tens) => tens.checked_add(digit),
            None => None,
        };
        match next {
            Some(n) => {
                value = n;
            },
            None => {
                proof {
                    assert(digits_value(text@.take(i + 1)) > u128::MAX);
                    N::lemma_limit();
                    if all_digits(text@) {
                        lemma_value_grows(text@, i + 1);
                    }
                }
                return None;
            },
        }
        i = i + 1;
    }
    assert(text@.take(i as int) =~= text@);
    N::narrow(value)
}

/// Reads a number sent in either form into an unsigned integer type: a
/// failure where the type does not hold the number.
pub fn deserialize<N: Unsigned>(v: &JsonValue) -> (r: Result<N, DecodeError>)
    ensures
        match r {
            Ok(n) => number_spec::<N>(v@) == Some(n.number()),
            Err(_) => number_spec::<N>(v@) is None,
        },
{
    let read = match v {
        JsonValue::Unsigned(n) => N::narrow(*n),
        JsonValue::String(text) => parse::<N>(text.as_str()),
        _ => None,
    };
    match read {
        Some(n) => Ok(n),
        None => Err(DecodeError),
    }
}

/// The digits of a number are digits, and they write the number.
pub proof fn lemma_decimal_text(n: nat)
    ensures
        decimal_text(n).len() > 0,
        all_digits(decimal_text(n)),
        digits_value(decimal_text(n)) == n,
    decreases n,
{
    if n < 10 {
        let text = decimal_text(n);
        assert(text.drop_last() =~= Seq::empty());
        assert(digits_value(text.drop_last()) == 0);
    } else {
        lemma_decimal_text(n / 10);
        let text = decimal_text(n);
        assert(text.drop_last() =~= decimal_text(n / 10));
        assert forall|i: int| 0 <= i < text.len() implies is_digit(#[trigger] text[i]) by {
            if i < text.len() - 1 {
                assert(text[i] == decimal_text(n / 10)[i]);
            }
        }
    }
}

/// A number that a type holds is read into it from the string of its
/// decimal digits; a number that the type does not hold is read from no
/// string.
pub proof fn lemma_decimal_text_is_read<N: Unsigned>(n: nat)
    ensures
        parse_spec::<N>(decimal_text(n)) == if n <= N::limit() {
            Some(n)
        } else {
            None
        },
{
    lemma_decimal_text(n);
}

/// A number sent as a JSON number and the same number sent as the string of
/// its decimal digits are read as the same integer, or both as none.
pub proof fn lemma_number_and_string_agree<N: Unsigned>(n: u128)
    ensures
        number_spec::<N>(JsonView::Unsigned(n)) == number_spec::<N>(
            JsonView::String(decimal_text(n as nat)),
        ),
        n <= N::limit() ==> number_spec::<N>(JsonView::Unsigned(n)) == Some(n as nat),
{
    lemma_decimal_text(n as nat);
}

/// A string that holds anything but decimal digits is read as no number.
pub proof fn lemma_other_text_is_refused<N: Unsigned>(text: Seq<char>, i: int)
    requires
        0 <= i < text.len(),
        !is_digit(text[i]),
    ensures
        number_spec::<N>(JsonView::String(text)) is None,
{
}

} // verus!
