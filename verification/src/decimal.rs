//! Exact decimal numbers, as the instrument writes them and as commands carry
//! them. A number is kept as its significant digits and a power of ten, so
//! that `0.5`, `.50` and `5.0E-1` are the same value and nothing is rounded.

use crate::text::{decimal_text, digit_char, digit_str};
use vstd::prelude::*;
use vstd::string::*;
use vstd::utf8::*;

verus! {

/// How far from the decimal point a significant digit may stand, on either
/// side. A literal that needs more places is refused.
pub const MAX_PLACES: i64 = 400;

/// The ASCII codes that a literal is made of, besides the digits.
pub const PLUS: u8 = 0x2b;

pub const MINUS: u8 = 0x2d;

pub const POINT: u8 = 0x2e;

pub const ZERO: u8 = 0x30;

pub const UPPER_E: u8 = 0x45;

pub const LOWER_E: u8 = 0x65;

/// A decimal number: `mantissa` times ten to the `exponent`, negative or not.
/// Zero keeps its sign.
pub struct DecimalView {
    pub negative: bool,
    pub mantissa: nat,
    pub exponent: int,
}

/// The number `mantissa` times ten to the `exponent`, with its sign.
pub open spec fn decimal(negative: bool, mantissa: nat, exponent: int) -> DecimalView {
    DecimalView { negative, mantissa, exponent }
}

/// Whether a byte is an ASCII digit.
pub open spec fn is_digit(b: u8) -> bool {
    0x30 <= b <= 0x39
}

/// Whether every byte of a sequence is an ASCII digit.
pub open spec fn all_digits(s: Seq<u8>) -> bool {
    forall|i: int| 0 <= i < s.len() ==> is_digit(#[trigger] s[i])
}

/// The number that a sequence of ASCII digits writes; the empty sequence
/// writes zero.
pub open spec fn digits_number(s: Seq<u8>) -> nat
    decreases s.len(),
{
    if s.len() == 0 {
        0
    } else {
        digits_number(s.drop_last()) * 10 + (s.last() - ZERO) as nat
    }
}

/// How many digits the decimal form of a number has; zero has none.
pub open spec fn digit_count(n: nat) -> nat
    decreases n,
{
    if n == 0 {
        0
    } else {
        1 + digit_count(n / 10)
    }
}

impl DecimalView {
    /// The same number with the zeros at the end of the mantissa moved into
    /// the exponent. Zero is written with exponent zero.
    pub open spec fn normalized(self) -> DecimalView
        decreases self.mantissa,
    {
        if self.mantissa == 0 {
            decimal(self.negative, 0, 0)
        } else if self.mantissa % 10 == 0 {
            decimal(self.negative, self.mantissa / 10, self.exponent + 1).normalized()
        } else {
            self
        }
    }

    /// Whether the number is written in its normal form.
    pub open spec fn is_normal(self) -> bool {
        if self.mantissa == 0 {
            self.exponent == 0
        } else {
            self.mantissa % 10 != 0
        }
    }

    /// Whether all significant digits stand within `MAX_PLACES` places of
    /// the decimal point.
    pub open spec fn in_range(self) -> bool {
        -MAX_PLACES <= self.exponent && self.exponent + digit_count(self.mantissa) <= MAX_PLACES
    }

    /// The number without its sign, written in full: the digits of the
    /// mantissa, followed by zeros for a positive exponent or with the point
    /// set among or before them for a negative one. No exponent is written.
    pub open spec fn unsigned_text(self) -> Seq<char> {
        let digits = decimal_text(self.mantissa);
        if self.exponent >= 0 {
            digits + zeros(self.exponent as nat)
        } else if -self.exponent < digits.len() {
            let whole = digits.len() + self.exponent;
            digits.subrange(0, whole) + seq!['.'] + digits.subrange(whole, digits.len() as int)
        } else {
            seq!['0', '.'] + zeros((-self.exponent - digits.len()) as nat) + digits
        }
    }

    /// The number written in full, with `-` in front where it is negative.
    pub open spec fn text(self) -> Seq<char> {
        if self.negative {
            seq!['-'] + self.unsigned_text()
        } else {
            self.unsigned_text()
        }
    }
}

/// A run of `n` zeros.
pub open spec fn zeros(n: nat) -> Seq<char> {
    Seq::new(n, |i: int| '0')
}

/// The characters that write a sequence of ASCII digits.
pub open spec fn digits_text(s: Seq<u8>) -> Seq<char> {
    Seq::new(s.len(), |i: int| digit_char((s[i] - ZERO) as nat))
}

/// Appending a digit multiplies the number by ten and adds the digit.
pub proof fn lemma_digits_number_push(s: Seq<u8>, d: u8)
    requires
        is_digit(d),
    ensures
        digits_number(s.push(d)) == digits_number(s) * 10 + (d - ZERO),
{
    assert(s.push(d).drop_last() =~= s);
}

/// A zero in front of the digits does not change the number.
pub proof fn lemma_digits_number_leading_zero(s: Seq<u8>)
    requires
        s.len() > 0,
        s[0] == ZERO,
    ensures
        digits_number(s) == digits_number(s.drop_first()),
    decreases s.len(),
{
    if s.len() == 1 {
        assert(s.drop_last() =~= Seq::<u8>::empty());
        assert(s.drop_first() =~= Seq::<u8>::empty());
        assert(digits_number(s.drop_last()) == 0);
    } else {
        lemma_digits_number_leading_zero(s.drop_last());
        assert(s.drop_first().drop_last() =~= s.drop_last().drop_first());
    }
}

/// Digits that start with a digit other than zero write a number with as
/// many digits.
pub proof fn lemma_digit_count_of_digits(s: Seq<u8>)
    requires
        s.len() > 0,
        all_digits(s),
        s[0] != ZERO,
    ensures
        digits_number(s) >= 1,
        digit_count(digits_number(s)) == s.len(),
    decreases s.len(),
{
    let last = (s.last() - ZERO) as nat;
    if s.len() == 1 {
        assert(s.drop_last() =~= Seq::<u8>::empty());
        assert(digits_number(s.drop_last()) == 0);
        assert(digits_number(s) == last);
        assert(last / 10 == 0);
        assert(digit_count(last) == 1 + digit_count(last / 10));
    } else {
        let front = s.drop_last();
        assert(front[0] == s[0]);
        lemma_digit_count_of_digits(front);
        let v = digits_number(front);
        assert(digits_number(s) == v * 10 + last);
        assert((v * 10 + last) / 10 == v);
    }
}

/// Digits that start with a digit other than zero are the decimal form of
/// the number they write.
pub proof fn lemma_decimal_text_of_digits(s: Seq<u8>)
    requires
        s.len() > 0,
        all_digits(s),
        s[0] != ZERO,
    ensures
        decimal_text(digits_number(s)) == digits_text(s),
    decreases s.len(),
{
    let last = (s.last() - ZERO) as nat;
    if s.len() == 1 {
        assert(s.drop_last() =~= Seq::<u8>::empty());
        assert(digits_number(s.drop_last()) == 0);
        assert(digits_number(s) == last);
        assert(decimal_text(last) =~= digits_text(s));
    } else {
        let front = s.drop_last();
        assert(front[0] == s[0]);
        lemma_decimal_text_of_digits(front);
        lemma_digit_count_of_digits(front);
        let v = digits_number(front);
        assert(digits_number(s) == v * 10 + last);
        assert((v * 10 + last) / 10 == v);
        assert((v * 10 + last) % 10 == last);
        assert(digits_text(front).push(digit_char(last)) =~= digits_text(s));
    }
}

/// The digits up to any position write no more than all the digits do.
pub proof fn lemma_digits_number_prefix(s: Seq<u8>, upto: int)
    requires
        0 <= upto <= s.len(),
        all_digits(s),
    ensures
        digits_number(s.subrange(0, upto)) <= digits_number(s),
    decreases s.len() - upto,
{
    if upto == s.len() {
        assert(s.subrange(0, upto) =~= s);
    } else {
        lemma_digits_number_prefix(s, upto + 1);
        assert(s.subrange(0, upto + 1).drop_last() =~= s.subrange(0, upto));
    }
}

/// A zero at the end of the mantissa can be moved into the exponent.
pub proof fn lemma_normalized_trailing_zero(negative: bool, mantissa: nat, exponent: int)
    ensures
        decimal(negative, mantissa * 10, exponent).normalized() == decimal(
            negative,
            mantissa,
            exponent + 1,
        ).normalized(),
{
    if mantissa != 0 {
        assert((mantissa * 10) % 10 == 0);
        assert((mantissa * 10) / 10 == mantissa);
    }
}

/// Normalizing gives a number in normal form, and leaves one in normal form
/// as it is.
pub proof fn lemma_normalized_is_normal(number: DecimalView)
    ensures
        number.normalized().is_normal(),
        number.is_normal() ==> number.normalized() == number,
        number.normalized().negative == number.negative,
    decreases number.mantissa,
{
    if number.mantissa != 0 && number.mantissa % 10 == 0 {
        lemma_normalized_is_normal(
            decimal(number.negative, number.mantissa / 10, number.exponent + 1),
        );
    }
}

/// Where the digits that start at `from` end: how many digits follow one
/// another from there.
pub open spec fn digit_run(s: Seq<u8>, from: int) -> nat
    decreases s.len() - from,
{
    if 0 <= from < s.len() && is_digit(s[from]) {
        1 + digit_run(s, from + 1)
    } else {
        0
    }
}

/// Whether a sign stands at position `at`.
pub open spec fn sign_at(s: Seq<u8>, at: int) -> bool {
    0 <= at < s.len() && (s[at] == PLUS || s[at] == MINUS)
}

/// Whether a minus sign stands at position `at`.
pub open spec fn minus_at(s: Seq<u8>, at: int) -> bool {
    0 <= at < s.len() && s[at] == MINUS
}

/// The number that the exponent part from position `at` on writes, where
/// `at` is the place of the letter `e`: an optional sign and at least one
/// digit, up to the end of the text.
pub open spec fn exponent_part(s: Seq<u8>, at: int) -> Option<int> {
    let start = if sign_at(s, at + 1) {
        at + 2
    } else {
        at + 1
    };
    let end = start + digit_run(s, start);
    let written = digits_number(s.subrange(start, end));
    if end == start || end != s.len() {
        None
    } else if minus_at(s, at + 1) {
        Some(-written)
    } else {
        Some(written as int)
    }
}

/// The number that a decimal literal writes, before normalization; `None`
/// where the text is no literal.
///
/// A literal is an optional sign, digits with an optional point among them
/// (before, between or after them, with at least one digit in all), and an
/// optional exponent: `e` or `E`, an optional sign, and at least one digit.
pub open spec fn literal(s: Seq<u8>) -> Option<DecimalView> {
    let whole_start: int = if sign_at(s, 0) {
        1
    } else {
        0
    };
    let whole_end = whole_start + digit_run(s, whole_start);
    let pointed = whole_end < s.len() && s[whole_end] == POINT;
    let fraction_start = if pointed {
        whole_end + 1
    } else {
        whole_end
    };
    let fraction_end = fraction_start + digit_run(s, fraction_start);
    let digits = s.subrange(whole_start, whole_end) + s.subrange(fraction_start, fraction_end);
    let places = fraction_end - fraction_start;
    if digits.len() == 0 {
        None
    } else if fraction_end == s.len() {
        Some(decimal(minus_at(s, 0), digits_number(digits), -places))
    } else if s[fraction_end] == LOWER_E || s[fraction_end] == UPPER_E {
        match exponent_part(s, fraction_end) {
            Some(exponent) => Some(decimal(minus_at(s, 0), digits_number(digits), exponent - places)),
            None => None,
        }
    } else {
        None
    }
}

/// The bytes of a text of ASCII characters, one byte for each character.
pub open spec fn ascii_bytes(text: Seq<char>) -> Seq<u8> {
    Seq::new(text.len(), |i: int| text[i] as u8)
}

/// A text of ASCII characters is encoded with one byte for each character.
pub proof fn lemma_ascii_encoding(text: Seq<char>)
    requires
        is_ascii_chars(text),
    ensures
        encode_utf8(text) == ascii_bytes(text),
{
    is_ascii_chars_encode_utf8(text);
    assert(encode_utf8(text) =~= ascii_bytes(text));
}

/// The decimal form of a number is made of ASCII digits that write the
/// number, with no zero in front unless the number is zero.
pub proof fn lemma_decimal_text_writes(n: nat)
    ensures
        is_ascii_chars(decimal_text(n)),
        all_digits(ascii_bytes(decimal_text(n))),
        digits_number(ascii_bytes(decimal_text(n))) == n,
        decimal_text(n).len() >= 1,
        n > 0 ==> ascii_bytes(decimal_text(n))[0] != ZERO,
        n > 0 ==> decimal_text(n).len() == digit_count(n),
    decreases n,
{
    let bytes = ascii_bytes(decimal_text(n));
    if n < 10 {
        assert(bytes.drop_last() =~= Seq::<u8>::empty());
        assert(digits_number(bytes.drop_last()) == 0);
        assert(bytes.last() == ZERO + n);
        if n > 0 {
            assert(n / 10 == 0);
            assert(digit_count(n) == 1 + digit_count(n / 10));
        }
    } else {
        lemma_decimal_text_writes(n / 10);
        let front = ascii_bytes(decimal_text(n / 10));
        assert(bytes.last() == ZERO + n % 10);
        assert(bytes.drop_last() =~= front);
        assert(bytes[0] == front[0]);
        assert forall|i: int| 0 <= i < bytes.len() implies is_digit(#[trigger] bytes[i]) by {
            if i < front.len() {
                assert(bytes[i] == front[i]);
            }
        }
        assert forall|i: int| 0 <= i < decimal_text(n).len() implies '\0' <= #[trigger] decimal_text(
            n,
        )[i] <= '\u{7f}' by {
            if i < decimal_text(n / 10).len() {
                assert(decimal_text(n)[i] == decimal_text(n / 10)[i]);
            }
        }
    }
}

/// Digits that follow one another from `from` on for `count` places, with no
/// digit after them, are the run of digits from there.
pub proof fn lemma_digit_run_exact(s: Seq<u8>, from: int, count: nat)
    requires
        0 <= from,
        from + count <= s.len(),
        forall|i: int| from <= i < from + count ==> is_digit(#[trigger] s[i]),
        from + count == s.len() || !is_digit(s[from + count]),
    ensures
        digit_run(s, from) == count,
    decreases count,
{
    if count > 0 {
        lemma_digit_run_exact(s, from + 1, (count - 1) as nat);
    }
}

/// A run of `n` ASCII zeros.
pub open spec fn zero_bytes(n: nat) -> Seq<u8> {
    Seq::new(n, |i: int| ZERO)
}

/// Zeros after the digits can be moved into the exponent.
pub proof fn lemma_normalized_trailing_zeros(
    negative: bool,
    digits: Seq<u8>,
    count: nat,
    exponent: int,
)
    ensures
        decimal(negative, digits_number(digits + zero_bytes(count)), exponent).normalized()
            == decimal(negative, digits_number(digits), exponent + count).normalized(),
    decreases count,
{
    if count == 0 {
        assert(digits + zero_bytes(0) =~= digits);
    } else {
        let shorter = digits + zero_bytes((count - 1) as nat);
        assert(digits + zero_bytes(count) =~= shorter.push(ZERO));
        lemma_digits_number_push(shorter, ZERO);
        lemma_normalized_trailing_zero(negative, digits_number(shorter), exponent);
        lemma_normalized_trailing_zeros(negative, digits, (count - 1) as nat, exponent + 1);
    }
}

/// Zeros in front of the digits do not change the number.
pub proof fn lemma_digits_number_leading_zeros(count: nat, digits: Seq<u8>)
    ensures
        digits_number(zero_bytes(count) + digits) == digits_number(digits),
    decreases count,
{
    if count == 0 {
        assert(zero_bytes(0) + digits =~= digits);
    } else {
        let all = zero_bytes(count) + digits;
        lemma_digits_number_leading_zero(all);
        assert(all.drop_first() =~= zero_bytes((count - 1) as nat) + digits);
        lemma_digits_number_leading_zeros((count - 1) as nat, digits);
    }
}

/// The sign in front of a literal: `-` for a negative number, nothing
/// otherwise.
pub open spec fn sign_bytes(negative: bool) -> Seq<u8> {
    if negative {
        seq![MINUS]
    } else {
        Seq::<u8>::empty()
    }
}

/// A sign and digits are a literal that writes the digits' number.
pub proof fn lemma_literal_of_digits(negative: bool, digits: Seq<u8>)
    requires
        digits.len() >= 1,
        all_digits(digits),
    ensures
        literal(sign_bytes(negative) + digits) == Some(
            decimal(negative, digits_number(digits), 0),
        ),
{
    let s = sign_bytes(negative) + digits;
    let o = sign_bytes(negative).len() as int;
    assert forall|i: int| o <= i < s.len() implies is_digit(#[trigger] s[i]) by {
        assert(s[i] == digits[i - o]);
    }
    assert(s[0] == if negative {
        MINUS
    } else {
        digits[0]
    });
    lemma_digit_run_exact(s, o, digits.len());
    lemma_digit_run_exact(s, s.len() as int, 0);
    assert(s.subrange(o, s.len() as int) + s.subrange(s.len() as int, s.len() as int) =~= digits);
}

/// A sign, digits, a point and more digits are a literal that writes the
/// number of all the digits, scaled down by the places after the point.
pub proof fn lemma_literal_of_pointed(negative: bool, whole: Seq<u8>, fraction: Seq<u8>)
    requires
        whole.len() >= 1,
        all_digits(whole),
        all_digits(fraction),
    ensures
        literal(sign_bytes(negative) + whole + seq![POINT] + fraction) == Some(
            decimal(negative, digits_number(whole + fraction), -(fraction.len() as int)),
        ),
{
    let s = sign_bytes(negative) + whole + seq![POINT] + fraction;
    let o = sign_bytes(negative).len() as int;
    let p = o + whole.len();
    assert forall|i: int| o <= i < p implies is_digit(#[trigger] s[i]) by {
        assert(s[i] == whole[i - o]);
    }
    assert(s[p] == POINT);
    assert forall|i: int| p + 1 <= i < s.len() implies is_digit(#[trigger] s[i]) by {
        assert(s[i] == fraction[i - p - 1]);
    }
    assert(s[0] == if negative {
        MINUS
    } else {
        whole[0]
    });
    lemma_digit_run_exact(s, o, whole.len());
    lemma_digit_run_exact(s, p + 1, fraction.len());
    assert(s.subrange(o, p) + s.subrange(p + 1, s.len() as int) =~= whole + fraction);
}

/// The bytes of a number's text: the sign, then the number without it.
proof fn lemma_text_bytes(number: DecimalView)
    ensures
        ascii_bytes(number.text()) == sign_bytes(number.negative) + ascii_bytes(
            number.unsigned_text(),
        ),
{
    assert(ascii_bytes(number.text()) =~= sign_bytes(number.negative) + ascii_bytes(
        number.unsigned_text(),
    ));
}

/// The bytes of a number's text without the sign, in terms of the bytes of
/// the mantissa's digits.
spec fn unsigned_bytes(number: DecimalView) -> Seq<u8> {
    let digits = ascii_bytes(decimal_text(number.mantissa));
    if number.exponent >= 0 {
        digits + zero_bytes(number.exponent as nat)
    } else if -number.exponent < digits.len() {
        let whole = digits.len() + number.exponent;
        digits.subrange(0, whole) + seq![POINT] + digits.subrange(whole, digits.len() as int)
    } else {
        seq![ZERO] + seq![POINT] + (zero_bytes((-number.exponent - digits.len()) as nat) + digits)
    }
}

/// The text of a number without its sign is ASCII, and its bytes are those
/// of `unsigned_bytes`.
proof fn lemma_unsigned_text_bytes(number: DecimalView)
    ensures
        ascii_bytes(number.unsigned_text()) == unsigned_bytes(number),
        is_ascii_chars(number.unsigned_text()),
{
    let text = number.unsigned_text();
    let shown = decimal_text(number.mantissa);
    let count = shown.len() as int;
    let exponent = number.exponent;
    lemma_decimal_text_writes(number.mantissa);
    assert(ascii_bytes(text) =~= unsigned_bytes(number));
    assert forall|i: int| 0 <= i < text.len() implies '\0' <= #[trigger] text[i] <= '\u{7f}' by {
        if exponent >= 0 {
            if i < count {
                assert(text[i] == shown[i]);
            }
        } else if -exponent < count {
            if i < count + exponent {
                assert(text[i] == shown[i]);
            } else if i > count + exponent {
                assert(text[i] == shown[i - 1]);
            }
        } else {
            if i >= 2 - exponent - count {
                assert(text[i] == shown[i - (2 - exponent - count)]);
            }
        }
    }
}

/// Digits followed by zeros read back as the digits' number with the zeros
/// in the exponent.
proof fn lemma_whole_reads_back(negative: bool, digits: Seq<u8>, zeros: nat)
    requires
        digits.len() >= 1,
        all_digits(digits),
    ensures
        literal(sign_bytes(negative) + (digits + zero_bytes(zeros))) matches Some(read)
            && read.normalized() == decimal(negative, digits_number(digits), zeros as int).normalized(),
{
    lemma_literal_of_digits(negative, digits + zero_bytes(zeros));
    lemma_normalized_trailing_zeros(negative, digits, zeros, 0);
}

/// Digits with the point set among them read back as the digits' number,
/// scaled down by the places after the point.
proof fn lemma_split_reads_back(negative: bool, digits: Seq<u8>, whole: int)
    requires
        1 <= whole < digits.len(),
        all_digits(digits),
    ensures
        literal(
            sign_bytes(negative) + (digits.subrange(0, whole) + seq![POINT] + digits.subrange(
                whole,
                digits.len() as int,
            )),
        ) == Some(decimal(negative, digits_number(digits), whole - digits.len())),
{
    let front = digits.subrange(0, whole);
    let back = digits.subrange(whole, digits.len() as int);
    lemma_literal_of_pointed(negative, front, back);
    assert(front + back =~= digits);
    assert(sign_bytes(negative) + (front + seq![POINT] + back) =~= sign_bytes(negative) + front
        + seq![POINT] + back);
}

/// Digits behind `0.` and a run of zeros read back as the digits' number,
/// scaled down by all the places after the point.
proof fn lemma_small_reads_back(negative: bool, digits: Seq<u8>, gap: nat)
    requires
        all_digits(digits),
    ensures
        literal(sign_bytes(negative) + (seq![ZERO] + seq![POINT] + (zero_bytes(gap) + digits)))
            == Some(decimal(negative, digits_number(digits), -(gap + digits.len()))),
{
    let whole = seq![ZERO];
    let fraction = zero_bytes(gap) + digits;
    lemma_literal_of_pointed(negative, whole, fraction);
    assert(whole + fraction =~= zero_bytes(gap + 1) + digits);
    lemma_digits_number_leading_zeros(gap + 1, digits);
    assert(sign_bytes(negative) + (whole + seq![POINT] + fraction) =~= sign_bytes(negative)
        + whole + seq![POINT] + fraction);
}

/// The number without its sign, read back from the bytes of its text.
proof fn lemma_unsigned_text_reads_back(number: DecimalView)
    requires
        number.is_normal(),
    ensures
        literal(sign_bytes(number.negative) + unsigned_bytes(number)) matches Some(read)
            && read.normalized() == number,
{
    let digits = ascii_bytes(decimal_text(number.mantissa));
    lemma_decimal_text_writes(number.mantissa);
    lemma_normalized_is_normal(number);
    if number.exponent >= 0 {
        lemma_whole_reads_back(number.negative, digits, number.exponent as nat);
    } else if -number.exponent < digits.len() {
        lemma_split_reads_back(number.negative, digits, digits.len() + number.exponent);
    } else {
        lemma_small_reads_back(
            number.negative,
            digits,
            (-number.exponent - digits.len()) as nat,
        );
    }
}

/// What is written is read back: the text of a number in normal form is a
/// literal, and the literal writes that number.
pub proof fn lemma_text_reads_back(number: DecimalView)
    requires
        number.is_normal(),
    ensures
        literal(encode_utf8(number.text())) matches Some(read) && read.normalized() == number,
{
    lemma_unsigned_text_reads_back(number);
    lemma_unsigned_text_bytes(number);
    lemma_text_bytes(number);
    let text = number.text();
    assert forall|i: int| 0 <= i < text.len() implies '\0' <= #[trigger] text[i] <= '\u{7f}' by {
        if number.negative && i > 0 {
            assert(text[i] == number.unsigned_text()[i - 1]);
        }
    }
    lemma_ascii_encoding(text);
}

/// From this size on an exponent is out of range whatever the digits are.
const EXPONENT_BOUND: i128 = 1_000_000_000_000_000_000_000_000;

/// From this size on a written exponent is no longer counted exactly.
const EXPONENT_CAP: u128 = 1_000_000_000_000_000_000_000_000_000;

/// An exact decimal number in normal form: its significant digits, from the
/// first that is not zero to the last that is not zero, and the power of ten
/// of the last one.
#[derive(Debug, PartialEq, Eq)]
pub struct Decimal {
    negative: bool,
    digits: Vec<u8>,
    exponent: i64,
}

impl View for Decimal {
    type V = DecimalView;

    closed spec fn view(&self) -> DecimalView {
        decimal(self.negative, digits_number(self.digits@), self.exponent as int)
    }
}

/// What parsing owes for a text that writes `number`: the number in normal
/// form where that is in range, and nothing otherwise.
pub open spec fn parsed_as(parsed: Option<Decimal>, number: DecimalView) -> bool {
    if number.normalized().in_range() {
        parsed matches Some(d) && d@ == number.normalized()
    } else {
        parsed is None
    }
}

fn is_ascii_digit(b: u8) -> (r: bool)
    ensures
        r == is_digit(b),
{
    ZERO <= b && b <= 0x39
}

/// Copies the digits that start at `from` to the end of `digits` and returns
/// the position after them.
fn scan_digits(text: &[u8], from: usize, digits: &mut Vec<u8>) -> (end: usize)
    requires
        from <= text@.len(),
        all_digits(old(digits)@),
    ensures
        end == from + digit_run(text@, from as int),
        end <= text@.len(),
        digit_run(text@, end as int) == 0,
        final(digits)@ == old(digits)@ + text@.subrange(from as int, end as int),
        all_digits(final(digits)@),
{
    let mut at: usize = from;
    while at < text.len() && is_ascii_digit(text[at])
        invariant
            from <= at <= text@.len(),
            digit_run(text@, from as int) == (at - from) + digit_run(text@, at as int),
            digits@ == old(digits)@ + text@.subrange(from as int, at as int),
            all_digits(digits@),
        decreases text@.len() - at,
    {
        digits.push(text[at]);
        assert(text@.subrange(from as int, at + 1) =~= text@.subrange(from as int, at as int).push(
            text@[at as int],
        ));
        at += 1;
    }
    at
}

/// Reads the digits of an exponent from `from` on. Returns the position
/// after them and the number they write, which is exact below
/// `EXPONENT_CAP`.
fn scan_exponent(text: &[u8], from: usize) -> (r: (usize, u128))
    requires
        from <= text@.len(),
    ensures
        r.0 == from + digit_run(text@, from as int),
        r.0 <= text@.len(),
        r.1 < EXPONENT_CAP ==> r.1 == digits_number(text@.subrange(from as int, r.0 as int)),
        r.1 >= EXPONENT_CAP ==> digits_number(text@.subrange(from as int, r.0 as int))
            >= EXPONENT_CAP,
        r.1 < EXPONENT_CAP * 10,
{
    let mut at: usize = from;
    let mut written: u128 = 0;
    assert(text@.subrange(from as int, from as int) =~= Seq::<u8>::empty());
    while at < text.len() && is_ascii_digit(text[at])
        invariant
            from <= at <= text@.len(),
            digit_run(text@, from as int) == (at - from) + digit_run(text@, at as int),
            written < EXPONENT_CAP ==> written == digits_number(
                text@.subrange(from as int, at as int),
            ),
            written >= EXPONENT_CAP ==> digits_number(text@.subrange(from as int, at as int))
                >= EXPONENT_CAP,
            written < EXPONENT_CAP * 10,
        decreases text@.len() - at,
    {
        proof {
            let before = text@.subrange(from as int, at as int);
            assert(text@.subrange(from as int, at + 1) =~= before.push(text@[at as int]));
            lemma_digits_number_push(before, text@[at as int]);
        }
        if written < EXPONENT_CAP {
            written = written * 10 + (text[at] - ZERO) as u128;
        }
        at += 1;
    }
    (at, written)
}

/// Reads the exponent part whose letter `e` stands at `at`. The number
/// returned is exact below `EXPONENT_CAP` in size and is beyond the cap on
/// the same side otherwise.
fn read_exponent(text: &[u8], at: usize) -> (r: Option<i128>)
    requires
        at < text@.len(),
    ensures
        match exponent_part(text@, at as int) {
            Some(exact) => r matches Some(e) && (-EXPONENT_CAP < e < EXPONENT_CAP ==> e == exact)
                && (e >= EXPONENT_CAP ==> exact >= EXPONENT_CAP) && (e <= -EXPONENT_CAP ==> exact
                <= -EXPONENT_CAP) && -EXPONENT_CAP * 10 < e < EXPONENT_CAP * 10,
            None => r is None,
        },
{
    let length: usize = text.len();
    let signed: bool = at + 1 < length && (text[at + 1] == PLUS || text[at + 1] == MINUS);
    let negative: bool = at + 1 < length && text[at + 1] == MINUS;
    let start: usize = if signed {
        at + 2
    } else {
        at + 1
    };
    let (end, written) = scan_exponent(text, start);
    if end == start || end != length {
        return None;
    }
    if negative {
        Some(-(written as i128))
    } else {
        Some(written as i128)
    }
}

/// Brings digits and an exponent into normal form. `exponent` is the exact
/// exponent `exact` wherever that is below `EXPONENT_BOUND` in size, and is
/// beyond the bound on the same side otherwise.
fn from_digits(negative: bool, digits: Vec<u8>, exponent: i128, Ghost(exact): Ghost<int>) -> (r:
    Option<Decimal>)
    requires
        all_digits(digits@),
        -EXPONENT_BOUND < exponent < EXPONENT_BOUND ==> exact == exponent,
        exponent >= EXPONENT_BOUND ==> exact >= EXPONENT_BOUND,
        exponent <= -EXPONENT_BOUND ==> exact <= -EXPONENT_BOUND,
    ensures
        parsed_as(r, decimal(negative, digits_number(digits@), exact)),
{
    let mut digits = digits;
    let ghost given = digits@;
    let ghost number = decimal(negative, digits_number(given), exact);
    let length: usize = digits.len();
    let mut end: usize = length;
    assert(given.subrange(0, end as int) =~= given);
    while end > 0 && digits[end - 1] == ZERO
        invariant
            end <= length,
            length == given.len(),
            digits@ == given,
            all_digits(given),
            number.normalized() == decimal(
                negative,
                digits_number(given.subrange(0, end as int)),
                exact + (length - end),
            ).normalized(),
        decreases end,
    {
        proof {
            let front = given.subrange(0, end - 1);
            assert(given.subrange(0, end as int) =~= front.push(ZERO));
            lemma_digits_number_push(front, ZERO);
            lemma_normalized_trailing_zero(negative, digits_number(front), exact + (length - end));
        }
        end -= 1;
    }
    let mut start: usize = 0;
    while start < end && digits[start] == ZERO
        invariant
            start <= end <= length,
            length == given.len(),
            digits@ == given,
            digits_number(given.subrange(start as int, end as int)) == digits_number(
                given.subrange(0, end as int),
            ),
        decreases end - start,
    {
        proof {
            let rest = given.subrange(start as int, end as int);
            lemma_digits_number_leading_zero(rest);
            assert(rest.drop_first() =~= given.subrange(start + 1, end as int));
        }
        start += 1;
    }
    let ghost kept = given.subrange(start as int, end as int);
    if start == end {
        assert(kept =~= Seq::<u8>::empty());
        let zero = Decimal { negative, digits: Vec::new(), exponent: 0 };
        assert(zero@ == number.normalized());
        assert(number.normalized().in_range());
        return Some(zero);
    }
    proof {
        assert(all_digits(kept));
        assert(kept[0] != ZERO && kept.last() != ZERO);
        lemma_digit_count_of_digits(kept);
        assert(digits_number(kept) == digits_number(kept.drop_last()) * 10 + (kept.last() - ZERO));
        assert(digits_number(kept) % 10 != 0);
        assert(number.normalized() == decimal(
            negative,
            digits_number(kept),
            exact + (length - end),
        ));
    }
    if exponent >= EXPONENT_BOUND || exponent <= -EXPONENT_BOUND {
        return None;
    }
    let shifted: i128 = exponent + (length - end) as i128;
    let count: i128 = (end - start) as i128;
    if shifted < -(MAX_PLACES as i128) || shifted + count > MAX_PLACES as i128 {
        return None;
    }
    digits.truncate(end);
    let kept_digits = digits.split_off(start);
    assert(kept_digits@ =~= kept);
    let parsed = Decimal { negative, digits: kept_digits, exponent: shifted as i64 };
    assert(parsed@ == number.normalized());
    Some(parsed)
}

impl Decimal {
    #[verifier::type_invariant]
    spec fn well_formed(&self) -> bool {
        &&& all_digits(self.digits@)
        &&& self.digits@.len() == 0 ==> self.exponent == 0
        &&& self.digits@.len() > 0 ==> self.digits@[0] != ZERO && self.digits@.last() != ZERO
        &&& -MAX_PLACES <= self.exponent
        &&& self.exponent + self.digits@.len() <= MAX_PLACES
    }

    /// Reads a decimal literal. The number comes back in normal form; a text
    /// that is no literal, or a number with digits more than `MAX_PLACES`
    /// places from the point, gives `None`.
    pub fn parse(text: &[u8]) -> (parsed: Option<Decimal>)
        ensures
            match literal(text@) {
                Some(number) => parsed_as(parsed, number),
                None => parsed is None,
            },
    {
        let ghost s = text@;
        let length: usize = text.len();
        let signed: bool = length > 0 && (text[0] == PLUS || text[0] == MINUS);
        let negative: bool = length > 0 && text[0] == MINUS;
        let whole_start: usize = if signed {
            1
        } else {
            0
        };
        let mut digits: Vec<u8> = Vec::new();
        let whole_end: usize = scan_digits(text, whole_start, &mut digits);
        let pointed: bool = whole_end < length && text[whole_end] == POINT;
        let fraction_start: usize = if pointed {
            whole_end + 1
        } else {
            whole_end
        };
        let fraction_end: usize = if pointed {
            scan_digits(text, fraction_start, &mut digits)
        } else {
            whole_end
        };
        assert(digits@ =~= s.subrange(whole_start as int, whole_end as int) + s.subrange(
            fraction_start as int,
            fraction_end as int,
        ));
        if digits.len() == 0 {
            return None;
        }
        let places: i128 = (fraction_end - fraction_start) as i128;
        if fraction_end == length {
            return from_digits(negative, digits, -places, Ghost(-places as int));
        }
        if text[fraction_end] != LOWER_E && text[fraction_end] != UPPER_E {
            return None;
        }
        match read_exponent(text, fraction_end) {
            Some(exponent) => {
                let ghost exact = exponent_part(s, fraction_end as int).unwrap();
                from_digits(negative, digits, exponent - places, Ghost(exact - places))
            },
            None => None,
        }
    }
}

/// Appends the digits from position `from` up to `to` to a text.
fn push_digits(text: &mut String, digits: &Vec<u8>, from: usize, to: usize)
    requires
        from <= to <= digits@.len(),
        all_digits(digits@),
    ensures
        final(text)@ == old(text)@ + digits_text(digits@).subrange(from as int, to as int),
{
    let mut at: usize = from;
    while at < to
        invariant
            from <= at <= to <= digits@.len(),
            all_digits(digits@),
            text@ == old(text)@ + digits_text(digits@).subrange(from as int, at as int),
        decreases to - at,
    {
        text.append(digit_str(digits[at] - ZERO));
        assert(digits_text(digits@).subrange(from as int, at + 1) =~= digits_text(
            digits@,
        ).subrange(from as int, at as int).push(digit_char((digits@[at as int] - ZERO) as nat)));
        at += 1;
    }
}

/// Appends `n` zeros to a text.
fn push_zeros(text: &mut String, n: usize)
    ensures
        final(text)@ == old(text)@ + zeros(n as nat),
{
    let mut done: usize = 0;
    assert(text@ =~= old(text)@ + zeros(0));
    while done < n
        invariant
            done <= n,
            text@ == old(text)@ + zeros(done as nat),
        decreases n - done,
    {
        proof {
            reveal_strlit("0");
        }
        text.append("0");
        assert(zeros((done + 1) as nat) =~= zeros(done as nat) + "0"@);
        done += 1;
    }
}

impl Decimal {
    /// Whether the number carries a minus sign.
    pub fn is_negative(&self) -> (negative: bool)
        ensures
            negative == self@.negative,
    {
        self.negative
    }

    /// Whether the number is zero.
    pub fn is_zero(&self) -> (zero: bool)
        ensures
            zero == (self@.mantissa == 0),
    {
        proof {
            use_type_invariant(self);
            if self.digits@.len() > 0 {
                lemma_digit_count_of_digits(self.digits@);
            }
        }
        self.digits.len() == 0
    }

    /// The significant digits as one number, where that fits in 64 bits.
    pub fn mantissa(&self) -> (mantissa: Option<u64>)
        ensures
            match mantissa {
                Some(m) => m == self@.mantissa,
                None => self@.mantissa > u64::MAX,
            },
    {
        proof {
            use_type_invariant(self);
        }
        let count: usize = self.digits.len();
        let mut value: u64 = 0;
        let mut at: usize = 0;
        assert(self.digits@.subrange(0, 0) =~= Seq::<u8>::empty());
        while at < count
            invariant
                at <= count == self.digits@.len(),
                all_digits(self.digits@),
                value == digits_number(self.digits@.subrange(0, at as int)),
            decreases count - at,
        {
            let digit: u64 = (self.digits[at] - ZERO) as u64;
            proof {
                let before = self.digits@.subrange(0, at as int);
                assert(self.digits@.subrange(0, at + 1) =~= before.push(self.digits@[at as int]));
                lemma_digits_number_push(before, self.digits@[at as int]);
                lemma_digits_number_prefix(self.digits@, at + 1);
            }
            if value > (u64::MAX - digit) / 10 {
                return None;
            }
            value = value * 10 + digit;
            at += 1;
        }
        assert(self.digits@.subrange(0, count as int) =~= self.digits@);
        Some(value)
    }

    /// The power of ten of the last significant digit.
    pub fn exponent(&self) -> (exponent: i64)
        ensures
            exponent == self@.exponent,
            -MAX_PLACES <= exponent <= MAX_PLACES,
    {
        proof {
            use_type_invariant(self);
        }
        self.exponent
    }

    /// The number written in full, as commands carry it. What is written
    /// here is a literal that `parse` reads back as the same number.
    pub fn to_text(&self) -> (text: String)
        ensures
            text@ == self@.text(),
            self@.is_normal(),
            self@.in_range(),
    {
        proof {
            use_type_invariant(self);
            reveal_strlit("-");
            reveal_strlit(".");
            reveal_strlit("0");
            reveal_strlit("0.");
        }
        let mut text = String::new();
        if self.negative {
            text.append("-");
        }
        let ghost signed = text@;
        let count: usize = self.digits.len();
        if count == 0 {
            text.append("0");
            assert(text@ =~= self@.text());
            return text;
        }
        proof {
            lemma_decimal_text_of_digits(self.digits@);
            lemma_digit_count_of_digits(self.digits@);
        }
        let ghost written = digits_text(self.digits@);
        if self.exponent >= 0 {
            push_digits(&mut text, &self.digits, 0, count);
            push_zeros(&mut text, self.exponent as usize);
            assert(written.subrange(0, count as int) =~= written);
            assert(text@ =~= self@.text());
        } else {
            let places: usize = (-self.exponent) as usize;
            if places < count {
                push_digits(&mut text, &self.digits, 0, count - places);
                text.append(".");
                push_digits(&mut text, &self.digits, count - places, count);
                assert(text@ =~= self@.text());
            } else {
                text.append("0.");
                push_zeros(&mut text, places - count);
                push_digits(&mut text, &self.digits, 0, count);
                assert(written.subrange(0, count as int) =~= written);
                assert(text@ =~= self@.text());
            }
        }
        text
    }
}

impl Clone for Decimal {
    fn clone(&self) -> (copy: Self)
        ensures
            copy@ == self@,
    {
        proof {
            use_type_invariant(self);
        }
        let digits = self.digits.clone();
        assert(digits@ =~= self.digits@);
        Decimal { negative: self.negative, digits, exponent: self.exponent }
    }
}

} // verus!
