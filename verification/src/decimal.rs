//! Decimal numbers as text: reading them from the bytes of a header or a
//! message field, and writing them into a request body.

use vstd::prelude::*;

verus! {

/// Why a run of bytes is no decimal number of the wanted type.
#[derive(Debug, Clone, Copy, PartialEq, Eq, Structural)]
pub enum NumberError {
    /// There are no bytes at all.
    Empty,
    /// A byte is not a decimal digit, or a sign stands alone.
    InvalidDigit,
    /// The digits, as far as they go, are above the largest value of the
    /// type.
    TooLarge,
    /// The digits, as far as they go, are below the smallest value of the
    /// type.
    TooSmall,
}

impl NumberError {
    /// The sentence that names the failure.
    pub open spec fn text(self) -> Seq<char> {
        match self {
            NumberError::Empty => "cannot parse integer from empty string"@,
            NumberError::InvalidDigit => "invalid digit found in string"@,
            NumberError::TooLarge => "number too large to fit in target type"@,
            NumberError::TooSmall => "number too small to fit in target type"@,
        }
    }

    pub fn as_str(&self) -> (r: &'static str)
        ensures
            r@ == self.text(),
    {
        match self {
            NumberError::Empty => "cannot parse integer from empty string",
            NumberError::InvalidDigit => "invalid digit found in string",
            NumberError::TooLarge => "number too large to fit in target type",
            NumberError::TooSmall => "number too small to fit in target type",
        }
    }
}

pub open spec fn is_digit(b: u8) -> bool {
    0x30 <= b <= 0x39
}

pub open spec fn all_digits(digits: Seq<u8>) -> bool {
    forall|i: int| 0 <= i < digits.len() ==> is_digit(#[trigger] digits[i])
}

/// The number that a run of decimal digits writes, most significant first.
pub open spec fn digits_value(digits: Seq<u8>) -> nat
    decreases digits.len(),
{
    if digits.len() == 0 {
        0
    } else {
        digits_value(digits.drop_last()) * 10 + (digits.last() - 0x30) as nat
    }
}

/// The number of digits at the front of `text`, before its first byte that
/// is no digit.
pub open spec fn digit_run(text: Seq<u8>) -> nat
    decreases text.len(),
{
    if text.len() == 0 || !is_digit(text[0]) {
        0
    } else {
        1 + digit_run(text.drop_first())
    }
}

/// The magnitude written by `digits`, read from the left.  The digits before
/// the first byte that is no digit are too large where they exceed `limit`;
/// short of that, there must be a digit and nothing but digits.
pub open spec fn magnitude(digits: Seq<u8>, limit: u64) -> Result<u64, NumberError> {
    let run = digits.take(digit_run(digits) as int);
    if digits_value(run) > limit {
        Err(NumberError::TooLarge)
    } else if digits.len() == 0 || run.len() < digits.len() {
        Err(NumberError::InvalidDigit)
    } else {
        Ok(digits_value(run) as u64)
    }
}

/// An unsigned decimal number: digits, with an optional `+` in front.
pub open spec fn unsigned_number(text: Seq<u8>) -> Result<u64, NumberError> {
    if text.len() == 0 {
        Err(NumberError::Empty)
    } else if text[0] == 0x2b {
        magnitude(text.skip(1), u64::MAX)
    } else {
        magnitude(text, u64::MAX)
    }
}

/// A signed decimal number: digits, with an optional `+` or `-` in front.
pub open spec fn signed_number(text: Seq<u8>) -> Result<i64, NumberError> {
    if text.len() == 0 {
        Err(NumberError::Empty)
    } else if text[0] == 0x2d {
        match magnitude(text.skip(1), 0x8000_0000_0000_0000) {
            Ok(m) => Ok((-(m as int)) as i64),
            Err(NumberError::TooLarge) => Err(NumberError::TooSmall),
            Err(e) => Err(e),
        }
    } else {
        let digits = if text[0] == 0x2b { text.skip(1) } else { text };
        match magnitude(digits, 0x7fff_ffff_ffff_ffff) {
            Ok(m) => Ok(m as i64),
            Err(e) => Err(e),
        }
    }
}

proof fn lemma_digits_value_push(digits: Seq<u8>, b: u8)
    ensures
        digits_value(digits.push(b)) == digits_value(digits) * 10 + (b - 0x30) as nat,
{
    assert(digits.push(b).drop_last() =~= digits);
}

/// The digits at the front of `text` end at `k` where the bytes before `k`
/// are digits and the byte at `k`, if there is one, is none.
proof fn lemma_digit_run(text: Seq<u8>, k: int)
    requires
        0 <= k <= text.len(),
        all_digits(text.take(k)),
        k == text.len() || !is_digit(text[k]),
    ensures
        digit_run(text) == k,
    decreases k,
{
    if k > 0 {
        assert(is_digit(text.take(k)[0]));
        let rest = text.drop_first();
        assert forall|i: int| 0 <= i < rest.take(k - 1).len() implies is_digit(
            #[trigger] rest.take(k - 1)[i],
        ) by {
            assert(rest.take(k - 1)[i] == text.take(k)[i + 1]);
        }
        lemma_digit_run(rest, k - 1);
    }
}

/// Reads the digits `bytes[start..]` as a magnitude of at most `limit`.
fn read_magnitude(bytes: &[u8], start: usize, limit: u64) -> (r: Result<u64, NumberError>)
    requires
        start <= bytes@.len(),
    ensures
        r == magnitude(bytes@.skip(start as int), limit),
{
    let n = bytes.len();
    let ghost digits = bytes@.skip(start as int);
    let mut i: usize = start;
    let mut value: u64 = 0;
    let mut exceeded = false;
    assert(bytes@.subrange(start as int, i as int) =~= Seq::<u8>::empty());
    while i < n
        invariant
            start <= i <= n,
            n == bytes@.len(),
            digits == bytes@.skip(start as int),
            all_digits(bytes@.subrange(start as int, i as int)),
            !exceeded ==> value == digits_value(bytes@.subrange(start as int, i as int)) && value
                <= limit,
            exceeded ==> digits_value(bytes@.subrange(start as int, i as int)) > limit,
        decreases n - i,
    {
        let b = bytes[i];
        if b < 0x30 || b > 0x39 {
            proof {
                assert(digits.take(i - start) =~= bytes@.subrange(start as int, i as int));
                lemma_digit_run(digits, i - start);
            }
            return if exceeded {
                Err(NumberError::TooLarge)
            } else {
                Err(NumberError::InvalidDigit)
            };
        }
        let d: u64 = (b - 0x30) as u64;
        proof {
            let seen = bytes@.subrange(start as int, i as int);
            assert(bytes@.subrange(start as int, i + 1) =~= seen.push(b));
            lemma_digits_value_push(seen, b);
        }
        if !exceeded {
            if d > limit || value > (limit - d) / 10 {
                exceeded = true;
            } else {
                value = value * 10 + d;
            }
        }
        i = i + 1;
    }
    proof {
        assert(bytes@.subrange(start as int, n as int) =~= digits);
        assert(digits.take(n - start) =~= digits);
        lemma_digit_run(digits, n - start);
    }
    if exceeded {
        Err(NumberError::TooLarge)
    } else if start == n {
        Err(NumberError::InvalidDigit)
    } else {
        Ok(value)
    }
}

/// Reads an unsigned decimal number.
pub fn parse_u64(text: &[u8]) -> (r: Result<u64, NumberError>)
    ensures
        r == unsigned_number(text@),
{
    if text.len() == 0 {
        return Err(NumberError::Empty);
    }
    if text[0] == 0x2b {
        read_magnitude(text, 1, u64::MAX)
    } else {
        assert(text@.skip(0) =~= text@);
        read_magnitude(text, 0, u64::MAX)
    }
}

/// Reads a signed decimal number.
pub fn parse_i64(text: &[u8]) -> (r: Result<i64, NumberError>)
    ensures
        r == signed_number(text@),
{
    if text.len() == 0 {
        return Err(NumberError::Empty);
    }
    if text[0] == 0x2d {
        match read_magnitude(text, 1, 0x8000_0000_0000_0000) {
            Ok(m) => {
                if m == 0x8000_0000_0000_0000 {
                    Ok(i64::MIN)
                } else {
                    Ok(-(m as i64))
                }
            },
            Err(NumberError::TooLarge) => Err(NumberError::TooSmall),
            Err(e) => Err(e),
        }
    } else {
        let start: usize = if text[0] == 0x2b { 1 } else { 0 };
        assert(text@.skip(0) =~= text@);
        match read_magnitude(text, start, 0x7fff_ffff_ffff_ffff) {
            Ok(m) => Ok(m as i64),
            Err(e) => Err(e),
        }
    }
}

/// The character that writes the digit `d`.
pub open spec fn digit_char(d: nat) -> char {
    ((0x30 + d) as u8) as char
}

/// The decimal digits of `n`, most significant first, without leading zeros.
pub open spec fn decimal(n: nat) -> Seq<char>
    decreases n,
{
    if n < 10 {
        seq![digit_char(n)]
    } else {
        decimal(n / 10).push(digit_char(n % 10))
    }
}

/// The decimal digits of `i`, behind a `-` where it is negative.
pub open spec fn signed_decimal(i: int) -> Seq<char> {
    if i < 0 {
        seq!['-'] + decimal((-i) as nat)
    } else {
        decimal(i as nat)
    }
}

/// The decimal digits of `n`, behind a `0` where there is only one.
pub open spec fn two_digits(n: nat) -> Seq<char> {
    if n < 10 {
        seq!['0'] + decimal(n)
    } else {
        decimal(n)
    }
}

fn digit(d: u8) -> (c: char)
    requires
        d < 10,
    ensures
        c == digit_char(d as nat),
{
    (0x30 + d) as char
}

/// Appends the decimal digits of `n` to `out`.
pub fn push_decimal(out: &mut String, n: u64)
    ensures
        final(out)@ == old(out)@ + decimal(n as nat),
{
    let ghost before = out@;
    // the digits below `rest`, least significant first
    let mut low: Vec<char> = Vec::new();
    let mut rest = n;
    while rest >= 10
        invariant
            decimal(n as nat) == decimal(rest as nat) + Seq::new(
                low@.len(),
                |k: int| low@[low@.len() - 1 - k],
            ),
        decreases rest,
    {
        let ghost above = Seq::new(low@.len(), |k: int| low@[low@.len() - 1 - k]);
        let ghost whole = rest;
        let d = digit((rest % 10) as u8);
        low.push(d);
        rest = rest / 10;
        assert(decimal(whole as nat) == decimal(rest as nat).push(d));
        assert(decimal(rest as nat).push(d) + above =~= decimal(rest as nat) + Seq::new(
            low@.len(),
            |k: int| low@[low@.len() - 1 - k],
        ));
    }
    out.push(digit(rest as u8));
    let mut i = low.len();
    while i > 0
        invariant
            i <= low@.len(),
            out@ == before + seq![digit_char(rest as nat)] + Seq::new(
                (low@.len() - i) as nat,
                |k: int| low@[low@.len() - 1 - k],
            ),
        decreases i,
    {
        i = i - 1;
        out.push(low[i]);
        assert(out@ =~= before + seq![digit_char(rest as nat)] + Seq::new(
            (low@.len() - i) as nat,
            |k: int| low@[low@.len() - 1 - k],
        ));
    }
    assert(out@ =~= before + decimal(n as nat));
}

/// Appends the decimal digits of `i` to `out`, behind a `-` where it is
/// negative.
pub fn push_signed_decimal(out: &mut String, i: i64)
    ensures
        final(out)@ == old(out)@ + signed_decimal(i as int),
{
    let ghost before = out@;
    if i < 0 {
        out.push('-');
        let m: u64 = if i == i64::MIN {
            0x8000_0000_0000_0000
        } else {
            (-i) as u64
        };
        push_decimal(out, m);
        assert(out@ =~= before + signed_decimal(i as int));
    } else {
        push_decimal(out, i as u64);
    }
}

/// Appends `n` to `out` in at least two decimal digits.
pub fn push_two_digits(out: &mut String, n: u8)
    ensures
        final(out)@ == old(out)@ + two_digits(n as nat),
{
    let ghost before = out@;
    if n < 10 {
        out.push('0');
    }
    push_decimal(out, n as u64);
    assert(out@ =~= before + two_digits(n as nat));
}

proof fn lemma_decimal_bytes(n: nat)
    ensures
        decimal(n).len() >= 1,
        vstd::utf8::is_ascii_chars(decimal(n)),
        vstd::utf8::encode_utf8(decimal(n)).len() == decimal(n).len(),
        all_digits(vstd::utf8::encode_utf8(decimal(n))),
        digits_value(vstd::utf8::encode_utf8(decimal(n))) == n,
    decreases n,
{
    let text = decimal(n);
    let last = digit_char(n % 10);
    assert(last as u8 == 0x30 + n % 10);
    if n < 10 {
        assert(text =~= seq![last]);
        assert(vstd::utf8::is_ascii_chars(text));
        vstd::utf8::is_ascii_chars_encode_utf8(text);
        let bytes = vstd::utf8::encode_utf8(text);
        assert(bytes =~= Seq::<u8>::empty().push(last as u8));
        lemma_digits_value_push(Seq::<u8>::empty(), last as u8);
    } else {
        let front = decimal(n / 10);
        lemma_decimal_bytes(n / 10);
        assert(text == front.push(last));
        assert(vstd::utf8::is_ascii_chars(text));
        vstd::utf8::is_ascii_chars_encode_utf8(front);
        vstd::utf8::is_ascii_chars_encode_utf8(text);
        let bytes = vstd::utf8::encode_utf8(text);
        let front_bytes = vstd::utf8::encode_utf8(front);
        assert forall|i: int| 0 <= i < front_bytes.len() implies bytes[i] == front_bytes[i] by {
            assert(text[i] == front[i]);
        }
        assert(bytes[front.len() as int] == text[front.len() as int] as u8);
        assert(bytes =~= front_bytes.push(last as u8));
        lemma_digits_value_push(front_bytes, last as u8);
        assert forall|i: int| 0 <= i < bytes.len() implies is_digit(#[trigger] bytes[i]) by {
            if i < front_bytes.len() {
                assert(is_digit(front_bytes[i]));
            }
        }
    }
}

/// A number that was written in decimal reads back as itself: the bytes
/// that [`push_decimal`] appends for `n` are an unsigned number, and
/// [`parse_u64`] reads `n` from them.
pub proof fn lemma_written_number_reads_back(n: u64)
    ensures
        unsigned_number(vstd::utf8::encode_utf8(decimal(n as nat))) == Ok::<u64, NumberError>(n),
{
    lemma_decimal_bytes(n as nat);
    let bytes = vstd::utf8::encode_utf8(decimal(n as nat));
    assert(is_digit(bytes[0]));
    assert(bytes.take(bytes.len() as int) =~= bytes);
    lemma_digit_run(bytes, bytes.len() as int);
}

} // verus!
