//! Integers written out and read back in base 2, 8 or 16.

use vstd::prelude::*;
use vstd::string::StrSliceExecFns;
use vstd::string::StringExecFns;
use crate::float::Float;

verus! {

/// The base of a number written as an integer.
#[derive(Clone, Copy, Debug, PartialEq, Eq, Hash, Structural)]
pub enum Radix {
    Binary,
    Octal,
    /// Base 16, with capital letters if `upper`.
    Hexadecimal { upper: bool },
}

/// How an integer is written in a base other than ten.
#[derive(Clone, Copy, Debug, PartialEq, Eq)]
pub struct RadixFormat {
    pub radix: Radix,
    /// The least number of digits; shorter numbers get leading zeros.
    pub min_width: usize,
    /// Whether a negative number shows as its two's complement in 64 bits
    /// rather than with a minus sign.
    pub twos_complement: bool,
}

/// Why a format cannot be made.
#[derive(Clone, Copy, Debug, PartialEq, Eq, Structural)]
pub enum ConfigurationError {
    /// A number cannot be written with no digits at all.
    InvalidConfiguration,
}

/// The sign written before a negative number: the minus sign of Unicode,
/// U+2212, which is as wide as a plus sign.
pub open spec fn minus_sign() -> Seq<char> {
    seq!['\u{2212}']
}

/// The character for the digit `d`, which is below 16.
pub open spec fn digit_char(d: int, upper: bool) -> char {
    if d == 0 {
        '0'
    } else if d == 1 {
        '1'
    } else if d == 2 {
        '2'
    } else if d == 3 {
        '3'
    } else if d == 4 {
        '4'
    } else if d == 5 {
        '5'
    } else if d == 6 {
        '6'
    } else if d == 7 {
        '7'
    } else if d == 8 {
        '8'
    } else if d == 9 {
        '9'
    } else if d == 10 {
        if upper {
            'A'
        } else {
            'a'
        }
    } else if d == 11 {
        if upper {
            'B'
        } else {
            'b'
        }
    } else if d == 12 {
        if upper {
            'C'
        } else {
            'c'
        }
    } else if d == 13 {
        if upper {
            'D'
        } else {
            'd'
        }
    } else if d == 14 {
        if upper {
            'E'
        } else {
            'e'
        }
    } else {
        if upper {
            'F'
        } else {
            'f'
        }
    }
}

/// The digits of `value` in `base`, the most significant first, with no
/// leading zero; zero is written with one digit.
pub open spec fn digits(value: nat, base: nat, upper: bool) -> Seq<char>
    decreases value,
{
    if base < 2 || value < base {
        seq![digit_char(value as int, upper)]
    } else {
        proof {
            assert(value / base < value) by (nonlinear_arith)
                requires
                    2 <= base <= value,
            ;
        }
        digits(value / base, base, upper).push(digit_char((value % base) as int, upper))
    }
}

/// `text` with as many zeros before it as it takes to reach `width`.
pub open spec fn zero_padded(text: Seq<char>, width: nat) -> Seq<char> {
    if text.len() >= width {
        text
    } else {
        Seq::new((width - text.len()) as nat, |i: int| '0') + text
    }
}

/// The bits of a 64-bit integer read as a natural number: a negative
/// integer counts from two to the power of 64 down.
pub open spec fn twos_complement_of(n: i64) -> nat {
    if n < 0 {
        (n + 0x1_0000_0000_0000_0000) as nat
    } else {
        n as nat
    }
}

impl Radix {
    pub open spec fn spec_base(self) -> u64 {
        match self {
            Radix::Binary => 2,
            Radix::Octal => 8,
            Radix::Hexadecimal { upper } => 16,
        }
    }

    /// Whether digits above 9 are capital letters.
    pub open spec fn spec_upper(self) -> bool {
        self matches Radix::Hexadecimal { upper } && upper
    }

    #[verifier::when_used_as_spec(spec_base)]
    pub fn base(self) -> (r: u64)
        ensures
            r == self.spec_base(),
    {
        match self {
            Radix::Binary => 2,
            Radix::Octal => 8,
            Radix::Hexadecimal { upper } => 16,
        }
    }

    #[verifier::when_used_as_spec(spec_upper)]
    pub fn upper(self) -> (r: bool)
        ensures
            r == self.spec_upper(),
    {
        match self {
            Radix::Hexadecimal { upper } => upper,
            _ => false,
        }
    }
}

/// The one-character text of a digit.
fn digit_str(d: u64, upper: bool) -> (r: &'static str)
    requires
        d < 16,
    ensures
        r@ == seq![digit_char(d as int, upper)],
{
    proof {
        reveal_strlit("0");
        reveal_strlit("1");
        reveal_strlit("2");
        reveal_strlit("3");
        reveal_strlit("4");
        reveal_strlit("5");
        reveal_strlit("6");
        reveal_strlit("7");
        reveal_strlit("8");
        reveal_strlit("9");
        reveal_strlit("a");
        reveal_strlit("b");
        reveal_strlit("c");
        reveal_strlit("d");
        reveal_strlit("e");
        reveal_strlit("f");
        reveal_strlit("A");
        reveal_strlit("B");
        reveal_strlit("C");
        reveal_strlit("D");
        reveal_strlit("E");
        reveal_strlit("F");
    }
    let r = if d == 0 {
        "0"
    } else if d == 1 {
        "1"
    } else if d == 2 {
        "2"
    } else if d == 3 {
        "3"
    } else if d == 4 {
        "4"
    } else if d == 5 {
        "5"
    } else if d == 6 {
        "6"
    } else if d == 7 {
        "7"
    } else if d == 8 {
        "8"
    } else if d == 9 {
        "9"
    } else if d == 10 {
        if upper {
            "A"
        } else {
            "a"
        }
    } else if d == 11 {
        if upper {
            "B"
        } else {
            "b"
        }
    } else if d == 12 {
        if upper {
            "C"
        } else {
            "c"
        }
    } else if d == 13 {
        if upper {
            "D"
        } else {
            "d"
        }
    } else if d == 14 {
        if upper {
            "E"
        } else {
            "e"
        }
    } else {
        if upper {
            "F"
        } else {
            "f"
        }
    };
    assert(r@ =~= seq![digit_char(d as int, upper)]);
    r
}

/// Appends the digits of `value` to `out`.
pub fn append_digits(out: &mut String, value: u64, base: u64, upper: bool)
    requires
        2 <= base <= 16,
    ensures
        final(out)@ == old(out)@ + digits(value as nat, base as nat, upper),
    decreases value,
{
    if value >= base {
        assert(value / base < value) by (nonlinear_arith)
            requires
                2 <= base <= value,
        ;
        append_digits(out, value / base, base, upper);
    }
    let ghost before = out@;
    out.append(digit_str(value % base, upper));
    proof {
        let last = digit_char((value % base) as int, upper);
        assert(out@ == before + seq![last]);
        if value >= base {
            let head = digits((value / base) as nat, base as nat, upper);
            assert(before == old(out)@ + head);
            assert(digits(value as nat, base as nat, upper) == head.push(last));
            assert(out@ =~= old(out)@ + head.push(last));
        } else {
            assert(value % base == value) by (nonlinear_arith)
                requires
                    value < base,
            ;
        }
    }
}

/// The number of digits of `value`.
fn count_digits(value: u64, base: u64) -> (r: usize)
    requires
        2 <= base <= 16,
    ensures
        forall|upper: bool| r == #[trigger] digits(value as nat, base as nat, upper).len(),
        1 <= r <= 64,
{
    let mut rest: u64 = value;
    let mut count: usize = 1;
    proof {
        lemma_bound_of_digits(value as nat, base as nat);
    }
    while rest >= base
        invariant
            2 <= base <= 16,
            1 <= count,
            count + bound_of_digits(rest as nat) <= 65,
            forall|upper: bool|
                #[trigger] digits(value as nat, base as nat, upper).len() == digits(
                    rest as nat,
                    base as nat,
                    upper,
                ).len() + count - 1,
        decreases rest,
    {
        proof {
            lemma_bound_of_digits(rest as nat, base as nat);
            assert(rest / base < rest) by (nonlinear_arith)
                requires
                    2 <= base <= rest,
            ;
        }
        rest = rest / base;
        count = count + 1;
    }
    proof {
        lemma_bound_of_digits(rest as nat, base as nat);
    }
    count
}

/// An upper bound on the number of digits of `value` in any base: its
/// number of binary digits.
spec fn bound_of_digits(value: nat) -> nat
    decreases value,
{
    if value < 2 {
        1
    } else {
        1 + bound_of_digits(value / 2)
    }
}

/// A number that fits 64 bits has at most 64 binary digits, and dividing by
/// the base takes at least one of them away.
proof fn lemma_bound_of_digits(value: nat, base: nat)
    requires
        2 <= base,
        value <= u64::MAX,
    ensures
        bound_of_digits(value) <= 64,
        value >= base ==> bound_of_digits(value / base) < bound_of_digits(value),
{
    vstd::arithmetic::power2::lemma2_to64();
    lemma_bound_of_digits_below(value, 64);
    if value >= base {
        assert(value / base <= value / 2) by (nonlinear_arith)
            requires
                2 <= base,
        ;
        lemma_bound_of_digits_grows(value / base, value / 2);
    }
}

proof fn lemma_bound_of_digits_grows(a: nat, b: nat)
    requires
        a <= b,
    ensures
        bound_of_digits(a) <= bound_of_digits(b),
    decreases b,
{
    if b >= 2 {
        if a >= 2 {
            lemma_bound_of_digits_grows(a / 2, b / 2);
        }
    }
}

proof fn lemma_bound_of_digits_below(value: nat, bits: nat)
    requires
        bits >= 1,
        value < vstd::arithmetic::power2::pow2(bits),
    ensures
        bound_of_digits(value) <= bits,
    decreases bits,
{
    vstd::arithmetic::power2::lemma2_to64();
    if value >= 2 {
        vstd::arithmetic::power2::lemma_pow2_unfold(bits);
        if bits == 1 {
        } else {
            lemma_bound_of_digits_below(value / 2, (bits - 1) as nat);
        }
    }
}

impl RadixFormat {
    /// A format with at least `min_width` digits, which must be at least one.
    pub fn new(radix: Radix, min_width: usize, twos_complement: bool) -> (r: Result<
        RadixFormat,
        ConfigurationError,
    >)
        ensures
            min_width == 0 ==> r == Err::<RadixFormat, ConfigurationError>(
                ConfigurationError::InvalidConfiguration,
            ),
            min_width > 0 ==> r == Ok::<RadixFormat, ConfigurationError>(
                RadixFormat { radix, min_width, twos_complement },
            ),
    {
        if min_width == 0 {
            Err(ConfigurationError::InvalidConfiguration)
        } else {
            Ok(RadixFormat { radix, min_width, twos_complement })
        }
    }

    /// The digits of a natural number in this format, with leading zeros up
    /// to the least width.
    pub open spec fn written(self, value: nat) -> Seq<char> {
        zero_padded(
            digits(value, self.radix.spec_base() as nat, self.radix.spec_upper()),
            self.min_width as nat,
        )
    }

    /// A number as this format writes it: cut down to a 64-bit integer, then
    /// either the two's complement of that integer, or its size with a minus
    /// sign before it if the number is below zero.
    pub open spec fn formatted(self, n: Float) -> Seq<char> {
        if self.twos_complement {
            self.written(twos_complement_of(n.spec_to_i64()))
        } else if n.spec_lt(Float::spec_zero()) {
            minus_sign() + self.written(n.spec_abs().spec_to_i64() as nat)
        } else {
            self.written(n.spec_abs().spec_to_i64() as nat)
        }
    }

    /// Writes `n` as [`RadixFormat::formatted`] says.
    pub fn format(&self, n: Float) -> (r: String)
        ensures
            r@ == self.formatted(n),
    {
        let mut out = String::new();
        let value: u64 = if self.twos_complement {
            let i: i64 = n.to_i64();
            if i >= 0 {
                i as u64
            } else {
                ((i - i64::MIN) as u64) + 0x8000_0000_0000_0000
            }
        } else {
            if n.lt(Float::zero()) {
                proof {
                    reveal_strlit("\u{2212}");
                }
                out.append("\u{2212}");
                assert(out@ =~= minus_sign());
            }
            n.abs().to_i64() as u64
        };
        let ghost sign = out@;
        let base = self.radix.base();
        let upper = self.radix.upper();
        let count = count_digits(value, base);
        let mut width: usize = count;
        assert(out@ =~= sign + Seq::new(0, |i: int| '0'));
        while width < self.min_width
            invariant
                count <= width,
                width <= self.min_width || width == count,
                out@ == sign + Seq::new((width - count) as nat, |i: int| '0'),
            decreases self.min_width - width,
        {
            proof {
                reveal_strlit("0");
            }
            out.append("0");
            width = width + 1;
            assert(out@ =~= sign + Seq::new((width - count) as nat, |i: int| '0'));
        }
        append_digits(&mut out, value, base, upper);
        assert(out@ =~= sign + self.written(value as nat));
        out
    }
}

// ----------------------------------------------------------------------------
// Reading back.

/// The digit that a character stands for, or 36 where it is no digit in any
/// base: `0` to `9`, then the letters of either case from 10 on.
pub open spec fn digit_value(c: char) -> nat {
    if '0' <= c <= '9' {
        (c as int - '0' as int) as nat
    } else if 'a' <= c <= 'z' {
        (c as int - 'a' as int + 10) as nat
    } else if 'A' <= c <= 'Z' {
        (c as int - 'A' as int + 10) as nat
    } else {
        36
    }
}

/// Whether every character is a digit of `base`.
pub open spec fn all_digits(text: Seq<char>, base: nat) -> bool {
    forall|i: int| 0 <= i < text.len() ==> digit_value(#[trigger] text[i]) < base
}

/// The number that digits spell in `base`, the most significant first.
pub open spec fn number_of(text: Seq<char>, base: nat) -> nat
    decreases text.len(),
{
    if text.len() == 0 {
        0
    } else {
        number_of(text.drop_last(), base) * base + digit_value(text.last())
    }
}

/// Whether a text starts with a sign.
pub open spec fn has_sign(text: Seq<char>) -> bool {
    text.len() > 0 && (text[0] == '-' || text[0] == '+')
}

/// The integer that a text spells in `base`: an optional `+` or `-`, then
/// at least one digit and nothing else. There is none where the text is not
/// of that form or the integer does not fit 64 bits.
pub open spec fn parsed(text: Seq<char>, base: nat) -> Option<i64> {
    let body = if has_sign(text) {
        text.subrange(1, text.len() as int)
    } else {
        text
    };
    let number = if has_sign(text) && text[0] == '-' {
        -(number_of(body, base) as int)
    } else {
        number_of(body, base) as int
    };
    if body.len() == 0 || !all_digits(body, base) {
        None
    } else if i64::MIN <= number <= i64::MAX {
        Some(number as i64)
    } else {
        None
    }
}

/// Digits that follow never make a number smaller.
proof fn lemma_number_of_grows(text: Seq<char>, base: nat, n: int)
    requires
        base >= 1,
        0 <= n <= text.len(),
    ensures
        number_of(text.take(n), base) <= number_of(text, base),
    decreases text.len(),
{
    if n < text.len() {
        lemma_number_of_grows(text.drop_last(), base, n);
        assert(text.drop_last().take(n) =~= text.take(n));
        assert(number_of(text.drop_last(), base) * base >= number_of(text.drop_last(), base))
            by (nonlinear_arith)
            requires
                base >= 1,
        ;
    } else {
        assert(text.take(n) =~= text);
    }
}

/// The value of an ASCII character as a digit, or 36.
fn digit_of(byte: u8) -> (r: u64)
    requires
        byte < 128,
    ensures
        r == digit_value(byte as char),
        r <= 36,
{
    if byte >= 48 && byte <= 57 {
        (byte - 48) as u64
    } else if byte >= 97 && byte <= 122 {
        (byte - 97 + 10) as u64
    } else if byte >= 65 && byte <= 90 {
        (byte - 65 + 10) as u64
    } else {
        36
    }
}

impl RadixFormat {
    /// Reads a number in the base of this format: the number nearest to
    /// the integer that the text spells, and none where it spells none.
    pub fn parse(&self, text: &str) -> (r: Option<Float>)
        ensures
            match parsed(text@, self.radix.spec_base() as nat) {
                Some(n) => r matches Some(number) && number.is_nearest_to(n),
                None => r.is_none(),
            },
    {
        match self.parse_integer(text) {
            Some(n) => Some(Float::from_i64(n)),
            None => None,
        }
    }

    /// Reads an integer in the base of this format, as [`parsed`] says.
    pub fn parse_integer(&self, text: &str) -> (r: Option<i64>)
        ensures
            r == parsed(text@, self.radix.spec_base() as nat),
    {
        let base = self.radix.base();
        let ghost body = if has_sign(text@) {
            text@.subrange(1, text@.len() as int)
        } else {
            text@
        };
        if !text.is_ascii() {
            proof {
                let i = choose|i: int|
                    0 <= i < text@.len() && !('\0' <= #[trigger] text@[i] <= '\u{7f}');
                if has_sign(text@) {
                    assert(i >= 1);
                    assert(body[i - 1] == text@[i]);
                    assert(digit_value(body[i - 1]) == 36);
                } else {
                    assert(digit_value(body[i]) == 36);
                }
            }
            return None;
        }
        let len = text.unicode_len();
        if len == 0 {
            return None;
        }
        let first = text.get_ascii(0);
        let negative = first == 45;
        let start: usize = if first == 45 || first == 43 {
            1
        } else {
            0
        };
        assert(first as char == text@[0]);
        assert(has_sign(text@) == (start == 1));
        assert(negative == (has_sign(text@) && text@[0] == '-'));
        assert(body =~= text@.subrange(start as int, len as int));
        if start == len {
            return None;
        }
        let mut total: i128 = 0;
        let mut i: usize = start;
        assert(body.take(0) =~= Seq::<char>::empty());
        while i < len
            invariant
                start <= i <= len,
                len == text@.len(),
                vstd::string::is_ascii(text),
                body == text@.subrange(start as int, len as int),
                body == if has_sign(text@) {
                    text@.subrange(1, text@.len() as int)
                } else {
                    text@
                },
                negative == (has_sign(text@) && text@[0] == '-'),
                base == self.radix.spec_base(),
                2 <= base <= 16,
                all_digits(body.take(i - start), base as nat),
                total == if negative {
                    -(number_of(body.take(i - start), base as nat) as int)
                } else {
                    number_of(body.take(i - start), base as nat) as int
                },
                i64::MIN <= total <= i64::MAX,
            decreases len - i,
        {
            let byte = text.get_ascii(i);
            let digit = digit_of(byte);
            let ghost c = text@[i as int];
            assert(c == body[i - start]);
            assert(byte as char == c);
            if digit >= base {
                assert(!all_digits(body, base as nat));
                return None;
            }
            let ghost before = body.take(i - start);
            let ghost after = body.take(i - start + 1);
            assert(after.drop_last() =~= before);
            assert(after.last() == c);
            assert(number_of(after, base as nat) == number_of(before, base as nat) * base + digit);
            let ghost earlier = total;
            assert(-0x8_0000_0000_0000_0000 <= total * (base as i128) <= 0x8_0000_0000_0000_0000)
                by (nonlinear_arith)
                requires
                    -0x8000_0000_0000_0000 <= total <= 0x8000_0000_0000_0000,
                    2 <= base <= 16,
            ;
            total = if negative {
                total * (base as i128) - (digit as i128)
            } else {
                total * (base as i128) + (digit as i128)
            };
            proof {
                let spelled = number_of(after, base as nat) as int;
                let so_far = number_of(before, base as nat) as int;
                assert(spelled == so_far * base + digit);
                if negative {
                    assert(earlier == -so_far);
                    assert((-so_far) * base == -(so_far * base)) by (nonlinear_arith);
                    assert(total == -spelled);
                } else {
                    assert(total == spelled);
                }
            }
            if total > i64::MAX as i128 || total < i64::MIN as i128 {
                proof {
                    lemma_number_of_grows(body, base as nat, i - start + 1);
                    assert(number_of(body, base as nat) >= number_of(after, base as nat));
                    assert(number_of(after, base as nat) > i64::MAX);
                    assert(parsed(text@, base as nat).is_none());
                }
                return None;
            }
            assert forall|j: int| 0 <= j < after.len() implies digit_value(#[trigger] after[j])
                < base by {
                if j < before.len() {
                    assert(after[j] == before[j]);
                }
            }
            i = i + 1;
        }
        assert(body.take(i - start) =~= body);
        Some(total as i64)
    }
}

} // verus!
