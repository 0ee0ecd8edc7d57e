//! Decimal integers as text: what counts as one, and its value.

use vstd::prelude::*;
use vstd::string::*;

verus! {

/// The byte of the digit `0`; the other digits follow it in order.
const ZERO: u8 = 48;

/// The byte of the digit `9`.
const NINE: u8 = 57;

/// The byte of `-`.
const MINUS: u8 = 45;

/// The byte of `+`.
const PLUS: u8 = 43;

/// `c` is one of `0` to `9`.
pub open spec fn is_digit(c: char) -> bool {
    '0' <= c && c <= '9'
}

/// The number a digit stands for.
pub open spec fn digit_of(c: char) -> int {
    c as int - 48
}

/// Every character of `s` is a digit.
pub open spec fn all_digits(s: Seq<char>) -> bool {
    forall|i: int| 0 <= i < s.len() ==> is_digit(#[trigger] s[i])
}

/// The value of a string of digits, read in base ten; the empty string is 0.
pub open spec fn magnitude(digits: Seq<char>) -> int
    decreases digits.len(),
{
    if digits.len() == 0 {
        0
    } else {
        10 * magnitude(digits.drop_last()) + digit_of(digits.last())
    }
}

/// `s` starts with a sign.
pub open spec fn has_sign(s: Seq<char>) -> bool {
    s.len() > 0 && (s[0] == '-' || s[0] == '+')
}

/// `s` without its sign, if it has one.
pub open spec fn unsigned_part(s: Seq<char>) -> Seq<char> {
    if has_sign(s) {
        s.subrange(1, s.len() as int)
    } else {
        s
    }
}

/// `s` is an optional sign followed by at least one digit and nothing else.
pub open spec fn is_decimal(s: Seq<char>) -> bool {
    unsigned_part(s).len() > 0 && all_digits(unsigned_part(s))
}

/// The integer that a decimal string denotes.
pub open spec fn signed_value(s: Seq<char>) -> int {
    if s.len() > 0 && s[0] == '-' {
        -magnitude(unsigned_part(s))
    } else {
        magnitude(unsigned_part(s))
    }
}

/// What `s` parses to: its value if it is a decimal string whose value fits
/// in 128 bits, and nothing otherwise.
pub open spec fn decimal_i128(s: Seq<char>) -> Option<i128> {
    if is_decimal(s) && i128::MIN <= signed_value(s) <= i128::MAX {
        Some(signed_value(s) as i128)
    } else {
        None
    }
}

/// A digit string is worth at least as much as any of its prefixes.
pub proof fn lemma_magnitude_grows(digits: Seq<char>, k: int)
    requires
        all_digits(digits),
        0 <= k <= digits.len(),
    ensures
        0 <= magnitude(digits.take(k)) <= magnitude(digits),
    decreases digits.len() - k,
{
    lemma_magnitude_nonnegative(digits.take(k));
    if k < digits.len() {
        lemma_magnitude_grows(digits, k + 1);
        assert(digits.take(k + 1).drop_last() =~= digits.take(k));
    } else {
        assert(digits.take(k) =~= digits);
    }
}

/// A digit string never has a negative value.
pub proof fn lemma_magnitude_nonnegative(digits: Seq<char>)
    requires
        all_digits(digits),
    ensures
        0 <= magnitude(digits),
    decreases digits.len(),
{
    if digits.len() > 0 {
        lemma_magnitude_nonnegative(digits.drop_last());
    }
}

/// Reads a decimal integer: an optional `+` or `-`, then digits only.
/// Anything else, and any value outside the 128-bit range, gives `None`.
pub fn parse_i128(text: &str) -> (r: Option<i128>)
    ensures
        r == decimal_i128(text@),
{
    broadcast use is_ascii_spec_bytes;

    if !text.is_ascii() {
        proof {
            let i = choose|i: int| 0 <= i < text@.len() && !('\0' <= #[trigger] text@[i] <= '\u{7f}');
            if is_decimal(text@) && has_sign(text@) {
                assert(unsigned_part(text@)[i - 1] == text@[i]);
            }
        }
        return None;
    }
    let bytes = text.as_bytes();
    let n = bytes.len();
    if n == 0 {
        return None;
    }
    let negative = bytes[0] == MINUS;
    let start: usize = if bytes[0] == MINUS || bytes[0] == PLUS {
        1
    } else {
        0
    };
    let ghost body = unsigned_part(text@);
    let mut acc: i128 = 0;
    let mut i: usize = start;
    if i == n {
        return None;
    }
    while i < n
        invariant
            start <= i <= n,
            n == text@.len(),
            start < n,
            text.is_ascii(),
            forall|j: int| 0 <= j < n ==> bytes@[j] == text@[j] as u8,
            bytes@.len() == n,
            body == unsigned_part(text@),
            body.len() == n - start,
            forall|j: int| 0 <= j < body.len() ==> body[j] == text@[j + start],
            negative == (text@[0] == '-'),
            all_digits(body.take(i - start)),
            negative ==> acc == -magnitude(body.take(i - start)),
            !negative ==> acc == magnitude(body.take(i - start)),
        decreases n - i,
    {
        let b = bytes[i];
        let ghost prefix = body.take(i - start);
        let ghost next = body.take(i - start + 1);
        assert(next.drop_last() =~= prefix);
        if b < ZERO || b > NINE {
            assert(!is_digit(body[i - start]));
            return None;
        }
        let d: i128 = (b - ZERO) as i128;
        assert(all_digits(next)) by {
            assert forall|j: int| 0 <= j < next.len() implies is_digit(#[trigger] next[j]) by {
                if j < prefix.len() {
                    assert(next[j] == prefix[j]);
                }
            }
        }
        let scaled = match acc.checked_mul(10) {
            Some(m) => m,
            None => {
                proof {
                    if all_digits(body) {
                        lemma_magnitude_grows(body, i - start + 1);
                        lemma_magnitude_nonnegative(prefix);
                    }
                }
                return None;
            },
        };
        let sum = if negative {
            scaled.checked_sub(d)
        } else {
            scaled.checked_add(d)
        };
        match sum {
            Some(v) => {
                acc = v;
            },
            None => {
                proof {
                    if all_digits(body) {
                        lemma_magnitude_grows(body, i - start + 1);
                    }
                }
                return None;
            },
        }
        i = i + 1;
    }
    assert(body.take(i - start) =~= body);
    Some(acc)
}

/// The character for a digit from 0 to 9.
pub open spec fn digit_char(d: int) -> char {
    (48 + d) as u8 as char
}

/// The digits of `n` in base ten, without leading zeros; `0` for zero.
pub open spec fn digits_of(n: nat) -> Seq<char>
    decreases n,
{
    if n < 10 {
        seq![digit_char(n as int)]
    } else {
        digits_of(n / 10).push(digit_char((n % 10) as int))
    }
}

/// An integer written out in base ten: `-` before a negative one, no sign
/// otherwise.
pub open spec fn decimal_text(n: int) -> Seq<char> {
    if n < 0 {
        seq!['-'] + digits_of((-n) as nat)
    } else {
        digits_of(n as nat)
    }
}

/// The digits of a number are digits, and read back they give the number.
pub proof fn lemma_digits_read_back(n: nat)
    ensures
        digits_of(n).len() >= 1,
        all_digits(digits_of(n)),
        magnitude(digits_of(n)) == n,
    decreases n,
{
    if n < 10 {
        assert(magnitude(digits_of(n).drop_last()) == 0);
    } else {
        lemma_digits_read_back(n / 10);
        assert(digits_of(n).drop_last() =~= digits_of(n / 10));
        assert forall|i: int| 0 <= i < digits_of(n).len() implies is_digit(
            #[trigger] digits_of(n)[i],
        ) by {
            if i < digits_of(n / 10).len() {
                assert(digits_of(n)[i] == digits_of(n / 10)[i]);
            }
        }
    }
}

/// Writing an integer out and reading it back gives the integer.
pub proof fn lemma_written_reads_back(n: i128)
    ensures
        decimal_i128(decimal_text(n as int)) == Some(n),
{
    let text = decimal_text(n as int);
    if n < 0 {
        let m = (-n) as nat;
        lemma_digits_read_back(m);
        assert(unsigned_part(text) =~= digits_of(m));
    } else {
        let m = n as nat;
        lemma_digits_read_back(m);
        assert(is_digit(text[0]));
    }
}

/// Writes an integer out in base ten.
pub fn render_i128(n: i128) -> (r: String)
    ensures
        r@ == decimal_text(n as int),
{
    let negative = n < 0;
    let whole: u128 = if negative {
        ((-(n + 1)) as u128) + 1
    } else {
        n as u128
    };
    let ghost digits = digits_of(whole as nat);
    proof {
        lemma_digits_read_back(whole as nat);
    }
    let mut rest: u128 = whole / 10;
    let mut low_first: Vec<char> = Vec::new();
    low_first.push((ZERO + (whole % 10) as u8) as char);
    while rest > 0
        invariant
            1 <= low_first.len() <= digits.len(),
            digits.take(digits.len() - low_first.len()) == (if rest > 0 {
                digits_of(rest as nat)
            } else {
                Seq::<char>::empty()
            }),
            forall|j: int|
                0 <= j < low_first.len() ==> #[trigger] low_first[j] == digits[digits.len() - 1
                    - j],
        decreases rest,
    {
        let ghost head = digits_of(rest as nat);
        low_first.push((ZERO + (rest % 10) as u8) as char);
        rest = rest / 10;
        assert(head.last() == digits[digits.len() - low_first.len()]);
    }
    let mut text = String::new();
    if negative {
        text.push('-');
    }
    let ghost sign = text@;
    let mut i: usize = low_first.len();
    while i > 0
        invariant
            i <= low_first.len(),
            low_first.len() == digits.len(),
            forall|j: int|
                0 <= j < low_first.len() ==> #[trigger] low_first[j] == digits[digits.len() - 1
                    - j],
            text@ == sign + digits.take(digits.len() - i),
        decreases i,
    {
        i = i - 1;
        text.push(low_first[i]);
    }
    text
}

} // verus!
