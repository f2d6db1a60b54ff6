//! Numbers in text: decimal and hexadecimal notation.

use vstd::prelude::*;
use vstd::slice::slice_subrange;
use crate::text;

verus! {

// ---------------------------------------------------------------------------
// Digits
// ---------------------------------------------------------------------------

/// The upper-case hexadecimal digit of a value below sixteen.
pub open spec fn digit(d: int) -> char {
    if d <= 0 {
        '0'
    } else if d == 1 {
        '1'
    } else if d == 2 {
        '2'
    } else if d == 3 {
        '3'
    } else if d == 4 {
        '4'
    } else if d == 5 {
        '5'
    } else if d == 6 {
        '6'
    } else if d == 7 {
        '7'
    } else if d == 8 {
        '8'
    } else if d == 9 {
        '9'
    } else if d == 10 {
        'A'
    } else if d == 11 {
        'B'
    } else if d == 12 {
        'C'
    } else if d == 13 {
        'D'
    } else if d == 14 {
        'E'
    } else {
        'F'
    }
}

/// The upper-case hexadecimal digit of a value below sixteen.
fn digit_char(d: u64) -> (c: char)
    requires
        d < 16,
    ensures
        c == digit(d as int),
{
    match d {
        0 => '0',
        1 => '1',
        2 => '2',
        3 => '3',
        4 => '4',
        5 => '5',
        6 => '6',
        7 => '7',
        8 => '8',
        9 => '9',
        10 => 'A',
        11 => 'B',
        12 => 'C',
        13 => 'D',
        14 => 'E',
        _ => 'F',
    }
}

/// Whether a character is a decimal digit.
pub open spec fn is_decimal_digit(c: char) -> bool {
    '0' <= c <= '9'
}

/// The value of a decimal digit.
pub open spec fn digit_value(c: char) -> nat {
    (c as u32 - '0' as u32) as nat
}

// ---------------------------------------------------------------------------
// Decimal notation
// ---------------------------------------------------------------------------

/// The decimal notation of a number, without leading zeros.
pub open spec fn decimal(n: nat) -> Seq<char>
    decreases n,
{
    if n < 10 {
        seq![digit(n as int)]
    } else {
        decimal(n / 10).push(digit((n % 10) as int))
    }
}

/// The decimal notation of a number.
pub fn decimal_string(n: u64) -> (r: String)
    ensures
        r@ == decimal(n as nat),
{
    let mut rev: Vec<char> = Vec::new();
    let mut m: u64 = n;
    assert(decimal(m as nat) + rev@.reverse() =~= decimal(n as nat));
    while m >= 10
        invariant
            decimal(m as nat) + rev@.reverse() == decimal(n as nat),
        decreases m,
    {
        let ghost before = rev@;
        let c = digit_char(m % 10);
        rev.push(c);
        assert(rev@.reverse() =~= seq![c] + before.reverse());
        assert(decimal((m / 10) as nat) + rev@.reverse() =~= decimal(m as nat) + before.reverse());
        m = m / 10;
    }
    let ghost before = rev@;
    let c = digit_char(m);
    rev.push(c);
    assert(rev@.reverse() =~= decimal(m as nat) + before.reverse());
    let mut out: Vec<char> = Vec::new();
    let mut i: usize = rev.len();
    while i > 0
        invariant
            i <= rev@.len(),
            out@ == rev@.reverse().take(rev@.len() - i),
        decreases i,
    {
        out.push(rev[i - 1]);
        assert(rev@.reverse().take(rev@.len() - i + 1) =~= rev@.reverse().take(
            rev@.len() - i,
        ).push(rev@[i - 1]));
        i -= 1;
    }
    assert(rev@.reverse().take(rev@.len() as int) =~= rev@.reverse());
    text::string_of(out.as_slice())
}

/// Whether a text is a non-empty run of decimal digits.
pub open spec fn is_digits(s: Seq<char>) -> bool {
    s.len() > 0 && forall|i: int| 0 <= i < s.len() ==> is_decimal_digit(#[trigger] s[i])
}

/// The number that a run of decimal digits denotes.
pub open spec fn digits_value(s: Seq<char>) -> nat
    decreases s.len(),
{
    if s.len() == 0 {
        0
    } else {
        digits_value(s.drop_last()) * 10 + digit_value(s.last())
    }
}

/// A text without one leading plus sign.
pub open spec fn without_plus(s: Seq<char>) -> Seq<char> {
    if s.len() > 0 && s[0] == '+' {
        s.skip(1)
    } else {
        s
    }
}

/// The unsigned number up to `max` that a text denotes: an optional plus sign and decimal digits.
pub open spec fn unsigned(s: Seq<char>, max: nat) -> Option<nat> {
    let d = without_plus(s);
    if is_digits(d) && digits_value(d) <= max {
        Some(digits_value(d))
    } else {
        None
    }
}

proof fn lemma_digits_value_prefix(s: Seq<char>, i: int)
    requires
        0 <= i <= s.len(),
    ensures
        digits_value(s.take(i)) <= digits_value(s),
    decreases s.len(),
{
    if i == s.len() {
        assert(s.take(i) =~= s);
    } else {
        assert(s.drop_last().take(i) =~= s.take(i));
        lemma_digits_value_prefix(s.drop_last(), i);
    }
}

/// Reads an unsigned number up to `max`.
pub fn parse_unsigned(s: &[char], max: u64) -> (r: Option<u64>)
    ensures
        match r {
            Some(n) => unsigned(s@, max as nat) == Some(n as nat),
            None => unsigned(s@, max as nat) is None,
        },
{
    let d = if s.len() > 0 && s[0] == '+' {
        slice_subrange(s, 1, s.len())
    } else {
        s
    };
    assert(d@ =~= without_plus(s@));
    if d.len() == 0 {
        return None;
    }
    let mut n: u64 = 0;
    let mut i: usize = 0;
    while i < d.len()
        invariant
            i <= d@.len(),
            d@ == without_plus(s@),
            n <= max,
            n as nat == digits_value(d@.take(i as int)),
            forall|k: int| 0 <= k < i ==> is_decimal_digit(#[trigger] d@[k]),
        decreases d.len() - i,
    {
        let c = d[i];
        if c < '0' || c > '9' {
            return None;
        }
        let v: u64 = (c as u32 - '0' as u32) as u64;
        assert(d@.take(i + 1).drop_last() =~= d@.take(i as int));
        assert(digits_value(d@.take(i + 1)) == n * 10 + v);
        if v > max || n > (max - v) / 10 {
            assert(n * 10 + v > max);
            proof {
                lemma_digits_value_prefix(d@, i + 1);
            }
            return None;
        }
        n = n * 10 + v;
        i += 1;
    }
    assert(d@.take(i as int) =~= d@);
    Some(n)
}

proof fn lemma_digit_value(d: int)
    requires
        0 <= d < 10,
    ensures
        is_decimal_digit(digit(d)),
        digit_value(digit(d)) == d,
{
}

/// The decimal notation of a number consists of digits and denotes the number.
pub proof fn decimal_denotes(n: nat)
    ensures
        is_digits(decimal(n)),
        digits_value(decimal(n)) == n,
    decreases n,
{
    if n < 10 {
        lemma_digit_value(n as int);
        assert(decimal(n).drop_last() =~= Seq::<char>::empty());
        assert(decimal(n).last() == digit(n as int));
        assert(digits_value(Seq::<char>::empty()) == 0);
    } else {
        decimal_denotes(n / 10);
        lemma_digit_value((n % 10) as int);
        assert(decimal(n).drop_last() =~= decimal(n / 10));
        assert forall|i: int| 0 <= i < decimal(n).len() implies is_decimal_digit(
            #[trigger] decimal(n)[i],
        ) by {
            if i < decimal(n).len() - 1 {
                assert(decimal(n)[i] == decimal(n / 10)[i]);
            }
        }
    }
}

/// Reading the decimal notation of a number gives the number back.
pub proof fn decimal_reads_back(n: nat, max: nat)
    requires
        n <= max,
    ensures
        unsigned(decimal(n), max) == Some(n),
{
    decimal_denotes(n);
    assert(is_decimal_digit(decimal(n)[0]));
    assert(without_plus(decimal(n)) == decimal(n));
}

/// Different numbers have different decimal notations.
pub proof fn decimal_injective(m: nat, n: nat)
    requires
        decimal(m) == decimal(n),
    ensures
        m == n,
{
    decimal_denotes(m);
    decimal_denotes(n);
}

// ---------------------------------------------------------------------------
// Hexadecimal notation
// ---------------------------------------------------------------------------

/// A 32-bit word in two's complement, read as an unsigned number.
pub open spec fn as_unsigned(v: i32) -> int {
    if v < 0 {
        v + 0x1_0000_0000
    } else {
        v as int
    }
}

/// Reads a signed 32-bit word as an unsigned one.
pub fn unsigned_word(v: i32) -> (r: u32)
    ensures
        r == as_unsigned(v),
{
    if v < 0 {
        (v as i64 + 0x1_0000_0000) as u32
    } else {
        v as u32
    }
}

/// The last `k` hexadecimal digits of a number.
pub open spec fn hex(n: nat, k: nat) -> Seq<char>
    decreases k,
{
    if k == 0 {
        seq![]
    } else {
        hex(n / 16, (k - 1) as nat).push(digit((n % 16) as int))
    }
}

/// The eight hexadecimal digits of a status code.
pub fn hex_string(v: i32) -> (r: String)
    ensures
        r@ == hex(as_unsigned(v) as nat, 8),
{
    let mut rev: Vec<char> = Vec::new();
    let mut m: u64 = unsigned_word(v) as u64;
    let mut i: usize = 0;
    let ghost full = hex(as_unsigned(v) as nat, 8);
    assert(hex(m as nat, 8) + rev@.reverse() =~= full);
    while i < 8
        invariant
            i <= 8,
            rev@.len() == i,
            hex(m as nat, (8 - i) as nat) + rev@.reverse() == full,
        decreases 8 - i,
    {
        let ghost before = rev@;
        let c = digit_char(m % 16);
        rev.push(c);
        assert(rev@.reverse() =~= seq![c] + before.reverse());
        assert(hex((m / 16) as nat, (7 - i) as nat) + rev@.reverse() =~= hex(
            m as nat,
            (8 - i) as nat,
        ) + before.reverse());
        m = m / 16;
        i += 1;
    }
    assert(rev@.reverse() =~= full);
    let mut out: Vec<char> = Vec::new();
    let mut j: usize = rev.len();
    while j > 0
        invariant
            j <= rev@.len(),
            out@ == rev@.reverse().take(rev@.len() - j),
        decreases j,
    {
        out.push(rev[j - 1]);
        assert(rev@.reverse().take(rev@.len() - j + 1) =~= rev@.reverse().take(
            rev@.len() - j,
        ).push(rev@[j - 1]));
        j -= 1;
    }
    assert(rev@.reverse().take(rev@.len() as int) =~= rev@.reverse());
    text::string_of(out.as_slice())
}

// ---------------------------------------------------------------------------
// Laws
// ---------------------------------------------------------------------------

/// Decimal notation is positional: a further digit multiplies by ten and adds its value.
pub proof fn digits_are_positional(s: Seq<char>, d: int)
    requires
        0 <= d <= 9,
    ensures
        digits_value(Seq::<char>::empty()) == 0,
        digits_value(s.push((48 + d) as char)) == 10 * digits_value(s) + d,
{
    assert(s.push((48 + d) as char).drop_last() =~= s);
}

/// The decimal notation of a number is a run of the characters `0` to `9`. It does not begin with a
/// zero, unless it is just that.
pub proof fn decimal_is_plain(n: nat)
    ensures
        decimal(n).len() > 0,
        forall|i: int| 0 <= i < decimal(n).len() ==> '0' <= #[trigger] decimal(n)[i] <= '9',
        decimal(n).len() > 1 ==> decimal(n)[0] != '0',
        n < 10 ==> decimal(n).len() == 1,
    decreases n,
{
    decimal_denotes(n);
    if n >= 10 {
        decimal_is_plain(n / 10);
        assert(decimal(n)[0] == decimal(n / 10)[0]);
        if n / 10 < 10 {
            assert(decimal(n / 10) == seq![digit((n / 10) as int)]);
        } else {
            decimal_denotes(n / 10 / 10);
        }
    }
}

/// A numeral is read if it is a run of digits, with or without one plus sign before it, and its
/// value is not too great; then it is read as its value.
pub proof fn numerals_are_read(d: Seq<char>, max: nat)
    requires
        d.len() > 0,
        forall|i: int| 0 <= i < d.len() ==> '0' <= #[trigger] d[i] <= '9',
    ensures
        digits_value(d) <= max ==> unsigned(d, max) == Some(digits_value(d)),
        digits_value(d) > max ==> unsigned(d, max) is None,
        unsigned(seq!['+'] + d, max) == unsigned(d, max),
{
    assert(d[0] != '+');
    assert((seq!['+'] + d).skip(1) =~= d);
}

/// What is no numeral is not read: an empty text, and one with a character that is no digit
/// anywhere but for one plus sign at its beginning.
pub proof fn other_texts_are_not_read(s: Seq<char>, i: int, max: nat)
    ensures
        s.len() == 0 ==> unsigned(s, max) is None,
        s =~= seq!['+'] ==> unsigned(s, max) is None,
        0 <= i < s.len() && !('0' <= s[i] <= '9') && !(i == 0 && s[0] == '+') ==> unsigned(s, max)
            is None,
{
    let d = without_plus(s);
    if 0 <= i < s.len() && !('0' <= s[i] <= '9') && !(i == 0 && s[0] == '+') {
        if s[0] == '+' {
            assert(d[i - 1] == s[i]);
        } else {
            assert(d[i] == s[i]);
        }
    }
}

/// A signed word and the unsigned one that it is read as agree up to a multiple of two to the
/// thirty-two.
pub proof fn words_agree(v: i32)
    ensures
        0 <= as_unsigned(v) < 0x1_0000_0000,
        as_unsigned(v) == v || as_unsigned(v) == v + 0x1_0000_0000,
{
}

/// Hexadecimal notation is positional: the last digit is the remainder by sixteen, and those before
/// it are the notation of the quotient. The digits are `0` to `9` and `A` to `F`.
pub proof fn hexadecimals_are_positional(n: nat, k: nat)
    ensures
        hex(n, k).len() == k,
        k > 0 ==> {
            &&& hex(n, k).drop_last() == hex(n / 16, (k - 1) as nat)
            &&& n % 16 < 10 ==> hex(n, k).last() == (48 + n % 16) as char
            &&& n % 16 >= 10 ==> hex(n, k).last() == (55 + n % 16) as char
        },
    decreases k,
{
    if k > 0 {
        hexadecimals_are_positional(n / 16, (k - 1) as nat);
        assert(hex(n, k).drop_last() =~= hex(n / 16, (k - 1) as nat));
    }
}

/// Ten to the power of `k`.
pub open spec fn tens(k: nat) -> nat
    decreases k,
{
    if k == 0 {
        1
    } else {
        10 * tens((k - 1) as nat)
    }
}

/// A number below ten to the power of `k` has at most `k` decimal digits.
pub proof fn decimals_are_short(n: nat, k: nat)
    requires
        k > 0,
        n < tens(k),
    ensures
        decimal(n).len() <= k,
    decreases k,
{
    if n >= 10 {
        if k == 1 {
            assert(tens(0) == 1);
        } else {
            decimals_are_short(n / 10, (k - 1) as nat);
        }
    }
}

/// The decimal notation of a 32-bit word has at most ten digits.
pub proof fn words_are_short(n: u32)
    ensures
        decimal(n as nat).len() <= 10,
{
    reveal_with_fuel(tens, 11);
    decimals_are_short(n as nat, 10);
}

} // verus!
