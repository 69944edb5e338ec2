//! Decimal rendering and parsing of the unsigned counters that appear in a
//! report, with the lemmas that make the two directions inverse.

use vstd::prelude::*;

verus! {

/// The character for one decimal digit.
pub open spec fn digit_char(d: int) -> char {
    if d == 0 {
        '0'
    } else if d == 1 {
        '1'
    } else if d == 2 {
        '2'
    } else if d == 3 {
        '3'
    } else if d == 4 {
        '4'
    } else if d == 5 {
        '5'
    } else if d == 6 {
        '6'
    } else if d == 7 {
        '7'
    } else if d == 8 {
        '8'
    } else {
        '9'
    }
}

pub open spec fn is_digit_char(c: char) -> bool {
    48 <= c as int && c as int <= 57
}

pub open spec fn digit_char_val(c: char) -> int {
    c as int - 48
}

/// The usual decimal rendering of `n`, most significant digit first, no
/// leading zeros (a single `'0'` for zero).
pub open spec fn decimal_digits(n: nat) -> Seq<char>
    decreases n,
{
    if n < 10 {
        seq![digit_char(n as int)]
    } else {
        decimal_digits(n / 10).push(digit_char((n % 10) as int))
    }
}

/// The numeric value of a digit string.
pub open spec fn digits_val(s: Seq<char>) -> int
    decreases s.len(),
{
    if s.len() == 0 {
        0
    } else {
        digits_val(s.drop_last()) * 10 + digit_char_val(s.last())
    }
}

pub open spec fn all_digits(s: Seq<char>) -> bool {
    forall|i: int| 0 <= i < s.len() ==> is_digit_char(#[trigger] s[i])
}

pub proof fn lemma_decimal_digits_shape(n: nat)
    ensures
        decimal_digits(n).len() >= 1,
        all_digits(decimal_digits(n)),
    decreases n,
{
    if n >= 10 {
        lemma_decimal_digits_shape(n / 10);
        assert forall|i: int| 0 <= i < decimal_digits(n).len() implies is_digit_char(
            #[trigger] decimal_digits(n)[i],
        ) by {
            if i < decimal_digits(n / 10).len() {
                assert(decimal_digits(n)[i] == decimal_digits(n / 10)[i]);
            }
        }
    }
}

/// Rendering then evaluating a number gives the number back.
pub proof fn lemma_decimal_digits_val(n: nat)
    ensures
        digits_val(decimal_digits(n)) == n,
    decreases n,
{
    if n < 10 {
        assert(decimal_digits(n) == seq![digit_char(n as int)]);
        assert(decimal_digits(n).last() == digit_char(n as int));
        assert(digit_char_val(digit_char(n as int)) == n as int);
        assert(decimal_digits(n).drop_last() =~= Seq::<char>::empty());
        assert(digits_val(Seq::<char>::empty()) == 0);
    } else {
        lemma_decimal_digits_val(n / 10);
        assert(decimal_digits(n).drop_last() =~= decimal_digits(n / 10));
        assert(decimal_digits(n).last() == digit_char((n % 10) as int));
        assert(0 <= n as int % 10 < 10);
        assert(digit_char_val(digit_char((n % 10) as int)) == (n % 10) as int);
        vstd::arithmetic::div_mod::lemma_fundamental_div_mod(n as int, 10);
    }
}

pub proof fn lemma_digits_val_nonneg(s: Seq<char>)
    requires
        all_digits(s),
    ensures
        digits_val(s) >= 0,
    decreases s.len(),
{
    if s.len() > 0 {
        assert(all_digits(s.drop_last()));
        lemma_digits_val_nonneg(s.drop_last());
    }
}

/// Evaluating one more digit multiplies by ten and adds it.
pub proof fn lemma_digits_val_take_succ(s: Seq<char>, k: int)
    requires
        0 <= k < s.len(),
    ensures
        digits_val(s.take(k + 1)) == digits_val(s.take(k)) * 10 + digit_char_val(s[k]),
{
    assert(s.take(k + 1).drop_last() =~= s.take(k));
    assert(s.take(k + 1).last() == s[k]);
}

/// The value of a digit-string prefix never exceeds the whole string's value.
pub proof fn lemma_digits_val_take_le(s: Seq<char>, k: int)
    requires
        all_digits(s),
        0 <= k <= s.len(),
    ensures
        digits_val(s.take(k)) <= digits_val(s),
    decreases s.len() - k,
{
    if k == s.len() {
        assert(s.take(k) =~= s);
    } else {
        lemma_digits_val_take_le(s, k + 1);
        lemma_digits_val_take_succ(s, k);
        assert(all_digits(s.take(k)));
        lemma_digits_val_nonneg(s.take(k));
    }
}

/// Turns a digit value into its character.
pub fn digit_to_char(d: u64) -> (c: char)
    requires
        d < 10,
    ensures
        c == digit_char(d as int),
{
    if d == 0 {
        '0'
    } else if d == 1 {
        '1'
    } else if d == 2 {
        '2'
    } else if d == 3 {
        '3'
    } else if d == 4 {
        '4'
    } else if d == 5 {
        '5'
    } else if d == 6 {
        '6'
    } else if d == 7 {
        '7'
    } else if d == 8 {
        '8'
    } else {
        '9'
    }
}

/// Classifies a character as a decimal digit and yields its value.
pub fn char_digit(c: char) -> (r: Option<u64>)
    ensures
        match r {
            Some(v) => is_digit_char(c) && v == digit_char_val(c) && v < 10,
            None => !is_digit_char(c),
        },
{
    let u = c as u32;
    if 48 <= u && u <= 57 {
        Some((u - 48) as u64)
    } else {
        None
    }
}

/// Appends the decimal rendering of `n`.
pub fn push_decimal(out: &mut Vec<char>, n: u64)
    ensures
        final(out)@ == old(out)@ + decimal_digits(n as nat),
    decreases n,
{
    if n < 10 {
        let c = digit_to_char(n);
        out.push(c);
        assert(out@ =~= old(out)@ + decimal_digits(n as nat));
    } else {
        push_decimal(out, n / 10);
        let c = digit_to_char(n % 10);
        out.push(c);
        assert(out@ =~= old(out)@ + decimal_digits(n as nat));
    }
}

/// A decimal number stands at `p` in `inp`: the digits of `n`, followed by
/// at least one more character that is not a digit.
pub open spec fn num_framed(inp: Seq<char>, p: int, n: u64) -> bool {
    let d = decimal_digits(n as nat);
    &&& 0 <= p
    &&& p + d.len() < inp.len()
    &&& inp.subrange(p, p + d.len()) == d
    &&& !is_digit_char(inp[p + d.len()])
}

/// Reads digits left to right, accumulating their value; stops at the first
/// non-digit (or the end), and refuses a value that does not fit.
pub open spec fn spec_parse_digits(inp: Seq<char>, p: int, acc: u64) -> Option<(u64, int)>
    decreases inp.len() - p,
{
    if p < 0 || p >= inp.len() || !is_digit_char(inp[p]) {
        Some((acc, p))
    } else {
        let d = digit_char_val(inp[p]);
        if acc as int * 10 + d <= u64::MAX as int {
            spec_parse_digits(inp, p + 1, (acc as int * 10 + d) as u64)
        } else {
            None
        }
    }
}

/// A decimal field: at least one digit, then the accumulation above.
pub open spec fn spec_parse_u64(inp: Seq<char>, p: int) -> Option<(u64, int)> {
    if 0 <= p < inp.len() && is_digit_char(inp[p]) {
        spec_parse_digits(inp, p, 0)
    } else {
        None
    }
}

/// Parsing a framed decimal field yields exactly the rendered number and
/// stops right after its digits.
pub proof fn lemma_parse_num_framed(inp: Seq<char>, p: int, n: u64)
    requires
        num_framed(inp, p, n),
    ensures
        spec_parse_u64(inp, p) == Some((n, p + decimal_digits(n as nat).len())),
{
    let d = decimal_digits(n as nat);
    lemma_decimal_digits_shape(n as nat);
    lemma_decimal_digits_val(n as nat);
    assert(inp[p] == d[0]);
    lemma_parse_num_framed_rec(inp, p, n, 0);
    assert(d.take(0) =~= Seq::<char>::empty());
}

proof fn lemma_parse_num_framed_rec(inp: Seq<char>, p: int, n: u64, k: int)
    requires
        num_framed(inp, p, n),
        0 <= k <= decimal_digits(n as nat).len(),
        digits_val(decimal_digits(n as nat)) == n,
    ensures
        spec_parse_digits(
            inp,
            p + k,
            digits_val(decimal_digits(n as nat).take(k)) as u64,
        ) == Some((n, p + decimal_digits(n as nat).len())),
    decreases decimal_digits(n as nat).len() - k,
{
    let d = decimal_digits(n as nat);
    lemma_decimal_digits_shape(n as nat);
    assert(all_digits(d.take(k)));
    lemma_digits_val_nonneg(d.take(k));
    lemma_digits_val_take_le(d, k);
    if k == d.len() {
        assert(d.take(k) =~= d);
        assert(inp[p + k] == inp[p + d.len()]);
        assert(!is_digit_char(inp[p + k]));
        assert(digits_val(d.take(k)) == n);
    } else {
        assert(inp[p + k] == d[k]);
        assert(is_digit_char(d[k]));
        lemma_digits_val_take_succ(d, k);
        lemma_digits_val_take_le(d, k + 1);
        let acc = digits_val(d.take(k));
        let acc2 = digits_val(d.take(k + 1));
        assert(acc2 == acc * 10 + digit_char_val(d[k]));
        assert(acc2 <= n);
        lemma_parse_num_framed_rec(inp, p, n, k + 1);
    }
}

/// Exec twin of `spec_parse_digits`.
pub fn parse_digits(input: &Vec<char>, p: usize, acc: u64) -> (r: Option<(u64, usize)>)
    ensures
        match spec_parse_digits(input@, p as int, acc) {
            Some((v, q)) => r matches Some(x) && x.0 == v && x.1 as int == q,
            None => r is None,
        },
    decreases input@.len() - p,
{
    if p >= input.len() {
        return Some((acc, p));
    }
    let c = input[p];
    match char_digit(c) {
        None => Some((acc, p)),
        Some(d) => {
            if acc <= (u64::MAX - d) / 10 {
                assert(acc as int * 10 + d as int <= u64::MAX as int) by {
                    vstd::arithmetic::div_mod::lemma_fundamental_div_mod(
                        (u64::MAX - d) as int,
                        10,
                    );
                }
                parse_digits(input, p + 1, acc * 10 + d)
            } else {
                assert(acc as int * 10 + d as int > u64::MAX as int) by {
                    vstd::arithmetic::div_mod::lemma_fundamental_div_mod(
                        (u64::MAX - d) as int,
                        10,
                    );
                }
                None
            }
        },
    }
}

/// Exec twin of `spec_parse_u64`.
pub fn parse_u64_field(input: &Vec<char>, p: usize) -> (r: Option<(u64, usize)>)
    ensures
        match spec_parse_u64(input@, p as int) {
            Some((v, q)) => r matches Some(x) && x.0 == v && x.1 as int == q,
            None => r is None,
        },
{
    if p < input.len() {
        let c = input[p];
        match char_digit(c) {
            Some(_) => parse_digits(input, p, 0),
            None => None,
        }
    } else {
        None
    }
}

} // verus!
