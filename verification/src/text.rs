//! Decimal text for integers and fixed-point amounts.

use crate::money::{Money, Price};
use vstd::prelude::*;

verus! {

/// The character of a decimal digit; `'0'` for anything that is not one.
pub open spec fn spec_digit(d: int) -> char {
    if d == 1 {
        '1'
    } else if d == 2 {
        '2'
    } else if d == 3 {
        '3'
    } else if d == 4 {
        '4'
    } else if d == 5 {
        '5'
    } else if d == 6 {
        '6'
    } else if d == 7 {
        '7'
    } else if d == 8 {
        '8'
    } else if d == 9 {
        '9'
    } else {
        '0'
    }
}

/// The decimal numeral of `n`, without leading zeros.
pub open spec fn spec_decimal(n: nat) -> Seq<char>
    decreases n,
{
    if n < 10 {
        seq![spec_digit(n as int)]
    } else {
        spec_decimal(n / 10).push(spec_digit((n % 10) as int))
    }
}

/// The numeral of a number has a digit, and two from ten on.
pub proof fn lemma_decimal_len(n: nat)
    ensures
        spec_decimal(n).len() >= 1,
        n >= 10 ==> spec_decimal(n).len() >= 2,
    decreases n,
{
    if n >= 10 {
        lemma_decimal_len(n / 10);
    }
}

/// Numbers with the same numeral are the same.
pub proof fn lemma_decimal_injective(a: nat, b: nat)
    requires
        spec_decimal(a) == spec_decimal(b),
    ensures
        a == b,
    decreases a,
{
    lemma_decimal_len(a);
    lemma_decimal_len(b);
    if a < 10 {
        assert(spec_decimal(a).len() == 1);
        assert(b < 10);
        assert(spec_decimal(a)[0] == spec_digit(a as int));
        assert(spec_decimal(b)[0] == spec_digit(b as int));
    } else {
        if b < 10 {
            assert(spec_decimal(b).len() == 1);
        }
        let da = spec_decimal(a / 10);
        let db = spec_decimal(b / 10);
        assert(spec_decimal(a) == da.push(spec_digit((a % 10) as int)));
        assert(spec_decimal(b) == db.push(spec_digit((b % 10) as int)));
        assert(da.push(spec_digit((a % 10) as int)).last() == spec_digit((a % 10) as int));
        assert(db.push(spec_digit((b % 10) as int)).last() == spec_digit((b % 10) as int));
        assert(a % 10 == b % 10);
        assert(da.push(spec_digit((a % 10) as int)).drop_last() =~= da);
        assert(db.push(spec_digit((b % 10) as int)).drop_last() =~= db);
        lemma_decimal_injective(a / 10, b / 10);
    }
}

/// `units` ten-thousandths rounded to hundredths, ties to the even
/// hundredth.
pub open spec fn spec_round_to_cents(units: nat) -> nat {
    let q = units / 100;
    let r = units % 100;
    if r > 50 || (r == 50 && q % 2 == 1) {
        q + 1
    } else {
        q
    }
}

/// A fixed-point amount with two fractional digits, rounded as
/// [`spec_round_to_cents`] says.
pub open spec fn spec_text_2dp(units: nat) -> Seq<char> {
    let c = spec_round_to_cents(units);
    spec_decimal(c / 100).push('.').push(spec_digit(((c / 10) % 10) as int)).push(
        spec_digit((c % 10) as int),
    )
}

/// A fixed-point amount with all four fractional digits.
pub open spec fn spec_text_4dp(units: nat) -> Seq<char> {
    spec_decimal(units / 10_000).push('.').push(spec_digit(((units / 1000) % 10) as int)).push(
        spec_digit(((units / 100) % 10) as int),
    ).push(spec_digit(((units / 10) % 10) as int)).push(spec_digit((units % 10) as int))
}

/// The character of the digit `d`.
pub fn digit(d: u8) -> (c: char)
    ensures
        c == spec_digit(d as int),
{
    match d {
        1 => '1',
        2 => '2',
        3 => '3',
        4 => '4',
        5 => '5',
        6 => '6',
        7 => '7',
        8 => '8',
        9 => '9',
        _ => '0',
    }
}

/// Appends the decimal numeral of `n` to `out`.
pub fn push_decimal(n: u128, out: &mut Vec<char>)
    ensures
        final(out)@ == old(out)@ + spec_decimal(n as nat),
    decreases n,
{
    if n >= 10 {
        push_decimal(n / 10, out);
    }
    out.push(digit((n % 10) as u8));
    assert(final(out)@ =~= old(out)@ + spec_decimal(n as nat));
}

/// Collects characters into a `String` (std's `FromIterator<char>` for
/// `String`): the string holds exactly the given characters, in order.
#[verifier::external_body]
pub(crate) fn chars_to_string(chars: &Vec<char>) -> (s: String)
    ensures
        s@ == chars@,
{
    String::from_iter(chars)
}

/// Appends `units` ten-thousandths with two fractional digits to `out`.
pub fn push_2dp(units: u128, out: &mut Vec<char>)
    ensures
        final(out)@ == old(out)@ + spec_text_2dp(units as nat),
{
    let q: u128 = units / 100;
    let r: u128 = units % 100;
    let c: u128 = if r > 50 || (r == 50 && q % 2 == 1) {
        q + 1
    } else {
        q
    };
    push_decimal(c / 100, out);
    out.push('.');
    out.push(digit(((c / 10) % 10) as u8));
    out.push(digit((c % 10) as u8));
    assert(final(out)@ =~= old(out)@ + spec_text_2dp(units as nat));
}

/// Appends `units` ten-thousandths with four fractional digits to `out`.
pub fn push_4dp(units: u128, out: &mut Vec<char>)
    ensures
        final(out)@ == old(out)@ + spec_text_4dp(units as nat),
{
    push_decimal(units / 10_000, out);
    out.push('.');
    out.push(digit(((units / 1000) % 10) as u8));
    out.push(digit(((units / 100) % 10) as u8));
    out.push(digit(((units / 10) % 10) as u8));
    out.push(digit((units % 10) as u8));
    assert(final(out)@ =~= old(out)@ + spec_text_4dp(units as nat));
}

/// Appends the characters of `s` to `out`.
pub fn push_str(s: &str, out: &mut Vec<char>)
    ensures
        final(out)@ == old(out)@ + s@,
{
    let n = s.unicode_len();
    let mut i: usize = 0;
    while i < n
        invariant
            n == s@.len(),
            i <= n,
            out@ == old(out)@ + s@.subrange(0, i as int),
        decreases n - i,
    {
        out.push(s.get_char(i));
        i += 1;
        assert(out@ =~= old(out)@ + s@.subrange(0, i as int));
    }
    assert(s@.subrange(0, n as int) =~= s@);
}

impl Price {
    /// This price as text with two fractional digits.
    pub fn to_text_2dp(&self) -> (s: String)
        ensures
            s@ == spec_text_2dp(self.units as nat),
    {
        let mut out: Vec<char> = Vec::new();
        push_2dp(self.units as u128, &mut out);
        assert(out@ =~= spec_text_2dp(self.units as nat));
        chars_to_string(&out)
    }
}

impl Money {
    /// This amount as text with two fractional digits.
    pub fn to_text_2dp(&self) -> (s: String)
        ensures
            s@ == spec_text_2dp(self.units as nat),
    {
        let mut out: Vec<char> = Vec::new();
        push_2dp(self.units, &mut out);
        assert(out@ =~= spec_text_2dp(self.units as nat));
        chars_to_string(&out)
    }
}

/// Whether `c` is a decimal digit.
pub open spec fn spec_is_digit(c: char) -> bool {
    '0' <= c <= '9'
}

/// The value of the decimal digit `c`.
pub open spec fn spec_digit_value(c: char) -> int {
    c as int - '0' as int
}

/// Whether `s` consists of decimal digits only.
pub open spec fn spec_all_digits(s: Seq<char>) -> bool {
    forall|i: int| 0 <= i < s.len() ==> spec_is_digit(#[trigger] s[i])
}

/// The number that the digits of `s` write, most significant first.
pub open spec fn spec_digits_value(s: Seq<char>) -> nat
    decreases s.len(),
{
    if s.len() == 0 {
        0
    } else {
        (spec_digits_value(s.drop_last()) * 10 + spec_digit_value(s.last())) as nat
    }
}

/// The position of the first `c` in `s`, or the length of `s` where
/// there is none.
pub open spec fn spec_position(s: Seq<char>, c: char) -> int
    decreases s.len(),
{
    if s.len() == 0 {
        0
    } else if s[0] == c {
        0
    } else {
        1 + spec_position(s.drop_first(), c)
    }
}

/// What a decimal numeral writes as an unsigned 64-bit integer: an
/// optional `+`, then at least one digit, the number fitting in 64 bits.
pub open spec fn spec_parse_u64(s: Seq<char>) -> Option<u64> {
    let digits = if s.len() > 0 && s[0] == '+' {
        s.drop_first()
    } else {
        s
    };
    if digits.len() > 0 && spec_all_digits(digits) && spec_digits_value(digits) <= u64::MAX {
        Some(spec_digits_value(digits) as u64)
    } else {
        None
    }
}

/// Ten to the power of `e`.
pub open spec fn spec_pow10(e: nat) -> nat
    decreases e,
{
    if e == 0 {
        1
    } else {
        10 * spec_pow10((e - 1) as nat)
    }
}

/// What a decimal numeral writes in ten-thousandths: at least one digit,
/// then optionally a point and at most four digits.
pub open spec fn spec_parse_decimal(s: Seq<char>) -> Option<nat> {
    let dot = spec_position(s, '.');
    let whole = s.subrange(0, dot);
    if whole.len() == 0 || !spec_all_digits(whole) {
        None
    } else if dot == s.len() {
        Some(spec_digits_value(whole) * 10_000)
    } else {
        let frac = s.subrange(dot + 1, s.len() as int);
        if frac.len() > 4 || !spec_all_digits(frac) {
            None
        } else {
            Some(
                spec_digits_value(whole) * 10_000 + spec_digits_value(frac) * spec_pow10(
                    (4 - frac.len()) as nat,
                ),
            )
        }
    }
}

/// A prefix of digits writes no more than the whole.
pub proof fn lemma_digits_value_grows(s: Seq<char>, k: int)
    requires
        0 <= k <= s.len(),
        spec_all_digits(s),
    ensures
        spec_digits_value(s.subrange(0, k)) <= spec_digits_value(s),
    decreases s.len() - k,
{
    if k == s.len() {
        assert(s.subrange(0, k) =~= s);
    } else {
        lemma_digits_value_grows(s, k + 1);
        let next = s.subrange(0, k + 1);
        assert(next.drop_last() =~= s.subrange(0, k));
        assert(spec_is_digit(next.last()));
    }
}

/// The position of a character is within the text, nothing before it is
/// that character, and it is there unless the position is the length.
pub proof fn lemma_position(s: Seq<char>, c: char)
    ensures
        0 <= spec_position(s, c) <= s.len(),
        forall|i: int| 0 <= i < spec_position(s, c) ==> s[i] != c,
        spec_position(s, c) < s.len() ==> s[spec_position(s, c)] == c,
    decreases s.len(),
{
    if s.len() > 0 && s[0] != c {
        lemma_position(s.drop_first(), c);
        assert forall|i: int| 0 <= i < spec_position(s, c) implies s[i] != c by {
            if i > 0 {
                assert(s[i] == s.drop_first()[i - 1]);
            }
        }
    }
}

/// The position of `c` is `k` when `c` is at `k` and nowhere before, or
/// `k` is the length and `c` is nowhere.
pub proof fn lemma_position_is(s: Seq<char>, c: char, k: int)
    requires
        0 <= k <= s.len(),
        forall|i: int| 0 <= i < k ==> s[i] != c,
        k < s.len() ==> s[k] == c,
    ensures
        spec_position(s, c) == k,
{
    lemma_position(s, c);
    let p = spec_position(s, c);
    if p < k {
        assert(s[p] == c);
    }
    if k < p {
        assert(s[k] == c);
    }
}

/// The characters of `s`.
pub fn chars_of(s: &str) -> (v: Vec<char>)
    ensures
        v@ == s@,
{
    let mut out: Vec<char> = Vec::new();
    push_str(s, &mut out);
    assert(out@ =~= s@);
    out
}

/// The number that the digits `chars[from..to]` write.
pub fn digits_value(chars: &Vec<char>, from: usize, to: usize) -> (r: Option<u128>)
    requires
        from <= to <= chars@.len(),
    ensures
        match r {
            Some(v) => spec_all_digits(chars@.subrange(from as int, to as int)) && v
                == spec_digits_value(chars@.subrange(from as int, to as int)),
            None => !spec_all_digits(chars@.subrange(from as int, to as int))
                || spec_digits_value(chars@.subrange(from as int, to as int)) > u128::MAX,
        },
{
    let ghost run = chars@.subrange(from as int, to as int);
    let mut acc: u128 = 0;
    let mut i: usize = from;
    assert(run.subrange(0, 0) =~= Seq::<char>::empty());
    while i < to
        invariant
            from <= i <= to <= chars@.len(),
            run == chars@.subrange(from as int, to as int),
            spec_all_digits(run.subrange(0, i - from)),
            acc == spec_digits_value(run.subrange(0, i - from)),
        decreases to - i,
    {
        let c = chars[i];
        assert(run[i - from] == c);
        if c < '0' || c > '9' {
            return None;
        }
        let d: u128 = (c as u32 - '0' as u32) as u128;
        let ghost next = run.subrange(0, i - from + 1);
        proof {
            assert(next.drop_last() =~= run.subrange(0, i - from));
            assert(next.last() == c);
            assert forall|k: int| 0 <= k < next.len() implies spec_is_digit(#[trigger] next[k]) by {
                if k < i - from {
                    assert(next[k] == run.subrange(0, i - from)[k]);
                }
            }
        }
        let grown = match acc.checked_mul(10) {
            Some(m) => m.checked_add(d),
            None => None,
        };
        match grown {
            Some(v) => {
                acc = v;
            },
            None => {
                proof {
                    if spec_all_digits(run) {
                        lemma_digits_value_grows(run, i - from + 1);
                    }
                }
                return None;
            },
        }
        i += 1;
    }
    assert(run.subrange(0, to - from) =~= run);
    Some(acc)
}

/// The position of the first `c` in `chars`, or the length where there is
/// none.
pub fn position(chars: &Vec<char>, c: char) -> (k: usize)
    ensures
        k == spec_position(chars@, c),
        k <= chars@.len(),
{
    let mut i: usize = 0;
    while i < chars.len() && chars[i] != c
        invariant
            i <= chars@.len(),
            forall|j: int| 0 <= j < i ==> chars@[j] != c,
        decreases chars.len() - i,
    {
        i += 1;
    }
    proof {
        lemma_position_is(chars@, c, i as int);
    }
    i
}

/// Reads an unsigned 64-bit integer in decimal.
pub fn parse_u64(s: &str) -> (r: Option<u64>)
    ensures
        r == spec_parse_u64(s@),
{
    let chars = chars_of(s);
    let from: usize = if chars.len() > 0 && chars[0] == '+' {
        1
    } else {
        0
    };
    if from == chars.len() {
        return None;
    }
    proof {
        if from == 1 {
            assert(chars@.subrange(1, chars@.len() as int) =~= s@.drop_first());
        } else {
            assert(chars@.subrange(0, chars@.len() as int) =~= s@);
        }
    }
    match digits_value(&chars, from, chars.len()) {
        Some(v) => {
            if v <= u64::MAX as u128 {
                Some(v as u64)
            } else {
                None
            }
        },
        None => None,
    }
}

/// Reads a decimal numeral in ten-thousandths; `None` where the text is
/// no such numeral or the number does not fit.
pub fn parse_decimal(s: &str) -> (r: Option<u128>)
    ensures
        match r {
            Some(v) => spec_parse_decimal(s@) == Some(v as nat),
            None => spec_parse_decimal(s@) is None || spec_parse_decimal(s@)->0 > u128::MAX,
        },
{
    let chars = chars_of(s);
    let n = chars.len();
    let dot = position(&chars, '.');
    if dot == 0 {
        return None;
    }
    let whole = match digits_value(&chars, 0, dot) {
        Some(v) => v,
        None => {
            proof {
                let w = chars@.subrange(0, dot as int);
                if spec_all_digits(w) {
                    assert(spec_digits_value(w) * 10_000 >= spec_digits_value(w));
                    if dot < n {
                        let f = chars@.subrange(dot as int + 1, n as int);
                        lemma_product_nonnegative(
                            spec_digits_value(f) as int,
                            spec_pow10((4 - f.len()) as nat) as int,
                        );
                    }
                }
            }
            return None;
        },
    };
    let scaled = match whole.checked_mul(10_000) {
        Some(v) => v,
        None => {
            proof {
                if dot < n {
                    let f = chars@.subrange(dot as int + 1, n as int);
                    lemma_product_nonnegative(
                        spec_digits_value(f) as int,
                        spec_pow10((4 - f.len()) as nat) as int,
                    );
                }
            }
            return None;
        },
    };
    if dot == n {
        return Some(scaled);
    }
    let places = n - dot - 1;
    if places > 4 {
        return None;
    }
    let frac = match digits_value(&chars, dot + 1, n) {
        Some(v) => v,
        None => {
            proof {
                let f = chars@.subrange(dot as int + 1, n as int);
                if spec_all_digits(f) {
                    lemma_four_digits_are_small(f);
                }
            }
            return None;
        },
    };
    proof {
        lemma_four_digits_are_small(chars@.subrange(dot as int + 1, n as int));
        reveal_with_fuel(spec_pow10, 5);
    }
    let weight: u128 = if places == 0 {
        10_000
    } else if places == 1 {
        1000
    } else if places == 2 {
        100
    } else if places == 3 {
        10
    } else {
        1
    };
    assert(weight == spec_pow10((4 - places) as nat));
    assert(frac * weight <= 99_990) by (nonlinear_arith)
        requires
            frac <= 9999,
            weight <= 10_000,
            (places == 0 ==> frac == 0),
            (places == 1 ==> frac <= 9 && weight == 1000),
            (places == 2 ==> frac <= 99 && weight == 100),
            (places == 3 ==> frac <= 999 && weight == 10),
            (places == 4 ==> weight == 1),
            0 <= places <= 4,
    ;
    scaled.checked_add(frac * weight)
}

/// A product of two numbers that are not negative is not negative.
pub proof fn lemma_product_nonnegative(a: int, b: int)
    requires
        a >= 0,
        b >= 0,
    ensures
        a * b >= 0,
{
    assert(a * b >= 0) by (nonlinear_arith)
        requires
            a >= 0,
            b >= 0,
    ;
}

/// At most four digits write less than ten thousand, and fewer digits
/// less.
pub proof fn lemma_four_digits_are_small(s: Seq<char>)
    requires
        s.len() <= 4,
        spec_all_digits(s),
    ensures
        s.len() == 0 ==> spec_digits_value(s) == 0,
        s.len() == 1 ==> spec_digits_value(s) <= 9,
        s.len() == 2 ==> spec_digits_value(s) <= 99,
        s.len() == 3 ==> spec_digits_value(s) <= 999,
        spec_digits_value(s) <= 9999,
    decreases s.len(),
{
    if s.len() > 0 {
        lemma_four_digits_are_small(s.drop_last());
        assert(spec_is_digit(s.last()));
    }
}

/// Whether `c` is white space, as Unicode defines it.
pub open spec fn spec_is_whitespace(c: char) -> bool {
    let n = c as u32;
    (0x09 <= n <= 0x0d) || n == 0x20 || n == 0x85 || n == 0xa0 || n == 0x1680 || (0x2000 <= n
        <= 0x200a) || n == 0x2028 || n == 0x2029 || n == 0x202f || n == 0x205f || n == 0x3000
}

/// Whether `c` is white space.
pub fn is_whitespace(c: char) -> (b: bool)
    ensures
        b == spec_is_whitespace(c),
{
    let n: u32 = c as u32;
    (0x09 <= n && n <= 0x0d) || n == 0x20 || n == 0x85 || n == 0xa0 || n == 0x1680 || (0x2000 <= n
        && n <= 0x200a) || n == 0x2028 || n == 0x2029 || n == 0x202f || n == 0x205f || n == 0x3000
}

/// `s` without the white space at its start.
pub open spec fn spec_trim_start(s: Seq<char>) -> Seq<char>
    decreases s.len(),
{
    if s.len() > 0 && spec_is_whitespace(s[0]) {
        spec_trim_start(s.drop_first())
    } else {
        s
    }
}

/// `s` without the white space at its end.
pub open spec fn spec_trim_end(s: Seq<char>) -> Seq<char>
    decreases s.len(),
{
    if s.len() > 0 && spec_is_whitespace(s.last()) {
        spec_trim_end(s.drop_last())
    } else {
        s
    }
}

/// `s` without the white space at both ends.
pub open spec fn spec_trim(s: Seq<char>) -> Seq<char> {
    spec_trim_end(spec_trim_start(s))
}

/// What is left of `s` after `prefix`, if `s` starts with it.
pub open spec fn spec_strip_prefix(s: Seq<char>, prefix: Seq<char>) -> Option<Seq<char>> {
    if prefix.len() <= s.len() && s.subrange(0, prefix.len() as int) == prefix {
        Some(s.subrange(prefix.len() as int, s.len() as int))
    } else {
        None
    }
}

/// The bounds of `chars[from..to]` without the white space at both ends.
pub fn trim_bounds(chars: &Vec<char>, from: usize, to: usize) -> (r: (usize, usize))
    requires
        from <= to <= chars@.len(),
    ensures
        from <= r.0 <= r.1 <= to,
        chars@.subrange(r.0 as int, r.1 as int) == spec_trim(
            chars@.subrange(from as int, to as int),
        ),
{
    let mut a: usize = from;
    while a < to && is_whitespace(chars[a])
        invariant
            from <= a <= to <= chars@.len(),
            spec_trim_start(chars@.subrange(from as int, to as int)) == spec_trim_start(
                chars@.subrange(a as int, to as int),
            ),
        decreases to - a,
    {
        assert(chars@.subrange(a as int, to as int).drop_first() =~= chars@.subrange(
            a as int + 1,
            to as int,
        ));
        a += 1;
    }
    let mut b: usize = to;
    while a < b && is_whitespace(chars[b - 1])
        invariant
            a <= b <= to <= chars@.len(),
            spec_trim_end(chars@.subrange(a as int, to as int)) == spec_trim_end(
                chars@.subrange(a as int, b as int),
            ),
        decreases b - a,
    {
        assert(chars@.subrange(a as int, b as int).drop_last() =~= chars@.subrange(
            a as int,
            b as int - 1,
        ));
        b -= 1;
    }
    (a, b)
}

/// Where the rest of `chars[from..to]` starts after `prefix`, if the
/// range starts with it.
pub fn strip_prefix(chars: &Vec<char>, from: usize, to: usize, prefix: &Vec<char>) -> (r: Option<
    usize,
>)
    requires
        from <= to <= chars@.len(),
    ensures
        match r {
            Some(rest) => from <= rest <= to && spec_strip_prefix(
                chars@.subrange(from as int, to as int),
                prefix@,
            ) == Some(chars@.subrange(rest as int, to as int)),
            None => spec_strip_prefix(chars@.subrange(from as int, to as int), prefix@) is None,
        },
{
    let n = prefix.len();
    if n > to - from {
        return None;
    }
    let ghost s = chars@.subrange(from as int, to as int);
    let mut i: usize = 0;
    while i < n
        invariant
            i <= n <= to - from,
            from <= to <= chars@.len(),
            n == prefix@.len(),
            s == chars@.subrange(from as int, to as int),
            forall|j: int| 0 <= j < i ==> s[j] == prefix@[j],
        decreases n - i,
    {
        if chars[from + i] != prefix[i] {
            assert(s.subrange(0, n as int)[i as int] != prefix@[i as int]);
            return None;
        }
        i += 1;
    }
    assert(s.subrange(0, n as int) =~= prefix@);
    assert(s.subrange(n as int, s.len() as int) =~= chars@.subrange(from + n, to as int));
    Some(from + n)
}

/// The text of `chars[from..to]`.
pub fn text_of(chars: &Vec<char>, from: usize, to: usize) -> (s: String)
    requires
        from <= to <= chars@.len(),
    ensures
        s@ == chars@.subrange(from as int, to as int),
{
    let mut out: Vec<char> = Vec::new();
    let mut i: usize = from;
    while i < to
        invariant
            from <= i <= to <= chars@.len(),
            out@ == chars@.subrange(from as int, i as int),
        decreases to - i,
    {
        out.push(chars[i]);
        i += 1;
        assert(out@ =~= chars@.subrange(from as int, i as int));
    }
    chars_to_string(&out)
}

} // verus!
