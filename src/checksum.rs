//! The modulus 10 "double-add-double" check digit, computed two ways.
//!
//! Counting positions from one, left to right, the value of every symbol in an
//! even position is doubled; every value, doubled or not, is folded into one
//! decimal digit by adding its tens and its ones; the folded values are summed
//! and the check value is `(10 - sum % 10) % 10`.
//!
//! [`checksum_simple`] follows that description literally. [`checksum_table`]
//! walks the input from the right with folded values read from two tables. The
//! two agree on every input of even length, which every payload is.

use vstd::prelude::*;
use crate::format::{all_symbols, is_symbol, symbol_value};

verus! {

/// Adds the tens and the ones of `v`.
pub open spec fn fold_digits(v: nat) -> nat {
    v / 10 + v % 10
}

/// The folded contribution of symbol `b`, doubled or not.
pub open spec fn weighted_value(b: u8, doubled: bool) -> nat {
    if doubled {
        fold_digits(2 * symbol_value(b))
    } else {
        fold_digits(symbol_value(b))
    }
}

/// The sum of the folded contributions of `s`, scanning left to right and
/// doubling every symbol whose one-based position is even.
pub open spec fn digit_sum(s: Seq<u8>) -> nat
    decreases s.len(),
{
    if s.len() == 0 {
        0
    } else {
        digit_sum(s.drop_last()) + weighted_value(s.last(), s.len() % 2 == 0)
    }
}

/// The check value of `s`: the standard's rule.
pub open spec fn check_value(s: Seq<u8>) -> nat {
    ((10 - digit_sum(s) % 10) % 10) as nat
}

/// The sum of the folded contributions of `s`, scanning right to left and
/// doubling every symbol whose zero-based offset from the right end is even.
pub open spec fn reverse_digit_sum(s: Seq<u8>) -> nat
    decreases s.len(),
{
    if s.len() == 0 {
        0
    } else {
        weighted_value(s.first(), (s.len() - 1) % 2 == 0) + reverse_digit_sum(s.drop_first())
    }
}

/// The check value that the right-to-left scan gives for `s`.
pub open spec fn reverse_check_value(s: Seq<u8>) -> nat {
    ((10 - reverse_digit_sum(s) % 10) % 10) as nat
}

/// The sum of the folded contributions of `s`, scanning left to right, with
/// doubling alternating from `double_first` on the first symbol.
pub open spec fn alternating_sum(s: Seq<u8>, double_first: bool) -> nat
    decreases s.len(),
{
    if s.len() == 0 {
        0
    } else {
        weighted_value(s.first(), double_first) + alternating_sum(s.drop_first(), !double_first)
    }
}

proof fn lemma_alternating_sum_last(s: Seq<u8>, d: bool)
    requires
        s.len() >= 1,
    ensures
        alternating_sum(s, d) == alternating_sum(s.drop_last(), d) + weighted_value(
            s.last(),
            if (s.len() - 1) % 2 == 0 {
                d
            } else {
                !d
            },
        ),
    decreases s.len(),
{
    if s.len() == 1 {
        assert(alternating_sum(s.drop_first(), !d) == 0);
        assert(alternating_sum(s.drop_last(), d) == 0);
        assert(s.first() == s.last());
    } else {
        let t = s.drop_first();
        lemma_alternating_sum_last(t, !d);
        assert(s.drop_last().drop_first() =~= t.drop_last());
        assert(s.drop_last().first() == s.first());
        assert(t.last() == s.last());
    }
}

proof fn lemma_digit_sum_alternating(s: Seq<u8>)
    ensures
        digit_sum(s) == alternating_sum(s, false),
    decreases s.len(),
{
    if s.len() > 0 {
        lemma_digit_sum_alternating(s.drop_last());
        lemma_alternating_sum_last(s, false);
    }
}

proof fn lemma_reverse_digit_sum_alternating(s: Seq<u8>)
    ensures
        reverse_digit_sum(s) == alternating_sum(s, (s.len() - 1) % 2 == 0),
    decreases s.len(),
{
    if s.len() > 0 {
        lemma_reverse_digit_sum_alternating(s.drop_first());
    }
}

/// On every input of even length, every payload among them, scanning right to
/// left with offsets from the right end gives the same check value as the
/// standard's left-to-right rule: [`checksum_table`] and [`checksum_simple`]
/// agree.
pub proof fn lemma_checksums_agree(s: Seq<u8>)
    requires
        s.len() % 2 == 0,
    ensures
        reverse_digit_sum(s) == digit_sum(s),
        reverse_check_value(s) == check_value(s),
{
    lemma_digit_sum_alternating(s);
    lemma_reverse_digit_sum_alternating(s);
}

/// The numeric value of a symbol: digits `0` through `9` map to 0 through 9,
/// letters `A` through `Z` to 10 through 35. Only symbols may be passed in.
fn char_value(c: &u8) -> (r: u8)
    requires
        is_symbol(*c),
    ensures
        r as nat == symbol_value(*c),
        r < 36,
{
    // 48 is `0`, 57 is `9`, 65 is `A`
    if 48 <= *c && *c <= 57 {
        *c - 48
    } else {
        *c - 65 + 10
    }
}

/// The largest accumulator value of [`checksum_simple`] that can take one more
/// step without overflow. The largest step is 14: the letter `Y` (value 34) in
/// a doubling position gives 68, folded to 6 + 8.
const MAX_ACCUM_SIMPLE: u8 = u8::MAX - 14;

/// The largest accumulator value of [`checksum_table`] that can take one more
/// step without overflow: every table entry is a single digit, at most 9.
const MAX_ACCUM_TABLE: u8 = u8::MAX - 9;

proof fn lemma_mod_step(acc: int, sum: int, x: int)
    requires
        acc % 10 == sum % 10,
    ensures
        (acc + x) % 10 == (sum + x) % 10,
        (acc % 10 + x) % 10 == (sum + x) % 10,
{
    vstd::arithmetic::div_mod::lemma_add_mod_noop_right(x, acc, 10);
    vstd::arithmetic::div_mod::lemma_add_mod_noop_right(x, sum, 10);
}

/// Computes the check value of `s` left to right, doubling the symbols in even
/// one-based positions. Any length is accepted; every byte must be a symbol.
pub fn checksum_simple(s: &[u8]) -> (r: u8)
    requires
        all_symbols(s@),
    ensures
        r as nat == check_value(s@),
{
    let mut sum: u8 = 0;
    let mut i: usize = 0;
    while i < s.len()
        invariant
            i <= s.len(),
            all_symbols(s@),
            sum % 10 == digit_sum(s@.take(i as int)) % 10,
        decreases s.len() - i,
    {
        let v = char_value(&s[i]);
        let vv: u8 = if (i + 1) % 2 == 0 {
            v * 2
        } else {
            v
        };
        let step: u8 = (vv / 10) + (vv % 10);
        assert(step as nat == weighted_value(s@[i as int], (i + 1) % 2 == 0));
        assert(step <= 14);
        proof {
            assert(s@.take(i + 1).drop_last() =~= s@.take(i as int));
            lemma_mod_step(sum as int, digit_sum(s@.take(i as int)) as int, step as int);
        }
        if sum > MAX_ACCUM_SIMPLE {
            sum %= 10;
        }
        sum += step;
        i += 1;
    }
    assert(s@.take(s.len() as int) =~= s@);
    sum %= 10;
    (10 - sum) % 10
}

/// `ODDS[v]` is `fold_digits(v) % 10`: the contribution of a symbol of value
/// `v` that is not doubled, reduced to one digit.
const ODDS: [u8; 36] = [
    0, 1, 2, 3, 4, 5, 6, 7, 8, 9,
    1, 2, 3, 4, 5, 6, 7, 8, 9, 0,
    2, 3, 4, 5, 6, 7, 8, 9, 0, 1,
    3, 4, 5, 6, 7, 8,
];

/// `EVENS[v]` is `fold_digits(2 * v) % 10`: the contribution of a symbol of
/// value `v` that is doubled, reduced to one digit.
const EVENS: [u8; 36] = [
    0, 2, 4, 6, 8,
    1, 3, 5, 7, 9,
    2, 4, 6, 8, 0,
    3, 5, 7, 9, 1,
    4, 6, 8, 0, 2,
    5, 7, 9, 1, 3,
    6, 8, 0, 2, 4,
    7,
];

/// Computes the check value of `s` right to left, doubling the symbols whose
/// zero-based offset from the right end is even, with the folded values read
/// from [`EVENS`] and [`ODDS`]. Any length is accepted; every byte must be a
/// symbol. On input of even length this is [`checksum_simple`]'s result.
pub fn checksum_table(s: &[u8]) -> (r: u8)
    requires
        all_symbols(s@),
    ensures
        r as nat == reverse_check_value(s@),
        s@.len() % 2 == 0 ==> r as nat == check_value(s@),
{
    let odds = ODDS;
    let evens = EVENS;
    assert(forall|v: int| 0 <= v < 36 ==> odds@[v] == fold_digits(v as nat) % 10);
    assert(forall|v: int| 0 <= v < 36 ==> evens@[v] == fold_digits(2 * v as nat) % 10);
    let mut sum: u8 = 0;
    let mut i: usize = 0;
    let n = s.len();
    while i < n
        invariant
            i <= n,
            n == s@.len(),
            all_symbols(s@),
            forall|v: int| 0 <= v < 36 ==> odds@[v] == fold_digits(v as nat) % 10,
            forall|v: int| 0 <= v < 36 ==> evens@[v] == fold_digits(2 * v as nat) % 10,
            sum % 10 == reverse_digit_sum(s@.subrange(n - i, n as int)) % 10,
        decreases n - i,
    {
        let c = &s[n - 1 - i];
        let v = char_value(c);
        let step: u8 = if (i & 1) == 0 {
            evens[v as usize]
        } else {
            odds[v as usize]
        };
        proof {
            let rest = s@.subrange(n - i, n as int);
            let next = s@.subrange(n - i - 1, n as int);
            assert(next.drop_first() =~= rest);
            assert((i & 1) == 0 <==> i % 2 == 0) by (bit_vector);
            assert(step % 10 == weighted_value(*c, i % 2 == 0) % 10);
            lemma_mod_step(sum as int, reverse_digit_sum(rest) as int, step as int);
            vstd::arithmetic::div_mod::lemma_add_mod_noop_right(
                reverse_digit_sum(rest) as int,
                weighted_value(*c, i % 2 == 0) as int,
                10,
            );
        }
        if sum > MAX_ACCUM_TABLE {
            sum %= 10;
        }
        sum += step;
        i += 1;
    }
    assert(s@.subrange(0, n as int) =~= s@);
    sum %= 10;
    proof {
        if s@.len() % 2 == 0 {
            lemma_checksums_agree(s@);
        }
    }
    (10 - sum) % 10
}

} // verus!
