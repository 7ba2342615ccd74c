//! Canonical decimal text for unsigned integers.
//!
//! `dec_seq` is the canonical decimal rendering of a non-negative
//! integer: no leading zeroes, at least one digit. `seq_val` reads a
//! digit sequence back as a number. The executable functions render a
//! `u64` to its canonical text and scan a maximal digit run out of a
//! string, and are proved exact against those spec functions.

use vstd::prelude::*;
use vstd::string::StrSliceExecFns;
use vstd::string::StringExecFns;

verus! {

/// The digit character for a value in `0..=9`.
pub open spec fn digit_char(d: int) -> char {
    if d == 0 {
        '0'
    } else if d == 1 {
        '1'
    } else if d == 2 {
        '2'
    } else if d == 3 {
        '3'
    } else if d == 4 {
        '4'
    } else if d == 5 {
        '5'
    } else if d == 6 {
        '6'
    } else if d == 7 {
        '7'
    } else if d == 8 {
        '8'
    } else {
        '9'
    }
}

pub open spec fn is_digit(c: char) -> bool {
    48 <= c as int <= 57
}

/// The numeric value of a digit character.
pub open spec fn digit_val(c: char) -> int {
    c as int - 48
}

/// Canonical decimal rendering of `n >= 0`: most significant digit first,
/// no leading zeroes.
pub open spec fn dec_seq(n: int) -> Seq<char>
    recommends
        n >= 0,
    decreases n,
{
    if n < 10 {
        seq![digit_char(n)]
    } else {
        dec_seq(n / 10).push(digit_char(n % 10))
    }
}

/// The number a digit sequence denotes, read most significant digit first.
pub open spec fn seq_val(s: Seq<char>) -> int
    decreases s.len(),
{
    if s.len() == 0 {
        0
    } else {
        seq_val(s.drop_last()) * 10 + digit_val(s.last())
    }
}

pub open spec fn all_digits(s: Seq<char>) -> bool {
    forall|i: int| 0 <= i < s.len() ==> is_digit(#[trigger] s[i])
}

/// A digit sequence is canonical when it is non-empty and has no leading zero.
pub open spec fn is_canonical_dec(s: Seq<char>) -> bool {
    &&& all_digits(s)
    &&& s.len() > 0
    &&& (s.len() == 1 || s[0] != '0')
}

pub proof fn lemma_dec_seq_props(n: int)
    requires
        n >= 0,
    ensures
        dec_seq(n).len() >= 1,
        all_digits(dec_seq(n)),
        seq_val(dec_seq(n)) == n,
        (dec_seq(n)[0] == '0') == (n == 0),
        is_canonical_dec(dec_seq(n)),
    decreases n,
{
    if n < 10 {
        let s = dec_seq(n);
        assert(s =~= seq![digit_char(n)]);
        assert(seq_val(s.drop_last()) == 0);
        assert(seq_val(s) == seq_val(s.drop_last()) * 10 + digit_val(s.last()));
        assert(digit_val(digit_char(n)) == n);
    } else {
        lemma_dec_seq_props(n / 10);
        let s0 = dec_seq(n / 10);
        let s = dec_seq(n);
        assert(s == s0.push(digit_char(n % 10)));
        assert(s.drop_last() =~= s0);
        assert(s.last() == digit_char(n % 10));
        assert(digit_val(digit_char(n % 10)) == n % 10);
        assert(seq_val(s) == seq_val(s0) * 10 + (n % 10));
        assert(seq_val(s) == (n / 10) * 10 + (n % 10));
        assert(n == (n / 10) * 10 + (n % 10)) by (nonlinear_arith);
        assert(s[0] == s0[0]);
        assert(forall|i: int| 0 <= i < s.len() ==> is_digit(#[trigger] s[i]));
    }
}

pub proof fn lemma_seq_val_nonneg(s: Seq<char>)
    requires
        all_digits(s),
    ensures
        seq_val(s) >= 0,
    decreases s.len(),
{
    if s.len() > 0 {
        assert(all_digits(s.drop_last())) by {
            assert(forall|i: int|
                0 <= i < s.drop_last().len() ==> is_digit(#[trigger] s.drop_last()[i]));
        }
        lemma_seq_val_nonneg(s.drop_last());
        assert(is_digit(s.last()));
        assert(seq_val(s.drop_last()) * 10 >= 0) by (nonlinear_arith)
            requires
                seq_val(s.drop_last()) >= 0,
        ;
    }
}

/// A digit sequence with a non-zero leading digit denotes a positive number.
pub proof fn lemma_nonzero_lead_positive(s: Seq<char>)
    requires
        all_digits(s),
        s.len() > 0,
        s[0] != '0',
    ensures
        seq_val(s) >= 1,
    decreases s.len(),
{
    if s.len() == 1 {
        assert(s.last() == s[0]);
        assert(is_digit(s[0]));
        assert(seq_val(s.drop_last()) == 0);
        assert(seq_val(s) == digit_val(s[0]));
    } else {
        let s0 = s.drop_last();
        assert(all_digits(s0)) by {
            assert(forall|i: int| 0 <= i < s0.len() ==> is_digit(#[trigger] s0[i]));
        }
        assert(s0[0] == s[0]);
        lemma_nonzero_lead_positive(s0);
        assert(is_digit(s.last()));
        assert(seq_val(s0) * 10 >= 10) by (nonlinear_arith)
            requires
                seq_val(s0) >= 1,
        ;
    }
}

/// Canonical digit sequences are exactly the renderings `dec_seq` produces.
pub proof fn lemma_canonical_dec_is_dec_seq(s: Seq<char>)
    requires
        is_canonical_dec(s),
    ensures
        seq_val(s) >= 0,
        dec_seq(seq_val(s)) == s,
    decreases s.len(),
{
    lemma_seq_val_nonneg(s);
    if s.len() == 1 {
        let c = s[0];
        assert(s.last() == c);
        assert(seq_val(s.drop_last()) == 0);
        assert(seq_val(s) == digit_val(c));
        assert(is_digit(c));
        assert(digit_char(digit_val(c)) == c);
        assert(dec_seq(seq_val(s)) =~= s);
    } else {
        let s0 = s.drop_last();
        assert(all_digits(s0)) by {
            assert(forall|i: int| 0 <= i < s0.len() ==> is_digit(#[trigger] s0[i]));
        }
        assert(s0[0] == s[0]);
        assert(is_canonical_dec(s0));
        lemma_canonical_dec_is_dec_seq(s0);
        lemma_nonzero_lead_positive(s0);
        let v0 = seq_val(s0);
        let d = digit_val(s.last());
        assert(is_digit(s.last()));
        let v = seq_val(s);
        assert(v == v0 * 10 + d);
        assert(v >= 10) by (nonlinear_arith)
            requires
                v0 >= 1,
                d >= 0,
                v == v0 * 10 + d,
        ;
        assert(v / 10 == v0 && v % 10 == d) by (nonlinear_arith)
            requires
                v == v0 * 10 + d,
                0 <= d < 10,
        ;
        assert(dec_seq(v) == dec_seq(v0).push(digit_char(d)));
        assert(digit_char(digit_val(s.last())) == s.last());
        assert(dec_seq(v) =~= s);
    }
}

/// Two numbers with the same canonical rendering are equal.
pub proof fn lemma_dec_seq_injective(a: int, b: int)
    requires
        a >= 0,
        b >= 0,
        dec_seq(a) == dec_seq(b),
    ensures
        a == b,
{
    lemma_dec_seq_props(a);
    lemma_dec_seq_props(b);
}

/// The value of a digit prefix never exceeds the value of the whole run.
pub proof fn lemma_seq_val_prefix_le(s: Seq<char>, k: int)
    requires
        all_digits(s),
        0 <= k <= s.len(),
    ensures
        seq_val(s.take(k)) <= seq_val(s),
    decreases s.len(),
{
    lemma_seq_val_nonneg(s);
    if k == s.len() {
        assert(s.take(k) =~= s);
    } else {
        let s0 = s.drop_last();
        assert(all_digits(s0)) by {
            assert(forall|i: int| 0 <= i < s0.len() ==> is_digit(#[trigger] s0[i]));
        }
        assert(s.take(k) =~= s0.take(k));
        lemma_seq_val_prefix_le(s0, k);
        lemma_seq_val_nonneg(s0);
        assert(is_digit(s.last()));
        assert(seq_val(s0) * 10 >= seq_val(s0)) by (nonlinear_arith)
            requires
                seq_val(s0) >= 0,
        ;
    }
}

/// A canonical digit run ending at a non-digit (or at the end of the
/// string) is unique at a given start position: the value and the end
/// of the run are determined.
pub proof fn lemma_component_unique(s: Seq<char>, start: int, n1: int, e1: int, n2: int, e2: int)
    requires
        0 <= start <= e1 <= s.len(),
        0 <= start <= e2 <= s.len(),
        n1 >= 0,
        n2 >= 0,
        s.subrange(start, e1) == dec_seq(n1),
        e1 == s.len() || !is_digit(s[e1]),
        s.subrange(start, e2) == dec_seq(n2),
        e2 == s.len() || !is_digit(s[e2]),
    ensures
        n1 == n2,
        e1 == e2,
{
    lemma_dec_seq_props(n1);
    lemma_dec_seq_props(n2);
    assert(e1 - start == dec_seq(n1).len());
    assert(e2 - start == dec_seq(n2).len());
    if e1 < e2 {
        assert(s.subrange(start, e2)[e1 - start] == s[e1]);
        assert(is_digit(dec_seq(n2)[e1 - start]));
        assert(false);
    }
    if e2 < e1 {
        assert(s.subrange(start, e1)[e2 - start] == s[e2]);
        assert(is_digit(dec_seq(n1)[e2 - start]));
        assert(false);
    }
    assert(e1 == e2);
    assert(dec_seq(n1) == dec_seq(n2));
    lemma_dec_seq_injective(n1, n2);
}

/// The digit character for a value in `0..=9`, as a one-character string.
fn digit_str(d: u64) -> (s: &'static str)
    requires
        d < 10,
    ensures
        s@ =~= seq![digit_char(d as int)],
{
    proof {
        reveal_strlit("0");
        reveal_strlit("1");
        reveal_strlit("2");
        reveal_strlit("3");
        reveal_strlit("4");
        reveal_strlit("5");
        reveal_strlit("6");
        reveal_strlit("7");
        reveal_strlit("8");
        reveal_strlit("9");
    }
    match d {
        0 => "0",
        1 => "1",
        2 => "2",
        3 => "3",
        4 => "4",
        5 => "5",
        6 => "6",
        7 => "7",
        8 => "8",
        _ => "9",
    }
}

/// Render a `u64` as its canonical decimal text.
pub fn u64_to_string(n: u64) -> (s: String)
    ensures
        s@ == dec_seq(n as int),
    decreases n,
{
    if n < 10 {
        let s = digit_str(n).to_owned();
        proof {
            assert(s@ =~= dec_seq(n as int));
        }
        s
    } else {
        let mut s = u64_to_string(n / 10);
        s.append(digit_str(n % 10));
        proof {
            assert((n / 10) as int == n as int / 10);
            assert((n % 10) as int == n as int % 10);
            assert(s@ =~= dec_seq(n as int / 10).push(digit_char(n as int % 10)));
        }
        s
    }
}

/// No `u64` has its canonical rendering in `s` starting at `start` and
/// ending at a non-digit or at the end of the string.
pub open spec fn no_decimal_at(s: Seq<char>, start: int) -> bool {
    forall|n: u64, e: int|
        #![trigger s.subrange(start, e), dec_seq(n as int)]
        start <= e <= s.len() ==> !(s.subrange(start, e) == dec_seq(n as int) && (e == s.len()
            || !is_digit(s[e])))
}

/// Scan the maximal digit run of `s` that begins at `start` and read it
/// as a `u64`. Returns the value and the position just past the run.
/// Succeeds exactly when some `u64` has its canonical rendering there,
/// ending at a non-digit or at the end of the string.
pub fn parse_decimal(s: &str, start: usize) -> (r: Option<(u64, usize)>)
    requires
        start <= s@.len(),
    ensures
        match r {
            Some(p) => {
                &&& start < p.1 <= s@.len()
                &&& s@.subrange(start as int, p.1 as int) == dec_seq(p.0 as int)
                &&& (p.1 == s@.len() || !is_digit(s@[p.1 as int]))
            },
            None => no_decimal_at(s@, start as int),
        },
{
    let len: usize = s.unicode_len();
    // Find the end of the maximal digit run starting at `start`.
    let mut end: usize = start;
    loop
        invariant
            start <= end <= len,
            len == s@.len(),
            forall|i: int| start <= i < end ==> is_digit(#[trigger] s@[i]),
        ensures
            start <= end <= len,
            forall|i: int| start <= i < end ==> is_digit(#[trigger] s@[i]),
            end == len || !is_digit(s@[end as int]),
        decreases len - end,
    {
        if end >= len {
            break ;
        }
        let c = s.get_char(end);
        let cv: u32 = c as u32;
        if cv < 48 || cv > 57 {
            break ;
        }
        end = end + 1;
    }
    if end == start {
        // No digit at all: no rendering can start here.
        proof {
            assert forall|n: u64, e: int|
                #![trigger s@.subrange(start as int, e), dec_seq(n as int)]
                start <= e <= s@.len() implies !(s@.subrange(start as int, e) == dec_seq(n as int)
                && (e == s@.len() || !is_digit(s@[e]))) by {
                if s@.subrange(start as int, e) == dec_seq(n as int) {
                    lemma_dec_seq_props(n as int);
                    assert(e - start >= 1);
                    assert(start < s@.len());
                    assert(s@.subrange(start as int, e)[0] == s@[start as int]);
                    assert(is_digit(dec_seq(n as int)[0]));
                    assert(is_digit(s@[start as int]));
                    assert(false);
                }
            }
        }
        return None;
    }
    let first = s.get_char(start);
    if first == '0' && end > start + 1 {
        // A leading zero in a run of several digits: only the value zero
        // could render here, and its one-digit rendering would end at a
        // digit, which is not a valid boundary.
        proof {
            assert forall|n: u64, e: int|
                #![trigger s@.subrange(start as int, e), dec_seq(n as int)]
                start <= e <= s@.len() implies !(s@.subrange(start as int, e) == dec_seq(n as int)
                && (e == s@.len() || !is_digit(s@[e]))) by {
                if s@.subrange(start as int, e) == dec_seq(n as int) && (e == s@.len()
                    || !is_digit(s@[e])) {
                    lemma_dec_seq_props(n as int);
                    assert(e - start >= 1);
                    assert(e <= end) by {
                        if e > end {
                            assert(s@.subrange(start as int, e)[end - start] == s@[end as int]);
                            assert(is_digit(dec_seq(n as int)[end - start]));
                            assert(is_digit(s@[end as int]));
                        }
                    }
                    assert(e == end) by {
                        if e < end {
                            assert(is_digit(s@[e]));
                        }
                    }
                    assert(s@.subrange(start as int, e)[0] == s@[start as int]);
                    assert(dec_seq(n as int)[0] == '0');
                    assert(n == 0);
                    assert(dec_seq(0).len() == 1);
                    assert(e - start == 1);
                    assert(false);
                }
            }
        }
        return None;
    }
    // Accumulate the value, watching for overflow.
    let mut val: u64 = 0;
    let mut i: usize = start;
    proof {
        assert(s@.subrange(start as int, start as int) =~= Seq::<char>::empty());
    }
    while i < end
        invariant
            start <= i <= end <= len,
            len == s@.len(),
            forall|j: int| start <= j < end ==> is_digit(#[trigger] s@[j]),
            end == s@.len() || !is_digit(s@[end as int]),
            end > start,
            s@[start as int] == '0' ==> end == start + 1,
            val as int == seq_val(s@.subrange(start as int, i as int)),
        decreases end - i,
    {
        let c = s.get_char(i);
        proof {
            assert(is_digit(s@[i as int]));
        }
        let d: u64 = (c as u32 as u64) - 48;
        if val > (u64::MAX - d) / 10 {
            // The full run denotes a value beyond `u64`: nothing can
            // render canonically across exactly this run.
            proof {
                let run = s@.subrange(start as int, end as int);
                assert(all_digits(run)) by {
                    assert(forall|j: int| 0 <= j < run.len() ==> is_digit(#[trigger] run[j]));
                }
                assert(s@.subrange(start as int, i as int) =~= run.take(i - start));
                assert(run.take(i - start).push(s@[i as int]) =~= run.take(i - start + 1));
                assert(seq_val(run.take(i - start + 1)) == val as int * 10 + d) by {
                    assert(run.take(i - start + 1).drop_last() =~= run.take(i - start));
                    assert(run.take(i - start + 1).last() == s@[i as int]);
                    assert(digit_val(s@[i as int]) == d);
                }
                lemma_seq_val_prefix_le(run, i - start + 1);
                assert(val as int * 10 + d > u64::MAX) by (nonlinear_arith)
                    requires
                        val as int > (u64::MAX - d) as int / 10,
                        0 <= d < 10,
                ;
                assert(seq_val(run) > u64::MAX);
                assert forall|n: u64, e: int|
                    #![trigger s@.subrange(start as int, e), dec_seq(n as int)]
                    start <= e <= s@.len() implies !(s@.subrange(start as int, e) == dec_seq(
                    n as int,
                ) && (e == s@.len() || !is_digit(s@[e]))) by {
                    if s@.subrange(start as int, e) == dec_seq(n as int) && (e == s@.len()
                        || !is_digit(s@[e])) {
                        lemma_dec_seq_props(n as int);
                        assert(e - start >= 1);
                        assert(e <= end) by {
                            if e > end {
                                assert(s@.subrange(start as int, e)[end - start] == s@[
                                    end as int]);
                                assert(is_digit(dec_seq(n as int)[end - start]));
                                assert(is_digit(s@[end as int]));
                            }
                        }
                        assert(e == end) by {
                            if e < end {
                                assert(is_digit(s@[e]));
                            }
                        }
                        assert(run == dec_seq(n as int));
                        assert(seq_val(run) == n as int);
                        assert(false);
                    }
                }
            }
            return None;
        }
        proof {
            assert(val as int * 10 + d <= u64::MAX) by (nonlinear_arith)
                requires
                    val as int <= (u64::MAX - d) as int / 10,
                    0 <= d < 10,
            ;
            let pre = s@.subrange(start as int, i as int);
            let nxt = s@.subrange(start as int, i as int + 1);
            assert(nxt.drop_last() =~= pre);
            assert(nxt.last() == s@[i as int]);
            assert(digit_val(s@[i as int]) == d);
        }
        val = val * 10 + d;
        i = i + 1;
    }
    // The run is canonical, so it is exactly `dec_seq(val)`.
    proof {
        let run = s@.subrange(start as int, end as int);
        assert(all_digits(run)) by {
            assert(forall|j: int| 0 <= j < run.len() ==> is_digit(#[trigger] run[j]));
        }
        assert(run[0] == s@[start as int]);
        assert(is_canonical_dec(run));
        lemma_canonical_dec_is_dec_seq(run);
        assert(seq_val(run) == val as int);
        assert(dec_seq(val as int) == run);
    }
    Some((val, end))
}

} // verus!
