//! The program text format: decimal integers separated by commas.
use vstd::prelude::*;

use crate::machine::in_i64;

verus! {

/// The text without leading and trailing white space, as `str::trim` gives it.
pub uninterp spec fn trimmed(s: Seq<char>) -> Seq<char>;

/// Relies on `str::trim`: strips Unicode white space from both ends; the
/// result depends on the characters alone.
#[verifier::external_body]
pub(crate) fn trim(s: &str) -> (r: &str)
    ensures
        r@ == trimmed(s@),
{
    s.trim()
}

pub open spec fn is_digit(c: char) -> bool {
    '0' <= c <= '9'
}

pub open spec fn all_digits(d: Seq<char>) -> bool {
    forall|i: int| 0 <= i < d.len() ==> is_digit(#[trigger] d[i])
}

/// The number that a run of decimal digits writes.
pub open spec fn digits_value(d: Seq<char>) -> int
    decreases d.len(),
{
    if d.len() == 0 {
        0
    } else {
        10 * digits_value(d.drop_last()) + (d.last() as int - '0' as int)
    }
}

/// How Rust reads an `i64`: an optional `+` or `-`, then at least one ASCII
/// digit, and a value in range. Anything else is no number.
pub open spec fn token_value(t: Seq<char>) -> Option<i64> {
    let signed = t.len() > 0 && (t[0] == '-' || t[0] == '+');
    let d = if signed {
        t.drop_first()
    } else {
        t
    };
    let v = if t.len() > 0 && t[0] == '-' {
        -digits_value(d)
    } else {
        digits_value(d)
    };
    if d.len() > 0 && all_digits(d) && in_i64(v) {
        Some(v as i64)
    } else {
        None
    }
}

/// The pieces of `t` between commas; there is always at least one.
pub open spec fn split_commas(t: Seq<char>) -> Seq<Seq<char>>
    decreases t.len(),
{
    if t.len() == 0 {
        seq![Seq::empty()]
    } else {
        let parts = split_commas(t.drop_last());
        if t.last() == ',' {
            parts.push(Seq::empty())
        } else {
            parts.update(parts.len() - 1, parts.last().push(t.last()))
        }
    }
}

/// The numbers among the pieces, in order; pieces that are no number are left out.
pub open spec fn token_values(toks: Seq<Seq<char>>) -> Seq<i64>
    decreases toks.len(),
{
    if toks.len() == 0 {
        Seq::empty()
    } else {
        token_values(toks.drop_last()) + match token_value(toks.last()) {
            Some(v) => seq![v],
            None => Seq::empty(),
        }
    }
}

/// The values that a comma-separated text holds.
pub open spec fn text_values(t: Seq<char>) -> Seq<i64> {
    token_values(split_commas(t))
}

proof fn lemma_split_nonempty(t: Seq<char>)
    ensures
        split_commas(t).len() >= 1,
    decreases t.len(),
{
    if t.len() > 0 {
        lemma_split_nonempty(t.drop_last());
    }
}

proof fn lemma_digits_prefix(d: Seq<char>, k: int)
    requires
        all_digits(d),
        0 <= k <= d.len(),
    ensures
        0 <= digits_value(d.take(k)) <= digits_value(d),
    decreases d.len(),
{
    if d.len() > 0 {
        let p = d.drop_last();
        assert(all_digits(p)) by {
            assert forall|i: int| 0 <= i < p.len() implies is_digit(#[trigger] p[i]) by {
                assert(p[i] == d[i]);
            }
        }
        assert(is_digit(d[d.len() - 1]));
        if k < d.len() {
            lemma_digits_prefix(p, k);
            assert(p.take(k) =~= d.take(k));
        } else {
            lemma_digits_prefix(p, p.len() as int);
            assert(p.take(p.len() as int) =~= p);
            assert(d.take(k) =~= d);
        }
    }
}

/// Reads one token as Rust reads an `i64`.
fn parse_token(t: &Vec<char>) -> (r: Option<i64>)
    ensures
        r == token_value(t@),
{
    let n = t.len();
    if n == 0 {
        return None;
    }
    let neg = t[0] == '-';
    let start: usize = if t[0] == '-' || t[0] == '+' {
        1
    } else {
        0
    };
    let ghost d = t@.subrange(start as int, n as int);
    assert(d =~= if start == 1 {
        t@.drop_first()
    } else {
        t@
    });
    if start == n {
        return None;
    }
    let mut mag: u64 = 0;
    let mut i: usize = start;
    while i < n
        invariant
            n == t@.len(),
            start <= i <= n,
            d == t@.subrange(start as int, n as int),
            d == (if start == 1 {
                t@.drop_first()
            } else {
                t@
            }),
            neg == (t@[0] == '-'),
            (start == 1) == (t@[0] == '-' || t@[0] == '+'),
            all_digits(d.take(i - start)),
            mag == digits_value(d.take(i - start)),
            mag <= 0x8000_0000_0000_0000u64,
        decreases n - i,
    {
        let c = t[i];
        if !('0' <= c && c <= '9') {
            assert(d[i - start] == t@[i as int]);
            assert(!all_digits(d));
            return None;
        }
        let ghost k = i - start;
        assert(d.take(k + 1).drop_last() =~= d.take(k));
        assert(d.take(k + 1).last() == c);
        let next: u128 = mag as u128 * 10 + (c as u32 - '0' as u32) as u128;
        assert(next == digits_value(d.take(k + 1)));
        assert(all_digits(d.take(k + 1))) by {
            assert forall|j: int| 0 <= j < k + 1 implies is_digit(#[trigger] d.take(k + 1)[j]) by {
                if j < k {
                    assert(d.take(k + 1)[j] == d.take(k)[j]);
                }
            }
        }
        if next > 0x8000_0000_0000_0000u128 {
            proof {
                if all_digits(d) {
                    lemma_digits_prefix(d, k + 1);
                    assert(digits_value(d) > 0x8000_0000_0000_0000u128);
                    assert(!in_i64(digits_value(d)));
                    assert(!in_i64(-digits_value(d)));
                }
            }
            return None;
        }
        mag = next as u64;
        i = i + 1;
    }
    assert(d.take(d.len() as int) =~= d);
    if neg {
        if mag == 0x8000_0000_0000_0000u64 {
            Some(i64::MIN)
        } else {
            Some(-(mag as i64))
        }
    } else if mag > 0x7fff_ffff_ffff_ffffu64 {
        None
    } else {
        Some(mag as i64)
    }
}

/// Reads comma-separated decimal integers, in order. Pieces that are not a
/// decimal `i64` (white space around a number included) are skipped.
pub fn parse_values(text: &str) -> (r: Vec<i64>)
    ensures
        r@ == text_values(text@),
{
    let mut vals: Vec<i64> = Vec::new();
    let mut cur: Vec<char> = Vec::new();
    proof {
        assert(text@.take(0) =~= Seq::<char>::empty());
    }
    for c in it: text.chars()
        invariant
            it.seq() == text@,
            vals@ == token_values(split_commas(text@.take(it.index() as int)).drop_last()),
            cur@ == split_commas(text@.take(it.index() as int)).last(),
    {
        let ghost p = text@.take(it.index() as int);
        let ghost q = text@.take(it.index() + 1);
        proof {
            lemma_split_nonempty(p);
            assert(q.drop_last() =~= p);
            assert(q.last() == c);
        }
        let ghost parts = split_commas(p);
        if c == ',' {
            assert(split_commas(q).drop_last() =~= parts);
            match parse_token(&cur) {
                Some(v) => vals.push(v),
                None => {},
            }
            cur = Vec::new();
            assert(vals@ =~= token_values(parts));
            assert(cur@ =~= split_commas(q).last());
        } else {
            assert(split_commas(q).drop_last() =~= parts.drop_last());
            cur.push(c);
        }
    }
    proof {
        let whole = split_commas(text@);
        assert(text@.take(text@.len() as int) =~= text@);
        lemma_split_nonempty(text@);
        assert(whole.drop_last().push(whole.last()) =~= whole);
    }
    match parse_token(&cur) {
        Some(v) => vals.push(v),
        None => {},
    }
    proof {
        let whole = split_commas(text@);
        assert(whole.drop_last() =~= whole.take(whole.len() - 1));
    }
    vals
}

} // verus!
