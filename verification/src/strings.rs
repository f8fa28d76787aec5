//! String helpers for path handling and synthesised variable names:
//! splitting a printed path on `::`, joining segments back, and rendering a
//! counter in decimal.

use vstd::prelude::*;
use vstd::string::*;

verus! {

/// The path separator, as a character sequence.
pub open spec fn colcol() -> Seq<char> {
    seq![':', ':']
}

/// Splitting `s` on `::`, scanning for the next separator from position `k`;
/// everything before `k` belongs to the current segment.
pub open spec fn split_cc_from(s: Seq<char>, k: int) -> Seq<Seq<char>>
    decreases s.len(), s.len() - k,
{
    if 0 <= k && k + 2 <= s.len() {
        if s[k] == ':' && s[k + 1] == ':' {
            seq![s.subrange(0, k)] + split_cc_from(s.subrange(k + 2, s.len() as int), 0)
        } else {
            split_cc_from(s, k + 1)
        }
    } else {
        seq![s]
    }
}

/// The `::`-separated segments of `s`, leftmost separator first, exactly as
/// splitting on the two-character separator yields them.
pub open spec fn spec_split_cc(s: Seq<char>) -> Seq<Seq<char>> {
    split_cc_from(s, 0)
}

pub proof fn lemma_split_cc_from_len(s: Seq<char>, k: int)
    ensures
        split_cc_from(s, k).len() >= 1,
    decreases s.len(), s.len() - k,
{
    if 0 <= k && k + 2 <= s.len() {
        if s[k] == ':' && s[k + 1] == ':' {
            lemma_split_cc_from_len(s.subrange(k + 2, s.len() as int), 0);
        } else {
            lemma_split_cc_from_len(s, k + 1);
        }
    }
}

/// A split always yields at least one segment.
pub proof fn lemma_split_cc_len(s: Seq<char>)
    ensures
        spec_split_cc(s).len() >= 1,
{
    lemma_split_cc_from_len(s, 0);
}

/// Left fold that appends `::` and the segment, for every segment.
pub open spec fn join_tail(acc: Seq<char>, segs: Seq<Seq<char>>) -> Seq<char>
    decreases segs.len(),
{
    if segs.len() == 0 {
        acc
    } else {
        join_tail(acc + colcol() + segs[0], segs.drop_first())
    }
}

/// Left fold that omits the separator while the accumulator is still empty.
pub open spec fn join_opt(acc: Seq<char>, segs: Seq<Seq<char>>) -> Seq<char>
    decreases segs.len(),
{
    if segs.len() == 0 {
        acc
    } else if acc.len() == 0 {
        join_opt(acc + segs[0], segs.drop_first())
    } else {
        join_opt(acc + colcol() + segs[0], segs.drop_first())
    }
}

/// The view of a vector of strings.
pub open spec fn strs_view(v: Seq<String>) -> Seq<Seq<char>> {
    Seq::new(v.len(), |i: int| v[i]@)
}

/// Splits `s` on the two-character separator `::`, leftmost first.
pub fn split_cc(s: &str) -> (r: Vec<String>)
    ensures
        strs_view(r@) == spec_split_cc(s@),
        r@.len() >= 1,
    decreases s@.len(),
{
    let n = s.unicode_len();
    let mut k: usize = 0;
    while n >= 2 && k <= n - 2
        invariant
            n == s@.len(),
            0 <= k <= n,
            split_cc_from(s@, 0) == split_cc_from(s@, k as int),
        decreases n - k,
    {
        if s.get_char(k) == ':' && s.get_char(k + 1) == ':' {
            let head = s.substring_char(0, k);
            let tail = s.substring_char(k + 2, n);
            let mut r = split_cc(tail);
            proof {
                lemma_split_cc_from_len(tail@, 0);
            }
            r.insert(0, head.to_owned());
            proof {
                assert(strs_view(r@) =~~= spec_split_cc(s@));
            }
            return r;
        }
        k = k + 1;
    }
    let mut r: Vec<String> = Vec::new();
    r.push(s.to_owned());
    proof {
        assert(strs_view(r@) =~~= spec_split_cc(s@));
    }
    r
}

/// Whether `s` ends in a `*`, the shape a glob import prints as.
pub open spec fn spec_ends_star(s: Seq<char>) -> bool {
    s.len() > 0 && s[s.len() - 1] == '*'
}

pub fn ends_star(s: &str) -> (r: bool)
    ensures
        r == spec_ends_star(s@),
{
    let n = s.unicode_len();
    if n == 0 {
        false
    } else {
        s.get_char(n - 1) == '*'
    }
}

/// Decimal digits of `n`, most significant first.
pub open spec fn dec_rep(n: nat) -> Seq<char>
    decreases n,
{
    if n < 10 {
        seq![digit_char(n)]
    } else {
        dec_rep(n / 10).push(digit_char(n % 10))
    }
}

pub open spec fn digit_char(d: nat) -> char {
    if d == 0 {
        '0'
    } else if d == 1 {
        '1'
    } else if d == 2 {
        '2'
    } else if d == 3 {
        '3'
    } else if d == 4 {
        '4'
    } else if d == 5 {
        '5'
    } else if d == 6 {
        '6'
    } else if d == 7 {
        '7'
    } else if d == 8 {
        '8'
    } else {
        '9'
    }
}

fn push_digit(s: &mut String, d: u64)
    requires
        d < 10,
    ensures
        final(s)@ == old(s)@.push(digit_char(d as nat)),
{
    if d == 0 {
        proof {
            reveal_strlit("0");
        }
        s.append("0");
    } else if d == 1 {
        proof {
            reveal_strlit("1");
        }
        s.append("1");
    } else if d == 2 {
        proof {
            reveal_strlit("2");
        }
        s.append("2");
    } else if d == 3 {
        proof {
            reveal_strlit("3");
        }
        s.append("3");
    } else if d == 4 {
        proof {
            reveal_strlit("4");
        }
        s.append("4");
    } else if d == 5 {
        proof {
            reveal_strlit("5");
        }
        s.append("5");
    } else if d == 6 {
        proof {
            reveal_strlit("6");
        }
        s.append("6");
    } else if d == 7 {
        proof {
            reveal_strlit("7");
        }
        s.append("7");
    } else if d == 8 {
        proof {
            reveal_strlit("8");
        }
        s.append("8");
    } else {
        proof {
            reveal_strlit("9");
        }
        s.append("9");
    }
    proof {
        assert(final(s)@ =~= old(s)@.push(digit_char(d as nat)));
    }
}

fn append_decimal(s: &mut String, n: u64)
    ensures
        final(s)@ == old(s)@ + dec_rep(n as nat),
    decreases n,
{
    if n < 10 {
        push_digit(s, n);
        proof {
            assert(final(s)@ =~= old(s)@ + dec_rep(n as nat));
        }
    } else {
        append_decimal(s, n / 10);
        push_digit(s, n % 10);
        proof {
            assert(final(s)@ =~= old(s)@ + dec_rep(n as nat));
        }
    }
}

/// Renders `n` in decimal, most significant digit first.
pub fn decimal_string(n: u64) -> (r: String)
    ensures
        r@ == dec_rep(n as nat),
{
    let mut s = String::new();
    append_decimal(&mut s, n);
    proof {
        assert(s@ =~= dec_rep(n as nat));
    }
    s
}

pub proof fn lemma_dec_rep_len(n: nat)
    ensures
        dec_rep(n).len() >= 1,
        n >= 10 ==> dec_rep(n).len() >= 2,
    decreases n,
{
    if n >= 10 {
        lemma_dec_rep_len(n / 10);
    }
}

/// Distinct numbers render as distinct digit sequences.
pub proof fn lemma_dec_rep_injective(a: nat, b: nat)
    requires
        a != b,
    ensures
        dec_rep(a) != dec_rep(b),
    decreases a + b,
{
    if a < 10 && b < 10 {
        assert(dec_rep(a)[0] == digit_char(a) && dec_rep(b)[0] == digit_char(b));
        assert(digit_char(a) != digit_char(b));
    } else if a < 10 {
        lemma_dec_rep_len(b);
        assert(dec_rep(a).len() == 1 && dec_rep(b).len() >= 2);
    } else if b < 10 {
        lemma_dec_rep_len(a);
        assert(dec_rep(b).len() == 1 && dec_rep(a).len() >= 2);
    } else {
        if a / 10 != b / 10 {
            lemma_dec_rep_injective(a / 10, b / 10);
            assert(dec_rep(a).drop_last() =~= dec_rep(a / 10));
            assert(dec_rep(b).drop_last() =~= dec_rep(b / 10));
        } else {
            assert(a % 10 != b % 10);
            assert(dec_rep(a).last() == digit_char(a % 10));
            assert(dec_rep(b).last() == digit_char(b % 10));
            assert(digit_char(a % 10) != digit_char(b % 10));
        }
    }
}

} // verus!
