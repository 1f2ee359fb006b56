//! Compact JWT framing: `base64url(header) . base64url(payload) .
//! base64url(signature)`, and the exact splitting of a compact token back
//! into its three parts.

use vstd::prelude::*;

use crate::error::Error;
use crate::text::{chars_to_string, string_to_chars};

verus! {

/// Whether no character of `s` is a dot; base64url text never contains one.
pub open spec fn no_dot(s: Seq<char>) -> bool {
    forall|i: int| 0 <= i < s.len() ==> s[i] != '.'
}

/// Splits `s` at its first dot: the text before it and the text after it.
pub open spec fn split_first_dot(s: Seq<char>) -> Option<(Seq<char>, Seq<char>)>
    decreases s.len(),
{
    if s.len() == 0 {
        None
    } else if s[0] == '.' {
        Some((Seq::<char>::empty(), s.skip(1)))
    } else {
        match split_first_dot(s.skip(1)) {
            Some((a, b)) => Some((seq![s[0]] + a, b)),
            None => None,
        }
    }
}

/// Splits a compact token into exactly three dot-separated parts; a token
/// with fewer or more dots has no such split.
pub open spec fn dot_split3(s: Seq<char>) -> Option<(Seq<char>, Seq<char>, Seq<char>)> {
    match split_first_dot(s) {
        Some((h, r)) => match split_first_dot(r) {
            Some((p, sig)) => if no_dot(sig) {
                Some((h, p, sig))
            } else {
                None
            },
            None => None,
        },
        None => None,
    }
}

/// Splitting at the first dot recovers a dot-free prefix.
pub proof fn lemma_split_first_dot_of(a: Seq<char>, rest: Seq<char>)
    requires
        no_dot(a),
    ensures
        split_first_dot(a + seq!['.'] + rest) == Some((a, rest)),
    decreases a.len(),
{
    let s = a + seq!['.'] + rest;
    if a.len() == 0 {
        assert(s =~= seq!['.'] + rest);
        assert(s[0] == '.');
        assert(s.skip(1) =~= rest);
        assert(a =~= Seq::<char>::empty());
    } else {
        assert(s[0] == a[0]);
        assert(s[0] != '.');
        assert(s.skip(1) =~= a.skip(1) + seq!['.'] + rest);
        assert(no_dot(a.skip(1)));
        lemma_split_first_dot_of(a.skip(1), rest);
        assert(split_first_dot(s) == Some((seq![a[0]] + a.skip(1), rest)));
        assert(seq![a[0]] + a.skip(1) =~= a);
    }
}

/// Splitting a framed token `h.p.sig` with dot-free parts yields the parts.
pub proof fn lemma_dot_split3_of(h: Seq<char>, p: Seq<char>, sig: Seq<char>)
    requires
        no_dot(h),
        no_dot(p),
        no_dot(sig),
    ensures
        dot_split3(h + seq!['.'] + p + seq!['.'] + sig) == Some((h, p, sig)),
{
    let s = h + seq!['.'] + p + seq!['.'] + sig;
    let tail = p + seq!['.'] + sig;
    assert(s =~= h + seq!['.'] + tail);
    lemma_split_first_dot_of(h, tail);
    lemma_split_first_dot_of(p, sig);
}

/// The first dot of `s` at or after `i` determines the split of the suffix.
proof fn lemma_split_at_index(s: Seq<char>, i: int, d: int)
    requires
        0 <= i <= d < s.len(),
        s[d] == '.',
        forall|j: int| i <= j < d ==> s[j] != '.',
    ensures
        split_first_dot(s.skip(i)) == Some((s.subrange(i, d), s.skip(d + 1))),
    decreases d - i,
{
    if i == d {
        assert(s.skip(i)[0] == '.');
        assert(s.skip(i).skip(1) =~= s.skip(d + 1));
        assert(s.subrange(i, d) =~= Seq::<char>::empty());
    } else {
        assert(s.skip(i)[0] == s[i]);
        assert(s[i] != '.');
        assert(s.skip(i).skip(1) =~= s.skip(i + 1));
        lemma_split_at_index(s, i + 1, d);
        assert(split_first_dot(s.skip(i)) == Some(
            (seq![s[i]] + s.subrange(i + 1, d), s.skip(d + 1)),
        ));
        assert(seq![s[i]] + s.subrange(i + 1, d) =~= s.subrange(i, d));
    }
}

/// A suffix without any dot has no split.
proof fn lemma_split_none(s: Seq<char>, i: int)
    requires
        0 <= i <= s.len(),
        forall|j: int| i <= j < s.len() ==> s[j] != '.',
    ensures
        split_first_dot(s.skip(i)) is None,
    decreases s.len() - i,
{
    if i < s.len() {
        assert(s.skip(i)[0] == s[i]);
        assert(s.skip(i).skip(1) =~= s.skip(i + 1));
        lemma_split_none(s, i + 1);
    }
}

/// The index of the first dot at or after `from`, if any.
fn find_dot(s: &Vec<char>, from: usize) -> (r: Option<usize>)
    requires
        from <= s@.len(),
    ensures
        match r {
            Some(d) => from <= d < s@.len() && s@[d as int] == '.' && (forall|j: int|
                from <= j < d ==> s@[j] != '.'),
            None => forall|j: int| from <= j < s@.len() ==> s@[j] != '.',
        },
{
    let mut i: usize = from;
    while i < s.len()
        invariant
            from <= i <= s@.len(),
            forall|j: int| from <= j < i ==> s@[j] != '.',
        decreases s@.len() - i,
    {
        if s[i] == '.' {
            return Some(i);
        }
        i = i + 1;
    }
    None
}

/// The characters of `s` from `a` to `b`, as an owned string.
fn copy_range(s: &Vec<char>, a: usize, b: usize) -> (r: String)
    requires
        a <= b <= s@.len(),
    ensures
        r@ == s@.subrange(a as int, b as int),
{
    let mut out: Vec<char> = Vec::new();
    let mut i: usize = a;
    while i < b
        invariant
            a <= i <= b <= s@.len(),
            out@ =~= s@.subrange(a as int, i as int),
        decreases b - i,
    {
        out.push(s[i]);
        proof {
            assert(out@ =~= s@.subrange(a as int, i + 1 as int));
        }
        i = i + 1;
    }
    chars_to_string(&out)
}

/// Splits a compact token into header part, payload part, signature part,
/// and the signing input (the text before the second dot), mirroring
/// [`dot_split3`] exactly.
pub fn split_token(token: &str) -> (r: Result<(String, String, String, String), Error>)
    ensures
        match r {
            Ok(p) => dot_split3(token@) == Some((p.0@, p.1@, p.2@)) && p.3@ == p.0@ + seq!['.']
                + p.1@,
            Err(e) => dot_split3(token@) is None && e == Error::MalformedToken,
        },
{
    let cs: Vec<char> = string_to_chars(token);
    let n: usize = cs.len();
    proof {
        assert(cs@.len() == n);
    }
    let d1: usize = match find_dot(&cs, 0) {
        Some(d) => d,
        None => {
            proof {
                lemma_split_none(cs@, 0);
                assert(cs@.skip(0) =~= cs@);
            }
            return Err(Error::MalformedToken);
        },
    };
    let d2: usize = match find_dot(&cs, d1 + 1) {
        Some(d) => d,
        None => {
            proof {
                lemma_split_at_index(cs@, 0, d1 as int);
                assert(cs@.skip(0) =~= cs@);
                lemma_split_none(cs@, d1 + 1 as int);
            }
            return Err(Error::MalformedToken);
        },
    };
    match find_dot(&cs, d2 + 1) {
        Some(d3) => {
            proof {
                lemma_split_at_index(cs@, 0, d1 as int);
                assert(cs@.skip(0) =~= cs@);
                lemma_split_at_index(cs@, d1 + 1 as int, d2 as int);
                assert(cs@.skip(d2 + 1 as int)[d3 - (d2 + 1)] == cs@[d3 as int]);
                assert(!no_dot(cs@.skip(d2 + 1 as int)));
            }
            Err(Error::MalformedToken)
        },
        None => {
            let h: String = copy_range(&cs, 0, d1);
            let p: String = copy_range(&cs, d1 + 1, d2);
            let sig: String = copy_range(&cs, d2 + 1, cs.len());
            let si: String = copy_range(&cs, 0, d2);
            proof {
                lemma_split_at_index(cs@, 0, d1 as int);
                assert(cs@.skip(0) =~= cs@);
                lemma_split_at_index(cs@, d1 + 1 as int, d2 as int);
                assert(cs@.skip(d2 + 1 as int) =~= cs@.subrange(d2 + 1 as int, cs@.len() as int));
                assert(no_dot(sig@));
                assert(si@ =~= h@ + seq!['.'] + p@);
            }
            Ok((h, p, sig, si))
        },
    }
}

} // verus!
