//! Conversions between strings and character vectors, and small string
//! helpers shared by the JSON writer and the claim builders.

use vstd::prelude::*;

verus! {

/// Relies on std's `FromIterator` for `String`: collecting a sequence of
/// characters yields the string of exactly those characters.
#[verifier::external_body]
pub fn chars_to_string(v: &Vec<char>) -> (s: String)
    ensures
        s@ == v@,
{
    v.iter().collect()
}

/// Relies on `str::chars`: iterating a string slice yields its character
/// sequence in order.
#[verifier::external_body]
pub fn string_to_chars(s: &str) -> (v: Vec<char>)
    ensures
        v@ == s@,
{
    s.chars().collect()
}

/// Relies on `str`'s `PartialEq`: two string slices compare equal exactly
/// when they consist of the same characters.
#[verifier::external_body]
pub fn str_eq(a: &str, b: &str) -> (r: bool)
    ensures
        r == (a@ == b@),
{
    a == b
}

/// The parts joined with a single space between consecutive parts.
pub open spec fn join_spaces(parts: Seq<Seq<char>>) -> Seq<char>
    decreases parts.len(),
{
    if parts.len() == 0 {
        Seq::<char>::empty()
    } else if parts.len() == 1 {
        parts[0]
    } else {
        join_spaces(parts.drop_last()) + seq![' '] + parts.last()
    }
}

/// Appends the characters of `s` to `out`.
pub fn push_str_chars(out: &mut Vec<char>, s: &str)
    ensures
        final(out)@ == old(out)@ + s@,
{
    let mut cs: Vec<char> = string_to_chars(s);
    out.append(&mut cs);
}

/// Clones a vector of strings; the clone denotes the same sequence of
/// character sequences.
pub fn clone_string_vec(v: &Vec<String>) -> (r: Vec<String>)
    ensures
        r.deep_view() == v.deep_view(),
{
    broadcast use vstd::std_specs::vec::vec_clone_deep_view_proof;

    v.clone()
}

/// Joins the parts with single spaces; the space-joined `scope` form of a
/// permission list.
pub fn join_with_spaces(parts: &Vec<String>) -> (r: String)
    ensures
        r@ == join_spaces(parts.deep_view()),
{
    let ghost pv: Seq<Seq<char>> = parts.deep_view();
    let mut out: Vec<char> = Vec::new();
    let mut i: usize = 0;
    while i < parts.len()
        invariant
            i <= parts.len(),
            pv == parts.deep_view(),
            pv.len() == parts@.len(),
            forall|k: int| 0 <= k < pv.len() ==> pv[k] == parts@[k]@,
            out@ == join_spaces(pv.take(i as int)),
        decreases parts.len() - i,
    {
        if i > 0 {
            out.push(' ');
        }
        push_str_chars(&mut out, parts[i].as_str());
        proof {
            let t1: Seq<Seq<char>> = pv.take(i as int);
            let t2: Seq<Seq<char>> = pv.take(i + 1 as int);
            if i == 0 {
                assert(t2.len() == 1);
                assert(out@ =~= join_spaces(t2));
            } else {
                assert(t2.drop_last() =~= t1);
                assert(t2.last() == pv[i as int]);
                assert(out@ =~= join_spaces(t2));
            }
        }
        i = i + 1;
    }
    proof {
        assert(pv.take(parts@.len() as int) =~= pv);
    }
    chars_to_string(&out)
}

} // verus!
