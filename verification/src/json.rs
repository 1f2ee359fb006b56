//! The JSON shape of token payloads.
//!
//! Token bodies are ordered lists of name/value entries, serialized to a
//! compact JSON object (no whitespace) in entry order. Values cover exactly
//! what claims need: null, booleans, 64-bit integers, strings, and lists of
//! strings. A later entry with the same name overwrites an earlier one when
//! the object is read back as a flat map; the serializer itself preserves
//! every entry in order.

use vstd::prelude::*;

use crate::error::Error;
use crate::text::{chars_to_string, push_str_chars, string_to_chars};

verus! {

/// A JSON value as it occurs in a token payload.
#[derive(Debug, PartialEq, Eq)]
pub enum JsonValue {
    Null,
    Bool(bool),
    Int(i64),
    Str(String),
    StrList(Vec<String>),
}

/// The mathematical shape of a [`JsonValue`].
#[verifier::ext_equal]
pub enum JsonVal {
    Null,
    Bool(bool),
    Int(int),
    Str(Seq<char>),
    StrList(Seq<Seq<char>>),
}

impl View for JsonValue {
    type V = JsonVal;

    open spec fn view(&self) -> JsonVal {
        match self {
            JsonValue::Null => JsonVal::Null,
            JsonValue::Bool(b) => JsonVal::Bool(*b),
            JsonValue::Int(i) => JsonVal::Int(*i as int),
            JsonValue::Str(s) => JsonVal::Str(s@),
            JsonValue::StrList(l) => JsonVal::StrList(l.deep_view()),
        }
    }
}

impl Clone for JsonValue {
    /// A clone denotes the same JSON value.
    fn clone(&self) -> (r: Self)
        ensures
            r@ == self@,
    {
        match self {
            JsonValue::Null => JsonValue::Null,
            JsonValue::Bool(b) => JsonValue::Bool(*b),
            JsonValue::Int(i) => JsonValue::Int(*i),
            JsonValue::Str(s) => JsonValue::Str(s.clone()),
            JsonValue::StrList(l) => JsonValue::StrList(crate::text::clone_string_vec(l)),
        }
    }
}

/// The view of an entry list: each name as characters, each value as a
/// [`JsonVal`].
pub open spec fn entries_view(es: Seq<(String, JsonValue)>) -> Seq<(Seq<char>, JsonVal)> {
    Seq::new(es.len(), |i: int| (es[i].0@, es[i].1@))
}

/// The lowercase hexadecimal digit for `n`.
pub open spec fn hex_digit(n: int) -> char {
    if n == 0 { '0' } else if n == 1 { '1' } else if n == 2 { '2' } else if n == 3 { '3' }
    else if n == 4 { '4' } else if n == 5 { '5' } else if n == 6 { '6' } else if n == 7 { '7' }
    else if n == 8 { '8' } else if n == 9 { '9' } else if n == 10 { 'a' } else if n == 11 { 'b' }
    else if n == 12 { 'c' } else if n == 13 { 'd' } else if n == 14 { 'e' } else { 'f' }
}

/// How one character appears inside a JSON string literal: quotes and
/// backslashes get a backslash escape, control characters a `\u00XX` escape,
/// every other character stands for itself.
pub open spec fn esc_char(c: char) -> Seq<char> {
    if c == '"' {
        seq!['\\', '"']
    } else if c == '\\' {
        seq!['\\', '\\']
    } else if (c as u32) < 32 {
        seq!['\\', 'u', '0', '0', hex_digit((c as u32) as int / 16), hex_digit((c as u32) as int % 16)]
    } else {
        seq![c]
    }
}

/// The escaped form of the characters of `s` from position `i` on.
pub open spec fn esc_from(s: Seq<char>, i: int) -> Seq<char>
    decreases s.len() - i,
{
    if i < 0 || i >= s.len() {
        Seq::<char>::empty()
    } else {
        esc_char(s[i]) + esc_from(s, i + 1)
    }
}

/// A JSON string literal: the escaped characters between double quotes.
pub open spec fn quoted(s: Seq<char>) -> Seq<char> {
    seq!['"'] + esc_from(s, 0) + seq!['"']
}

/// The decimal digit character for `n`.
pub open spec fn digit_char(n: int) -> char {
    if n == 0 { '0' } else if n == 1 { '1' } else if n == 2 { '2' } else if n == 3 { '3' }
    else if n == 4 { '4' } else if n == 5 { '5' } else if n == 6 { '6' } else if n == 7 { '7' }
    else if n == 8 { '8' } else { '9' }
}

/// The decimal digits of `n`, most significant first, no leading zeros.
pub open spec fn nat_chars(n: nat) -> Seq<char>
    decreases n,
{
    if n < 10 {
        seq![digit_char(n as int)]
    } else {
        nat_chars(n / 10) + seq![digit_char((n % 10) as int)]
    }
}

/// The decimal form of `i`, with a leading minus sign when negative.
pub open spec fn int_chars(i: int) -> Seq<char> {
    if i < 0 {
        seq!['-'] + nat_chars((-i) as nat)
    } else {
        nat_chars(i as nat)
    }
}

/// The comma-separated string literals of `l` from position `i` on; the
/// element at position 0 carries no leading comma.
pub open spec fn list_items(l: Seq<Seq<char>>, i: int) -> Seq<char>
    decreases l.len() - i,
{
    if i < 0 || i >= l.len() {
        Seq::<char>::empty()
    } else if i == 0 {
        quoted(l[0]) + list_items(l, 1)
    } else {
        seq![','] + quoted(l[i]) + list_items(l, i + 1)
    }
}

/// A JSON array of string literals.
pub open spec fn strlist_chars(l: Seq<Seq<char>>) -> Seq<char> {
    seq!['['] + list_items(l, 0) + seq![']']
}

/// The JSON text of one value.
pub open spec fn val_chars(v: JsonVal) -> Seq<char> {
    match v {
        JsonVal::Null => seq!['n', 'u', 'l', 'l'],
        JsonVal::Bool(b) => if b {
            seq!['t', 'r', 'u', 'e']
        } else {
            seq!['f', 'a', 'l', 's', 'e']
        },
        JsonVal::Int(i) => int_chars(i),
        JsonVal::Str(s) => quoted(s),
        JsonVal::StrList(l) => strlist_chars(l),
    }
}

/// The JSON text of one `name:value` member.
pub open spec fn entry_chars(k: Seq<char>, v: JsonVal) -> Seq<char> {
    quoted(k) + seq![':'] + val_chars(v)
}

/// The comma-separated members of `es` from position `i` on; the member at
/// position 0 carries no leading comma.
pub open spec fn obj_items(es: Seq<(Seq<char>, JsonVal)>, i: int) -> Seq<char>
    decreases es.len() - i,
{
    if i < 0 || i >= es.len() {
        Seq::<char>::empty()
    } else if i == 0 {
        entry_chars(es[0].0, es[0].1) + obj_items(es, 1)
    } else {
        seq![','] + entry_chars(es[i].0, es[i].1) + obj_items(es, i + 1)
    }
}

/// The compact JSON object over the entries, in entry order.
pub open spec fn obj_chars(es: Seq<(Seq<char>, JsonVal)>) -> Seq<char> {
    seq!['{'] + obj_items(es, 0) + seq!['}']
}

/// Whether `c` is a decimal digit.
pub open spec fn is_digit(c: char) -> bool {
    48 <= (c as u32) <= 57
}

/// The numeric value of a decimal digit character.
pub open spec fn digit_val(c: char) -> int {
    (c as u32) - 48
}

/// Whether `c` is a lowercase hexadecimal digit.
pub open spec fn is_hex(c: char) -> bool {
    is_digit(c) || 97 <= (c as u32) <= 102
}

/// The numeric value of a lowercase hexadecimal digit character.
pub open spec fn hex_val(c: char) -> int {
    if is_digit(c) {
        digit_val(c)
    } else {
        (c as u32) - 87
    }
}

/// Parses the body of a JSON string literal (the opening quote already
/// consumed) up to and including the closing quote: the decoded characters
/// and the remaining input.
pub open spec fn sp_str_body(s: Seq<char>) -> Option<(Seq<char>, Seq<char>)>
    decreases s.len(),
{
    if s.len() == 0 {
        None
    } else if s[0] == '"' {
        Some((Seq::<char>::empty(), s.skip(1)))
    } else if s[0] == '\\' {
        if s.len() < 2 {
            None
        } else {
            let e = s[1];
            if e == '"' || e == '\\' || e == '/' {
                match sp_str_body(s.skip(2)) {
                    Some((t, r)) => Some((seq![e] + t, r)),
                    None => None,
                }
            } else if e == 'n' || e == 't' || e == 'r' || e == 'b' || e == 'f' {
                let c = if e == 'n' { '\n' } else if e == 't' { '\t' } else if e == 'r' { '\r' }
                    else if e == 'b' { '\u{0008}' } else { '\u{000c}' };
                match sp_str_body(s.skip(2)) {
                    Some((t, r)) => Some((seq![c] + t, r)),
                    None => None,
                }
            } else if e == 'u' {
                if s.len() >= 6 && s[2] == '0' && s[3] == '0' && is_hex(s[4]) && is_hex(s[5]) {
                    let c = ((16 * hex_val(s[4]) + hex_val(s[5])) as u32) as char;
                    match sp_str_body(s.skip(6)) {
                        Some((t, r)) => Some((seq![c] + t, r)),
                        None => None,
                    }
                } else {
                    None
                }
            } else {
                None
            }
        }
    } else {
        match sp_str_body(s.skip(1)) {
            Some((t, r)) => Some((seq![s[0]] + t, r)),
            None => None,
        }
    }
}

/// A successful string-body parse consumes at least the closing quote.
pub proof fn lemma_str_body_shrinks(s: Seq<char>)
    ensures
        sp_str_body(s) matches Some(p) ==> p.1.len() < s.len(),
    decreases s.len(),
{
    if s.len() == 0 {
    } else if s[0] == '"' {
    } else if s[0] == '\\' {
        if s.len() >= 2 {
            lemma_str_body_shrinks(s.skip(2));
            if s.len() >= 6 {
                lemma_str_body_shrinks(s.skip(6));
            }
        }
    } else {
        lemma_str_body_shrinks(s.skip(1));
    }
}

/// Splits `s` into its maximal leading run of decimal digits and the rest.
pub open spec fn sp_digit_run(s: Seq<char>) -> (Seq<char>, Seq<char>)
    decreases s.len(),
{
    if s.len() > 0 && is_digit(s[0]) {
        let (d, r) = sp_digit_run(s.skip(1));
        (seq![s[0]] + d, r)
    } else {
        (Seq::<char>::empty(), s)
    }
}

/// The number denoted by a run of decimal digits, most significant first.
pub open spec fn digits_val(ds: Seq<char>) -> int
    decreases ds.len(),
{
    if ds.len() == 0 {
        0
    } else {
        digits_val(ds.drop_last()) * 10 + digit_val(ds.last())
    }
}

/// The digit run and the unconsumed rest partition the input.
pub proof fn lemma_digit_run_splits(s: Seq<char>)
    ensures
        sp_digit_run(s).0 + sp_digit_run(s).1 =~= s,
        sp_digit_run(s).1.len() + sp_digit_run(s).0.len() == s.len(),
    decreases s.len(),
{
    if s.len() > 0 && is_digit(s[0]) {
        lemma_digit_run_splits(s.skip(1));
        assert(sp_digit_run(s).0 =~= seq![s[0]] + sp_digit_run(s.skip(1)).0);
        assert(sp_digit_run(s).0 + sp_digit_run(s).1 =~= seq![s[0]] + (sp_digit_run(s.skip(1)).0
            + sp_digit_run(s.skip(1)).1));
        assert(seq![s[0]] + s.skip(1) =~= s);
    }
}

/// Parses an optionally signed decimal integer: its value and the remaining
/// input. The value is unbounded here; the value parser bounds it.
pub open spec fn sp_int(s: Seq<char>) -> Option<(int, Seq<char>)> {
    if s.len() >= 1 && s[0] == '-' {
        let (ds, r) = sp_digit_run(s.skip(1));
        if ds.len() == 0 {
            None
        } else {
            Some((-digits_val(ds), r))
        }
    } else {
        let (ds, r) = sp_digit_run(s);
        if ds.len() == 0 {
            None
        } else {
            Some((digits_val(ds), r))
        }
    }
}

/// Parses the items of a JSON string array after the first item: either the
/// closing bracket, or a comma followed by a string literal and more items.
pub open spec fn sp_list_rest(s: Seq<char>) -> Option<(Seq<Seq<char>>, Seq<char>)>
    decreases s.len(),
    via sp_list_rest_dec
{
    if s.len() == 0 {
        None
    } else if s[0] == ']' {
        Some((Seq::<Seq<char>>::empty(), s.skip(1)))
    } else if s[0] == ',' && s.len() >= 2 && s[1] == '"' {
        match sp_str_body(s.skip(2)) {
            Some((x, r)) => match sp_list_rest(r) {
                Some((t, r2)) => Some((seq![x] + t, r2)),
                None => None,
            },
            None => None,
        }
    } else {
        None
    }
}

#[via_fn]
proof fn sp_list_rest_dec(s: Seq<char>) {
    if s.len() >= 2 && s[0] == ',' && s[1] == '"' {
        lemma_str_body_shrinks(s.skip(2));
    }
}

/// Parses a whole JSON string array after its opening bracket.
pub open spec fn sp_list_items(s: Seq<char>) -> Option<(Seq<Seq<char>>, Seq<char>)> {
    if s.len() == 0 {
        None
    } else if s[0] == ']' {
        Some((Seq::<Seq<char>>::empty(), s.skip(1)))
    } else if s[0] == '"' {
        match sp_str_body(s.skip(1)) {
            Some((x, r)) => match sp_list_rest(r) {
                Some((t, r2)) => Some((seq![x] + t, r2)),
                None => None,
            },
            None => None,
        }
    } else {
        None
    }
}

/// Parses one JSON value of the payload subset: null, booleans, 64-bit
/// integers, string literals, and arrays of string literals.
pub open spec fn sp_value(s: Seq<char>) -> Option<(JsonVal, Seq<char>)> {
    if s.len() == 0 {
        None
    } else if s[0] == '"' {
        match sp_str_body(s.skip(1)) {
            Some((x, r)) => Some((JsonVal::Str(x), r)),
            None => None,
        }
    } else if s[0] == '[' {
        match sp_list_items(s.skip(1)) {
            Some((l, r)) => Some((JsonVal::StrList(l), r)),
            None => None,
        }
    } else if s[0] == 'n' {
        if s.len() >= 4 && s[1] == 'u' && s[2] == 'l' && s[3] == 'l' {
            Some((JsonVal::Null, s.skip(4)))
        } else {
            None
        }
    } else if s[0] == 't' {
        if s.len() >= 4 && s[1] == 'r' && s[2] == 'u' && s[3] == 'e' {
            Some((JsonVal::Bool(true), s.skip(4)))
        } else {
            None
        }
    } else if s[0] == 'f' {
        if s.len() >= 5 && s[1] == 'a' && s[2] == 'l' && s[3] == 's' && s[4] == 'e' {
            Some((JsonVal::Bool(false), s.skip(5)))
        } else {
            None
        }
    } else {
        match sp_int(s) {
            Some((v, r)) => {
                if -0x8000_0000_0000_0000 <= v <= 0x7fff_ffff_ffff_ffff {
                    Some((JsonVal::Int(v), r))
                } else {
                    None
                }
            },
            None => None,
        }
    }
}

/// A successful value parse consumes at least one character.
pub proof fn lemma_value_shrinks(s: Seq<char>)
    ensures
        sp_value(s) matches Some(p) ==> p.1.len() < s.len(),
{
    if s.len() == 0 {
    } else if s[0] == '"' {
        lemma_str_body_shrinks(s.skip(1));
    } else if s[0] == '[' {
        if s.len() >= 1 {
            lemma_list_items_shrinks(s.skip(1));
        }
    } else if s[0] == 'n' || s[0] == 't' || s[0] == 'f' {
    } else {
        if s.len() >= 1 && s[0] == '-' {
            lemma_digit_run_splits(s.skip(1));
        } else {
            lemma_digit_run_splits(s);
        }
    }
}

/// A successful array parse consumes at least the closing bracket.
pub proof fn lemma_list_rest_shrinks(s: Seq<char>)
    ensures
        sp_list_rest(s) matches Some(p) ==> p.1.len() < s.len(),
    decreases s.len(),
{
    if s.len() >= 2 && s[0] == ',' && s[1] == '"' {
        lemma_str_body_shrinks(s.skip(2));
        match sp_str_body(s.skip(2)) {
            Some((x, r)) => {
                lemma_list_rest_shrinks(r);
            },
            None => {},
        }
    }
}

/// A successful array-items parse consumes at least the closing bracket.
pub proof fn lemma_list_items_shrinks(s: Seq<char>)
    ensures
        sp_list_items(s) matches Some(p) ==> p.1.len() < s.len(),
{
    if s.len() > 0 && s[0] == '"' {
        lemma_str_body_shrinks(s.skip(1));
        match sp_str_body(s.skip(1)) {
            Some((x, r)) => {
                lemma_list_rest_shrinks(r);
            },
            None => {},
        }
    }
}

/// Parses the members of a JSON object after the first member: either the
/// closing brace, or a comma followed by a further member and more members.
pub open spec fn sp_members_rest(s: Seq<char>) -> Option<(Seq<(Seq<char>, JsonVal)>, Seq<char>)>
    decreases s.len(),
    via sp_members_rest_dec
{
    if s.len() == 0 {
        None
    } else if s[0] == '}' {
        Some((Seq::<(Seq<char>, JsonVal)>::empty(), s.skip(1)))
    } else if s[0] == ',' && s.len() >= 2 && s[1] == '"' {
        match sp_str_body(s.skip(2)) {
            Some((k, r)) => {
                if r.len() >= 1 && r[0] == ':' {
                    match sp_value(r.skip(1)) {
                        Some((v, r2)) => match sp_members_rest(r2) {
                            Some((t, r3)) => Some((seq![(k, v)] + t, r3)),
                            None => None,
                        },
                        None => None,
                    }
                } else {
                    None
                }
            },
            None => None,
        }
    } else {
        None
    }
}

#[via_fn]
proof fn sp_members_rest_dec(s: Seq<char>) {
    if s.len() >= 2 && s[0] == ',' && s[1] == '"' {
        lemma_str_body_shrinks(s.skip(2));
        match sp_str_body(s.skip(2)) {
            Some((k, r)) => {
                if r.len() >= 1 && r[0] == ':' {
                    lemma_value_shrinks(r.skip(1));
                }
            },
            None => {},
        }
    }
}

/// Parses the members of a JSON object after its opening brace.
pub open spec fn sp_members(s: Seq<char>) -> Option<(Seq<(Seq<char>, JsonVal)>, Seq<char>)> {
    if s.len() == 0 {
        None
    } else if s[0] == '}' {
        Some((Seq::<(Seq<char>, JsonVal)>::empty(), s.skip(1)))
    } else if s[0] == '"' {
        match sp_str_body(s.skip(1)) {
            Some((k, r)) => {
                if r.len() >= 1 && r[0] == ':' {
                    match sp_value(r.skip(1)) {
                        Some((v, r2)) => match sp_members_rest(r2) {
                            Some((t, r3)) => Some((seq![(k, v)] + t, r3)),
                            None => None,
                        },
                        None => None,
                    }
                } else {
                    None
                }
            },
            None => None,
        }
    } else {
        None
    }
}

/// Parses a complete JSON object, requiring all input consumed: the entry
/// list in textual order, duplicates preserved.
pub open spec fn sp_json(s: Seq<char>) -> Option<Seq<(Seq<char>, JsonVal)>> {
    if s.len() >= 1 && s[0] == '{' {
        match sp_members(s.skip(1)) {
            Some((es, r)) => {
                if r.len() == 0 {
                    Some(es)
                } else {
                    None
                }
            },
            None => None,
        }
    } else {
        None
    }
}

/// The value of the last entry named `k`, if any: the flat-map reading of an
/// entry list, where a later duplicate overwrites an earlier one.
pub open spec fn lookup_last(es: Seq<(Seq<char>, JsonVal)>, k: Seq<char>) -> Option<JsonVal>
    decreases es.len(),
{
    if es.len() == 0 {
        None
    } else if es.last().0 == k {
        Some(es.last().1)
    } else {
        lookup_last(es.drop_last(), k)
    }
}

/// Whether a value can be carried by an executable [`JsonValue`]: integers
/// fit in 64 bits.
pub open spec fn val_wf(v: JsonVal) -> bool {
    match v {
        JsonVal::Int(i) => -0x8000_0000_0000_0000 <= i <= 0x7fff_ffff_ffff_ffff,
        _ => true,
    }
}

/// Whether every value of the entry list is executable.
pub open spec fn entries_wf(es: Seq<(Seq<char>, JsonVal)>) -> bool {
    forall|j: int| 0 <= j < es.len() ==> val_wf(#[trigger] es[j].1)
}

/// The hexadecimal digit characters decode to their values.
pub proof fn lemma_hex_digit_val(n: int)
    requires
        0 <= n < 16,
    ensures
        is_hex(hex_digit(n)),
        hex_val(hex_digit(n)) == n,
{
}

/// The decimal digit characters decode to their values.
pub proof fn lemma_digit_char_val(n: int)
    requires
        0 <= n < 10,
    ensures
        is_digit(digit_char(n)),
        digit_val(digit_char(n)) == n,
{
}

/// Parsing a string body recovers the escaped characters: the body formed by
/// escaping `x` from position `i`, a closing quote, and any rest parses to
/// exactly the characters of `x` from `i` with that rest unconsumed.
pub proof fn lemma_str_body_of_escaped(x: Seq<char>, i: int, rest: Seq<char>)
    requires
        0 <= i <= x.len(),
    ensures
        sp_str_body(esc_from(x, i) + seq!['"'] + rest) == Some((x.skip(i), rest)),
    decreases x.len() - i,
{
    let s = esc_from(x, i) + seq!['"'] + rest;
    if i == x.len() {
        assert(s =~= seq!['"'] + rest);
        assert(s[0] == '"');
        assert(s.skip(1) =~= rest);
        assert(x.skip(i) =~= Seq::<char>::empty());
    } else {
        let c = x[i];
        let t = esc_from(x, i + 1) + seq!['"'] + rest;
        lemma_str_body_of_escaped(x, i + 1, rest);
        assert(esc_from(x, i) == esc_char(c) + esc_from(x, i + 1));
        if c == '"' {
            assert(s =~= seq!['\\', '"'] + t);
            assert(s[0] == '\\' && s[1] == '"');
            assert(s.skip(2) =~= t);
            assert(seq![c] + x.skip(i + 1) =~= x.skip(i));
        } else if c == '\\' {
            assert(s =~= seq!['\\', '\\'] + t);
            assert(s[0] == '\\' && s[1] == '\\');
            assert(s.skip(2) =~= t);
            assert(seq![c] + x.skip(i + 1) =~= x.skip(i));
        } else if (c as u32) < 32 {
            let code = (c as u32) as int;
            let h1 = hex_digit(code / 16);
            let h2 = hex_digit(code % 16);
            assert(s =~= seq!['\\', 'u', '0', '0', h1, h2] + t);
            assert(s[0] == '\\' && s[1] == 'u');
            lemma_hex_digit_val(code / 16);
            lemma_hex_digit_val(code % 16);
            assert(s[2] == '0' && s[3] == '0' && is_hex(s[4]) && is_hex(s[5]));
            assert(s[1] != '"' && s[1] != '\\' && s[1] != '/');
            assert(s[1] != 'n' && s[1] != 't' && s[1] != 'r' && s[1] != 'b' && s[1] != 'f');
            assert(16 * (code / 16) + code % 16 == code);
            assert(16 * hex_val(s[4]) + hex_val(s[5]) == code);
            assert((c as u32) as int == code);
            vstd::utf8::char_u32_cast(c, c as u32);
            assert((code as u32) as char == c);
            assert(s.skip(6) =~= t);
            assert(seq![c] + x.skip(i + 1) =~= x.skip(i));
        } else {
            assert(s =~= seq![c] + t);
            assert(s[0] == c);
            assert(s[0] != '"' && s[0] != '\\');
            assert(s.skip(1) =~= t);
            assert(seq![c] + x.skip(i + 1) =~= x.skip(i));
        }
    }
}

/// Every character of `nat_chars(n)` is a digit, and there is at least one.
pub proof fn lemma_nat_chars_digits(n: nat)
    ensures
        nat_chars(n).len() >= 1,
        forall|j: int| 0 <= j < nat_chars(n).len() ==> is_digit(#[trigger] nat_chars(n)[j]),
    decreases n,
{
    if n < 10 {
        lemma_digit_char_val(n as int);
    } else {
        lemma_nat_chars_digits(n / 10);
        lemma_digit_char_val((n % 10) as int);
    }
}

/// The leading digit run of a digit string followed by a non-digit is that
/// digit string.
pub proof fn lemma_digit_run_of_digits(ds: Seq<char>, rest: Seq<char>)
    requires
        forall|j: int| 0 <= j < ds.len() ==> is_digit(#[trigger] ds[j]),
        rest.len() == 0 || !is_digit(rest[0]),
    ensures
        sp_digit_run(ds + rest) == (ds, rest),
    decreases ds.len(),
{
    let s = ds + rest;
    if ds.len() == 0 {
        assert(s =~= rest);
    } else {
        assert(s[0] == ds[0]);
        assert(s.skip(1) =~= ds.skip(1) + rest);
        lemma_digit_run_of_digits(ds.skip(1), rest);
        assert(sp_digit_run(s.skip(1)) == (ds.skip(1), rest));
        assert(sp_digit_run(s).0 == seq![s[0]] + sp_digit_run(s.skip(1)).0);
        assert(sp_digit_run(s).0 =~= ds);
        assert(sp_digit_run(s).1 == rest);
    }
}

/// The decimal digits of `n` denote `n`.
pub proof fn lemma_digits_val_nat_chars(n: nat)
    ensures
        digits_val(nat_chars(n)) == n,
    decreases n,
{
    if n < 10 {
        lemma_digit_char_val(n as int);
        let ds = nat_chars(n);
        assert(ds == seq![digit_char(n as int)]);
        assert(ds.drop_last() =~= Seq::<char>::empty());
        assert(digits_val(Seq::<char>::empty()) == 0);
        assert(ds.last() == digit_char(n as int));
        assert(digits_val(ds) == 0 * 10 + digit_val(digit_char(n as int)));
    } else {
        lemma_digits_val_nat_chars(n / 10);
        lemma_nat_chars_digits(n / 10);
        lemma_digit_char_val((n % 10) as int);
        let ds = nat_chars(n);
        assert(ds == nat_chars(n / 10) + seq![digit_char((n % 10) as int)]);
        assert(ds.len() == nat_chars(n / 10).len() + 1);
        assert(ds.drop_last() =~= nat_chars(n / 10));
        assert(ds.last() == digit_char((n % 10) as int));
        assert(digits_val(ds) == digits_val(ds.drop_last()) * 10 + digit_val(ds.last()));
        assert(digits_val(ds) == (n / 10) * 10 + n % 10);
        assert((n / 10) * 10 + n % 10 == n) by (nonlinear_arith);
    }
}

/// Parsing an integer recovers the number written by `int_chars`, provided
/// what follows does not begin with a digit.
pub proof fn lemma_int_of_chars(v: int, rest: Seq<char>)
    requires
        rest.len() == 0 || !is_digit(rest[0]),
    ensures
        sp_int(int_chars(v) + rest) == Some((v, rest)),
{
    let s = int_chars(v) + rest;
    if v < 0 {
        let m = (-v) as nat;
        lemma_nat_chars_digits(m);
        lemma_digits_val_nat_chars(m);
        assert(s[0] == '-');
        assert(s.skip(1) =~= nat_chars(m) + rest);
        lemma_digit_run_of_digits(nat_chars(m), rest);
    } else {
        let m = v as nat;
        lemma_nat_chars_digits(m);
        lemma_digits_val_nat_chars(m);
        assert(s =~= nat_chars(m) + rest);
        assert(is_digit(s[0]));
        assert(s[0] != '-');
        lemma_digit_run_of_digits(nat_chars(m), rest);
    }
}

/// Parsing array items recovers the string elements written by
/// `list_items` from position `i` on.
pub proof fn lemma_list_rest_of_items(l: Seq<Seq<char>>, i: int, rest: Seq<char>)
    requires
        1 <= i <= l.len(),
    ensures
        sp_list_rest(list_items(l, i) + seq![']'] + rest) == Some((l.skip(i), rest)),
    decreases l.len() - i,
{
    let s = list_items(l, i) + seq![']'] + rest;
    if i == l.len() {
        assert(s =~= seq![']'] + rest);
        assert(s[0] == ']');
        assert(s.skip(1) =~= rest);
        assert(l.skip(i) =~= Seq::<Seq<char>>::empty());
    } else {
        let t = list_items(l, i + 1) + seq![']'] + rest;
        assert(list_items(l, i) == seq![','] + quoted(l[i]) + list_items(l, i + 1));
        assert(s =~= seq![',', '"'] + (esc_from(l[i], 0) + seq!['"'] + t));
        assert(s[0] == ',' && s[1] == '"');
        assert(s.skip(2) =~= esc_from(l[i], 0) + seq!['"'] + t);
        lemma_str_body_of_escaped(l[i], 0, t);
        assert(l[i].skip(0) =~= l[i]);
        lemma_list_rest_of_items(l, i + 1, rest);
        assert(sp_list_rest(s) == Some((seq![l[i]] + l.skip(i + 1), rest)));
        assert(seq![l[i]] + l.skip(i + 1) =~= l.skip(i));
    }
}

/// Parsing a whole array recovers the string elements written by
/// `strlist_chars`.
pub proof fn lemma_list_items_of(l: Seq<Seq<char>>, rest: Seq<char>)
    ensures
        sp_list_items(list_items(l, 0) + seq![']'] + rest) == Some((l, rest)),
{
    let s = list_items(l, 0) + seq![']'] + rest;
    if l.len() == 0 {
        assert(s =~= seq![']'] + rest);
        assert(s[0] == ']');
        assert(s.skip(1) =~= rest);
        assert(sp_list_items(s) == Some((Seq::<Seq<char>>::empty(), rest)));
    } else {
        let t = list_items(l, 1) + seq![']'] + rest;
        assert(list_items(l, 0) == quoted(l[0]) + list_items(l, 1));
        assert(s =~= seq!['"'] + (esc_from(l[0], 0) + seq!['"'] + t));
        assert(s[0] == '"');
        assert(s.skip(1) =~= esc_from(l[0], 0) + seq!['"'] + t);
        lemma_str_body_of_escaped(l[0], 0, t);
        assert(l[0].skip(0) =~= l[0]);
        if l.len() == 1 {
            assert(t =~= seq![']'] + rest);
            assert(sp_list_rest(t) == Some((Seq::<Seq<char>>::empty(), rest)));
            assert(l.skip(1) =~= Seq::<Seq<char>>::empty());
        } else {
            lemma_list_rest_of_items(l, 1, rest);
        }
        assert(sp_list_items(s) == Some((seq![l[0]] + l.skip(1), rest)));
        assert(seq![l[0]] + l.skip(1) =~= l);
    }
}

/// Parsing a value recovers the value written by `val_chars`, provided the
/// value is executable and what follows does not begin with a digit.
#[verifier::rlimit(60)]
pub proof fn lemma_value_of_chars(v: JsonVal, rest: Seq<char>)
    requires
        val_wf(v),
        rest.len() == 0 || !is_digit(rest[0]),
    ensures
        sp_value(val_chars(v) + rest) == Some((v, rest)),
{
    let s = val_chars(v) + rest;
    match v {
        JsonVal::Null => {
            assert(s =~= seq!['n', 'u', 'l', 'l'] + rest);
            assert(s.skip(4) =~= rest);
        },
        JsonVal::Bool(b) => {
            if b {
                assert(s =~= seq!['t', 'r', 'u', 'e'] + rest);
                assert(s.skip(4) =~= rest);
            } else {
                assert(s =~= seq!['f', 'a', 'l', 's', 'e'] + rest);
                assert(s.skip(5) =~= rest);
            }
        },
        JsonVal::Int(i) => {
            lemma_int_of_chars(i, rest);
            if i < 0 {
                assert(s[0] == '-');
            } else {
                lemma_nat_chars_digits(i as nat);
                assert(s[0] == nat_chars(i as nat)[0]);
                assert(is_digit(s[0]));
            }
            assert(s[0] != '"' && s[0] != '[' && s[0] != 'n' && s[0] != 't' && s[0] != 'f');
        },
        JsonVal::Str(x) => {
            assert(s =~= seq!['"'] + (esc_from(x, 0) + seq!['"'] + rest));
            assert(s[0] == '"');
            assert(s.skip(1) =~= esc_from(x, 0) + seq!['"'] + rest);
            lemma_str_body_of_escaped(x, 0, rest);
            assert(x.skip(0) =~= x);
        },
        JsonVal::StrList(l) => {
            assert(s =~= seq!['['] + (list_items(l, 0) + seq![']'] + rest));
            assert(s[0] == '[');
            assert(s.skip(1) =~= list_items(l, 0) + seq![']'] + rest);
            lemma_list_items_of(l, rest);
        },
    }
}

/// Parsing object members recovers the entries written by `obj_items` from
/// position `i` on.
#[verifier::rlimit(60)]
pub proof fn lemma_members_rest_of_items(es: Seq<(Seq<char>, JsonVal)>, i: int, rest: Seq<char>)
    requires
        entries_wf(es),
        1 <= i <= es.len(),
    ensures
        sp_members_rest(obj_items(es, i) + seq!['}'] + rest) == Some((es.skip(i), rest)),
    decreases es.len() - i,
{
    let s = obj_items(es, i) + seq!['}'] + rest;
    if i == es.len() {
        assert(s =~= seq!['}'] + rest);
        assert(s[0] == '}');
        assert(s.skip(1) =~= rest);
        assert(es.skip(i) =~= Seq::<(Seq<char>, JsonVal)>::empty());
    } else {
        let k = es[i].0;
        let v = es[i].1;
        let after_val = obj_items(es, i + 1) + seq!['}'] + rest;
        let after_key = seq![':'] + val_chars(v) + after_val;
        assert(obj_items(es, i) == seq![','] + entry_chars(k, v) + obj_items(es, i + 1));
        assert(s =~= seq![',', '"'] + (esc_from(k, 0) + seq!['"'] + after_key));
        assert(s[0] == ',' && s[1] == '"');
        assert(s.skip(2) =~= esc_from(k, 0) + seq!['"'] + after_key);
        lemma_str_body_of_escaped(k, 0, after_key);
        assert(k.skip(0) =~= k);
        assert(after_key[0] == ':');
        assert(after_key.skip(1) =~= val_chars(v) + after_val);
        if i + 1 == es.len() {
            assert(after_val =~= seq!['}'] + rest);
            assert(after_val[0] == '}');
        } else {
            assert(obj_items(es, i + 1) == seq![','] + entry_chars(es[i + 1].0, es[i + 1].1)
                + obj_items(es, i + 2));
            assert(after_val[0] == ',');
        }
        assert(!is_digit(after_val[0]));
        lemma_value_of_chars(v, after_val);
        lemma_members_rest_of_items(es, i + 1, rest);
        assert(sp_members_rest(s) == Some((seq![(k, v)] + es.skip(i + 1), rest)));
        assert(seq![(k, v)] + es.skip(i + 1) =~= es.skip(i));
    }
}

/// Parsing the serialized object text of an executable entry list yields
/// exactly those entries: the serializer and the parser invert one another.
#[verifier::rlimit(60)]
pub proof fn lemma_sp_json_of_obj(es: Seq<(Seq<char>, JsonVal)>)
    requires
        entries_wf(es),
    ensures
        sp_json(obj_chars(es)) == Some(es),
{
    let s = obj_chars(es);
    assert(s[0] == '{');
    if es.len() == 0 {
        assert(s =~= seq!['{', '}']);
        assert(s.skip(1) =~= seq!['}']);
        assert(s.skip(1).skip(1) =~= Seq::<char>::empty());
        assert(sp_members(s.skip(1)) == Some((Seq::<(Seq<char>, JsonVal)>::empty(),
            Seq::<char>::empty())));
        assert(es =~= Seq::<(Seq<char>, JsonVal)>::empty());
    } else {
        let k = es[0].0;
        let v = es[0].1;
        let after_val = obj_items(es, 1) + seq!['}'] + Seq::<char>::empty();
        let after_key = seq![':'] + val_chars(v) + after_val;
        assert(obj_items(es, 0) == entry_chars(k, v) + obj_items(es, 1));
        assert(s.skip(1) =~= seq!['"'] + (esc_from(k, 0) + seq!['"'] + after_key));
        assert(s.skip(1)[0] == '"');
        assert(s.skip(1).skip(1) =~= esc_from(k, 0) + seq!['"'] + after_key);
        lemma_str_body_of_escaped(k, 0, after_key);
        assert(k.skip(0) =~= k);
        assert(after_key[0] == ':');
        assert(after_key.skip(1) =~= val_chars(v) + after_val);
        if es.len() == 1 {
            assert(after_val =~= seq!['}']);
            assert(after_val[0] == '}');
        } else {
            assert(obj_items(es, 1) == seq![','] + entry_chars(es[1].0, es[1].1) + obj_items(es,
                2));
            assert(after_val[0] == ',');
        }
        assert(!is_digit(after_val[0]));
        lemma_value_of_chars(v, after_val);
        if es.len() == 1 {
            assert(sp_members_rest(after_val) == Some((Seq::<(Seq<char>, JsonVal)>::empty(),
                Seq::<char>::empty())));
            assert(es.skip(1) =~= Seq::<(Seq<char>, JsonVal)>::empty());
        } else {
            lemma_members_rest_of_items(es, 1, Seq::<char>::empty());
        }
        assert(sp_members(s.skip(1)) == Some((seq![(k, v)] + es.skip(1), Seq::<char>::empty())));
        assert(seq![(k, v)] + es.skip(1) =~= es);
    }
}

/// The decimal digit character for `n`, executably.
fn digit_char_exec(n: u8) -> (c: char)
    requires
        n < 10,
    ensures
        c == digit_char(n as int),
{
    if n == 0 { '0' } else if n == 1 { '1' } else if n == 2 { '2' } else if n == 3 { '3' }
    else if n == 4 { '4' } else if n == 5 { '5' } else if n == 6 { '6' } else if n == 7 { '7' }
    else if n == 8 { '8' } else { '9' }
}

/// The lowercase hexadecimal digit character for `n`, executably.
fn hex_char_exec(n: u8) -> (c: char)
    requires
        n < 16,
    ensures
        c == hex_digit(n as int),
{
    if n < 10 {
        digit_char_exec(n)
    } else if n == 10 { 'a' } else if n == 11 { 'b' } else if n == 12 { 'c' }
    else if n == 13 { 'd' } else if n == 14 { 'e' } else { 'f' }
}

/// Appends the escaped form of `c`.
fn push_esc_char(out: &mut Vec<char>, c: char)
    ensures
        final(out)@ == old(out)@ + esc_char(c),
{
    if c == '"' {
        out.push('\\');
        out.push('"');
    } else if c == '\\' {
        out.push('\\');
        out.push('\\');
    } else {
        let code: u32 = c as u32;
        if code < 32 {
            out.push('\\');
            out.push('u');
            out.push('0');
            out.push('0');
            out.push(hex_char_exec((code / 16) as u8));
            out.push(hex_char_exec((code % 16) as u8));
        } else {
            out.push(c);
        }
    }
    proof {
        assert(final(out)@ =~= old(out)@ + esc_char(c));
    }
}

/// Appends the JSON string literal for `s`.
fn push_quoted(out: &mut Vec<char>, s: &str)
    ensures
        final(out)@ == old(out)@ + quoted(s@),
{
    out.push('"');
    let cs: Vec<char> = string_to_chars(s);
    let mut j: usize = 0;
    while j < cs.len()
        invariant
            j <= cs.len(),
            cs@ == s@,
            out@ + esc_from(s@, j as int) == old(out)@ + seq!['"'] + esc_from(s@, 0),
        decreases cs.len() - j,
    {
        push_esc_char(out, cs[j]);
        j = j + 1;
    }
    out.push('"');
    proof {
        assert(final(out)@ =~= old(out)@ + quoted(s@));
    }
}

/// Appends the decimal form of `v`.
fn push_int(out: &mut Vec<char>, v: i64)
    ensures
        final(out)@ == old(out)@ + int_chars(v as int),
{
    if v < 0 {
        out.push('-');
    }
    let m128: i128 = v as i128;
    let mag: i128 = if m128 < 0 { -m128 } else { m128 };
    let mut u: u64 = mag as u64;
    let ghost orig: nat = u as nat;
    let mut rev: Vec<char> = Vec::new();
    while u >= 10
        invariant
            nat_chars(orig) == nat_chars(u as nat) + rev@.reverse(),
        decreases u,
    {
        let d: u64 = u % 10;
        rev.push(digit_char_exec(d as u8));
        proof {
            assert(rev@.reverse() =~= seq![digit_char(d as int)] + rev@.drop_last().reverse());
        }
        u = u / 10;
    }
    rev.push(digit_char_exec(u as u8));
    proof {
        assert(rev@.reverse() =~= seq![digit_char(u as int)] + rev@.drop_last().reverse());
        assert(nat_chars(orig) =~= rev@.reverse());
    }
    let ghost mid: Seq<char> = out@;
    let mut k: usize = rev.len();
    while k > 0
        invariant
            k <= rev@.len(),
            nat_chars(orig) == rev@.reverse(),
            out@ == mid + rev@.skip(k as int).reverse(),
        decreases k,
    {
        k = k - 1;
        out.push(rev[k]);
        proof {
            assert(rev@.skip(k as int).reverse() =~= rev@.skip(k + 1 as int).reverse() + seq![
                rev@[k as int],
            ]);
        }
    }
    proof {
        assert(rev@.skip(0).reverse() =~= rev@.reverse());
        if v < 0 {
            assert(orig == (-(v as int)) as nat);
            assert(final(out)@ =~= old(out)@ + int_chars(v as int));
        } else {
            assert(orig == v as nat);
            assert(final(out)@ =~= old(out)@ + int_chars(v as int));
        }
    }
}

/// Appends the JSON array of the strings of `l`.
fn push_strlist(out: &mut Vec<char>, l: &Vec<String>)
    ensures
        final(out)@ == old(out)@ + strlist_chars(l.deep_view()),
{
    let ghost lv: Seq<Seq<char>> = l.deep_view();
    out.push('[');
    let mut i: usize = 0;
    while i < l.len()
        invariant
            i <= l.len(),
            lv == l.deep_view(),
            lv.len() == l@.len(),
            forall|k: int| 0 <= k < lv.len() ==> lv[k] == l@[k]@,
            out@ + list_items(lv, i as int) == old(out)@ + seq!['['] + list_items(lv, 0),
        decreases l.len() - i,
    {
        if i > 0 {
            out.push(',');
        }
        push_quoted(out, l[i].as_str());
        i = i + 1;
    }
    out.push(']');
    proof {
        assert(final(out)@ =~= old(out)@ + strlist_chars(lv));
    }
}

/// Appends the JSON text of `v`.
fn push_value(out: &mut Vec<char>, v: &JsonValue)
    ensures
        final(out)@ == old(out)@ + val_chars(v@),
{
    match v {
        JsonValue::Null => {
            out.push('n');
            out.push('u');
            out.push('l');
            out.push('l');
            proof {
                assert(final(out)@ =~= old(out)@ + val_chars(v@));
            }
        },
        JsonValue::Bool(b) => {
            if *b {
                out.push('t');
                out.push('r');
                out.push('u');
                out.push('e');
            } else {
                out.push('f');
                out.push('a');
                out.push('l');
                out.push('s');
                out.push('e');
            }
            proof {
                assert(final(out)@ =~= old(out)@ + val_chars(v@));
            }
        },
        JsonValue::Int(i) => {
            push_int(out, *i);
        },
        JsonValue::Str(s) => {
            push_quoted(out, s.as_str());
        },
        JsonValue::StrList(l) => {
            push_strlist(out, l);
        },
    }
}

/// The remaining-input view of `s` from position `i`.
pub open spec fn suffix(s: Seq<char>, i: int) -> Seq<char> {
    s.skip(i)
}

/// Prepends already-decoded characters to a string-body parse outcome.
pub open spec fn opt_prepend_chars(pre: Seq<char>, o: Option<(Seq<char>, Seq<char>)>) -> Option<
    (Seq<char>, Seq<char>),
> {
    match o {
        Some(p) => Some((pre + p.0, p.1)),
        None => None,
    }
}

/// Prepends already-parsed strings to an array-items parse outcome.
pub open spec fn opt_prepend_strs(pre: Seq<Seq<char>>, o: Option<(Seq<Seq<char>>, Seq<char>)>) -> Option<
    (Seq<Seq<char>>, Seq<char>),
> {
    match o {
        Some(p) => Some((pre + p.0, p.1)),
        None => None,
    }
}

/// Prepends already-parsed entries to an object-members parse outcome.
pub open spec fn opt_prepend_entries(
    pre: Seq<(Seq<char>, JsonVal)>,
    o: Option<(Seq<(Seq<char>, JsonVal)>, Seq<char>)>,
) -> Option<(Seq<(Seq<char>, JsonVal)>, Seq<char>)> {
    match o {
        Some(p) => Some((pre + p.0, p.1)),
        None => None,
    }
}

/// Whether `c` is a decimal digit, executably.
fn is_digit_exec(c: char) -> (r: bool)
    ensures
        r == is_digit(c),
{
    let u: u32 = c as u32;
    48 <= u && u <= 57
}

/// The value of a lowercase hexadecimal digit, or nothing.
fn hex_val_exec(c: char) -> (r: Option<u8>)
    ensures
        match r {
            Some(v) => is_hex(c) && v as int == hex_val(c),
            None => !is_hex(c),
        },
{
    let u: u32 = c as u32;
    if 48 <= u && u <= 57 {
        Some((u - 48) as u8)
    } else if 97 <= u && u <= 102 {
        Some((u - 87) as u8)
    } else {
        None
    }
}

/// Parses a string-literal body beginning at `i` (the opening quote already
/// consumed), mirroring [`sp_str_body`] exactly.
fn px_str_body(s: &Vec<char>, i: usize) -> (r: Result<(Vec<char>, usize), Error>)
    requires
        i <= s@.len(),
    ensures
        match r {
            Ok(p) => i <= p.1 <= s@.len() && sp_str_body(suffix(s@, i as int)) == Some(
                (p.0@, suffix(s@, p.1 as int)),
            ),
            Err(e) => sp_str_body(suffix(s@, i as int)) is None && e == Error::MalformedToken,
        },
{
    let mut cur: usize = i;
    let mut acc: Vec<char> = Vec::new();
    loop
        invariant
            i <= cur <= s@.len(),
            sp_str_body(suffix(s@, i as int)) == opt_prepend_chars(
                acc@,
                sp_str_body(suffix(s@, cur as int)),
            ),
        decreases s@.len() - cur,
    {
        if cur == s.len() {
            return Err(Error::MalformedToken);
        }
        let c: char = s[cur];
        proof {
            assert(suffix(s@, cur as int)[0] == c);
        }
        if c == '"' {
            proof {
                assert(suffix(s@, cur as int).skip(1) =~= suffix(s@, cur + 1 as int));
                assert(acc@ + Seq::<char>::empty() =~= acc@);
            }
            return Ok((acc, cur + 1));
        } else if c == '\\' {
            if cur + 1 == s.len() {
                proof {
                    assert(suffix(s@, cur as int).len() == 1);
                }
                return Err(Error::MalformedToken);
            }
            let e: char = s[cur + 1];
            proof {
                assert(suffix(s@, cur as int)[1] == e);
            }
            if e == '"' || e == '\\' || e == '/' {
                let ghost acc_old: Seq<char> = acc@;
                acc.push(e);
                proof {
                    assert(suffix(s@, cur as int).skip(2) =~= suffix(s@, cur + 2 as int));
                    match sp_str_body(suffix(s@, cur + 2 as int)) {
                        Some(p) => {
                            assert(sp_str_body(suffix(s@, cur as int)) == Some(
                                (seq![e] + p.0, p.1),
                            ));
                            assert(acc_old + (seq![e] + p.0) =~= acc@ + p.0);
                        },
                        None => {},
                    }
                }
                cur = cur + 2;
            } else if e == 'n' || e == 't' || e == 'r' || e == 'b' || e == 'f' {
                let d: char = if e == 'n' { '\n' } else if e == 't' { '\t' } else if e == 'r' {
                    '\r'
                } else if e == 'b' { '\u{0008}' } else { '\u{000c}' };
                let ghost acc_old: Seq<char> = acc@;
                acc.push(d);
                proof {
                    assert(suffix(s@, cur as int).skip(2) =~= suffix(s@, cur + 2 as int));
                    match sp_str_body(suffix(s@, cur + 2 as int)) {
                        Some(p) => {
                            assert(sp_str_body(suffix(s@, cur as int)) == Some(
                                (seq![d] + p.0, p.1),
                            ));
                            assert(acc_old + (seq![d] + p.0) =~= acc@ + p.0);
                        },
                        None => {},
                    }
                }
                cur = cur + 2;
            } else if e == 'u' {
                if s.len() - cur < 6 {
                    proof {
                        assert(suffix(s@, cur as int).len() < 6);
                    }
                    return Err(Error::MalformedToken);
                }
                proof {
                    assert(suffix(s@, cur as int)[2] == s@[cur + 2]);
                    assert(suffix(s@, cur as int)[3] == s@[cur + 3]);
                    assert(suffix(s@, cur as int)[4] == s@[cur + 4]);
                    assert(suffix(s@, cur as int)[5] == s@[cur + 5]);
                }
                if !(s[cur + 2] == '0' && s[cur + 3] == '0') {
                    return Err(Error::MalformedToken);
                }
                let h1: Option<u8> = hex_val_exec(s[cur + 4]);
                let h2: Option<u8> = hex_val_exec(s[cur + 5]);
                match (h1, h2) {
                    (Some(v1), Some(v2)) => {
                        let code: u32 = 16 * (v1 as u32) + (v2 as u32);
                        let d: char = (code as u8) as char;
                        proof {
                            assert(code < 256);
                            assert((code as u8) as u32 == code);
                            assert(d as u32 == code);
                            vstd::utf8::char_u32_cast(d, code);
                            assert((code as u32) as char == d);
                        }
                        let ghost acc_old: Seq<char> = acc@;
                        acc.push(d);
                        proof {
                            assert(suffix(s@, cur as int).skip(6) =~= suffix(s@, cur + 6 as int));
                            match sp_str_body(suffix(s@, cur + 6 as int)) {
                                Some(p) => {
                                    assert(sp_str_body(suffix(s@, cur as int)) == Some(
                                        (seq![d] + p.0, p.1),
                                    ));
                                    assert(acc_old + (seq![d] + p.0) =~= acc@ + p.0);
                                },
                                None => {},
                            }
                        }
                        cur = cur + 6;
                    },
                    _ => {
                        return Err(Error::MalformedToken);
                    },
                }
            } else {
                return Err(Error::MalformedToken);
            }
        } else {
            let ghost acc_old: Seq<char> = acc@;
            acc.push(c);
            proof {
                assert(suffix(s@, cur as int).skip(1) =~= suffix(s@, cur + 1 as int));
                match sp_str_body(suffix(s@, cur + 1 as int)) {
                    Some(p) => {
                        assert(sp_str_body(suffix(s@, cur as int)) == Some((seq![c] + p.0, p.1)));
                        assert(acc_old + (seq![c] + p.0) =~= acc@ + p.0);
                    },
                    None => {},
                }
            }
            cur = cur + 1;
        }
    }
}

/// A run of decimal digits denotes a non-negative number.
pub proof fn lemma_digits_val_nonneg(ds: Seq<char>)
    requires
        forall|j: int| 0 <= j < ds.len() ==> is_digit(#[trigger] ds[j]),
    ensures
        digits_val(ds) >= 0,
    decreases ds.len(),
{
    if ds.len() > 0 {
        lemma_digits_val_nonneg(ds.drop_last());
    }
}

/// The value of a decimal digit character, executably.
fn digit_val_exec(c: char) -> (r: u8)
    requires
        is_digit(c),
    ensures
        r as int == digit_val(c),
{
    ((c as u32) - 48) as u8
}

/// Parses an optionally signed decimal integer beginning at `i`, mirroring
/// [`sp_int`]; rejects numbers outside the 64-bit signed range.
#[verifier::rlimit(60)]
fn px_int(s: &Vec<char>, i: usize) -> (r: Result<(i64, usize), Error>)
    requires
        i <= s@.len(),
    ensures
        match r {
            Ok(p) => i <= p.1 <= s@.len() && sp_int(suffix(s@, i as int)) == Some(
                (p.0 as int, suffix(s@, p.1 as int)),
            ),
            Err(e) => e == Error::MalformedToken && (match sp_int(suffix(s@, i as int)) {
                Some(q) => !(-0x8000_0000_0000_0000 <= q.0 <= 0x7fff_ffff_ffff_ffff),
                None => true,
            }),
        },
{
    let mut cur: usize = i;
    let mut neg: bool = false;
    if cur < s.len() && s[cur] == '-' {
        neg = true;
        cur = cur + 1;
        proof {
            assert(suffix(s@, i as int)[0] == '-');
            assert(suffix(s@, i as int).skip(1) =~= suffix(s@, cur as int));
        }
    }
    let start: usize = cur;
    let mut acc: u64 = 0;
    let mut over: bool = false;
    while cur < s.len() && is_digit_exec(s[cur])
        invariant
            i <= start <= cur <= s@.len(),
            forall|j: int| start <= j < cur ==> is_digit(#[trigger] s@[j]),
            sp_digit_run(suffix(s@, start as int)) == (
                s@.subrange(start as int, cur as int) + sp_digit_run(suffix(s@, cur as int)).0,
                sp_digit_run(suffix(s@, cur as int)).1,
            ),
            !over ==> acc as int == digits_val(s@.subrange(start as int, cur as int)),
            over ==> digits_val(s@.subrange(start as int, cur as int)) > u64::MAX as int,
        decreases s@.len() - cur,
    {
        let c: char = s[cur];
        let d: u8 = digit_val_exec(c);
        let ghost sub_old: Seq<char> = s@.subrange(start as int, cur as int);
        let ghost sub_new: Seq<char> = s@.subrange(start as int, cur + 1 as int);
        proof {
            assert(sub_new.drop_last() =~= sub_old);
            assert(sub_new.last() == c);
            assert(digits_val(sub_new) == digits_val(sub_old) * 10 + digit_val(c));
            lemma_digits_val_nonneg(sub_old);
            assert(suffix(s@, cur as int)[0] == c);
            assert(suffix(s@, cur as int).skip(1) =~= suffix(s@, cur + 1 as int));
            assert(sp_digit_run(suffix(s@, cur as int)).0 == seq![c] + sp_digit_run(
                suffix(s@, cur + 1 as int),
            ).0);
            assert(sub_old + (seq![c] + sp_digit_run(suffix(s@, cur + 1 as int)).0) =~= sub_new
                + sp_digit_run(suffix(s@, cur + 1 as int)).0);
        }
        if !over {
            match acc.checked_mul(10) {
                Some(t) => {
                    match t.checked_add(d as u64) {
                        Some(t2) => {
                            acc = t2;
                        },
                        None => {
                            over = true;
                            proof {
                                assert(digits_val(sub_new) > u64::MAX as int);
                            }
                        },
                    }
                },
                None => {
                    over = true;
                    proof {
                        assert(acc as int * 10 > u64::MAX as int);
                        assert(digits_val(sub_new) >= acc as int * 10);
                    }
                },
            }
        } else {
            proof {
                assert(digits_val(sub_old) * 10 > u64::MAX as int * 10) by (nonlinear_arith)
                    requires digits_val(sub_old) > u64::MAX as int;
                assert(digits_val(sub_new) > u64::MAX as int);
            }
        }
        cur = cur + 1;
    }
    proof {
        if cur < s@.len() {
            assert(!is_digit(suffix(s@, cur as int)[0]));
        }
        assert(sp_digit_run(suffix(s@, cur as int)).0 =~= Seq::<char>::empty());
        assert(sp_digit_run(suffix(s@, cur as int)).1 =~= suffix(s@, cur as int));
        assert(s@.subrange(start as int, cur as int) + Seq::<char>::empty() =~= s@.subrange(
            start as int,
            cur as int,
        ));
    }
    let ghost ds: Seq<char> = s@.subrange(start as int, cur as int);
    proof {
        assert(sp_digit_run(suffix(s@, start as int)) == (ds, suffix(s@, cur as int)));
        lemma_digits_val_nonneg(ds);
    }
    if cur == start {
        return Err(Error::MalformedToken);
    }
    if over {
        return Err(Error::MalformedToken);
    }
    if neg {
        if acc > 0x8000_0000_0000_0000u64 {
            return Err(Error::MalformedToken);
        }
        let v: i64 = if acc == 0x8000_0000_0000_0000u64 {
            i64::MIN
        } else {
            -(acc as i64)
        };
        Ok((v, cur))
    } else {
        if acc > 0x7fff_ffff_ffff_ffffu64 {
            return Err(Error::MalformedToken);
        }
        Ok((acc as i64, cur))
    }
}

/// Parses a JSON string array beginning at `i` (the opening bracket already
/// consumed), mirroring [`sp_list_items`] exactly.
#[verifier::rlimit(60)]
fn px_list(s: &Vec<char>, i: usize) -> (r: Result<(Vec<String>, usize), Error>)
    requires
        i <= s@.len(),
    ensures
        match r {
            Ok(p) => i <= p.1 <= s@.len() && sp_list_items(suffix(s@, i as int)) == Some(
                (p.0.deep_view(), suffix(s@, p.1 as int)),
            ),
            Err(e) => sp_list_items(suffix(s@, i as int)) is None && e == Error::MalformedToken,
        },
{
    if i == s.len() {
        return Err(Error::MalformedToken);
    }
    proof {
        assert(suffix(s@, i as int)[0] == s@[i as int]);
    }
    let mut out: Vec<String> = Vec::new();
    if s[i] == ']' {
        proof {
            assert(suffix(s@, i as int).skip(1) =~= suffix(s@, i + 1 as int));
            assert(out.deep_view() =~= Seq::<Seq<char>>::empty());
        }
        return Ok((out, i + 1));
    }
    if !(s[i] == '"') {
        return Err(Error::MalformedToken);
    }
    let mut cur: usize;
    match px_str_body(s, i + 1) {
        Ok((x, j)) => {
            proof {
                assert(suffix(s@, i as int).skip(1) =~= suffix(s@, i + 1 as int));
            }
            let x_str: String = chars_to_string(&x);
            out.push(x_str);
            cur = j;
            proof {
                assert(out.deep_view() =~= seq![x@]);
            }
        },
        Err(e) => {
            proof {
                assert(suffix(s@, i as int).skip(1) =~= suffix(s@, i + 1 as int));
            }
            return Err(e);
        },
    }
    loop
        invariant
            i <= cur <= s@.len(),
            sp_list_items(suffix(s@, i as int)) == opt_prepend_strs(
                out.deep_view(),
                sp_list_rest(suffix(s@, cur as int)),
            ),
        decreases s@.len() - cur,
    {
        if cur == s.len() {
            return Err(Error::MalformedToken);
        }
        proof {
            assert(suffix(s@, cur as int)[0] == s@[cur as int]);
        }
        if s[cur] == ']' {
            proof {
                assert(suffix(s@, cur as int).skip(1) =~= suffix(s@, cur + 1 as int));
                assert(out.deep_view() + Seq::<Seq<char>>::empty() =~= out.deep_view());
            }
            return Ok((out, cur + 1));
        }
        if s[cur] == ',' && cur + 1 < s.len() && s[cur + 1] == '"' {
            proof {
                assert(suffix(s@, cur as int)[1] == s@[cur + 1]);
                assert(suffix(s@, cur as int).skip(2) =~= suffix(s@, cur + 2 as int));
            }
            match px_str_body(s, cur + 2) {
                Ok((x, j)) => {
                    let ghost out_old: Seq<Seq<char>> = out.deep_view();
                    let x_str: String = chars_to_string(&x);
                    out.push(x_str);
                    proof {
                        assert(out.deep_view() =~= out_old.push(x@));
                        match sp_list_rest(suffix(s@, j as int)) {
                            Some(p) => {
                                assert(sp_list_rest(suffix(s@, cur as int)) == Some(
                                    (seq![x@] + p.0, p.1),
                                ));
                                assert(out_old + (seq![x@] + p.0) =~= out.deep_view() + p.0);
                            },
                            None => {},
                        }
                    }
                    cur = j;
                },
                Err(e) => {
                    return Err(e);
                },
            }
        } else {
            proof {
                if s@[cur as int] == ',' {
                    assert(suffix(s@, cur as int).len() >= 2 ==> suffix(s@, cur as int)[1] == s@[
                        cur + 1
                    ]);
                }
            }
            return Err(Error::MalformedToken);
        }
    }
}

/// Parses one JSON value beginning at `i`, mirroring [`sp_value`] exactly.
#[verifier::rlimit(60)]
fn px_value(s: &Vec<char>, i: usize) -> (r: Result<(JsonValue, usize), Error>)
    requires
        i <= s@.len(),
    ensures
        match r {
            Ok(p) => i <= p.1 <= s@.len() && sp_value(suffix(s@, i as int)) == Some(
                (p.0@, suffix(s@, p.1 as int)),
            ),
            Err(e) => sp_value(suffix(s@, i as int)) is None && e == Error::MalformedToken,
        },
{
    if i == s.len() {
        return Err(Error::MalformedToken);
    }
    let c: char = s[i];
    proof {
        assert(suffix(s@, i as int)[0] == c);
    }
    if c == '"' {
        proof {
            assert(suffix(s@, i as int).skip(1) =~= suffix(s@, i + 1 as int));
        }
        match px_str_body(s, i + 1) {
            Ok((x, j)) => {
                let x_str: String = chars_to_string(&x);
                Ok((JsonValue::Str(x_str), j))
            },
            Err(e) => Err(e),
        }
    } else if c == '[' {
        proof {
            assert(suffix(s@, i as int).skip(1) =~= suffix(s@, i + 1 as int));
        }
        match px_list(s, i + 1) {
            Ok((l, j)) => Ok((JsonValue::StrList(l), j)),
            Err(e) => Err(e),
        }
    } else if c == 'n' {
        if s.len() - i >= 4 && s[i + 1] == 'u' && s[i + 2] == 'l' && s[i + 3] == 'l' {
            proof {
                assert(suffix(s@, i as int)[1] == s@[i + 1]);
                assert(suffix(s@, i as int)[2] == s@[i + 2]);
                assert(suffix(s@, i as int)[3] == s@[i + 3]);
                assert(suffix(s@, i as int).skip(4) =~= suffix(s@, i + 4 as int));
            }
            Ok((JsonValue::Null, i + 4))
        } else {
            proof {
                assert(suffix(s@, i as int).len() == s@.len() - i);
                if suffix(s@, i as int).len() >= 4 {
                    assert(suffix(s@, i as int)[1] == s@[i + 1]);
                    assert(suffix(s@, i as int)[2] == s@[i + 2]);
                    assert(suffix(s@, i as int)[3] == s@[i + 3]);
                }
            }
            Err(Error::MalformedToken)
        }
    } else if c == 't' {
        if s.len() - i >= 4 && s[i + 1] == 'r' && s[i + 2] == 'u' && s[i + 3] == 'e' {
            proof {
                assert(suffix(s@, i as int)[1] == s@[i + 1]);
                assert(suffix(s@, i as int)[2] == s@[i + 2]);
                assert(suffix(s@, i as int)[3] == s@[i + 3]);
                assert(suffix(s@, i as int).skip(4) =~= suffix(s@, i + 4 as int));
            }
            Ok((JsonValue::Bool(true), i + 4))
        } else {
            proof {
                assert(suffix(s@, i as int).len() == s@.len() - i);
                if suffix(s@, i as int).len() >= 4 {
                    assert(suffix(s@, i as int)[1] == s@[i + 1]);
                    assert(suffix(s@, i as int)[2] == s@[i + 2]);
                    assert(suffix(s@, i as int)[3] == s@[i + 3]);
                }
            }
            Err(Error::MalformedToken)
        }
    } else if c == 'f' {
        if s.len() - i >= 5 && s[i + 1] == 'a' && s[i + 2] == 'l' && s[i + 3] == 's' && s[i + 4]
            == 'e' {
            proof {
                assert(suffix(s@, i as int)[1] == s@[i + 1]);
                assert(suffix(s@, i as int)[2] == s@[i + 2]);
                assert(suffix(s@, i as int)[3] == s@[i + 3]);
                assert(suffix(s@, i as int)[4] == s@[i + 4]);
                assert(suffix(s@, i as int).skip(5) =~= suffix(s@, i + 5 as int));
            }
            Ok((JsonValue::Bool(false), i + 5))
        } else {
            proof {
                assert(suffix(s@, i as int).len() == s@.len() - i);
                if suffix(s@, i as int).len() >= 5 {
                    assert(suffix(s@, i as int)[1] == s@[i + 1]);
                    assert(suffix(s@, i as int)[2] == s@[i + 2]);
                    assert(suffix(s@, i as int)[3] == s@[i + 3]);
                    assert(suffix(s@, i as int)[4] == s@[i + 4]);
                }
            }
            Err(Error::MalformedToken)
        }
    } else {
        match px_int(s, i) {
            Ok((v, j)) => Ok((JsonValue::Int(v), j)),
            Err(e) => Err(e),
        }
    }
}

/// Parses the members of a JSON object beginning at `i` (the opening brace
/// already consumed), mirroring [`sp_members`] exactly.
#[verifier::rlimit(100)]
fn px_members(s: &Vec<char>, i: usize) -> (r: Result<(Vec<(String, JsonValue)>, usize), Error>)
    requires
        i <= s@.len(),
    ensures
        match r {
            Ok(p) => i <= p.1 <= s@.len() && sp_members(suffix(s@, i as int)) == Some(
                (entries_view(p.0@), suffix(s@, p.1 as int)),
            ),
            Err(e) => sp_members(suffix(s@, i as int)) is None && e == Error::MalformedToken,
        },
{
    if i == s.len() {
        return Err(Error::MalformedToken);
    }
    proof {
        assert(suffix(s@, i as int)[0] == s@[i as int]);
    }
    let mut out: Vec<(String, JsonValue)> = Vec::new();
    if s[i] == '}' {
        proof {
            assert(suffix(s@, i as int).skip(1) =~= suffix(s@, i + 1 as int));
            assert(entries_view(out@) =~= Seq::<(Seq<char>, JsonVal)>::empty());
        }
        return Ok((out, i + 1));
    }
    if !(s[i] == '"') {
        return Err(Error::MalformedToken);
    }
    let mut cur: usize;
    proof {
        assert(suffix(s@, i as int).skip(1) =~= suffix(s@, i + 1 as int));
    }
    match px_str_body(s, i + 1) {
        Ok((k, jk)) => {
            if jk == s.len() {
                proof {
                    assert(suffix(s@, jk as int).len() == 0);
                }
                return Err(Error::MalformedToken);
            }
            proof {
                assert(suffix(s@, jk as int)[0] == s@[jk as int]);
            }
            if !(s[jk] == ':') {
                return Err(Error::MalformedToken);
            }
            proof {
                assert(suffix(s@, jk as int).skip(1) =~= suffix(s@, jk + 1 as int));
            }
            match px_value(s, jk + 1) {
                Ok((v, jv)) => {
                    let k_str: String = chars_to_string(&k);
                    out.push((k_str, v));
                    cur = jv;
                    proof {
                        assert(entries_view(out@) =~= seq![(k@, v@)]);
                    }
                },
                Err(e) => {
                    return Err(e);
                },
            }
        },
        Err(e) => {
            return Err(e);
        },
    }
    loop
        invariant
            i <= cur <= s@.len(),
            sp_members(suffix(s@, i as int)) == opt_prepend_entries(
                entries_view(out@),
                sp_members_rest(suffix(s@, cur as int)),
            ),
        decreases s@.len() - cur,
    {
        if cur == s.len() {
            return Err(Error::MalformedToken);
        }
        proof {
            assert(suffix(s@, cur as int)[0] == s@[cur as int]);
        }
        if s[cur] == '}' {
            proof {
                assert(suffix(s@, cur as int).skip(1) =~= suffix(s@, cur + 1 as int));
                assert(entries_view(out@) + Seq::<(Seq<char>, JsonVal)>::empty() =~= entries_view(
                    out@,
                ));
            }
            return Ok((out, cur + 1));
        }
        if s[cur] == ',' && cur + 1 < s.len() && s[cur + 1] == '"' {
            proof {
                assert(suffix(s@, cur as int)[1] == s@[cur + 1]);
                assert(suffix(s@, cur as int).skip(2) =~= suffix(s@, cur + 2 as int));
            }
            match px_str_body(s, cur + 2) {
                Ok((k, jk)) => {
                    if jk == s.len() {
                        proof {
                            assert(suffix(s@, jk as int).len() == 0);
                        }
                        return Err(Error::MalformedToken);
                    }
                    proof {
                        assert(suffix(s@, jk as int)[0] == s@[jk as int]);
                    }
                    if !(s[jk] == ':') {
                        return Err(Error::MalformedToken);
                    }
                    proof {
                        assert(suffix(s@, jk as int).skip(1) =~= suffix(s@, jk + 1 as int));
                    }
                    match px_value(s, jk + 1) {
                        Ok((v, jv)) => {
                            let ghost out_old: Seq<(Seq<char>, JsonVal)> = entries_view(out@);
                            let k_str: String = chars_to_string(&k);
                            out.push((k_str, v));
                            proof {
                                assert(entries_view(out@) =~= out_old.push((k@, v@)));
                                match sp_members_rest(suffix(s@, jv as int)) {
                                    Some(p) => {
                                        assert(sp_members_rest(suffix(s@, cur as int)) == Some(
                                            (seq![(k@, v@)] + p.0, p.1),
                                        ));
                                        assert(out_old + (seq![(k@, v@)] + p.0) =~= entries_view(
                                            out@,
                                        ) + p.0);
                                    },
                                    None => {},
                                }
                            }
                            cur = jv;
                        },
                        Err(e) => {
                            return Err(e);
                        },
                    }
                },
                Err(e) => {
                    return Err(e);
                },
            }
        } else {
            proof {
                if s@[cur as int] == ',' {
                    assert(suffix(s@, cur as int).len() >= 2 ==> suffix(s@, cur as int)[1] == s@[
                        cur + 1
                    ]);
                }
            }
            return Err(Error::MalformedToken);
        }
    }
}

/// Parses a complete compact JSON object, mirroring [`sp_json`] exactly:
/// the entry list in textual order with duplicates preserved, or a
/// malformed-token error.
pub fn parse_object(s: &str) -> (r: Result<Vec<(String, JsonValue)>, Error>)
    ensures
        match r {
            Ok(es) => sp_json(s@) == Some(entries_view(es@)),
            Err(e) => sp_json(s@) is None && e == Error::MalformedToken,
        },
{
    let cs: Vec<char> = string_to_chars(s);
    if cs.len() == 0 {
        return Err(Error::MalformedToken);
    }
    if !(cs[0] == '{') {
        return Err(Error::MalformedToken);
    }
    proof {
        assert(suffix(cs@, 1) =~= s@.skip(1));
    }
    match px_members(&cs, 1) {
        Ok((es, j)) => {
            if j == cs.len() {
                proof {
                    assert(suffix(cs@, j as int).len() == 0);
                }
                Ok(es)
            } else {
                proof {
                    assert(suffix(cs@, j as int).len() > 0);
                }
                Err(Error::MalformedToken)
            }
        },
        Err(e) => Err(e),
    }
}

/// Returns the value of the last entry named `k`, if any — the flat-map
/// reading under which a later duplicate wins.
pub fn entries_get(es: &Vec<(String, JsonValue)>, k: &str) -> (r: Option<JsonValue>)
    ensures
        match r {
            Some(v) => lookup_last(entries_view(es@), k@) == Some(v@),
            None => lookup_last(entries_view(es@), k@) is None,
        },
{
    let ghost ev: Seq<(Seq<char>, JsonVal)> = entries_view(es@);
    let mut idx: usize = es.len();
    proof {
        assert(ev.take(idx as int) =~= ev);
    }
    while idx > 0
        invariant
            idx <= es@.len(),
            ev == entries_view(es@),
            lookup_last(ev.take(idx as int), k@) == lookup_last(ev, k@),
        decreases idx,
    {
        idx = idx - 1;
        let hit: bool = crate::text::str_eq(es[idx].0.as_str(), k);
        proof {
            let t_new: Seq<(Seq<char>, JsonVal)> = ev.take(idx as int);
            let t_old: Seq<(Seq<char>, JsonVal)> = ev.take(idx + 1 as int);
            assert(t_old.drop_last() =~= t_new);
            assert(t_old.last() == ev[idx as int]);
        }
        if hit {
            return Some(es[idx].1.clone());
        }
    }
    proof {
        assert(ev.take(0) =~= Seq::<(Seq<char>, JsonVal)>::empty());
    }
    None
}

/// Serializes the entries as one compact JSON object, preserving entry
/// order, later duplicates after earlier ones.
pub fn serialize_object(es: &Vec<(String, JsonValue)>) -> (r: String)
    ensures
        r@ == obj_chars(entries_view(es@)),
{
    let ghost ev: Seq<(Seq<char>, JsonVal)> = entries_view(es@);
    let mut out: Vec<char> = Vec::new();
    out.push('{');
    let mut i: usize = 0;
    while i < es.len()
        invariant
            i <= es.len(),
            ev == entries_view(es@),
            ev.len() == es@.len(),
            forall|k: int| 0 <= k < ev.len() ==> ev[k] == (es@[k].0@, es@[k].1@),
            out@ + obj_items(ev, i as int) == seq!['{'] + obj_items(ev, 0),
        decreases es.len() - i,
    {
        if i > 0 {
            out.push(',');
        }
        push_quoted(&mut out, es[i].0.as_str());
        out.push(':');
        push_value(&mut out, &es[i].1);
        i = i + 1;
    }
    out.push('}');
    proof {
        assert(out@ =~= obj_chars(ev));
    }
    chars_to_string(&out)
}

} // verus!
