//! Deriving constant names from type names: `PaletteVtable` becomes
//! `PALETTE_VTABLE`, `DDGame` becomes `DD_GAME`.
use vstd::prelude::*;
use vstd::string::StrSliceExecFns;

use crate::cp1252::string_push;

verus! {

/// Whether Unicode classifies `c` as upper case (`char::is_uppercase`).
pub uninterp spec fn char_upper(c: char) -> bool;

/// Whether Unicode classifies `c` as lower case (`char::is_lowercase`).
pub uninterp spec fn char_lower(c: char) -> bool;

/// Whether Unicode classifies `c` as numeric (`char::is_numeric`).
pub uninterp spec fn char_numeric(c: char) -> bool;

/// Calls `char::is_uppercase`; the answer depends on `c` alone.
#[verifier::external_body]
fn is_upper(c: char) -> (r: bool)
    ensures
        r == char_upper(c),
{
    c.is_uppercase()
}

/// Calls `char::is_lowercase`; the answer depends on `c` alone.
#[verifier::external_body]
fn is_lower(c: char) -> (r: bool)
    ensures
        r == char_lower(c),
{
    c.is_lowercase()
}

/// Calls `char::is_numeric`; the answer depends on `c` alone.
#[verifier::external_body]
fn is_numeric(c: char) -> (r: bool)
    ensures
        r == char_numeric(c),
{
    c.is_numeric()
}

/// `c` with an ASCII lower-case letter made upper case.
pub open spec fn ascii_upper(c: char) -> char {
    if 'a' <= c <= 'z' {
        ((c as int) - 32) as char
    } else {
        c
    }
}

fn to_ascii_upper(c: char) -> (r: char)
    ensures
        r == ascii_upper(c),
{
    if 'a' <= c && c <= 'z' {
        ((c as u32) - 32) as u8 as char
    } else {
        c
    }
}

/// Whether an underscore goes before character `i` of `s`: it is upper
/// case, not first, and either follows a lower-case letter or digit, or
/// starts a word inside a run of capitals (the next character is lower
/// case).
pub open spec fn word_break(s: Seq<char>, i: int) -> bool {
    &&& i > 0
    &&& char_upper(s[i])
    &&& (char_lower(s[i - 1]) || char_numeric(s[i - 1]) || (i + 1 < s.len() && char_lower(s[i + 1])))
}

/// The screaming-snake-case form of the first `n` characters of `s`.
pub open spec fn screaming(s: Seq<char>, n: int) -> Seq<char>
    decreases n,
{
    if n <= 0 {
        Seq::empty()
    } else {
        let prev = screaming(s, n - 1);
        let with_break = if word_break(s, n - 1) {
            prev.push('_')
        } else {
            prev
        };
        with_break.push(ascii_upper(s[n - 1]))
    }
}

/// The screaming-snake-case form of a type name: words split before
/// capitals (see `word_break`) and joined by underscores, ASCII letters
/// made upper case.
pub fn to_screaming_snake(name: &str) -> (r: String)
    ensures
        r@ == screaming(name@, name@.len() as int),
{
    let n = name.unicode_len();
    let mut out = String::new();
    let mut i: usize = 0;
    while i < n
        invariant
            n == name@.len(),
            i <= n,
            out@ == screaming(name@, i as int),
        decreases n - i,
    {
        let ch = name.get_char(i);
        if i > 0 && is_upper(ch) {
            let prev = name.get_char(i - 1);
            if is_lower(prev) || is_numeric(prev) {
                string_push(&mut out, '_');
            } else if i + 1 < n {
                let next = name.get_char(i + 1);
                if is_lower(next) {
                    string_push(&mut out, '_');
                }
            }
        }
        string_push(&mut out, to_ascii_upper(ch));
        i = i + 1;
    }
    out
}

/// Whether `s` begins with `p`.
pub open spec fn starts_with(s: Seq<char>, p: Seq<char>) -> bool {
    p.len() <= s.len() && s.take(p.len() as int) =~= p
}

fn has_prefix(s: &str, p: &str) -> (r: bool)
    ensures
        r == starts_with(s@, p@),
{
    let n = s.unicode_len();
    let m = p.unicode_len();
    if m > n {
        return false;
    }
    let mut i: usize = 0;
    while i < m
        invariant
            m <= n,
            n == s@.len(),
            m == p@.len(),
            i <= m,
            forall|k: int| 0 <= k < i ==> s@[k] == p@[k],
        decreases m - i,
    {
        if s.get_char(i) != p.get_char(i) {
            assert(s@.take(m as int)[i as int] != p@[i as int]);
            return false;
        }
        i = i + 1;
    }
    assert(s@.take(m as int) =~= p@);
    true
}

/// Whether a field appears in a struct's field table: fields named
/// `_unknown…` or `_pad…` stand for unmapped bytes and are left out.
pub open spec fn registered_field(name: Seq<char>) -> bool {
    !starts_with(name, seq!['_', 'u', 'n', 'k', 'n', 'o', 'w', 'n']) && !starts_with(
        name,
        seq!['_', 'p', 'a', 'd'],
    )
}

/// The positions of the registered fields among the first `n` names, in
/// declaration (and so memory) order.
pub open spec fn registered_fields(names: Seq<String>, n: int) -> Seq<usize>
    decreases n,
{
    if n <= 0 {
        Seq::empty()
    } else {
        let prev = registered_fields(names, n - 1);
        if registered_field(names[n - 1]@) {
            prev.push((n - 1) as usize)
        } else {
            prev
        }
    }
}

/// The fields of a struct that its field table lists, by position: all
/// but those named `_unknown…` or `_pad…`, in declaration order.
pub fn field_registry_fields(names: &Vec<String>) -> (r: Vec<usize>)
    ensures
        r@ == registered_fields(names@, names.len() as int),
{
    let mut out: Vec<usize> = Vec::new();
    let mut i: usize = 0;
    while i < names.len()
        invariant
            i <= names.len(),
            out@ == registered_fields(names@, i as int),
        decreases names.len() - i,
    {
        let unknown = has_prefix(names[i].as_str(), "_unknown");
        let pad = has_prefix(names[i].as_str(), "_pad");
        proof {
            reveal_strlit("_unknown");
            reveal_strlit("_pad");
            assert("_unknown"@ =~= seq!['_', 'u', 'n', 'k', 'n', 'o', 'w', 'n']);
            assert("_pad"@ =~= seq!['_', 'p', 'a', 'd']);
        }
        if !unknown && !pad {
            out.push(i);
        }
        i = i + 1;
    }
    out
}

} // verus!
