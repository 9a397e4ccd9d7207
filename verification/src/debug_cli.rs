//! Address expressions of the debug command line: numbers, `base+offset`,
//! `base[offset]`, `abs:` prefixes and `->` pointer chains.
use vstd::prelude::*;
use vstd::string::StringExecFns;
use crate::cp1252::string_push;
use crate::debug_proto::{PointerInfo, PointerKind};
use crate::snapshot::{hex_digit, hex_digits, hex_text, push_hex, zeros};

verus! {

/// Index of the first occurrence of `c` in `s`, if any.
pub open spec fn first_index(s: Seq<char>, c: char) -> Option<int>
    decreases s.len(),
{
    if s.len() == 0 {
        None
    } else if s[0] == c {
        Some(0)
    } else {
        match first_index(s.drop_first(), c) {
            Some(i) => Some(i + 1),
            None => None,
        }
    }
}

/// `s` without its trailing `]` characters.
pub open spec fn trim_closing(s: Seq<char>) -> Seq<char>
    decreases s.len(),
{
    if s.len() > 0 && s.last() == ']' {
        trim_closing(s.drop_last())
    } else {
        s
    }
}

/// The split of `s` into a base and an offset: at the first `+`, else at
/// the first `[` (dropping the closing brackets of the offset), else no
/// offset.
pub open spec fn spec_split_compound(s: Seq<char>) -> (Seq<char>, Option<Seq<char>>) {
    match first_index(s, '+') {
        Some(p) => (s.take(p), Some(s.skip(p + 1))),
        None => match first_index(s, '[') {
            Some(q) => (s.take(q), Some(trim_closing(s.skip(q + 1)))),
            None => (s, None),
        },
    }
}

proof fn lemma_first_index_step(s: Seq<char>, c: char, i: int)
    requires
        0 <= i < s.len(),
        forall|j: int| 0 <= j < i ==> s[j] != c,
    ensures
        s[i] == c ==> first_index(s, c) == Some(i),
        i + 1 == s.len() && s[i] != c ==> first_index(s, c) == None::<int>,
    decreases i,
{
    if i > 0 {
        lemma_first_index_step(s.drop_first(), c, i - 1);
    } else if s.len() == 1 && s[0] != c {
        assert(s.drop_first().len() == 0);
        assert(first_index(s.drop_first(), c) == None::<int>);
    }
}

/// Position of the first `c` in `s`.
fn find_char(s: &str, c: char) -> (r: Option<usize>)
    ensures
        match r {
            Some(i) => first_index(s@, c) == Some(i as int) && i < s@.len(),
            None => first_index(s@, c) == None::<int>,
        },
{
    let n: usize = s.unicode_len();
    if n == 0 {
        return None;
    }
    let mut i: usize = 0;
    while i < n
        invariant
            0 <= i <= n,
            n == s@.len(),
            n > 0,
            forall|j: int| 0 <= j < i ==> s@[j] != c,
        decreases n - i,
    {
        proof {
            lemma_first_index_step(s@, c, i as int);
        }
        if s.get_char(i) == c {
            return Some(i);
        }
        i = i + 1;
    }
    proof {
        lemma_first_index_step(s@, c, n - 1);
    }
    None
}

/// `s` without its trailing `]` characters.
fn trim_closing_brackets(s: &str) -> (r: &str)
    ensures
        r@ == trim_closing(s@),
{
    let mut end: usize = s.unicode_len();
    assert(s@.take(end as int) =~= s@);
    while end > 0 && s.get_char(end - 1) == ']'
        invariant
            0 <= end <= s@.len(),
            trim_closing(s@) == trim_closing(s@.take(end as int)),
        decreases end,
    {
        proof {
            assert(s@.take(end as int).drop_last() =~= s@.take(end - 1));
        }
        end = end - 1;
    }
    proof {
        assert(s@.take(end as int).len() > 0 ==> s@.take(end as int).last() == s@[end - 1]);
    }
    s.substring_char(0, end)
}

/// Split `s` on the first `+` or `[` into a base and an offset.
pub fn split_compound(s: &str) -> (r: (&str, Option<&str>))
    ensures
        r.0@ == spec_split_compound(s@).0,
        match r.1 {
            Some(o) => spec_split_compound(s@).1 == Some(o@),
            None => spec_split_compound(s@).1 == None::<Seq<char>>,
        },
{
    let n: usize = s.unicode_len();
    match find_char(s, '+') {
        Some(pos) => {
            let base = s.substring_char(0, pos);
            let off = s.substring_char(pos + 1, n);
            (base, Some(off))
        },
        None => match find_char(s, '[') {
            Some(pos) => {
                let base = s.substring_char(0, pos);
                let rest = s.substring_char(pos + 1, n);
                (base, Some(trim_closing_brackets(rest)))
            },
            None => (s, None),
        },
    }
}

/// `s` starts with `0x` or `0X`.
pub open spec fn has_hex_prefix(s: Seq<char>) -> bool {
    s.len() >= 2 && s[0] == '0' && (s[1] == 'x' || s[1] == 'X')
}

/// `s` looks like a number: it starts with `0x`, `0X` or an ASCII digit.
pub open spec fn spec_looks_like_hex(s: Seq<char>) -> bool {
    has_hex_prefix(s) || (s.len() >= 1 && '0' <= s[0] <= '9')
}

/// Whether `s` looks like a number (starts with `0x`, `0X` or a digit).
pub fn looks_like_hex(s: &str) -> (r: bool)
    ensures
        r == spec_looks_like_hex(s@),
{
    let n: usize = s.unicode_len();
    if n >= 2 && s.get_char(0) == '0' && (s.get_char(1) == 'x' || s.get_char(1) == 'X') {
        return true;
    }
    n >= 1 && '0' <= s.get_char(0) && s.get_char(0) <= '9'
}

/// Value of digit `c` in base `radix` (at most 36), if it is one:
/// `0`-`9`, then `a`-`z` or `A`-`Z` from 10 on.
pub open spec fn digit_value(c: char, radix: u32) -> Option<nat> {
    let v: int = if '0' <= c <= '9' {
        c as int - '0' as int
    } else if 'a' <= c <= 'z' {
        c as int - 'a' as int + 10
    } else if 'A' <= c <= 'Z' {
        c as int - 'A' as int + 10
    } else {
        99
    };
    if v < radix {
        Some(v as nat)
    } else {
        None
    }
}

/// All characters of `s` are digits in base `radix`.
pub open spec fn all_digits(s: Seq<char>, radix: u32) -> bool {
    forall|i: int| 0 <= i < s.len() ==> #[trigger] digit_value(s[i], radix) is Some
}

/// Value of the digits `s` in base `radix`.
pub open spec fn digits_value(s: Seq<char>, radix: u32) -> nat
    decreases s.len(),
{
    if s.len() == 0 {
        0
    } else {
        (digits_value(s.drop_last(), radix) * radix + match digit_value(s.last(), radix) {
            Some(d) => d,
            None => 0,
        }) as nat
    }
}

/// The `u32` written in base `radix` by `s`: an optional `+` sign followed
/// by at least one digit, with a value that fits in 32 bits.
pub open spec fn parse_radix(s: Seq<char>, radix: u32) -> Option<u32> {
    let t = if s.len() > 0 && s[0] == '+' {
        s.skip(1)
    } else {
        s
    };
    if t.len() == 0 || !all_digits(t, radix) || digits_value(t, radix) > u32::MAX {
        None
    } else {
        Some(digits_value(t, radix) as u32)
    }
}

proof fn lemma_digits_value_grows(s: Seq<char>, radix: u32, k: int)
    requires
        1 <= radix,
        0 <= k <= s.len(),
    ensures
        digits_value(s, radix) >= digits_value(s.take(k), radix),
    decreases s.len() - k,
{
    if k < s.len() {
        lemma_digits_value_grows(s, radix, k + 1);
        assert(s.take(k + 1).drop_last() =~= s.take(k));
        let v = digits_value(s.take(k), radix);
        assert(v * radix >= v) by (nonlinear_arith)
            requires
                radix >= 1,
        ;
    } else {
        assert(s.take(k) =~= s);
    }
}

fn char_digit(c: char, radix: u32) -> (r: Option<u32>)
    requires
        radix <= 36,
    ensures
        match r {
            Some(d) => digit_value(c, radix) == Some(d as nat),
            None => digit_value(c, radix) == None::<nat>,
        },
{
    let v: u32 = if '0' <= c && c <= '9' {
        (c as u32) - ('0' as u32)
    } else if 'a' <= c && c <= 'z' {
        (c as u32) - ('a' as u32) + 10
    } else if 'A' <= c && c <= 'Z' {
        (c as u32) - ('A' as u32) + 10
    } else {
        99
    };
    if v < radix {
        Some(v)
    } else {
        None
    }
}

/// Parse `s` as an unsigned 32-bit number in base `radix` (see
/// `parse_radix`).
pub fn parse_u32_radix(s: &str, radix: u32) -> (r: Option<u32>)
    requires
        2 <= radix <= 36,
    ensures
        r == parse_radix(s@, radix),
{
    let n: usize = s.unicode_len();
    let start: usize = if n > 0 && s.get_char(0) == '+' {
        1
    } else {
        0
    };
    let ghost t = if s@.len() > 0 && s@[0] == '+' {
        s@.skip(1)
    } else {
        s@
    };
    assert(t =~= s@.skip(start as int));
    if start >= n {
        return None;
    }
    let mut acc: u64 = 0;
    let mut i: usize = start;
    while i < n
        invariant
            start <= i <= n,
            n == s@.len(),
            t =~= s@.skip(start as int),
            t == (if s@.len() > 0 && s@[0] == '+' {
                s@.skip(1)
            } else {
                s@
            }),
            2 <= radix <= 36,
            acc as nat == digits_value(t.take(i - start), radix),
            acc <= u32::MAX,
            all_digits(t.take(i - start), radix),
        decreases n - i,
    {
        let c = s.get_char(i);
        assert(c == t[i - start]);
        assert(t.take(i - start + 1).drop_last() =~= t.take(i - start));
        match char_digit(c, radix) {
            None => {
                proof {
                    assert(!all_digits(t, radix)) by {
                        assert(digit_value(t[i - start], radix) is None);
                    }
                }
                return None;
            },
            Some(d) => {
                assert(acc * (radix as u64) <= 0xFFFF_FFFFu64 * 36) by (nonlinear_arith)
                    requires
                        acc <= 0xFFFF_FFFFu64,
                        radix <= 36,
                ;
                acc = acc * (radix as u64) + (d as u64);
                proof {
                    assert(all_digits(t.take(i - start + 1), radix)) by {
                        assert forall|j: int| 0 <= j < t.take(i - start + 1).len() implies #[trigger] digit_value(
                            t.take(i - start + 1)[j],
                            radix,
                        ) is Some by {
                            if j < i - start {
                                assert(t.take(i - start + 1)[j] == t.take(i - start)[j]);
                            }
                        }
                    }
                }
                if acc > 0xFFFF_FFFF {
                    proof {
                        lemma_digits_value_grows(t, radix, i - start + 1);
                    }
                    return None;
                }
            },
        }
        i = i + 1;
    }
    assert(t.take(n - start) =~= t);
    Some(acc as u32)
}

/// Parse a hexadecimal address, with or without a `0x` or `0X` prefix.
pub fn parse_hex(s: &str) -> (r: Option<u32>)
    ensures
        r == (if has_hex_prefix(s@) {
            parse_radix(s@.skip(2), 16)
        } else {
            parse_radix(s@, 16)
        }),
{
    let n: usize = s.unicode_len();
    if n >= 2 && s.get_char(0) == '0' && (s.get_char(1) == 'x' || s.get_char(1) == 'X') {
        parse_u32_radix(s.substring_char(2, n), 16)
    } else {
        parse_u32_radix(s, 16)
    }
}

/// Parse a number: hexadecimal after a `0x` or `0X` prefix, decimal
/// otherwise.
pub fn parse_u32(s: &str) -> (r: Option<u32>)
    ensures
        r == (if has_hex_prefix(s@) {
            parse_radix(s@.skip(2), 16)
        } else {
            parse_radix(s@, 10)
        }),
{
    let n: usize = s.unicode_len();
    if n >= 2 && s.get_char(0) == '0' && (s.get_char(1) == 'x' || s.get_char(1) == 'X') {
        parse_u32_radix(s.substring_char(2, n), 16)
    } else {
        parse_u32_radix(s, 10)
    }
}

/// `s` starts with the `abs:` prefix of absolute runtime addresses.
pub open spec fn has_abs_prefix(s: Seq<char>) -> bool {
    s.len() >= 4 && s[0] == 'a' && s[1] == 'b' && s[2] == 's' && s[3] == ':'
}

/// Remove the `abs:` prefix; the flag tells whether it was there.
pub fn strip_abs(s: &str) -> (r: (&str, bool))
    ensures
        r.1 == has_abs_prefix(s@),
        r.0@ == (if has_abs_prefix(s@) {
            s@.skip(4)
        } else {
            s@
        }),
{
    let n: usize = s.unicode_len();
    if n >= 4 && s.get_char(0) == 'a' && s.get_char(1) == 'b' && s.get_char(2) == 's'
        && s.get_char(3) == ':' {
        (s.substring_char(4, n), true)
    } else {
        (s, false)
    }
}

/// An arrow `->` starts at `i` in `s`.
pub open spec fn arrow_at(s: Seq<char>, i: int) -> bool {
    0 <= i && i + 1 < s.len() && s[i] == '-' && s[i + 1] == '>'
}

/// Position of the first arrow in `s`, if any.
pub open spec fn first_arrow(s: Seq<char>) -> Option<int>
    decreases s.len(),
{
    if s.len() < 2 {
        None
    } else if s[0] == '-' && s[1] == '>' {
        Some(0)
    } else {
        match first_arrow(s.drop_first()) {
            Some(i) => Some(i + 1),
            None => None,
        }
    }
}

/// The parts of `s` between the arrows, left to right.
pub open spec fn split_arrows_spec(s: Seq<char>) -> Seq<Seq<char>>
    decreases s.len(),
{
    match first_arrow(s) {
        Some(p) => if 0 <= p && p + 2 <= s.len() {
            seq![s.take(p)] + split_arrows_spec(s.skip(p + 2))
        } else {
            seq![s]
        },
        None => seq![s],
    }
}

proof fn lemma_first_arrow(s: Seq<char>, i: int)
    requires
        0 <= i,
        forall|j: int| 0 <= j < i ==> !arrow_at(s, j),
    ensures
        arrow_at(s, i) ==> first_arrow(s) == Some(i),
        i + 1 >= s.len() ==> first_arrow(s) == None::<int>,
    decreases i,
{
    if i > 0 && s.len() >= 2 {
        assert forall|j: int| 0 <= j < i - 1 implies !arrow_at(s.drop_first(), j) by {
            assert(!arrow_at(s, j + 1));
        }
        lemma_first_arrow(s.drop_first(), i - 1);
        assert(!arrow_at(s, 0));
    }
}

/// The parts of `s` between the arrows `->`, left to right.
pub fn split_arrows(s: &str) -> (r: Vec<&str>)
    ensures
        r@.map_values(|p: &str| p@) == split_arrows_spec(s@),
{
    let n: usize = s.unicode_len();
    let mut parts: Vec<&str> = Vec::new();
    let mut start: usize = 0;
    let mut i: usize = 0;
    proof {
        assert(s@.skip(0) =~= s@);
        assert(parts@.map_values(|p: &str| p@) =~= Seq::<Seq<char>>::empty());
    }
    while n > 0 && i < n - 1
        invariant
            0 <= start <= i <= n,
            n == s@.len(),
            split_arrows_spec(s@) == parts@.map_values(|p: &str| p@) + split_arrows_spec(
                s@.skip(start as int),
            ),
            forall|j: int| 0 <= j < i - start ==> !arrow_at(s@.skip(start as int), j),
        decreases n - i,
    {
        if s.get_char(i) == '-' && s.get_char(i + 1) == '>' {
            let ghost rest = s@.skip(start as int);
            proof {
                assert(arrow_at(rest, i - start));
                lemma_first_arrow(rest, i - start);
                assert(rest.take(i - start) =~= s@.subrange(start as int, i as int));
                assert(rest.skip(i - start + 2) =~= s@.skip(i + 2));
            }
            let part = s.substring_char(start, i);
            let ghost before = parts@;
            parts.push(part);
            proof {
                assert(parts@.map_values(|p: &str| p@) =~= before.map_values(|p: &str| p@).push(
                    part@,
                ));
                assert(seq![rest.take(i - start)] + split_arrows_spec(rest.skip(i - start + 2))
                    == split_arrows_spec(rest));
                assert(before.map_values(|p: &str| p@) + split_arrows_spec(rest) =~= parts@.map_values(
                    |p: &str| p@,
                ) + split_arrows_spec(s@.skip(i + 2)));
            }
            start = i + 2;
            i = i + 2;
        } else {
            proof {
                let rest = s@.skip(start as int);
                assert forall|j: int| 0 <= j < i + 1 - start implies !arrow_at(rest, j) by {
                    if j == i - start {
                        assert(rest[j] == s@[i as int]);
                        assert(j + 1 < rest.len() ==> rest[j + 1] == s@[i + 1]);
                    }
                }
            }
            i = i + 1;
        }
    }
    let ghost rest = s@.skip(start as int);
    proof {
        lemma_first_arrow(rest, i - start);
        if i < n {
            assert(i - start + 1 >= rest.len());
        } else {
            assert(i - start + 1 >= rest.len());
        }
        assert(split_arrows_spec(rest) == seq![rest]);
    }
    let last = s.substring_char(start, n);
    let ghost before = parts@;
    parts.push(last);
    proof {
        assert(last@ =~= rest);
        assert(parts@.map_values(|p: &str| p@) =~= before.map_values(|p: &str| p@).push(last@));
        assert(before.map_values(|p: &str| p@) + seq![rest] =~= parts@.map_values(|p: &str| p@));
    }
    parts
}

/// One resolved step of a pointer chain.
#[derive(Debug, Clone, Copy, PartialEq, Eq, Structural)]
pub enum ChainSegment {
    /// A numeric offset: dereference the current address, then add it.
    HexOffset(u32),
    /// A field offset: add it to the current address, then dereference.
    FieldOffset(u32),
}

/// A parsed address expression: a plain address, or a start address with
/// the offsets of a pointer chain (dereference, then add each offset).
#[derive(Debug, Clone, PartialEq, Eq)]
pub enum AddressExpr {
    Simple { addr: u32, absolute: bool },
    Chain { addr: u32, chain: Vec<u32>, absolute: bool },
}

/// `a + b` modulo 2^32.
pub open spec fn wrap_add(a: u32, b: u32) -> u32 {
    ((a as int + b as int) % 0x1_0000_0000) as u32
}

/// Start address and chain of the protocol for `segs` after `base`: numeric
/// offsets are chain entries; a field offset is added to the previous
/// entry (or to the start address) and followed by a dereference with no
/// offset.
pub open spec fn fold_chain(base: u32, segs: Seq<ChainSegment>) -> (u32, Seq<u32>)
    decreases segs.len(),
{
    if segs.len() == 0 {
        (base, Seq::empty())
    } else {
        let prev = fold_chain(base, segs.drop_last());
        match segs.last() {
            ChainSegment::HexOffset(o) => (prev.0, prev.1.push(o)),
            ChainSegment::FieldOffset(o) => if prev.1.len() == 0 {
                (wrap_add(prev.0, o), seq![0u32])
            } else {
                (prev.0, prev.1.update(prev.1.len() - 1, wrap_add(prev.1.last(), o)).push(0u32))
            },
        }
    }
}

/// Every step of a pointer chain adds exactly one entry to the chain: a
/// numeric offset as itself, a field offset as a dereference with no
/// offset (its value is added to the entry before it, or to the start
/// address when it comes first); a chain of numeric offsets only keeps
/// the start address and lists the offsets in order.
pub proof fn lemma_fold_chain_shape(base: u32, segs: Seq<ChainSegment>)
    ensures
        fold_chain(base, segs).1.len() == segs.len(),
        segs.len() > 0 ==> fold_chain(base, segs).1.last() == match segs.last() {
            ChainSegment::HexOffset(o) => o,
            ChainSegment::FieldOffset(_) => 0u32,
        },
        (forall|i: int| 0 <= i < segs.len() ==> #[trigger] segs[i] is HexOffset) ==> {
            &&& fold_chain(base, segs).0 == base
            &&& forall|i: int|
                0 <= i < segs.len() ==> #[trigger] fold_chain(base, segs).1[i] == segs[i]->HexOffset_0
        },
    decreases segs.len(),
{
    if segs.len() > 0 {
        let init = segs.drop_last();
        lemma_fold_chain_shape(base, init);
        if forall|i: int| 0 <= i < segs.len() ==> #[trigger] segs[i] is HexOffset {
            assert forall|i: int| 0 <= i < init.len() implies #[trigger] init[i] is HexOffset by {
                assert(init[i] == segs[i]);
            }
            assert(segs.last() == segs[segs.len() - 1]);
            assert forall|i: int| 0 <= i < segs.len() implies #[trigger] fold_chain(base, segs).1[i]
                == segs[i]->HexOffset_0 by {
                if i < init.len() {
                    assert(init[i] == segs[i]);
                }
            }
        }
    }
}

/// The digits of the number syntax: `0`-`9` have their values, and in
/// base 16 `a`-`f` and `A`-`F` are 10 to 15; no other character is a hex
/// digit, and in base 10 only `0`-`9` are digits.
pub proof fn lemma_digit_values(c: char)
    ensures
        '0' <= c <= '9' ==> digit_value(c, 10) == Some((c as int - 48) as nat) && digit_value(c, 16)
            == Some((c as int - 48) as nat),
        'a' <= c <= 'f' ==> digit_value(c, 16) == Some((c as int - 87) as nat),
        'A' <= c <= 'F' ==> digit_value(c, 16) == Some((c as int - 55) as nat),
        !('0' <= c <= '9') ==> digit_value(c, 10) is None,
        !('0' <= c <= '9' || 'a' <= c <= 'f' || 'A' <= c <= 'F') ==> digit_value(c, 16) is None,
{
}

/// The protocol form of a chain: start address and offsets (see
/// `fold_chain`).
pub fn fold_segments(base: u32, segs: &Vec<ChainSegment>) -> (r: (u32, Vec<u32>))
    ensures
        (r.0, r.1@) == fold_chain(base, segs@),
{
    let mut addr: u32 = base;
    let mut chain: Vec<u32> = Vec::new();
    let mut i: usize = 0;
    while i < segs.len()
        invariant
            0 <= i <= segs@.len(),
            (addr, chain@) == fold_chain(base, segs@.take(i as int)),
        decreases segs@.len() - i,
    {
        proof {
            assert(segs@.take(i + 1).drop_last() =~= segs@.take(i as int));
        }
        match segs[i] {
            ChainSegment::HexOffset(o) => {
                chain.push(o);
            },
            ChainSegment::FieldOffset(o) => {
                if chain.len() == 0 {
                    addr = addr.wrapping_add(o);
                } else {
                    let k: usize = chain.len() - 1;
                    let v: u32 = chain[k].wrapping_add(o);
                    chain.set(k, v);
                }
                chain.push(0);
            },
        }
        i = i + 1;
    }
    proof {
        assert(segs@.take(i as int) =~= segs@);
    }
    (addr, chain)
}

/// `r` is a chain expression with exactly these parts.
pub open spec fn is_chain_expr(r: AddressExpr, addr: u32, chain: Seq<u32>, absolute: bool) -> bool {
    match r {
        AddressExpr::Chain { addr: a, chain: c, absolute: b } => a == addr && c@ == chain && b
            == absolute,
        _ => false,
    }
}

/// The address expression for a resolved start address and the segments
/// after it; `chained` tells whether the text had any arrow.
pub fn build_address_expr(
    base: u32,
    absolute: bool,
    segs: &Vec<ChainSegment>,
    chained: bool,
) -> (r: AddressExpr)
    ensures
        (!chained ==> (r == AddressExpr::Simple { addr: base, absolute })),
        (chained ==> is_chain_expr(r, fold_chain(base, segs@).0, fold_chain(base, segs@).1, absolute)),
{
    if !chained {
        return AddressExpr::Simple { addr: base, absolute };
    }
    let (addr, chain) = fold_segments(base, segs);
    AddressExpr::Chain { addr, chain, absolute }
}

/// How a byte shows in the text column of a hex dump: printable ASCII as
/// itself, anything else as `.`.
pub open spec fn printable(b: u8) -> char {
    if 0x20 <= b <= 0x7e {
        b as char
    } else {
        '.'
    }
}

/// Column `i` of a hex dump row: the byte in two hex digits and a space,
/// or three spaces past the end of the chunk; one more space after the
/// eighth column.
pub open spec fn dump_cell(chunk: Seq<u8>, i: int) -> Seq<char> {
    let body = if i < chunk.len() {
        hex_text(chunk[i] as nat, 2).push(' ')
    } else {
        seq![' ', ' ', ' ']
    };
    if i == 7 {
        body.push(' ')
    } else {
        body
    }
}

/// The first `n` hex columns of a dump row.
pub open spec fn dump_cells(chunk: Seq<u8>, n: nat) -> Seq<char>
    decreases n,
{
    if n == 0 {
        Seq::empty()
    } else {
        dump_cells(chunk, (n - 1) as nat) + dump_cell(chunk, n - 1)
    }
}

/// One row of a hex dump of up to 16 bytes at `offset`: the offset in
/// eight hex digits, the hex columns, and the bytes as text between bars.
pub open spec fn hex_dump_row(offset: nat, chunk: Seq<u8>) -> Seq<char> {
    hex_text(offset, 8) + seq![' ', ' '] + dump_cells(chunk, 16) + seq![' ', '|'] + chunk.map_values(
        |b: u8| printable(b),
    ) + seq!['|']
}

/// The text column of a hex dump row: the row ends with the chunk's bytes
/// between bars, each printable ASCII byte (space `0x20` to `~` `0x7E`)
/// shown as its own character and every other byte as `.`.
pub proof fn lemma_dump_text_column(offset: nat, chunk: Seq<u8>)
    ensures
        ({
            let row = hex_dump_row(offset, chunk);
            let t = row.len() - 1 - chunk.len();
            &&& t >= 1
            &&& row[t - 1] == '|'
            &&& row[row.len() - 1] == '|'
            &&& forall|i: int|
                0 <= i < chunk.len() ==> #[trigger] row[t + i] == (if 0x20 <= chunk[i] && chunk[i]
                    <= 0x7e {
                    chunk[i] as char
                } else {
                    '.'
                })
        }),
{
    let a = hex_text(offset, 8) + seq![' ', ' '] + dump_cells(chunk, 16) + seq![' ', '|'];
    let m = chunk.map_values(|b: u8| printable(b));
    let row = hex_dump_row(offset, chunk);
    assert(row == a + m + seq!['|']);
    assert(a.len() >= 2);
    assert(a[a.len() - 1] == '|');
    let t = row.len() - 1 - chunk.len();
    assert(t == a.len());
    assert forall|i: int| 0 <= i < chunk.len() implies #[trigger] row[t + i] == (if 0x20 <= chunk[i]
        && chunk[i] <= 0x7e {
        chunk[i] as char
    } else {
        '.'
    }) by {
        assert(row[t + i] == m[i]);
    }
}

proof fn lemma_byte_hex_len(b: u8)
    ensures
        hex_text(b as nat, 2).len() == 2,
{
    let v = b as nat;
    if v >= 16 {
        assert(v / 16 < 16);
        assert(hex_digits(v / 16).len() == 1);
    }
}

/// Start of hex column `i` within the hex columns of a dump row.
pub open spec fn dump_col_start(i: int) -> int {
    3 * i + if i >= 8 {
        1int
    } else {
        0
    }
}

proof fn lemma_dump_cells_layout(chunk: Seq<u8>, n: nat)
    requires
        n <= 16,
    ensures
        dump_cells(chunk, n).len() == dump_col_start(n as int),
        forall|i: int, j: int|
            0 <= i < n && 0 <= j < 3 ==> #[trigger] dump_cells(chunk, n)[dump_col_start(i) + j] == (if i
                < chunk.len() {
                hex_text(chunk[i] as nat, 2).push(' ')[j]
            } else {
                ' '
            }),
        n >= 8 ==> dump_cells(chunk, n)[24] == ' ',
    decreases n,
{
    if n > 0 {
        let k = (n - 1) as int;
        lemma_dump_cells_layout(chunk, (n - 1) as nat);
        let prev = dump_cells(chunk, (n - 1) as nat);
        let cell = dump_cell(chunk, k);
        if k < chunk.len() {
            lemma_byte_hex_len(chunk[k]);
        }
        assert(dump_cells(chunk, n) == prev + cell);
        assert forall|i: int, j: int|
            0 <= i < n && 0 <= j < 3 implies #[trigger] dump_cells(chunk, n)[dump_col_start(i) + j] == (if i
            < chunk.len() {
            hex_text(chunk[i] as nat, 2).push(' ')[j]
        } else {
            ' '
        }) by {
            if i < k {
                assert(dump_cells(chunk, n)[dump_col_start(i) + j] == prev[dump_col_start(i) + j]);
            } else {
                assert(dump_cells(chunk, n)[dump_col_start(i) + j] == cell[j]);
            }
        }
    }
}

/// The hex columns of a dump row: the row ends with the 16 hex columns,
/// ` |`, the text column and `|`; column `i` (with one extra space before
/// column 8) holds byte `i` of the chunk as two hex digits and a space, or
/// three spaces past the end of the chunk; the row starts with the offset
/// in hex, padded to eight digits, and two spaces.
pub proof fn lemma_dump_hex_columns(offset: nat, chunk: Seq<u8>)
    requires
        chunk.len() <= 16,
    ensures
        ({
            let row = hex_dump_row(offset, chunk);
            let e = row.len() - 1 - chunk.len() - 2 - 49;
            &&& e == hex_text(offset, 8).len() + 2
            &&& row.take(e) == hex_text(offset, 8) + seq![' ', ' ']
            &&& row[e + 24] == ' '
            &&& row[row.len() - chunk.len() - 3] == ' '
            &&& forall|i: int, j: int|
                0 <= i < 16 && 0 <= j < 3 ==> #[trigger] row[e + dump_col_start(i) + j] == (if i
                    < chunk.len() {
                    hex_text(chunk[i] as nat, 2).push(' ')[j]
                } else {
                    ' '
                })
        }),
{
    lemma_dump_cells_layout(chunk, 16);
    let pre = hex_text(offset, 8) + seq![' ', ' '];
    let cells = dump_cells(chunk, 16);
    let rest = seq![' ', '|'] + chunk.map_values(|b: u8| printable(b)) + seq!['|'];
    let row = hex_dump_row(offset, chunk);
    assert(row =~= pre + cells + rest);
    let e = pre.len() as int;
    assert(row.take(e) =~= pre);
    assert forall|i: int, j: int| 0 <= i < 16 && 0 <= j < 3 implies #[trigger] row[e + dump_col_start(i)
        + j] == (if i < chunk.len() {
        hex_text(chunk[i] as nat, 2).push(' ')[j]
    } else {
        ' '
    }) by {
        assert(row[e + dump_col_start(i) + j] == cells[dump_col_start(i) + j]);
    }
}

fn push_printable(w: &mut String, b: u8)
    ensures
        final(w)@ == old(w)@.push(printable(b)),
{
    if b >= 0x20 && b <= 0x7e {
        string_push(w, b as char);
    } else {
        string_push(w, '.');
    }
}

/// Format one row of a hex dump (the chunk holds at most 16 bytes).
pub fn hex_dump_line(offset: usize, chunk: &[u8]) -> (r: String)
    requires
        chunk.len() <= 16,
    ensures
        r@ == hex_dump_row(offset as nat, chunk@),
{
    let mut w = String::new();
    push_hex(&mut w, offset as u64, 8);
    string_push(&mut w, ' ');
    string_push(&mut w, ' ');
    let ghost head = w@;
    let mut i: usize = 0;
    while i < 16
        invariant
            i <= 16,
            chunk.len() <= 16,
            w@ == head + dump_cells(chunk@, i as nat),
        decreases 16 - i,
    {
        let ghost before = w@;
        if i < chunk.len() {
            push_hex(&mut w, chunk[i] as u64, 2);
            string_push(&mut w, ' ');
        } else {
            string_push(&mut w, ' ');
            string_push(&mut w, ' ');
            string_push(&mut w, ' ');
        }
        if i == 7 {
            string_push(&mut w, ' ');
        }
        assert(w@ =~= head + dump_cells(chunk@, (i + 1) as nat));
        i = i + 1;
    }
    string_push(&mut w, ' ');
    string_push(&mut w, '|');
    let ghost mid = w@;
    let mut j: usize = 0;
    while j < chunk.len()
        invariant
            j <= chunk.len(),
            w@ == mid + chunk@.take(j as int).map_values(|b: u8| printable(b)),
        decreases chunk.len() - j,
    {
        push_printable(&mut w, chunk[j]);
        assert(chunk@.take(j + 1) =~= chunk@.take(j as int).push(chunk[j as int]));
        assert(w@ =~= mid + chunk@.take((j + 1) as int).map_values(|b: u8| printable(b)));
        j = j + 1;
    }
    assert(chunk@.take(chunk.len() as int) =~= chunk@);
    string_push(&mut w, '|');
    assert(w@ =~= hex_dump_row(offset as nat, chunk@));
    w
}

/// A hex dump of `data`: one row per 16 bytes, the last one short.
pub fn hex_dump_lines(data: &[u8]) -> (r: Vec<String>)
    requires
        data.len() <= usize::MAX - 16,
    ensures
        r.len() == (data.len() + 15) / 16,
        forall|k: int|
            0 <= k < r.len() ==> #[trigger] r[k]@ == hex_dump_row(
                (16 * k) as nat,
                data@.subrange(16 * k, if 16 * k + 16 <= data.len() {
                    16 * k + 16
                } else {
                    data.len() as int
                }),
            ),
{
    let mut r: Vec<String> = Vec::new();
    let mut off: usize = 0;
    while off < data.len()
        invariant
            data.len() <= usize::MAX - 16,
            off == 16 * r.len(),
            off < data.len() + 16,
            r.len() <= (data.len() + 15) / 16,
            off < data.len() ==> r.len() < (data.len() + 15) / 16,
            off >= data.len() ==> r.len() == (data.len() + 15) / 16,
            forall|k: int|
                0 <= k < r.len() ==> #[trigger] r[k]@ == hex_dump_row(
                    (16 * k) as nat,
                    data@.subrange(16 * k, if 16 * k + 16 <= data.len() {
                        16 * k + 16
                    } else {
                        data.len() as int
                    }),
                ),
        decreases data.len() + 16 - off,
    {
        let end = if off + 16 <= data.len() {
            off + 16
        } else {
            data.len()
        };
        let chunk = slice_subrange(data, off, end);
        let line = hex_dump_line(off, chunk);
        r.push(line);
        off = off + 16;
    }
    r
}

fn slice_subrange(data: &[u8], from: usize, to: usize) -> (r: &[u8])
    requires
        from <= to <= data.len(),
    ensures
        r@ == data@.subrange(from as int, to as int),
{
    vstd::slice::slice_subrange(data, from, to)
}

/// The label of a pointer kind in a pointer listing.
pub open spec fn pointer_kind_label(k: PointerKind) -> Seq<char> {
    match k {
        PointerKind::Vtable => seq!['V', 'T', 'A', 'B', 'L', 'E'],
        PointerKind::Code => seq!['C', 'O', 'D', 'E'],
        PointerKind::Data => seq!['D', 'A', 'T', 'A'],
        PointerKind::Object => seq!['O', 'B', 'J', 'E', 'C', 'T'],
        PointerKind::Heap => seq!['H', 'E', 'A', 'P'],
    }
}

/// `s` padded with spaces on the right to `width` characters.
pub open spec fn pad_right(s: Seq<char>, width: nat) -> Seq<char> {
    if s.len() >= width {
        s
    } else {
        s + Seq::new((width - s.len()) as nat, |_i: int| ' ')
    }
}

/// One line of a pointer listing:
/// `  +0x{offset:03X}  0x{raw:08X}  {kind:<7} ghidra:0x{ghidra:08X}`, then
/// two spaces and the detail, if any.
pub open spec fn pointer_line_text(p: PointerInfo) -> Seq<char> {
    seq![' ', ' ', '+', '0', 'x'] + hex_text(p.offset as nat, 3) + seq![' ', ' ', '0', 'x']
        + hex_text(p.raw_value as nat, 8) + seq![' ', ' '] + pad_right(pointer_kind_label(p.kind), 7)
        + seq![' ', 'g', 'h', 'i', 'd', 'r', 'a', ':', '0', 'x'] + hex_text(p.ghidra_value as nat, 8)
        + match p.detail {
        Some(d) => seq![' ', ' '] + d@,
        None => Seq::empty(),
    }
}

fn push_chars(w: &mut String, s: &str)
    ensures
        final(w)@ == old(w)@ + s@,
{
    w.append(s);
}

/// Format one line of a pointer listing.
#[verifier::spinoff_prover]
#[verifier::rlimit(50)]
pub fn pointer_line(p: &PointerInfo) -> (r: String)
    ensures
        r@ == pointer_line_text(*p),
{
    let mut w = String::new();
    push_chars(&mut w, "  +0x");
    push_hex(&mut w, p.offset as u64, 3);
    push_chars(&mut w, "  0x");
    push_hex(&mut w, p.raw_value as u64, 8);
    push_chars(&mut w, "  ");
    match p.kind {
        PointerKind::Vtable => push_chars(&mut w, "VTABLE "),
        PointerKind::Code => push_chars(&mut w, "CODE   "),
        PointerKind::Data => push_chars(&mut w, "DATA   "),
        PointerKind::Object => push_chars(&mut w, "OBJECT "),
        PointerKind::Heap => push_chars(&mut w, "HEAP   "),
    }
    push_chars(&mut w, " ghidra:0x");
    push_hex(&mut w, p.ghidra_value as u64, 8);
    match &p.detail {
        Some(d) => {
            push_chars(&mut w, "  ");
            push_chars(&mut w, d.as_str());
        },
        None => {},
    }
    proof {
        reveal_strlit("  +0x");
        reveal_strlit("  0x");
        reveal_strlit("  ");
        reveal_strlit("VTABLE ");
        reveal_strlit("CODE   ");
        reveal_strlit("DATA   ");
        reveal_strlit("OBJECT ");
        reveal_strlit("HEAP   ");
        reveal_strlit(" ghidra:0x");
        assert(pad_right(pointer_kind_label(p.kind), 7) =~= match p.kind {
            PointerKind::Vtable => "VTABLE "@,
            PointerKind::Code => "CODE   "@,
            PointerKind::Data => "DATA   "@,
            PointerKind::Object => "OBJECT "@,
            PointerKind::Heap => "HEAP   "@,
        });
    }
    assert(w@ =~= pointer_line_text(*p));
    w
}

proof fn lemma_hex_digit_value(d: int)
    requires
        0 <= d < 16,
    ensures
        digit_value(hex_digit(d), 16) == Some(d as nat),
        hex_digit(d) != '+',
{
}

proof fn lemma_hex_digits_value(v: nat)
    ensures
        hex_digits(v).len() >= 1,
        all_digits(hex_digits(v), 16),
        digits_value(hex_digits(v), 16) == v,
        forall|i: int| 0 <= i < hex_digits(v).len() ==> #[trigger] hex_digits(v)[i] != '+',
    decreases v,
{
    if v < 16 {
        lemma_hex_digit_value(v as int);
        let s = hex_digits(v);
        assert(s.drop_last() =~= Seq::<char>::empty());
        assert(digits_value(Seq::<char>::empty(), 16) == 0);
        assert(s.last() == hex_digit(v as int));
        assert(digits_value(s, 16) == (digits_value(s.drop_last(), 16) * 16 + v) as nat);
    } else {
        lemma_hex_digits_value(v / 16);
        lemma_hex_digit_value((v % 16) as int);
        let p = hex_digits(v / 16);
        let s = hex_digits(v);
        assert(s.drop_last() =~= p);
        assert forall|i: int| 0 <= i < s.len() implies #[trigger] digit_value(s[i], 16) is Some && s[i]
            != '+' by {
            if i < p.len() {
                assert(s[i] == p[i]);
                assert(digit_value(p[i], 16) is Some);
            }
        }
        assert(v == (v / 16) * 16 + v % 16) by {
            vstd::arithmetic::div_mod::lemma_fundamental_div_mod(v as int, 16);
        }
        assert(s.last() == hex_digit((v % 16) as int));
        assert(digits_value(s, 16) == (digits_value(p, 16) * 16 + (v % 16)) as nat);
    }
}

proof fn lemma_leading_zeros(n: nat, d: Seq<char>)
    ensures
        digits_value(zeros(n) + d, 16) == digits_value(d, 16),
        all_digits(d, 16) ==> all_digits(zeros(n) + d, 16),
    decreases d.len() + n,
{
    if d.len() == 0 {
        assert(zeros(n) + d =~= zeros(n));
        if n > 0 {
            assert(zeros(n).drop_last() =~= zeros((n - 1) as nat) + d);
            lemma_leading_zeros((n - 1) as nat, d);
            assert(zeros((n - 1) as nat) + d =~= zeros((n - 1) as nat));
        }
    } else {
        assert((zeros(n) + d).drop_last() =~= zeros(n) + d.drop_last());
        lemma_leading_zeros(n, d.drop_last());
    }
    if all_digits(d, 16) {
        assert forall|i: int| 0 <= i < (zeros(n) + d).len() implies #[trigger] digit_value(
            (zeros(n) + d)[i],
            16,
        ) is Some by {
            if i >= n {
                assert((zeros(n) + d)[i] == d[i - n]);
            }
        }
    }
}

/// Hex text reads back: the digits of `v` padded to any width, as shown
/// in a hex dump's offset and byte columns, parse in base 16 (with or
/// without a `0x` prefix) to `v` again, and are at least that wide.
pub proof fn lemma_hex_text_parses_back(v: nat, width: nat)
    requires
        v <= u32::MAX,
    ensures
        hex_text(v, width).len() >= width,
        parse_radix(hex_text(v, width), 16) == Some(v as u32),
        spec_parse_hex(hex_text(v, width)) == Some(v as u32),
        spec_parse_hex(seq!['0', 'x'] + hex_text(v, width)) == Some(v as u32),
{
    lemma_hex_digits_value(v);
    let d = hex_digits(v);
    let t = hex_text(v, width);
    if d.len() < width {
        lemma_leading_zeros((width - d.len()) as nat, d);
    }
    assert(t.len() >= 1);
    assert(t[0] != '+') by {
        if d.len() < width {
            assert(t[0] == '0');
        } else {
            assert(t[0] == d[0]);
        }
    }
    assert(!has_hex_prefix(t)) by {
        if t.len() >= 2 && t[0] == '0' {
            assert(digit_value(t[1], 16) is Some);
        }
    }
    let u = seq!['0', 'x'] + t;
    assert(has_hex_prefix(u));
    assert(u.skip(2) =~= t);
}

/// The number `parse_u32` reads from `s`.
pub open spec fn spec_parse_u32(s: Seq<char>) -> Option<u32> {
    if has_hex_prefix(s) {
        parse_radix(s.skip(2), 16)
    } else {
        parse_radix(s, 10)
    }
}

/// The number `parse_hex` reads from `s`.
pub open spec fn spec_parse_hex(s: Seq<char>) -> Option<u32> {
    if has_hex_prefix(s) {
        parse_radix(s.skip(2), 16)
    } else {
        parse_radix(s, 16)
    }
}

/// Whether a name in an address expression is a number (and so needs no
/// question to the debug server).
pub fn is_number_text(s: &str) -> (r: bool)
    ensures
        r == spec_looks_like_hex(s@),
{
    looks_like_hex(s)
}

/// The value of offset text `s`, given the server's answer when it was
/// asked for a field of that name (`field`; ask only for text that is not
/// a number and when a class is known): number-like text is read as a
/// number; else the field's offset, if the server gave one; else the text
/// read as a number. `None` when that reading fails.
pub fn resolve_offset(s: &str, field: Option<u32>) -> (r: Option<u32>)
    ensures
        r == (if spec_looks_like_hex(s@) {
            spec_parse_u32(s@)
        } else {
            match field {
                Some(o) => Some(o),
                None => spec_parse_u32(s@),
            }
        }),
{
    if looks_like_hex(s) {
        return parse_u32(s);
    }
    match field {
        Some(o) => Some(o),
        None => parse_u32(s),
    }
}

/// The start address of an address expression from its base text `s`
/// (`name` or `name+offset`), given the alias the server resolved the name
/// to (ask only when the name is not a number) and the value of the offset
/// part (0 when there is none): a number or an unknown name is read as a
/// hex address and keeps `absolute`; a known alias gives its runtime
/// address, which is absolute. The offset is added, wrapping. `None` when
/// the hex reading fails.
pub fn resolve_base(s: &str, absolute: bool, alias: Option<u32>, extra: u32) -> (r: Option<(u32, bool)>)
    ensures
        ({
            let base = spec_split_compound(s@).0;
            r == (if !spec_looks_like_hex(base) && alias is Some {
                Some((wrap_add(alias->0, extra), true))
            } else {
                match spec_parse_hex(base) {
                    Some(v) => Some((wrap_add(v, extra), absolute)),
                    None => None,
                }
            })
        }),
{
    let (base, _) = split_compound(s);
    if !looks_like_hex(base) {
        if let Some(a) = alias {
            return Some((a.wrapping_add(extra), true));
        }
    }
    match parse_hex(base) {
        Some(v) => Some((v.wrapping_add(extra), absolute)),
        None => None,
    }
}

/// One pointer-chain segment from its text `s` (`name` or `name+offset`),
/// given the field offset the server resolved the name to in the current
/// class (ask only when the name is not a number and a class is known)
/// and the value of the offset part (0 when there is none): a number is a
/// plain offset; a resolved field is a field offset; anything else is read
/// as a number. The offset is added, wrapping. `None` when the reading
/// fails.
pub fn resolve_chain_segment(s: &str, field: Option<u32>, extra: u32) -> (r: Option<ChainSegment>)
    ensures
        ({
            let base = spec_split_compound(s@).0;
            r == (if !spec_looks_like_hex(base) && field is Some {
                Some(ChainSegment::FieldOffset(wrap_add(field->0, extra)))
            } else {
                match spec_parse_u32(base) {
                    Some(v) => Some(ChainSegment::HexOffset(wrap_add(v, extra))),
                    None => None,
                }
            })
        }),
{
    let (base, _) = split_compound(s);
    if !looks_like_hex(base) {
        if let Some(f) = field {
            return Some(ChainSegment::FieldOffset(f.wrapping_add(extra)));
        }
    }
    match parse_u32(base) {
        Some(v) => Some(ChainSegment::HexOffset(v.wrapping_add(extra))),
        None => None,
    }
}

} // verus!
