//! Layout of a typed vtable declared sparsely: each declared method names
//! its slot (or all take their field position), and the slots nobody
//! names are filled with plain words so that the table has its full size.
use vstd::prelude::*;
use vstd::string::StrSliceExecFns;

verus! {

/// What occupies one slot of a laid-out vtable.
#[derive(Clone, Copy, PartialEq, Eq, Structural, Debug)]
pub enum SlotKind {
    /// The declared field with this position.
    Named(usize),
    /// An unknown slot, filled with a plain word.
    Gap,
}

/// Why a vtable declaration is refused, with the position of the field
/// where it was found.
#[derive(Clone, Copy, PartialEq, Eq, Structural, Debug)]
pub enum SlotError {
    /// Some fields name their slot and some do not.
    Mixed(usize),
    /// The slot lies at or past the table size.
    OutOfRange(usize),
    /// The slot was named by an earlier field.
    Duplicate(usize),
}

/// The slot of field `i`: the one it names, else its position.
pub open spec fn slot_of(slots: Seq<Option<u32>>, i: int) -> int {
    match slots[i] {
        Some(n) => n as int,
        None => i,
    }
}

/// Whether fields `0..=i` include both a field naming its slot and one
/// that does not.
pub open spec fn mixed_upto(slots: Seq<Option<u32>>, i: int) -> bool {
    (exists|j: int| 0 <= j <= i && #[trigger] slots[j] is Some) && (exists|j: int|
        0 <= j <= i && #[trigger] slots[j] is None)
}

/// The error field `i` raises when the fields before it raised none.
pub open spec fn field_error(slots: Seq<Option<u32>>, size: u32, i: int) -> Option<SlotError> {
    if mixed_upto(slots, i) {
        Some(SlotError::Mixed(i as usize))
    } else if slot_of(slots, i) >= size {
        Some(SlotError::OutOfRange(i as usize))
    } else if exists|j: int| 0 <= j < i && #[trigger] slot_of(slots, j) == slot_of(slots, i) {
        Some(SlotError::Duplicate(i as usize))
    } else {
        None
    }
}

/// The first error among fields `0..n`, if any.
pub open spec fn layout_error(slots: Seq<Option<u32>>, size: u32, n: int) -> Option<SlotError>
    decreases n,
{
    if n <= 0 {
        None
    } else {
        match layout_error(slots, size, n - 1) {
            Some(e) => Some(e),
            None => field_error(slots, size, n - 1),
        }
    }
}

proof fn lemma_error_stays(slots: Seq<Option<u32>>, size: u32, m: int, n: int)
    requires
        0 <= m <= n,
        layout_error(slots, size, m) is Some,
    ensures
        layout_error(slots, size, n) == layout_error(slots, size, m),
    decreases n - m,
{
    if m < n {
        lemma_error_stays(slots, size, m, n - 1);
    }
}

proof fn lemma_no_error_prefix(slots: Seq<Option<u32>>, size: u32, n: int, i: int)
    requires
        0 <= i < n,
        layout_error(slots, size, n) is None,
    ensures
        field_error(slots, size, i) is None,
    decreases n,
{
    if i < n - 1 {
        lemma_no_error_prefix(slots, size, n - 1, i);
    }
}

/// Lay out a vtable of `size` slots from the slot each field names
/// (`slots[i]`, `None` for a field without a slot attribute).
///
/// Fails at the first field that mixes the two kinds of field, names a
/// slot past the table, or names a slot taken already. Otherwise each
/// field's slot holds that field and every other slot is a gap.
pub fn vtable_layout(size: u32, slots: &Vec<Option<u32>>) -> (r: Result<Vec<SlotKind>, SlotError>)
    requires
        slots.len() <= u32::MAX,
    ensures
        match layout_error(slots@, size, slots.len() as int) {
            Some(e) => r == Err::<Vec<SlotKind>, SlotError>(e),
            None => r matches Ok(v) && {
                &&& v.len() == size
                &&& forall|i: int| 0 <= i < slots.len() ==> v@[slot_of(slots@, i)] == SlotKind::Named(i as usize)
                &&& forall|k: int|
                    0 <= k < size ==> (#[trigger] v@[k] is Gap <==> forall|i: int|
                        0 <= i < slots.len() ==> slot_of(slots@, i) != k)
            },
        },
{
    let mut indices: Vec<u32> = Vec::new();
    let mut explicit = false;
    let mut implicit = false;
    let mut i: usize = 0;
    while i < slots.len()
        invariant
            slots.len() <= u32::MAX,
            i <= slots.len(),
            indices.len() == i,
            layout_error(slots@, size, i as int) is None,
            forall|j: int| 0 <= j < i ==> indices@[j] as int == #[trigger] slot_of(slots@, j),
            explicit <==> exists|j: int| 0 <= j < i && #[trigger] slots@[j] is Some,
            implicit <==> exists|j: int| 0 <= j < i && #[trigger] slots@[j] is None,
        decreases slots.len() - i,
    {
        let idx: u32 = match slots[i] {
            Some(n) => {
                explicit = true;
                n
            },
            None => {
                implicit = true;
                i as u32
            },
        };
        proof {
            assert(slots@[i as int] is Some ==> exists|j: int| 0 <= j <= i && #[trigger] slots@[j] is Some);
            assert(slots@[i as int] is None ==> exists|j: int| 0 <= j <= i && #[trigger] slots@[j] is None);
        }
        if explicit && implicit {
            proof {
                assert(field_error(slots@, size, i as int) == Some(SlotError::Mixed(i)));
                lemma_error_stays(slots@, size, i + 1, slots.len() as int);
            }
            return Err(SlotError::Mixed(i));
        }
        proof {
            assert(!mixed_upto(slots@, i as int));
        }
        if idx >= size {
            proof {
                lemma_error_stays(slots@, size, i + 1, slots.len() as int);
            }
            return Err(SlotError::OutOfRange(i));
        }
        let mut j: usize = 0;
        while j < i
            invariant
                i < slots.len(),
                j <= i,
                indices.len() == i,
                idx as int == slot_of(slots@, i as int),
                idx < size,
                slots.len() <= u32::MAX,
                !mixed_upto(slots@, i as int),
                layout_error(slots@, size, i as int) is None,
                forall|m: int| 0 <= m < i ==> indices@[m] as int == #[trigger] slot_of(slots@, m),
                forall|m: int| 0 <= m < j ==> #[trigger] slot_of(slots@, m) != slot_of(slots@, i as int),
            decreases i - j,
        {
            if indices[j] == idx {
                proof {
                    assert(slot_of(slots@, j as int) == slot_of(slots@, i as int));
                    assert(field_error(slots@, size, i as int) == Some(SlotError::Duplicate(i)));
                    lemma_error_stays(slots@, size, i + 1, slots.len() as int);
                }
                return Err(SlotError::Duplicate(i));
            }
            j = j + 1;
        }
        proof {
            assert(field_error(slots@, size, i as int) is None);
        }
        indices.push(idx);
        i = i + 1;
    }
    let mut table: Vec<SlotKind> = Vec::new();
    let mut k: usize = 0;
    while k < size as usize
        invariant
            k <= size,
            table.len() == k,
            forall|m: int| 0 <= m < k ==> #[trigger] table@[m] == SlotKind::Gap,
        decreases size - k,
    {
        table.push(SlotKind::Gap);
        k = k + 1;
    }
    let mut f: usize = 0;
    while f < indices.len()
        invariant
            indices.len() == slots.len(),
            table.len() == size,
            f <= indices.len(),
            layout_error(slots@, size, slots.len() as int) is None,
            forall|j: int| 0 <= j < slots.len() ==> indices@[j] as int == #[trigger] slot_of(slots@, j),
            forall|j: int| 0 <= j < f ==> table@[slot_of(slots@, j)] == SlotKind::Named(j as usize),
            forall|m: int|
                0 <= m < size ==> (#[trigger] table@[m] is Gap <==> forall|j: int|
                    0 <= j < f ==> slot_of(slots@, j) != m),
            forall|m: int| 0 <= m < size ==> (#[trigger] table@[m] matches SlotKind::Named(j) ==> j < f),
        decreases indices.len() - f,
    {
        proof {
            lemma_no_error_prefix(slots@, size, slots.len() as int, f as int);
            assert(!(exists|j: int| 0 <= j < f && #[trigger] slot_of(slots@, j) == slot_of(slots@, f as int)));
        }
        let at = indices[f] as usize;
        let ghost before = table@;
        table.set(at, SlotKind::Named(f));
        proof {
            assert forall|j: int| 0 <= j < f implies table@[slot_of(slots@, j)] == SlotKind::Named(j as usize) by {
                lemma_no_error_prefix(slots@, size, slots.len() as int, j);
                assert(slot_of(slots@, j) != slot_of(slots@, f as int));
            }
        }
        f = f + 1;
    }
    Ok(table)
}

/// The settings of a vtable attribute: `size = N` (required), `va = N`
/// and `class = "Name"`, comma-separated.
#[derive(Clone, Debug)]
pub struct VtableAttr {
    pub size: u32,
    pub va: Option<u32>,
    pub class: Option<String>,
}

/// Why an attribute text is refused, with the character position where.
#[derive(Clone, Copy, PartialEq, Eq, Structural, Debug)]
pub enum AttrError {
    /// A setting name other than `size`, `va` or `class` (or none).
    UnknownKey(usize),
    /// No `=` after the setting name.
    ExpectedEq(usize),
    /// The value is not an integer that fits 32 bits (or, for `class`, a
    /// string literal without escapes).
    BadLiteral(usize),
    /// Something other than a comma after a setting.
    ExpectedComma(usize),
    /// No `size` setting.
    MissingSize,
}

/// The settings read so far.
pub struct AttrSettings {
    pub size: Option<u32>,
    pub va: Option<u32>,
    pub class: Option<Seq<char>>,
}

pub open spec fn is_ws(c: char) -> bool {
    c == ' ' || c == '\t' || c == '\n' || c == '\r'
}

pub open spec fn is_word_char(c: char) -> bool {
    ('a' <= c <= 'z') || ('A' <= c <= 'Z') || ('0' <= c <= '9') || c == '_'
}

/// The first position at or after `p` that is not white space.
pub open spec fn skip_ws(s: Seq<char>, p: int) -> int
    decreases s.len() - p,
{
    if p < s.len() && is_ws(s[p]) {
        skip_ws(s, p + 1)
    } else {
        p
    }
}

/// The first position at or after `p` that is not a word character.
pub open spec fn word_end(s: Seq<char>, p: int) -> int
    decreases s.len() - p,
{
    if p < s.len() && is_word_char(s[p]) {
        word_end(s, p + 1)
    } else {
        p
    }
}

/// The position of the `"` closing a string literal whose text starts at
/// `p`; none when the text ends first or holds a backslash.
pub open spec fn string_close(s: Seq<char>, p: int) -> Option<int>
    decreases s.len() - p,
{
    if p >= s.len() || s[p] == '\\' {
        None
    } else if s[p] == '"' {
        Some(p)
    } else {
        string_close(s, p + 1)
    }
}

/// The value of digit `c` in `radix` (16 at most), if it is one.
pub open spec fn digit_value(c: char, radix: int) -> Option<int> {
    let v = if '0' <= c <= '9' {
        c as int - '0' as int
    } else if 'a' <= c <= 'f' {
        c as int - 'a' as int + 10
    } else if 'A' <= c <= 'F' {
        c as int - 'A' as int + 10
    } else {
        radix
    };
    if v < radix {
        Some(v)
    } else {
        None
    }
}

/// The value of the digits of `t` in `radix`, underscores skipped; none
/// when a character is neither.
pub open spec fn digits_value(t: Seq<char>, radix: int) -> Option<int>
    decreases t.len(),
{
    if t.len() == 0 {
        Some(0)
    } else {
        match digits_value(t.drop_last(), radix) {
            None => None,
            Some(v) => if t.last() == '_' {
                Some(v)
            } else {
                match digit_value(t.last(), radix) {
                    Some(d) => Some(v * radix + d),
                    None => None,
                }
            },
        }
    }
}

/// The value of an integer literal: `0x` (or `0X`) and hex digits, or
/// decimal digits starting with a digit, underscores allowed; it must fit
/// 32 bits.
pub open spec fn int_literal(t: Seq<char>) -> Option<u32> {
    let v = if t.len() >= 3 && t[0] == '0' && (t[1] == 'x' || t[1] == 'X') {
        digits_value(t.skip(2), 16)
    } else if t.len() >= 1 && '0' <= t[0] <= '9' {
        digits_value(t, 10)
    } else {
        None
    };
    match v {
        Some(n) => if n <= u32::MAX {
            Some(n as u32)
        } else {
            None
        },
        None => None,
    }
}

pub open spec fn key_size() -> Seq<char> {
    seq!['s', 'i', 'z', 'e']
}

pub open spec fn key_va() -> Seq<char> {
    seq!['v', 'a']
}

pub open spec fn key_class() -> Seq<char> {
    seq!['c', 'l', 'a', 's', 's']
}

/// Read the settings from position `p` on, on top of `a`.
pub open spec fn parse_settings(s: Seq<char>, p: int, a: AttrSettings) -> Result<AttrSettings, AttrError>
    decreases s.len() - p,
{
    let q = skip_ws(s, p);
    if p < 0 || q >= s.len() {
        Ok(a)
    } else {
        let e = word_end(s, q);
        let key = s.subrange(q, e);
        if key != key_size() && key != key_va() && key != key_class() {
            Err(AttrError::UnknownKey(q as usize))
        } else {
            let q2 = skip_ws(s, e);
            if q2 >= s.len() || s[q2] != '=' {
                Err(AttrError::ExpectedEq(q2 as usize))
            } else {
                let q3 = skip_ws(s, q2 + 1);
                let value: Option<(AttrSettings, int)> = if key == key_class() {
                    if q3 < s.len() && s[q3] == '"' {
                        match string_close(s, q3 + 1) {
                            Some(c) => Some(
                                (AttrSettings { class: Some(s.subrange(q3 + 1, c)), ..a }, c + 1),
                            ),
                            None => None,
                        }
                    } else {
                        None
                    }
                } else {
                    let e4 = word_end(s, q3);
                    match int_literal(s.subrange(q3, e4)) {
                        Some(v) => Some(
                            (if key == key_size() {
                                AttrSettings { size: Some(v), ..a }
                            } else {
                                AttrSettings { va: Some(v), ..a }
                            }, e4),
                        ),
                        None => None,
                    }
                };
                match value {
                    None => Err(AttrError::BadLiteral(q3 as usize)),
                    Some((b, next)) => {
                        let q5 = skip_ws(s, next);
                        if q5 >= s.len() {
                            Ok(b)
                        } else if s[q5] == ',' && q5 + 1 > p {
                            parse_settings(s, q5 + 1, b)
                        } else {
                            Err(AttrError::ExpectedComma(q5 as usize))
                        }
                    },
                }
            }
        }
    }
}

fn skip_ws_at(s: &str, p: usize) -> (r: usize)
    requires
        p <= s@.len(),
    ensures
        r == skip_ws(s@, p as int),
        p <= r <= s@.len(),
{
    let n = s.unicode_len();
    let mut q = p;
    while q < n && is_ws_char(s.get_char(q))
        invariant
            n == s@.len(),
            p <= q <= n,
            skip_ws(s@, p as int) == skip_ws(s@, q as int),
        decreases n - q,
    {
        q = q + 1;
    }
    q
}

fn is_ws_char(c: char) -> (r: bool)
    ensures
        r == is_ws(c),
{
    c == ' ' || c == '\t' || c == '\n' || c == '\r'
}

fn is_word(c: char) -> (r: bool)
    ensures
        r == is_word_char(c),
{
    ('a' <= c && c <= 'z') || ('A' <= c && c <= 'Z') || ('0' <= c && c <= '9') || c == '_'
}

fn word_end_at(s: &str, p: usize) -> (r: usize)
    requires
        p <= s@.len(),
    ensures
        r == word_end(s@, p as int),
        p <= r <= s@.len(),
{
    let n = s.unicode_len();
    let mut q = p;
    while q < n && is_word(s.get_char(q))
        invariant
            n == s@.len(),
            p <= q <= n,
            word_end(s@, p as int) == word_end(s@, q as int),
        decreases n - q,
    {
        q = q + 1;
    }
    q
}

fn string_close_at(s: &str, p: usize) -> (r: Option<usize>)
    requires
        p <= s@.len(),
    ensures
        match string_close(s@, p as int) {
            Some(c) => r == Some(c as usize) && p <= c < s@.len(),
            None => r is None,
        },
{
    let n = s.unicode_len();
    let mut q = p;
    while q < n
        invariant
            n == s@.len(),
            p <= q <= n,
            string_close(s@, p as int) == string_close(s@, q as int),
        decreases n - q,
    {
        let c = s.get_char(q);
        if c == '\\' {
            return None;
        }
        if c == '"' {
            return Some(q);
        }
        q = q + 1;
    }
    None
}

fn digit_of(c: char, radix: u64) -> (r: Option<u64>)
    requires
        radix == 10 || radix == 16,
    ensures
        match digit_value(c, radix as int) {
            Some(v) => r == Some(v as u64),
            None => r is None,
        },
{
    let v: u64 = if '0' <= c && c <= '9' {
        (c as u32 - '0' as u32) as u64
    } else if 'a' <= c && c <= 'f' {
        (c as u32 - 'a' as u32 + 10) as u64
    } else if 'A' <= c && c <= 'F' {
        (c as u32 - 'A' as u32 + 10) as u64
    } else {
        radix
    };
    if v < radix {
        Some(v)
    } else {
        None
    }
}

proof fn lemma_digits_value_grows(t: Seq<char>, radix: int, k: int)
    requires
        radix >= 2,
        0 <= k <= t.len(),
        digits_value(t.take(k), radix) is None,
    ensures
        digits_value(t, radix) is None,
    decreases t.len() - k,
{
    if k < t.len() {
        assert(t.take(k + 1).drop_last() =~= t.take(k));
        lemma_digits_value_grows(t, radix, k + 1);
    } else {
        assert(t.take(k) =~= t);
    }
}

proof fn lemma_digits_value_big(t: Seq<char>, radix: int, k: int, v: int)
    requires
        radix >= 2,
        0 <= k <= t.len(),
        digits_value(t.take(k), radix) == Some(v),
        v > u32::MAX,
    ensures
        digits_value(t, radix) matches Some(w) ==> w > u32::MAX,
    decreases t.len() - k,
{
    if k < t.len() {
        assert(t.take(k + 1).drop_last() =~= t.take(k));
        let u = t.take(k + 1);
        if u.last() == '_' {
            lemma_digits_value_big(t, radix, k + 1, v);
        } else {
            match digit_value(u.last(), radix) {
                Some(d) => {
                    assert(d >= 0);
                    assert(v * radix + d >= v) by (nonlinear_arith)
                        requires
                            radix >= 2,
                            v > 0,
                            d >= 0,
                    ;
                    lemma_digits_value_big(t, radix, k + 1, v * radix + d);
                },
                None => {
                    lemma_digits_value_grows(t, radix, k + 1);
                },
            }
        }
    } else {
        assert(t.take(k) =~= t);
    }
}

/// Read the digits of `s[from..to]` in `radix`, as a 32-bit value.
fn digits_u32(s: &str, from: usize, to: usize, radix: u64) -> (r: Option<u32>)
    requires
        from <= to <= s@.len(),
        radix == 10 || radix == 16,
    ensures
        match digits_value(s@.subrange(from as int, to as int), radix as int) {
            Some(v) => if v <= u32::MAX {
                r == Some(v as u32)
            } else {
                r is None
            },
            None => r is None,
        },
{
    let ghost t = s@.subrange(from as int, to as int);
    let mut v: u64 = 0;
    let mut i = from;
    assert(t.take(0) =~= Seq::<char>::empty());
    while i < to
        invariant
            from <= i <= to <= s@.len(),
            t == s@.subrange(from as int, to as int),
            radix == 10 || radix == 16,
            v <= u32::MAX,
            digits_value(t.take(i - from), radix as int) == Some(v as int),
        decreases to - i,
    {
        let c = s.get_char(i);
        proof {
            assert(t.take(i - from + 1).drop_last() =~= t.take(i - from));
            assert(t.take(i - from + 1).last() == c);
        }
        if c != '_' {
            match digit_of(c, radix) {
                None => {
                    proof {
                        lemma_digits_value_grows(t, radix as int, i - from + 1);
                    }
                    return None;
                },
                Some(d) => {
                    let w: u64 = v * radix + d;
                    if w > 0xFFFF_FFFF {
                        proof {
                            lemma_digits_value_big(t, radix as int, i - from + 1, w as int);
                        }
                        return None;
                    }
                    v = w;
                },
            }
        }
        i = i + 1;
    }
    assert(t.take(to - from) =~= t);
    Some(v as u32)
}

/// Read an integer literal in `s[from..to]` (see `int_literal`).
fn int_literal_at(s: &str, from: usize, to: usize) -> (r: Option<u32>)
    requires
        from <= to <= s@.len(),
    ensures
        r == int_literal(s@.subrange(from as int, to as int)),
{
    let ghost t = s@.subrange(from as int, to as int);
    if to - from >= 3 && s.get_char(from) == '0' && (s.get_char(from + 1) == 'x' || s.get_char(from + 1) == 'X') {
        assert(t.skip(2) =~= s@.subrange(from + 2, to as int));
        digits_u32(s, from + 2, to, 16)
    } else if to - from >= 1 && '0' <= s.get_char(from) && s.get_char(from) <= '9' {
        digits_u32(s, from, to, 10)
    } else {
        None
    }
}

fn key_is(s: &str, from: usize, to: usize, key: &str) -> (r: bool)
    requires
        from <= to <= s@.len(),
    ensures
        r == (s@.subrange(from as int, to as int) == key@),
{
    let m = key.unicode_len();
    if to - from != m {
        return false;
    }
    let mut i: usize = 0;
    while i < m
        invariant
            m == key@.len(),
            to - from == m,
            from <= to <= s@.len(),
            i <= m,
            forall|k: int| 0 <= k < i ==> s@[from + k] == key@[k],
        decreases m - i,
    {
        if s.get_char(from + i) != key.get_char(i) {
            assert(s@.subrange(from as int, to as int)[i as int] != key@[i as int]);
            return false;
        }
        i = i + 1;
    }
    assert(s@.subrange(from as int, to as int) =~= key@);
    true
}

fn substring_string(s: &str, from: usize, to: usize) -> (r: String)
    requires
        from <= to <= s@.len(),
    ensures
        r@ == s@.subrange(from as int, to as int),
{
    let mut out = String::new();
    let mut i = from;
    while i < to
        invariant
            from <= i <= to <= s@.len(),
            out@ == s@.subrange(from as int, i as int),
        decreases to - i,
    {
        crate::cp1252::string_push(&mut out, s.get_char(i));
        assert(out@ =~= s@.subrange(from as int, i + 1));
        i = i + 1;
    }
    out
}

/// The text of an optional class name.
pub open spec fn class_view(c: Option<String>) -> Option<Seq<char>> {
    match c {
        Some(x) => Some(x@),
        None => None,
    }
}

/// Read a vtable attribute text such as `size = 5, va = 0x0066_A2E4,
/// class = "Palette"`: comma-separated settings, white space between
/// tokens, a trailing comma allowed, a later setting replacing an earlier
/// one (see `parse_settings`); `size` is required.
pub fn parse_vtable_attr_args(s: &str) -> (r: Result<VtableAttr, AttrError>)
    ensures
        match parse_settings(s@, 0, AttrSettings { size: None, va: None, class: None }) {
            Err(e) => r == Err::<VtableAttr, AttrError>(e),
            Ok(a) => match a.size {
                None => r == Err::<VtableAttr, AttrError>(AttrError::MissingSize),
                Some(n) => r matches Ok(v) && v.size == n && v.va == a.va && match (a.class, v.class) {
                    (Some(x), Some(y)) => y@ == x,
                    (None, None) => true,
                    _ => false,
                },
            },
        },
{
    proof {
        reveal_strlit("size");
        reveal_strlit("va");
        reveal_strlit("class");
        assert("size"@ =~= key_size());
        assert("va"@ =~= key_va());
        assert("class"@ =~= key_class());
    }
    let n = s.unicode_len();
    let mut size: Option<u32> = None;
    let mut va: Option<u32> = None;
    let mut class: Option<String> = None;
    let mut p: usize = 0;
    let ghost full = parse_settings(s@, 0, AttrSettings { size: None, va: None, class: None });
    loop
        invariant
            n == s@.len(),
            p <= n,
            full == parse_settings(s@, p as int, AttrSettings { size, va, class: class_view(class) }),
            full == parse_settings(s@, 0, AttrSettings { size: None, va: None, class: None }),
            "size"@ == key_size(),
            "va"@ == key_va(),
            "class"@ == key_class(),
        ensures
            full == Ok::<AttrSettings, AttrError>(AttrSettings { size, va, class: class_view(class) }),
        decreases n - p,
    {
        let ghost cur = AttrSettings { size, va, class: class_view(class) };
        assert(full == parse_settings(s@, p as int, cur));
        let q = skip_ws_at(s, p);
        if q >= n {
            assert(parse_settings(s@, p as int, cur) == Ok::<AttrSettings, AttrError>(cur));
            break;
        }
        let e = word_end_at(s, q);
        let is_size = key_is(s, q, e, "size");
        let is_va = key_is(s, q, e, "va");
        let is_class = key_is(s, q, e, "class");
        if !is_size && !is_va && !is_class {
            assert(parse_settings(s@, p as int, cur) == Err::<AttrSettings, AttrError>(AttrError::UnknownKey(q)));
            return Err(AttrError::UnknownKey(q));
        }
        let q2 = skip_ws_at(s, e);
        if q2 >= n || s.get_char(q2) != '=' {
            return Err(AttrError::ExpectedEq(q2));
        }
        let q3 = skip_ws_at(s, q2 + 1);
        let next: usize;
        if is_class {
            if q3 < n && s.get_char(q3) == '"' {
                match string_close_at(s, q3 + 1) {
                    Some(c) => {
                        class = Some(substring_string(s, q3 + 1, c));
                        next = c + 1;
                    },
                    None => {
                        return Err(AttrError::BadLiteral(q3));
                    },
                }
            } else {
                return Err(AttrError::BadLiteral(q3));
            }
        } else {
            let e4 = word_end_at(s, q3);
            match int_literal_at(s, q3, e4) {
                Some(v) => {
                    if is_size {
                        size = Some(v);
                    } else {
                        va = Some(v);
                    }
                    next = e4;
                },
                None => {
                    return Err(AttrError::BadLiteral(q3));
                },
            }
        }
        let q5 = skip_ws_at(s, next);
        if q5 >= n {
            break;
        }
        if s.get_char(q5) != ',' {
            return Err(AttrError::ExpectedComma(q5));
        }
        p = q5 + 1;
    }
    match size {
        None => Err(AttrError::MissingSize),
        Some(sz) => Ok(VtableAttr { size: sz, va, class }),
    }
}

} // verus!
