//! Helpers for canonical, diff-friendly text snapshots of game state:
//! pointer values are replaced by `<ptr>` or `null` so that only
//! deterministic simulation state remains.
use vstd::prelude::*;

use crate::bytes::{le_u32, read_u32_le};
use crate::cp1252::string_push;

verus! {

/// Types that can write a canonical snapshot of themselves to `w`,
/// indented by `indent` levels.
pub trait Snapshot {
    fn write_snapshot(&self, w: &mut String, indent: usize);
}

/// `n` spaces.
pub open spec fn spaces(n: nat) -> Seq<char> {
    Seq::new(n, |_i: int| ' ')
}

/// Append `indent * 2` spaces to `w`.
pub fn write_indent(w: &mut String, indent: usize)
    ensures
        final(w)@ == old(w)@ + spaces(2 * indent as nat),
{
    let ghost start = w@;
    let mut i: usize = 0;
    while i < indent
        invariant
            0 <= i <= indent,
            w@ == start + spaces(2 * i as nat),
        decreases indent - i,
    {
        let ghost before = w@;
        w.append("  ");
        proof {
            reveal_strlit("  ");
            assert(w@ =~= start + spaces(2 * (i + 1) as nat));
        }
        i = i + 1;
    }
}

/// Canonical text of a pointer field given its address: `null` for 0,
/// `<ptr>` otherwise.
pub fn fmt_ptr(ptr: usize) -> (r: &'static str)
    ensures
        r@ == (if ptr == 0 {
            "null"@
        } else {
            "<ptr>"@
        }),
{
    if ptr == 0 {
        "null"
    } else {
        "<ptr>"
    }
}

/// Canonical text of a raw 32-bit field that may hold a pointer: `null`
/// for 0, `<ptr>` otherwise.
pub fn fmt_ptr32(val: u32) -> (r: &'static str)
    ensures
        r@ == (if val == 0 {
            "null"@
        } else {
            "<ptr>"@
        }),
{
    if val == 0 {
        "null"
    } else {
        "<ptr>"
    }
}

/// The upper-case hex digit of `d` (below 16).
pub open spec fn hex_digit(d: int) -> char {
    if d < 10 {
        ('0' as int + d) as char
    } else {
        ('A' as int + d - 10) as char
    }
}

/// The upper-case hex digits of `v` without leading zeros (`0` for zero).
pub open spec fn hex_digits(v: nat) -> Seq<char>
    decreases v,
{
    if v < 16 {
        seq![hex_digit(v as int)]
    } else {
        hex_digits(v / 16).push(hex_digit((v % 16) as int))
    }
}

/// `n` zero characters.
pub open spec fn zeros(n: nat) -> Seq<char> {
    Seq::new(n, |_i: int| '0')
}

/// The hex digits of `v`, padded with zeros to at least `width` digits
/// (the text of `{:0width$X}`).
pub open spec fn hex_text(v: nat, width: nat) -> Seq<char> {
    let d = hex_digits(v);
    if d.len() >= width {
        d
    } else {
        zeros((width - d.len()) as nat) + d
    }
}

fn hex_char(d: u64) -> (c: char)
    requires
        d < 16,
    ensures
        c == hex_digit(d as int),
{
    if d < 10 {
        ((48 + d) as u8) as char
    } else {
        ((55 + d) as u8) as char
    }
}

spec fn pow16(k: nat) -> nat
    decreases k,
{
    if k == 0 {
        1
    } else {
        16 * pow16((k - 1) as nat)
    }
}

proof fn lemma_hex_len_le(v: nat, k: nat)
    requires
        1 <= k,
        v < pow16(k),
    ensures
        hex_digits(v).len() <= k,
    decreases v,
{
    if v >= 16 {
        assert(pow16(1) == 16) by {
            reveal_with_fuel(pow16, 2);
        }
        assert(k >= 2);
        assert(v / 16 < pow16((k - 1) as nat));
        lemma_hex_len_le(v / 16, (k - 1) as nat);
    }
}

proof fn lemma_pow16_16()
    ensures
        pow16(16) == 0x1_0000_0000_0000_0000,
{
    reveal_with_fuel(pow16, 17);
}

fn hex_len(v: u64) -> (n: usize)
    ensures
        n == hex_digits(v as nat).len(),
        1 <= n <= 16,
    decreases v,
{
    proof {
        lemma_pow16_16();
        lemma_hex_len_le(v as nat, 16);
    }
    if v < 16 {
        1
    } else {
        let r = hex_len(v / 16);
        r + 1
    }
}

fn push_hex_digits(w: &mut String, v: u64)
    ensures
        final(w)@ == old(w)@ + hex_digits(v as nat),
    decreases v,
{
    if v >= 16 {
        push_hex_digits(w, v / 16);
    }
    string_push(w, hex_char(v % 16));
    proof {
        if v >= 16 {
            assert(final(w)@ =~= old(w)@ + hex_digits(v as nat));
        } else {
            assert(final(w)@ =~= old(w)@ + hex_digits(v as nat));
        }
    }
}

/// Append the hex text of `v`, zero-padded to `width` digits.
pub fn push_hex(w: &mut String, v: u64, width: usize)
    ensures
        final(w)@ == old(w)@ + hex_text(v as nat, width as nat),
{
    let n = hex_len(v);
    let ghost start = w@;
    if n < width {
        let mut i: usize = 0;
        while i < width - n
            invariant
                n < width,
                i <= width - n,
                w@ == start + zeros(i as nat),
            decreases width - n - i,
        {
            string_push(w, '0');
            proof {
                assert(w@ =~= start + zeros((i + 1) as nat));
            }
            i = i + 1;
        }
    }
    let ghost mid = w@;
    push_hex_digits(w, v);
    proof {
        if n < width {
            assert(w@ =~= start + (zeros((width - n) as nat) + hex_digits(v as nat)));
        } else {
            assert(w@ =~= start + hex_digits(v as nat));
        }
    }
}

/// The two-digit hex text of `data[from..to]`, byte after byte.
pub open spec fn bytes_hex(data: Seq<u8>, from: int, to: int) -> Seq<char>
    decreases to - from,
{
    if to <= from {
        Seq::empty()
    } else {
        bytes_hex(data, from, to - 1) + hex_text(data[to - 1] as nat, 2)
    }
}

/// The text of the dump cell at byte `d`: `[ptr---]` for a whole word
/// flagged as a pointer, its eight hex digits for another whole word, and
/// the hex bytes up to `row_end` for a word cut short by the end.
pub open spec fn dump_cell(data: Seq<u8>, is_ptr: Seq<bool>, d: int, row_end: int) -> Seq<char> {
    if d + 4 <= data.len() {
        if is_ptr[d / 4] {
            "[ptr---]"@
        } else {
            hex_text(le_u32(data, d) as nat, 8)
        }
    } else {
        bytes_hex(data, d, row_end)
    }
}

/// The first `k` cells of the row that starts at byte `start`, each after a
/// space.
pub open spec fn dump_cells(data: Seq<u8>, is_ptr: Seq<bool>, start: int, row_end: int, k: int) -> Seq<
    char,
>
    decreases k,
{
    if k <= 0 {
        Seq::empty()
    } else {
        dump_cells(data, is_ptr, start, row_end, k - 1) + seq![' '] + dump_cell(
            data,
            is_ptr,
            start + 4 * (k - 1),
            row_end,
        )
    }
}

/// Where row `r` of a dump of `size` bytes ends.
pub open spec fn row_end(r: int, size: int) -> int {
    if 16 * r + 16 < size {
        16 * r + 16
    } else {
        size
    }
}

/// The text of row `r` of a raw dump: indent, `+` and the row's offset as
/// four hex digits, a colon, the cells of its words, and a newline.
pub open spec fn dump_row(data: Seq<u8>, is_ptr: Seq<bool>, indent: nat, r: int) -> Seq<char> {
    let start = 16 * r;
    let end = row_end(r, data.len() as int);
    spaces(2 * indent) + seq!['+'] + hex_text(start as nat, 4) + seq![':'] + dump_cells(
        data,
        is_ptr,
        start,
        end,
        (end - start + 3) / 4,
    ) + seq!['\n']
}

/// The first `k` rows of a raw dump.
pub open spec fn dump_rows(data: Seq<u8>, is_ptr: Seq<bool>, indent: nat, k: int) -> Seq<char>
    decreases k,
{
    if k <= 0 {
        Seq::empty()
    } else {
        dump_rows(data, is_ptr, indent, k - 1) + dump_row(data, is_ptr, indent, k - 1)
    }
}

/// The address range of the game image's code and data sections (as laid
/// out in the disassembly), `[start, end)`.
#[derive(Clone, Copy, PartialEq, Eq, Structural, Debug)]
pub struct ImageSections {
    pub start: u32,
    pub end: u32,
}

/// Whether a word read from memory looks like a pointer: never below
/// 0x10000; yes when, moved back by the image's load `delta`, it falls in
/// the image's sections; else, above 1 MiB, when the address is readable.
pub open spec fn likely_pointer(val: u32, delta: u32, sections: ImageSections, readable: bool) -> bool {
    let image = ((val - delta) % 0x1_0000_0000) as u32;
    if val < 0x10000 {
        false
    } else if sections.start <= image < sections.end {
        true
    } else {
        val > 0x10_0000 && readable
    }
}

/// Classify a word for a memory dump (see `likely_pointer`); `readable` is
/// the answer of the memory probe for `val`, consulted last.
pub fn is_likely_pointer(val: u32, delta: u32, sections: ImageSections, readable: bool) -> (r: bool)
    ensures
        r == likely_pointer(val, delta, sections, readable),
{
    if val < 0x10000 {
        return false;
    }
    let image = val.wrapping_sub(delta);
    if image >= sections.start && image < sections.end {
        return true;
    }
    if val > 0x10_0000 {
        return readable;
    }
    false
}

/// The pointer flags of the words of `data` for `write_raw_region`:
/// `readable[i]` is the memory probe's answer for word `i`.
pub fn pointer_flags(data: &[u8], delta: u32, sections: ImageSections, readable: &[bool]) -> (r: Vec<bool>)
    requires
        readable.len() >= data.len() / 4,
    ensures
        r.len() == data.len() / 4,
        forall|i: int|
            0 <= i < r.len() ==> #[trigger] r[i] == likely_pointer(le_u32(data@, 4 * i), delta, sections, readable[i]),
{
    let n = data.len() / 4;
    let mut r: Vec<bool> = Vec::new();
    while r.len() < n
        invariant
            n == data.len() / 4,
            readable.len() >= n,
            r.len() <= n,
            forall|i: int|
                0 <= i < r.len() ==> #[trigger] r[i] == likely_pointer(le_u32(data@, 4 * i), delta, sections, readable[i]),
        decreases n - r.len(),
    {
        let i = r.len();
        let v = read_u32_le(data, 4 * i);
        r.push(is_likely_pointer(v, delta, sections, readable[i]));
    }
    r
}

/// Append a raw dump of `data`, 16 bytes per row (see `dump_row`);
/// `is_ptr[i]` tells whether the word at byte `4 * i` looks like a pointer
/// and is hidden.
pub fn write_raw_region(w: &mut String, data: &[u8], is_ptr: &[bool], indent: usize)
    requires
        data@.len() / 4 <= is_ptr@.len(),
        data@.len() + 16 <= usize::MAX,
    ensures
        final(w)@ == old(w)@ + dump_rows(data@, is_ptr@, indent as nat, (data@.len() + 15) as int / 16),
{
    let size: usize = data.len();
    let ghost start = w@;
    let mut r: usize = 0;
    let mut row_start: usize = 0;
    while row_start < size
        invariant
            size == data@.len(),
            size + 16 <= usize::MAX,
            data@.len() / 4 <= is_ptr@.len(),
            row_start == 16 * r,
            row_start <= size + 15,
            r <= (size + 15) / 16,
            w@ == start + dump_rows(data@, is_ptr@, indent as nat, r as int),
        decreases size + 16 - row_start,
    {
        let ghost before = w@;
        write_indent(w, indent);
        string_push(w, '+');
        push_hex(w, row_start as u64, 4);
        string_push(w, ':');
        let end: usize = if row_start + 16 < size {
            row_start + 16
        } else {
            size
        };
        let ghost cells_start = w@;
        let mut d: usize = row_start;
        let mut k: usize = 0;
        while d < end
            invariant
                size == data@.len(),
                size + 16 <= usize::MAX,
                data@.len() / 4 <= is_ptr@.len(),
                row_start < size,
                end == row_end(r as int, size as int),
                row_start <= d,
                d == row_start + 4 * k,
                d <= end + 3,
                k <= (end - row_start + 3) / 4,
                w@ == cells_start + dump_cells(data@, is_ptr@, row_start as int, end as int, k as int),
            decreases end + 4 - d,
        {
            string_push(w, ' ');
            let ghost mid = w@;
            if d + 4 <= size {
                if is_ptr[d / 4] {
                    w.append("[ptr---]");
                } else {
                    let v = read_u32_le(data, d);
                    push_hex(w, v as u64, 8);
                }
            } else {
                let ghost bstart = w@;
                let mut b: usize = d;
                while b < end
                    invariant
                        d <= b <= end,
                        end <= size == data@.len(),
                        w@ == bstart + bytes_hex(data@, d as int, b as int),
                    decreases end - b,
                {
                    push_hex(w, data[b] as u64, 2);
                    proof {
                        assert(w@ =~= bstart + bytes_hex(data@, d as int, b + 1));
                    }
                    b = b + 1;
                }
            }
            proof {
                assert(w@ =~= cells_start + dump_cells(data@, is_ptr@, row_start as int, end as int, k + 1));
            }
            d = d + 4;
            k = k + 1;
        }
        string_push(w, '\n');
        proof {
            assert(k == (end - row_start + 3) / 4);
            assert(w@ =~= start + dump_rows(data@, is_ptr@, indent as nat, r + 1));
        }
        row_start = row_start + 16;
        r = r + 1;
    }
    proof {
        assert(r == (size + 15) / 16);
    }
}

} // verus!
