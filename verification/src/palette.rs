//! Palette contexts: the range of palette entries a layer owns, the stack
//! of free entries in it, and the copying of changed colours into the
//! display's palette.
use vstd::prelude::*;

verus! {

/// The palette state of one layer.
#[derive(Debug, Clone)]
pub struct PaletteContext {
    /// First and last palette entry the context owns.
    pub dirty_range_min: i16,
    pub dirty_range_max: i16,
    /// Palette entries whose colour changed, and how many of them count.
    pub cache: Vec<u8>,
    pub cache_count: i16,
    /// Cursor of the last walk over `cache`.
    pub cache_iter: i16,
    /// Free entries, popped from the front.
    pub free_stack: Vec<u8>,
    pub free_count: i16,
    /// Per-entry use marks (256).
    pub in_use: Vec<u8>,
    pub dirty: u8,
    /// Colour of each entry, `0x00BBGGRR` (256).
    pub rgb_table: Vec<u32>,
}

/// Set up a context owning the entries `range_min..=range_max`: all of them
/// free, stacked from `range_max` down, nothing cached or in use.
#[verifier::loop_isolation(false)]
pub fn palette_context_init(ctx: &mut PaletteContext, range_min: i16, range_max: i16)
    requires
        i16::MIN <= range_max - range_min <= i16::MAX - 1,
        range_max - range_min + 1 <= old(ctx).free_stack.len(),
        old(ctx).in_use.len() == 256,
    ensures
        final(ctx).dirty_range_min == range_min,
        final(ctx).dirty_range_max == range_max,
        final(ctx).cache_count == 0,
        final(ctx).cache_iter == 0,
        final(ctx).free_count == range_max - range_min + 1,
        final(ctx).dirty == 0,
        final(ctx).free_stack.len() == old(ctx).free_stack.len(),
        forall|i: int|
            0 <= i < final(ctx).free_stack.len() ==> #[trigger] final(ctx).free_stack[i] == (if i
                < range_max - range_min + 1 {
                (range_max as u8 - i) as u8
            } else {
                old(ctx).free_stack[i]
            }),
        final(ctx).in_use@ == Seq::new(256, |i: int| 0u8),
        final(ctx).cache == old(ctx).cache,
        final(ctx).rgb_table == old(ctx).rgb_table,
{
    ctx.dirty_range_min = range_min;
    ctx.dirty_range_max = range_max;
    let range_size: i16 = range_max - range_min + 1;
    ctx.cache_count = 0;
    ctx.free_count = range_size;
    let top: u8 = range_max as u8;
    let mut i: usize = 0;
    assert(forall|j: int| 0 <= j < ctx.free_stack.len() ==> #[trigger] ctx.free_stack[j] == old(ctx).free_stack[j]);
    if range_size > 0 {
        let n = range_size as usize;
        while i < n
            invariant
                n == range_size,
                n <= ctx.free_stack.len(),
                i <= n,
                top == range_max as u8,
                ctx.dirty_range_min == range_min,
                ctx.dirty_range_max == range_max,
                ctx.cache_count == 0,
                ctx.free_count == range_size,
                ctx.in_use.len() == 256,
                ctx.cache == old(ctx).cache,
                ctx.rgb_table == old(ctx).rgb_table,
                ctx.free_stack.len() == old(ctx).free_stack.len(),
                forall|j: int|
                    0 <= j < ctx.free_stack.len() ==> #[trigger] ctx.free_stack[j] == (if j < i {
                        (top - j) as u8
                    } else {
                        old(ctx).free_stack[j]
                    }),
            decreases n - i,
        {
            let v = top.wrapping_sub(i as u8);
            assert(v == (top - i) as u8) by (bit_vector)
                requires
                    v == top.wrapping_sub(i as u8),
                    i < 0x10000,
            ;
            ctx.free_stack.set(i, v);
            i = i + 1;
        }
    }
    ctx.cache_iter = 0;
    let mut k: usize = 0;
    while k < 256
        invariant
            ctx.in_use.len() == 256,
            k <= 256,
            ctx.dirty_range_min == range_min,
            ctx.dirty_range_max == range_max,
            ctx.cache_count == 0,
            ctx.cache_iter == 0,
            ctx.free_count == range_max - range_min + 1,
            ctx.cache == old(ctx).cache,
            ctx.rgb_table == old(ctx).rgb_table,
            ctx.free_stack.len() == old(ctx).free_stack.len(),
            forall|j: int|
                0 <= j < ctx.free_stack.len() ==> #[trigger] ctx.free_stack[j] == (if j
                    < range_max - range_min + 1 {
                    (range_max as u8 - j) as u8
                } else {
                    old(ctx).free_stack[j]
                }),
            forall|j: int| 0 <= j < k ==> #[trigger] ctx.in_use[j] == 0u8,
        decreases 256 - k,
    {
        ctx.in_use.set(k, 0);
        k = k + 1;
    }
    assert(ctx.in_use@ =~= Seq::new(256, |i: int| 0u8));
    ctx.dirty = 0;
}

/// Byte `b` of a palette entry built from the colour `rgb`: red, green,
/// blue, then a zero byte.
pub open spec fn palette_byte(rgb: u32, b: int) -> u8 {
    if b == 0 {
        (rgb % 0x100) as u8
    } else if b == 1 {
        ((rgb / 0x100) % 0x100) as u8
    } else if b == 2 {
        ((rgb / 0x1_0000) % 0x100) as u8
    } else {
        0
    }
}

/// Whether entry `j` is among the first `n` cached entries.
pub open spec fn cache_has(cache: Seq<u8>, n: int, j: int) -> bool {
    exists|i: int| 0 <= i < n && #[trigger] cache[i] as int == j
}

/// The display palette (four bytes per entry) after copying in the colours
/// of the first `n` cached entries.
pub open spec fn palette_after(old: Seq<u8>, cache: Seq<u8>, n: int, rgb: Seq<u32>) -> Seq<u8> {
    Seq::new(
        old.len(),
        |k: int|
            if k < 1024 && cache_has(cache, n, k / 4) {
                palette_byte(rgb[k / 4], k % 4)
            } else {
                old[k]
            },
    )
}

/// The display's palette: 256 four-byte entries and the range of entries
/// changed since the last commit (`0x100..=0xFFFF_FFFF` when none).
#[derive(Debug, Clone)]
pub struct DisplayPalette {
    pub entries: Vec<u8>,
    pub dirty_min: u32,
    pub dirty_max: u32,
}

/// The dirty bound after widening `cur` (compared as signed) down to
/// `bound`.
pub open spec fn widen_min(cur: u32, bound: i16) -> u32 {
    if (cur as i32) > bound as i32 {
        (bound as i32) as u32
    } else {
        cur
    }
}

/// The dirty bound after widening `cur` (compared as signed) up to
/// `bound`.
pub open spec fn widen_max(cur: u32, bound: i16) -> u32 {
    if (cur as i32) < bound as i32 {
        (bound as i32) as u32
    } else {
        cur
    }
}

/// Copy the colours of the context's cached entries into the display's
/// palette and widen its dirty range to the context's range.
///
/// With `commit`, the widened range is returned, to be pushed to the
/// screen, and the display's dirty range is reset. Nothing happens but the
/// reset of the cursor when no entry is cached.
#[verifier::loop_isolation(false)]
pub fn update_palette(display: &mut DisplayPalette, ctx: &mut PaletteContext, commit: i32) -> (r:
    Option<(u32, u32)>)
    requires
        old(display).entries.len() == 1024,
        old(ctx).rgb_table.len() == 256,
        old(ctx).cache_count <= old(ctx).cache.len(),
    ensures
        final(ctx).cache_iter == (if old(ctx).cache_count <= 0 {
            0
        } else {
            old(ctx).cache_count
        }),
        final(ctx).cache == old(ctx).cache,
        final(ctx).cache_count == old(ctx).cache_count,
        final(ctx).rgb_table == old(ctx).rgb_table,
        final(ctx).dirty_range_min == old(ctx).dirty_range_min,
        final(ctx).dirty_range_max == old(ctx).dirty_range_max,
        old(ctx).cache_count <= 0 ==> *final(display) == *old(display) && r is None,
        old(ctx).cache_count > 0 ==> {
            let lo = widen_min(old(display).dirty_min, old(ctx).dirty_range_min);
            let hi = widen_max(old(display).dirty_max, old(ctx).dirty_range_max);
            &&& final(display).entries@ == palette_after(
                old(display).entries@,
                old(ctx).cache@,
                old(ctx).cache_count as int,
                old(ctx).rgb_table@,
            )
            &&& commit != 0 ==> r == Some((lo, hi)) && final(display).dirty_min == 0x100
                && final(display).dirty_max == 0xFFFF_FFFF
            &&& commit == 0 ==> r is None && final(display).dirty_min == lo
                && final(display).dirty_max == hi
        },
{
    ctx.cache_iter = 0;
    if ctx.cache_count <= 0 {
        return None;
    }
    let n = ctx.cache_count as usize;
    let ghost old_entries = display.entries@;
    let mut i: usize = 0;
    assert(display.entries@ =~= palette_after(old_entries, ctx.cache@, 0, ctx.rgb_table@));
    while i < n
        invariant
            n == ctx.cache_count,
            n <= ctx.cache.len(),
            ctx.rgb_table.len() == 256,
            i <= n,
            old_entries.len() == 1024,
            display.dirty_min == old(display).dirty_min,
            display.dirty_max == old(display).dirty_max,
            display.entries@ == palette_after(old_entries, ctx.cache@, i as int, ctx.rgb_table@),
        decreases n - i,
    {
        let idx = ctx.cache[i] as usize;
        let rgb = ctx.rgb_table[idx];
        let ghost before = display.entries@;
        display.entries.set(idx * 4, (rgb % 0x100) as u8);
        display.entries.set(idx * 4 + 1, ((rgb / 0x100) % 0x100) as u8);
        display.entries.set(idx * 4 + 2, ((rgb / 0x1_0000) % 0x100) as u8);
        display.entries.set(idx * 4 + 3, 0);
        proof {
            let cache = ctx.cache@;
            let rgbs = ctx.rgb_table@;
            let next = palette_after(old_entries, cache, i + 1, rgbs);
            assert forall|k: int| 0 <= k < 1024 implies #[trigger] display.entries@[k] == next[k] by {
                if k / 4 == idx as int {
                    assert(cache[i as int] as int == k / 4);
                    assert(cache_has(cache, i + 1, k / 4));
                } else {
                    if cache_has(cache, i + 1, k / 4) {
                        let w = choose|w: int| 0 <= w < i + 1 && #[trigger] cache[w] as int == k / 4;
                        assert(w != i);
                        assert(cache_has(cache, i as int, k / 4));
                    }
                    if cache_has(cache, i as int, k / 4) {
                        let w = choose|w: int| 0 <= w < i && #[trigger] cache[w] as int == k / 4;
                        assert(cache_has(cache, i + 1, k / 4));
                    }
                }
            }
            assert(display.entries@ =~= next);
        }
        i = i + 1;
    }
    ctx.cache_iter = ctx.cache_count;
    let dirty_min = ctx.dirty_range_min as i32;
    let dirty_max = ctx.dirty_range_max as i32;
    if display.dirty_min as i32 > dirty_min {
        display.dirty_min = dirty_min as u32;
    }
    if (display.dirty_max as i32) < dirty_max {
        display.dirty_max = dirty_max as u32;
    }
    if commit != 0 {
        let range = (display.dirty_min, display.dirty_max);
        display.dirty_min = 0x100;
        display.dirty_max = 0xFFFF_FFFF;
        Some(range)
    } else {
        None
    }
}

} // verus!
