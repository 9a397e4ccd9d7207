//! Drawing a tall landscape bitmap through a cache of 1024-row strips: how
//! many strips the cache holds, how tall each is, and which strip blits
//! cover the display for a given camera and destination.
use vstd::prelude::*;

verus! {

/// Rows per cached strip.
pub const STRIP_ROWS: i32 = 0x400;

/// Width of one blit column.
pub const TILE_COLUMN: i32 = 0x40;

/// `v / d` rounded toward zero.
pub open spec fn trunc_div(v: int, d: int) -> int {
    if v >= 0 {
        v / d
    } else {
        -((-v) / d)
    }
}

/// The remainder of `v / d` rounded toward zero (sign of `v`).
pub open spec fn trunc_rem(v: int, d: int) -> int {
    v - trunc_div(v, d) * d
}

/// The number of strips a bitmap of `total` rows needs.
pub open spec fn strip_count(total: int) -> int {
    if total > 0 {
        (total + 0x3FF) / 0x400
    } else {
        0
    }
}

/// The height of strip `t` of a bitmap of `total` rows.
pub open spec fn strip_height(total: int, t: int) -> int {
    let y = t * 0x400;
    (if total < y + 0x400 {
        total
    } else {
        y + 0x400
    }) - y
}

/// The first blit column: `dest_x` moved left to a multiple of 64 away from
/// it, in `(-64, 0]`.
pub open spec fn col_start(dest_x: int) -> int {
    let r = trunc_rem(dest_x, 64);
    if r > 0 {
        r - 64
    } else {
        r
    }
}

/// The first strip that reaches the display (never below 0).
pub open spec fn first_strip(camera_y: int, dest_y: int) -> int {
    let f = trunc_div(0x20000 - (camera_y + dest_y), 0x400) - 0x80;
    if f < 0 {
        0
    } else {
        f
    }
}

/// The last strip that reaches the display (never past the last cached one).
pub open spec fn last_strip(camera_y: int, dest_y: int, display_height: int, count: int) -> int {
    let l = trunc_div(display_height + 0x20000 - (camera_y + dest_y), 0x400) - 0x80;
    if count - 1 <= l {
        count - 1
    } else {
        l
    }
}

/// One blit of a cached strip to the display.
#[derive(Debug, Clone, Copy, PartialEq, Eq, Structural)]
pub struct TileBlit {
    pub x: i32,
    pub y: i32,
    pub width: i32,
    pub height: i32,
    pub tile: usize,
}

/// The number of 64-wide columns from `cx` that start left of `display_width`.
pub open spec fn column_count(cx: int, display_width: int) -> int {
    if cx < display_width {
        (display_width - cx + 63) / 64
    } else {
        0
    }
}

/// The blits of strip `t`: one per column, left to right.
pub open spec fn strip_blits(
    dest_x: int,
    dest_y: int,
    camera_y: int,
    display_width: int,
    total: int,
    t: int,
) -> Seq<TileBlit> {
    let cx = col_start(dest_x);
    Seq::new(
        column_count(cx, display_width) as nat,
        |k: int|
            TileBlit {
                x: (cx + 64 * k) as i32,
                y: (camera_y + t * 0x400 + dest_y) as i32,
                width: 64,
                height: strip_height(total, t) as i32,
                tile: t as usize,
            },
    )
}

/// The blits of strips `first..end`, strip by strip.
pub open spec fn strips_blits(
    dest_x: int,
    dest_y: int,
    camera_y: int,
    display_width: int,
    total: int,
    first: int,
    end: int,
) -> Seq<TileBlit>
    decreases end - first,
{
    if end <= first {
        Seq::empty()
    } else {
        strips_blits(dest_x, dest_y, camera_y, display_width, total, first, end - 1) + strip_blits(
            dest_x,
            dest_y,
            camera_y,
            display_width,
            total,
            end - 1,
        )
    }
}

/// Every blit that draws a bitmap of `total` rows cached in `count` strips.
pub open spec fn tiled_blits(
    dest_x: int,
    dest_y: int,
    camera_y: int,
    display_width: int,
    display_height: int,
    total: int,
    count: int,
) -> Seq<TileBlit> {
    let f = first_strip(camera_y, dest_y);
    let l = last_strip(camera_y, dest_y, display_height, count);
    if f > l {
        Seq::empty()
    } else {
        strips_blits(dest_x, dest_y, camera_y, display_width, total, f, l + 1)
    }
}

/// `v / d` rounded toward zero, for a positive `d`.
fn div_toward_zero(v: i32, d: i32) -> (r: i32)
    requires
        d > 0,
    ensures
        r == trunc_div(v as int, d as int),
{
    let w: i64 = v as i64;
    let e: i64 = d as i64;
    let q: i64 = if w >= 0 {
        w / e
    } else {
        -((-w) / e)
    };
    assert(-0x8000_0000 <= q <= 0x7fff_ffff) by (nonlinear_arith)
        requires
            e >= 1,
            -0x8000_0000 <= w <= 0x7fff_ffff,
            w >= 0 ==> q as int == (w as int) / (e as int),
            w < 0 ==> q as int == -((-(w as int)) / (e as int)),
    ;
    q as i32
}

/// The heights of the strips that cache a bitmap of `total_height` rows.
pub fn strip_heights(total_height: i32) -> (r: Vec<i32>)
    ensures
        r@.len() == strip_count(total_height as int),
        forall|t: int| 0 <= t < r@.len() ==> r@[t] == strip_height(total_height as int, t),
{
    let mut out: Vec<i32> = Vec::new();
    if total_height <= 0 {
        return out;
    }
    let mut accum: i64 = 0;
    let mut t: usize = 0;
    while accum < total_height as i64
        invariant
            total_height > 0,
            accum == t * 0x400,
            accum <= total_height + 0x3FF,
            out@.len() == t,
            forall|j: int| 0 <= j < t ==> out@[j] == strip_height(total_height as int, j),
            t * 0x400 < total_height + 0x400,
        decreases total_height + 0x400 - accum,
    {
        let remaining: i64 = total_height as i64 - accum;
        let h: i64 = if remaining < 0x400 {
            remaining
        } else {
            0x400
        };
        out.push(h as i32);
        accum = accum + 0x400;
        t = t + 1;
    }
    out
}

/// The first blit column for destination `dest_x` (see `col_start`).
pub fn tile_column_start(dest_x: i32) -> (r: i32)
    ensures
        r == col_start(dest_x as int),
        -64 < r <= 0,
{
    let x: i64 = dest_x as i64;
    let q: i64 = if x >= 0 {
        x / 64
    } else {
        -((-x) / 64)
    };
    let rem: i64 = x - q * 64;
    if rem > 0 {
        (rem - 64) as i32
    } else {
        rem as i32
    }
}

/// How the pixels of a source bitmap are copied into a cached strip,
/// chosen by its bits per pixel: 8 copies 64-byte rows
/// (`blit_64byte_row_pattern`), 0x40 goes through the colour table
/// (`blit_color_table_forward`), anything else copies nothing.
#[derive(Clone, Copy, PartialEq, Eq, Structural, Debug)]
pub enum StripFill {
    RowPattern,
    ColorTable,
    Nothing,
}

/// What a tiled draw does to its strip cache before drawing: the strips
/// to create (their heights) when the cache is empty, and whether (and
/// how) to fill the strips from the source.
#[derive(Clone, Debug)]
pub struct StripCachePlan {
    pub allocate: Option<Vec<i32>>,
    pub populate: bool,
    pub fill: StripFill,
}

/// The fill mode for a source of `bpp` bits per pixel.
pub open spec fn strip_fill_of(bpp: u32) -> StripFill {
    if bpp == 8 {
        StripFill::RowPattern
    } else if bpp == 0x40 {
        StripFill::ColorTable
    } else {
        StripFill::Nothing
    }
}

/// The strip-cache decisions of a tiled draw of a bitmap of `total_height`
/// rows with `bpp` bits per pixel, when the cache holds `tile_count`
/// strips and was filled already (`populated`) or not: an empty cache gets
/// its strips created (see `strip_heights`) and counts as not filled; a
/// cache not filled is filled once. The cache counts as filled afterwards.
pub fn tiled_cache_plan(tile_count: usize, populated: bool, total_height: i32, bpp: u32) -> (r: StripCachePlan)
    ensures
        tile_count == 0 ==> (r.allocate matches Some(h) && h@.len() == strip_count(total_height as int) && (forall|t: int|
            0 <= t < h@.len() ==> h@[t] == strip_height(total_height as int, t))),
        tile_count != 0 ==> r.allocate is None,
        r.populate == (tile_count == 0 || !populated),
        r.fill == strip_fill_of(bpp),
{
    let allocate = if tile_count == 0 {
        Some(strip_heights(total_height))
    } else {
        None
    };
    let fill = if bpp == 8 {
        StripFill::RowPattern
    } else if bpp == 0x40 {
        StripFill::ColorTable
    } else {
        StripFill::Nothing
    };
    StripCachePlan { allocate, populate: tile_count == 0 || !populated, fill }
}

/// The strip cache of a display: how many strips it holds and whether they
/// were filled from the source.
#[derive(Clone, Copy, PartialEq, Eq, Structural, Debug)]
pub struct StripCache {
    pub strips: usize,
    pub populated: bool,
}

/// The cache after a tiled draw of a bitmap of `total_height` rows whose
/// strip allocations and surface set-ups all succeed: an empty cache gets
/// its strips, and every cache ends up filled.
pub open spec fn cache_after_draw(c: StripCache, total_height: int) -> StripCache {
    StripCache {
        strips: if c.strips == 0 {
            strip_count(total_height) as usize
        } else {
            c.strips
        },
        populated: true,
    }
}

/// Carries out the strip-cache decisions of a tiled draw of a bitmap of
/// `total_height` rows with `bpp` bits per pixel on `cache` (see
/// `tiled_cache_plan`), every strip allocation and surface set-up
/// succeeding, and returns them.
pub fn strip_cache_draw(cache: &mut StripCache, total_height: i32, bpp: u32) -> (r: StripCachePlan)
    ensures
        old(cache).strips == 0 ==> (r.allocate matches Some(h) && h@.len() == strip_count(
            total_height as int,
        ) && (forall|t: int| 0 <= t < h@.len() ==> h@[t] == strip_height(total_height as int, t))),
        old(cache).strips != 0 ==> r.allocate is None,
        r.populate == (old(cache).strips == 0 || !old(cache).populated),
        r.fill == strip_fill_of(bpp),
        *final(cache) == cache_after_draw(*old(cache), total_height as int),
{
    let plan = tiled_cache_plan(cache.strips, cache.populated, total_height, bpp);
    match &plan.allocate {
        Some(h) => {
            cache.strips = h.len();
        },
        None => {},
    }
    cache.populated = true;
    plan
}

/// A tiled draw fills the strip cache once: after a first draw of a
/// bitmap of `total_height > 0` rows on an empty cache, the cache holds
/// `strip_count(total_height)` strips and is filled, and any later draw
/// creates no strips, fills nothing and leaves the cache as it is.
pub proof fn lemma_strip_cache_settles(c: StripCache, total_height: int, later_height: int)
    requires
        c.strips == 0,
        0 < total_height <= i32::MAX,
    ensures
        cache_after_draw(c, total_height).strips == strip_count(total_height),
        cache_after_draw(c, total_height).strips > 0,
        cache_after_draw(c, total_height).populated,
        ({
            let c1 = cache_after_draw(c, total_height);
            &&& !(c1.strips == 0)
            &&& !(c1.strips == 0 || !c1.populated)
            &&& cache_after_draw(c1, later_height) == c1
        }),
{
    assert(strip_count(total_height) >= 1) by {
        vstd::arithmetic::div_mod::lemma_div_plus_one(total_height - 1, 0x400);
        vstd::arithmetic::div_mod::lemma_div_pos_is_pos(total_height - 1, 0x400);
    }
    assert(strip_count(total_height) <= total_height) by {
        vstd::arithmetic::div_mod::lemma_div_is_ordered(total_height + 0x3FF, total_height * 0x400, 0x400);
        vstd::arithmetic::div_mod::lemma_div_multiples_vanish(total_height, 0x400);
    }
}

/// Whether the strip blits of a draw stay within 32-bit arithmetic: the
/// strip rows up to the one past the last drawn strip, each drawn strip's
/// display row and height, and the column after the last one.
pub open spec fn tiled_fits(
    dest_x: int,
    dest_y: int,
    camera_y: int,
    display_width: int,
    display_height: int,
    total: int,
    count: int,
) -> bool {
    let f = first_strip(camera_y, dest_y);
    let l = last_strip(camera_y, dest_y, display_height, count);
    let cx = col_start(dest_x);
    f <= l ==> {
        &&& (l + 1) * 0x400 <= i32::MAX
        &&& forall|t: int|
            f <= t <= l ==> {
                &&& i32::MIN <= camera_y + #[trigger] (t * 0x400) <= i32::MAX
                &&& i32::MIN <= camera_y + t * 0x400 + dest_y <= i32::MAX
                &&& i32::MIN <= strip_height(total, t) <= i32::MAX
            }
        &&& cx < display_width ==> cx + 64 * column_count(cx, display_width) <= i32::MAX
    }
}

/// The blits that draw a bitmap of `total_height` rows, cached in
/// `tile_count` strips, at (`dest_x`, `dest_y`) under camera row
/// `camera_y` on a display of the given size: for each strip that reaches
/// the display, a 64-wide blit per column from `tile_column_start(dest_x)`
/// to the right edge.
pub fn draw_tiled_plan(
    dest_x: i32,
    dest_y: i32,
    camera_y: i32,
    display_width: i32,
    display_height: i32,
    total_height: i32,
    tile_count: usize,
) -> (r: Vec<TileBlit>)
    requires
        i32::MIN < camera_y + dest_y <= i32::MAX,
        -(camera_y + dest_y) + 0x20000 <= i32::MAX,
        i32::MIN <= display_height - (camera_y + dest_y) <= i32::MAX,
        i32::MIN <= display_height - (camera_y + dest_y) + 0x20000 <= i32::MAX,
        tile_count <= i32::MAX,
        tiled_fits(
            dest_x as int,
            dest_y as int,
            camera_y as int,
            display_width as int,
            display_height as int,
            total_height as int,
            tile_count as int,
        ),
    ensures
        r@ == tiled_blits(
            dest_x as int,
            dest_y as int,
            camera_y as int,
            display_width as int,
            display_height as int,
            total_height as int,
            tile_count as int,
        ),
{
    let cx: i32 = tile_column_start(dest_x);
    let neg: i32 = -(camera_y + dest_y);
    let first_v: i32 = neg + 0x20000;
    let last_v: i32 = display_height + neg + 0x20000;
    let mut y_first: i32 = div_toward_zero(first_v, 0x400) - 0x80;
    let mut y_last: i32 = div_toward_zero(last_v, 0x400) - 0x80;
    if y_first < 0 {
        y_first = 0;
    }
    let count: i32 = tile_count as i32;
    if count - 1 <= y_last {
        y_last = count - 1;
    }
    let ghost f = y_first as int;
    let mut out: Vec<TileBlit> = Vec::new();
    if y_first > y_last {
        return out;
    }
    let mut t: i32 = y_first;
    while t <= y_last
        invariant
            0 <= f <= t <= y_last + 1,
            f == first_strip(camera_y as int, dest_y as int),
            y_last == last_strip(camera_y as int, dest_y as int, display_height as int, tile_count as int),
            (y_last + 1) * 0x400 <= i32::MAX,
            -64 < cx <= 0,
            cx == col_start(dest_x as int),
            tiled_fits(
                dest_x as int,
                dest_y as int,
                camera_y as int,
                display_width as int,
                display_height as int,
                total_height as int,
                tile_count as int,
            ),
            out@ == strips_blits(
                dest_x as int,
                dest_y as int,
                camera_y as int,
                display_width as int,
                total_height as int,
                f,
                t as int,
            ),
        decreases y_last + 1 - t,
    {
        assert(i32::MIN <= camera_y + (t * 0x400) <= i32::MAX);
        let strip_y: i32 = t * 0x400;
        let strip_end: i32 = if total_height < strip_y + 0x400 {
            total_height
        } else {
            strip_y + 0x400
        };
        let strip_h: i32 = strip_end - strip_y;
        let dst_y: i32 = camera_y + strip_y + dest_y;
        let ghost before = out@;
        let ghost row = strip_blits(
            dest_x as int,
            dest_y as int,
            camera_y as int,
            display_width as int,
            total_height as int,
            t as int,
        );
        let mut x: i32 = cx;
        let mut k: usize = 0;
        if cx < display_width {
            while x < display_width
                invariant
                    x == cx + 64 * k,
                    cx < display_width,
                    -64 < cx <= 0,
                    cx + 64 * column_count(cx as int, display_width as int) <= i32::MAX,
                    k <= column_count(cx as int, display_width as int),
                    out@ == before + row.take(k as int),
                    row.len() == column_count(cx as int, display_width as int),
                    row == strip_blits(
                        dest_x as int,
                        dest_y as int,
                        camera_y as int,
                        display_width as int,
                        total_height as int,
                        t as int,
                    ),
                    cx == col_start(dest_x as int),
                    strip_h == strip_height(total_height as int, t as int),
                    dst_y == camera_y + t * 0x400 + dest_y,
                    t >= 0,
                decreases column_count(cx as int, display_width as int) - k,
            {
                assert(k < column_count(cx as int, display_width as int)) by (nonlinear_arith)
                    requires
                        x == cx + 64 * k,
                        x < display_width,
                        cx < display_width,
                        column_count(cx as int, display_width as int) == (display_width - cx + 63) / 64,
                ;
                let b = TileBlit { x, y: dst_y, width: 64, height: strip_h, tile: t as usize };
                proof {
                    assert(b == row[k as int]);
                    assert(row.take(k + 1) =~= row.take(k as int).push(b));
                }
                out.push(b);
                x = x + 64;
                k = k + 1;
            }
            assert(k == column_count(cx as int, display_width as int)) by (nonlinear_arith)
                requires
                    x == cx + 64 * k,
                    x >= display_width,
                    k <= column_count(cx as int, display_width as int),
                    cx < display_width,
                    column_count(cx as int, display_width as int) == (display_width - cx + 63) / 64,
            ;
        }
        proof {
            assert(k == column_count(cx as int, display_width as int));
            assert(row.take(k as int) =~= row);
        }
        t = t + 1;
    }
    out
}

proof fn lemma_row_col(i: int, y: int, x: int, stride: int)
    requires
        0 <= x < stride,
        i == y * stride + x,
    ensures
        i / stride == y,
        i % stride == x,
{
    vstd::arithmetic::div_mod::lemma_fundamental_div_mod_converse(i, stride, y, x);
}

proof fn lemma_cell_in(y: int, x: int, stride: int, rows: int)
    by (nonlinear_arith)
    requires
        0 <= y < rows,
        0 <= x < stride,
    ensures
        0 <= y * stride,
        0 <= y * stride + x < rows * stride,
{
}

/// A strip surface after rows `0..rows` (of `ds` bytes) got 64 bytes each:
/// the 8 source bytes of the row, `src[off + 8 * row ..]`, repeated.
pub open spec fn pattern_strip(old: Seq<u8>, ds: int, src: Seq<u8>, off: int, rows: int) -> Seq<u8> {
    Seq::new(
        old.len(),
        |j: int|
            if j / ds < rows && j % ds < 64 {
                src[off + 8 * (j / ds) + (j % ds) % 8]
            } else {
                old[j]
            },
    )
}

spec fn pattern_progress(
    old: Seq<u8>,
    ds: int,
    src: Seq<u8>,
    off: int,
    rows: int,
    r: int,
    k: int,
) -> Seq<u8> {
    Seq::new(
        old.len(),
        |j: int|
            if j / ds < rows && j % ds < 64 && (j / ds < r || (j / ds == r && j % ds < k)) {
                src[off + 8 * (j / ds) + (j % ds) % 8]
            } else {
                old[j]
            },
    )
}

/// Fills the first 64 bytes of each of `rows` rows (`dst_stride` apart) of
/// `dst` with the 8 bytes of its source row repeated; source rows are 8
/// bytes apart from `src_off`.
pub fn blit_64byte_row_pattern(
    dst: &mut Vec<u8>,
    dst_stride: usize,
    src: &[u8],
    src_off: usize,
    rows: usize,
)
    requires
        64 <= dst_stride,
        rows * dst_stride <= old(dst)@.len(),
        src_off + 8 * rows <= src@.len(),
    ensures
        final(dst)@ == pattern_strip(
            old(dst)@,
            dst_stride as int,
            src@,
            src_off as int,
            rows as int,
        ),
{
    let ghost o = dst@;
    let ghost ds = dst_stride as int;
    let n: usize = dst.len();
    let sn: usize = src.len();
    let mut r: usize = 0;
    proof {
        assert(dst@ =~= pattern_progress(o, ds, src@, src_off as int, rows as int, 0, 0));
    }
    while r < rows
        invariant
            r <= rows,
            64 <= dst_stride,
            ds == dst_stride,
            rows * dst_stride <= o.len(),
            n == o.len(),
            sn == src@.len(),
            src_off + 8 * rows <= src@.len(),
            dst@ == pattern_progress(o, ds, src@, src_off as int, rows as int, r as int, 0),
        decreases rows - r,
    {
        let mut k: usize = 0;
        while k < 64
            invariant
                r < rows,
                k <= 64,
                64 <= dst_stride,
                ds == dst_stride,
                rows * dst_stride <= o.len(),
                n == o.len(),
                sn == src@.len(),
                src_off + 8 * rows <= src@.len(),
                dst@ == pattern_progress(o, ds, src@, src_off as int, rows as int, r as int, k as int),
            decreases 64 - k,
        {
            proof {
                lemma_cell_in(r as int, k as int, ds, rows as int);
            }
            let i: usize = r * dst_stride + k;
            let v: u8 = src[src_off + 8 * r + k % 8];
            let ghost before = dst@;
            dst.set(i, v);
            proof {
                lemma_row_col(i as int, r as int, k as int, ds);
                assert forall|j: int| 0 <= j < o.len() implies #[trigger] dst@[j]
                    == pattern_progress(o, ds, src@, src_off as int, rows as int, r as int, k + 1)[j] by {
                    if j != i {
                        assert(!(j / ds == r && j % ds == k)) by {
                            if j / ds == r && j % ds == k {
                                vstd::arithmetic::div_mod::lemma_fundamental_div_mod(j, ds);
                            }
                        }
                    }
                }
                assert(dst@ =~= pattern_progress(
                    o,
                    ds,
                    src@,
                    src_off as int,
                    rows as int,
                    r as int,
                    k + 1,
                ));
            }
            k = k + 1;
        }
        proof {
            assert(pattern_progress(o, ds, src@, src_off as int, rows as int, r as int, 64)
                =~= pattern_progress(o, ds, src@, src_off as int, rows as int, r + 1, 0));
        }
        r = r + 1;
    }
    proof {
        assert(dst@ =~= pattern_strip(o, ds, src@, src_off as int, rows as int));
    }
}

/// A surface after the `width` by `height` block of `src` (rows `ss` apart
/// from `soff`) was copied onto it (rows `ds` apart), skipping zero source
/// bytes.
pub open spec fn transparent_copy(
    old: Seq<u8>,
    ds: int,
    src: Seq<u8>,
    soff: int,
    ss: int,
    width: int,
    height: int,
) -> Seq<u8> {
    Seq::new(
        old.len(),
        |j: int|
            if j / ds < height && j % ds < width && src[soff + (j / ds) * ss + j % ds] != 0 {
                src[soff + (j / ds) * ss + j % ds]
            } else {
                old[j]
            },
    )
}

spec fn copy_progress(
    old: Seq<u8>,
    ds: int,
    src: Seq<u8>,
    soff: int,
    ss: int,
    width: int,
    height: int,
    r: int,
    c: int,
) -> Seq<u8> {
    Seq::new(
        old.len(),
        |j: int|
            if j / ds < height && j % ds < width && (j / ds < r || (j / ds == r && j % ds < c))
                && src[soff + (j / ds) * ss + j % ds] != 0 {
                src[soff + (j / ds) * ss + j % ds]
            } else {
                old[j]
            },
    )
}

/// Copies the `width` by `height` block of `src` (rows `src_stride` apart
/// from `src_off`) onto `dst` (rows `dst_stride` apart), leaving the
/// destination byte where the source byte is zero.
pub fn blit_color_table_forward(
    dst: &mut Vec<u8>,
    dst_stride: usize,
    src: &[u8],
    src_off: usize,
    src_stride: usize,
    width: usize,
    height: usize,
)
    requires
        0 < dst_stride,
        width <= dst_stride,
        width <= src_stride,
        height * dst_stride <= old(dst)@.len(),
        src_off + height * src_stride <= src@.len(),
    ensures
        final(dst)@ == transparent_copy(
            old(dst)@,
            dst_stride as int,
            src@,
            src_off as int,
            src_stride as int,
            width as int,
            height as int,
        ),
{
    let ghost o = dst@;
    let ghost ds = dst_stride as int;
    let ghost ss = src_stride as int;
    let n: usize = dst.len();
    let sn: usize = src.len();
    let mut r: usize = 0;
    proof {
        assert(dst@ =~= copy_progress(
            o,
            ds,
            src@,
            src_off as int,
            ss,
            width as int,
            height as int,
            0,
            0,
        ));
    }
    while r < height
        invariant
            r <= height,
            0 < dst_stride,
            width <= dst_stride,
            width <= src_stride,
            ds == dst_stride,
            ss == src_stride,
            height * dst_stride <= o.len(),
            n == o.len(),
            sn == src@.len(),
            src_off + height * src_stride <= src@.len(),
            dst@ == copy_progress(
                o,
                ds,
                src@,
                src_off as int,
                ss,
                width as int,
                height as int,
                r as int,
                0,
            ),
        decreases height - r,
    {
        let mut c: usize = 0;
        while c < width
            invariant
                r < height,
                c <= width,
                0 < dst_stride,
                width <= dst_stride,
                width <= src_stride,
                ds == dst_stride,
                ss == src_stride,
                height * dst_stride <= o.len(),
                n == o.len(),
                sn == src@.len(),
                src_off + height * src_stride <= src@.len(),
                dst@ == copy_progress(
                    o,
                    ds,
                    src@,
                    src_off as int,
                    ss,
                    width as int,
                    height as int,
                    r as int,
                    c as int,
                ),
            decreases width - c,
        {
            proof {
                lemma_cell_in(r as int, c as int, ds, height as int);
                lemma_cell_in(r as int, c as int, ss, height as int);
            }
            let i: usize = r * dst_stride + c;
            let v: u8 = src[src_off + r * src_stride + c];
            let ghost before = dst@;
            if v != 0 {
                dst.set(i, v);
            }
            proof {
                lemma_row_col(i as int, r as int, c as int, ds);
                assert forall|j: int| 0 <= j < o.len() implies #[trigger] dst@[j] == copy_progress(
                    o,
                    ds,
                    src@,
                    src_off as int,
                    ss,
                    width as int,
                    height as int,
                    r as int,
                    c + 1,
                )[j] by {
                    if j != i {
                        assert(!(j / ds == r && j % ds == c)) by {
                            if j / ds == r && j % ds == c {
                                vstd::arithmetic::div_mod::lemma_fundamental_div_mod(j, ds);
                                assert(ds * r == r * ds) by (nonlinear_arith);
                            }
                        }
                    }
                }
                assert(dst@ =~= copy_progress(
                    o,
                    ds,
                    src@,
                    src_off as int,
                    ss,
                    width as int,
                    height as int,
                    r as int,
                    c + 1,
                ));
            }
            c = c + 1;
        }
        proof {
            assert(copy_progress(
                o,
                ds,
                src@,
                src_off as int,
                ss,
                width as int,
                height as int,
                r as int,
                width as int,
            ) =~= copy_progress(
                o,
                ds,
                src@,
                src_off as int,
                ss,
                width as int,
                height as int,
                r + 1,
                0,
            ));
        }
        r = r + 1;
    }
    proof {
        assert(dst@ =~= transparent_copy(
            o,
            ds,
            src@,
            src_off as int,
            ss,
            width as int,
            height as int,
        ));
    }
}

} // verus!
