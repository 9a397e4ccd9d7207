//! Interpolated lookup in fixed-point trig tables, and the trail of a
//! bungee drop built from it.
//!
//! A table holds 1025 entries in 16.16 format for one period; a 16-bit
//! angle selects an entry with its upper 10 bits and interpolates towards
//! the next entry by its lower 6 bits.
use vstd::prelude::*;

use crate::fixed::{wrap_i32, wrapping_to_i32, Fixed};

verus! {

/// Entries of a trig table.
pub const TRIG_TABLE_LEN: usize = 1025;

/// Most vertices of a drawn bungee trail.
pub const MAX_TRAIL_VERTICES: usize = 256;

/// The interpolated value of `table` at `angle` (raw 16.16).
pub open spec fn trig_value(table: Seq<i32>, angle: u32) -> i32 {
    let i = ((angle / 64) % 1024) as int;
    let f = ((angle % 64) * 1024) as int;
    let d = wrap_i32(table[i + 1] - table[i]) as int;
    wrap_i32(wrap_i32((d * f) / 0x10000) + table[i])
}

proof fn lemma_wrap_small(v: int)
    requires
        i32::MIN <= v <= i32::MAX,
    ensures
        wrap_i32(v) == v,
{
    vstd::arithmetic::div_mod::lemma_small_mod((v + 0x8000_0000) as nat, 0x1_0000_0000);
}

/// A table lookup reads the 16-bit angle (its low 16 bits) as a table
/// position of 64 steps per entry: at a multiple of 64 it gives the entry
/// itself, and in between it lies between the two neighbouring entries
/// (when they differ by less than 2^31).
pub proof fn lemma_trig_value_interpolates(table: Seq<i32>, angle: u32)
    requires
        table.len() >= TRIG_TABLE_LEN,
    ensures
        trig_value(table, angle) == trig_value(table, (angle % 0x10000) as u32),
        ({
            let i = ((angle / 64) % 1024) as int;
            let v = trig_value(table, angle);
            &&& angle % 64 == 0 ==> v == table[i]
            &&& 0 <= table[i + 1] - table[i] <= i32::MAX ==> table[i] <= v <= table[i + 1]
            &&& 0 <= table[i] - table[i + 1] <= i32::MAX ==> table[i + 1] <= v <= table[i]
        }),
{
    let a2 = (angle % 0x10000) as u32;
    assert((a2 / 64) % 1024 == (angle / 64) % 1024 && a2 % 64 == angle % 64) by (bit_vector)
        requires
            a2 == angle % 0x10000,
    ;
    let i = ((angle / 64) % 1024) as int;
    let f = ((angle % 64) * 1024) as int;
    assert(0 <= f <= 63 * 1024);
    let lo = table[i] as int;
    let hi = table[i + 1] as int;
    if 0 <= hi - lo <= i32::MAX {
        lemma_wrap_small(hi - lo);
        let d = hi - lo;
        let q = (d * f) / 0x10000;
        assert(0 <= q <= d) by (nonlinear_arith)
            requires
                0 <= d,
                0 <= f < 0x10000,
                q == (d * f) / 0x10000,
        ;
        lemma_wrap_small(q);
        lemma_wrap_small(q + lo);
    }
    if 0 <= lo - hi <= i32::MAX {
        lemma_wrap_small(hi - lo);
        let d = hi - lo;
        let q = (d * f) / 0x10000;
        assert(d <= q <= 0) by (nonlinear_arith)
            requires
                d <= 0,
                0 <= f < 0x10000,
                q == (d * f) / 0x10000,
        ;
        lemma_wrap_small(q);
        lemma_wrap_small(q + lo);
    }
    if angle % 64 == 0 {
        assert(f == 0);
        assert(0 == (wrap_i32(hi - lo) as int * 0) / 0x10000);
        lemma_wrap_small(0);
        lemma_wrap_small(lo);
    }
}

/// The value of the 1025-entry table `table` at `angle` (see `trig_value`).
pub fn trig_lookup(table: &[i32], angle: u32) -> (r: Fixed)
    requires
        table@.len() >= TRIG_TABLE_LEN,
    ensures
        r.0 == trig_value(table@, angle),
{
    let index: usize = ((angle >> 6u32) & 0x3FF) as usize;
    assert(((angle >> 6u32) & 0x3FF) as int == (angle / 64) % 1024) by (bit_vector);
    let frac: i32 = ((angle & 0x3F) << 10u32) as i32;
    assert(((angle & 0x3F) << 10u32) as int == (angle % 64) * 1024) by (bit_vector);
    let base: i32 = table[index];
    let next: i32 = table[index + 1];
    let d: i32 = wrapping_to_i32(next as i64 - base as i64);
    let m: Fixed = Fixed(d).mul_raw(Fixed(frac));
    Fixed(wrapping_to_i32(m.0 as i64 + base as i64))
}

/// The sum of the first `i` segment angles, modulo 2^32.
pub open spec fn angle_sum(angles: Seq<i32>, i: int) -> u32
    decreases i,
{
    if i <= 0 {
        0
    } else {
        ((angle_sum(angles, i - 1) as int + angles[i - 1] as int) % 0x1_0000_0000) as u32
    }
}

/// The plain sum of the angles in `s`.
pub open spec fn angles_total(s: Seq<i32>) -> int
    decreases s.len(),
{
    if s.len() == 0 {
        0
    } else {
        angles_total(s.drop_last()) + s.last()
    }
}

/// The direction of segment `i` is the running total of the turns of
/// segments `0..=i`, taken modulo 2^32: every turn adds to all the turns
/// before it.
pub proof fn lemma_angle_sum_is_running_total(angles: Seq<i32>, i: int)
    requires
        0 <= i <= angles.len(),
    ensures
        angle_sum(angles, i) as int == angles_total(angles.take(i)) % 0x1_0000_0000,
    decreases i,
{
    if i > 0 {
        lemma_angle_sum_is_running_total(angles, i - 1);
        assert(angles.take(i).drop_last() =~= angles.take(i - 1));
        vstd::arithmetic::div_mod::lemma_add_mod_noop(
            angles_total(angles.take(i - 1)),
            angles[i - 1] as int,
            0x1_0000_0000,
        );
        vstd::arithmetic::div_mod::lemma_mod_twice(angles[i - 1] as int, 0x1_0000_0000);
        vstd::arithmetic::div_mod::lemma_add_mod_noop(
            angle_sum(angles, i - 1) as int,
            angles[i - 1] as int,
            0x1_0000_0000,
        );
        vstd::arithmetic::div_mod::lemma_mod_twice(
            angles_total(angles.take(i - 1)),
            0x1_0000_0000,
        );
    }
}

/// The trail position before segment `i`: from the start, each segment
/// moves 8 times the sine of the summed angle right and 8 times its cosine
/// up (32-bit wrapping).
pub open spec fn trail_pos(
    start: (i32, i32),
    angles: Seq<i32>,
    sin: Seq<i32>,
    cos: Seq<i32>,
    i: int,
) -> (i32, i32)
    decreases i,
{
    if i <= 0 {
        start
    } else {
        let p = trail_pos(start, angles, sin, cos, i - 1);
        let a = angle_sum(angles, i);
        (
            wrap_i32(p.0 + wrap_i32(trig_value(sin, a) * 8)),
            wrap_i32(p.1 - wrap_i32(trig_value(cos, a) * 8)),
        )
    }
}

/// Segment `i` of a trail moves 8 times the sine of the running total of
/// the turns `angles[0..=i]` (modulo 2^32) right and 8 times its cosine up,
/// from where the segment before it ended (32-bit wrapping).
pub proof fn lemma_trail_segment(
    start: (i32, i32),
    angles: Seq<i32>,
    sin: Seq<i32>,
    cos: Seq<i32>,
    i: int,
)
    requires
        0 <= i < angles.len(),
    ensures
        ({
            let p = trail_pos(start, angles, sin, cos, i);
            let a = (angles_total(angles.take(i + 1)) % 0x1_0000_0000) as u32;
            trail_pos(start, angles, sin, cos, i + 1) == (
                wrap_i32(p.0 + wrap_i32(trig_value(sin, a) * 8)),
                wrap_i32(p.1 - wrap_i32(trig_value(cos, a) * 8)),
            )
        }),
{
    lemma_angle_sum_is_running_total(angles, i + 1);
}

/// The positions of the segments among the first `k` that get a vertex:
/// the first, those that turn, and all of them when the trail is filled.
pub open spec fn trail_points(
    start: (i32, i32),
    angles: Seq<i32>,
    sin: Seq<i32>,
    cos: Seq<i32>,
    fill: bool,
    k: int,
) -> Seq<(i32, i32)>
    decreases k,
{
    if k <= 0 {
        Seq::empty()
    } else {
        let prev = trail_points(start, angles, sin, cos, fill, k - 1);
        if k - 1 == 0 || angles[k - 1] != 0 || fill {
            prev.push(trail_pos(start, angles, sin, cos, k - 1))
        } else {
            prev
        }
    }
}

/// A filled trail has a vertex where every segment starts, in order, and
/// every trail's first vertex is its start; an unfilled trail skips the
/// starts of later segments that do not turn.
pub proof fn lemma_trail_points_shape(
    start: (i32, i32),
    angles: Seq<i32>,
    sin: Seq<i32>,
    cos: Seq<i32>,
    k: int,
)
    requires
        0 <= k <= angles.len(),
    ensures
        trail_points(start, angles, sin, cos, true, k) == Seq::new(
            k as nat,
            |j: int| trail_pos(start, angles, sin, cos, j),
        ),
        k >= 1 ==> trail_points(start, angles, sin, cos, false, k)[0] == start,
        k >= 1 ==> trail_points(start, angles, sin, cos, false, k).len() >= 1,
        0 < k && angles[k - 1] == 0 && k - 1 > 0 ==> trail_points(start, angles, sin, cos, false, k)
            == trail_points(start, angles, sin, cos, false, k - 1),
        0 < k && angles[k - 1] != 0 ==> trail_points(start, angles, sin, cos, false, k) == trail_points(
            start,
            angles,
            sin,
            cos,
            false,
            k - 1,
        ).push(trail_pos(start, angles, sin, cos, k - 1)),
    decreases k,
{
    if k > 0 {
        lemma_trail_points_shape(start, angles, sin, cos, k - 1);
        assert(trail_points(start, angles, sin, cos, true, k) =~= Seq::new(
            k as nat,
            |j: int| trail_pos(start, angles, sin, cos, j),
        ));
        if k == 1 {
            assert(trail_points(start, angles, sin, cos, false, 0).len() == 0);
        }
    }
}

/// The vertices of a bungee trail from `start` along the segment angles
/// to `target`: the points of `trail_points`, then the target, at most 256
/// of them.
#[verifier::spinoff_prover]
#[verifier::rlimit(40)]
pub fn bungee_trail_vertices(
    start: (i32, i32),
    angles: &[i32],
    target: (i32, i32),
    fill: bool,
    sin: &[i32],
    cos: &[i32],
) -> (r: Vec<(i32, i32)>)
    requires
        sin@.len() >= TRIG_TABLE_LEN,
        cos@.len() >= TRIG_TABLE_LEN,
    ensures
        r@ == trail_points(start, angles@, sin@, cos@, fill, angles@.len() as int).push(target).take(
            if trail_points(start, angles@, sin@, cos@, fill, angles@.len() as int).len() + 1
                <= MAX_TRAIL_VERTICES {
                trail_points(start, angles@, sin@, cos@, fill, angles@.len() as int).len() + 1int
            } else {
                MAX_TRAIL_VERTICES as int
            },
        ),
{
    let mut verts: Vec<(i32, i32)> = Vec::new();
    let mut x: i32 = start.0;
    let mut y: i32 = start.1;
    let mut acc: u32 = 0;
    let mut i: usize = 0;
    let ghost pts = trail_points(start, angles@, sin@, cos@, fill, 0);
    while i < angles.len()
        invariant
            sin@.len() >= TRIG_TABLE_LEN,
            cos@.len() >= TRIG_TABLE_LEN,
            i <= angles@.len(),
            (x, y) == trail_pos(start, angles@, sin@, cos@, i as int),
            acc == angle_sum(angles@, i as int),
            pts == trail_points(start, angles@, sin@, cos@, fill, i as int),
            verts@ == pts.take(if pts.len() <= MAX_TRAIL_VERTICES {
                pts.len() as int
            } else {
                MAX_TRAIL_VERTICES as int
            }),
        decreases angles@.len() - i,
    {
        let a: i32 = angles[i];
        if (i == 0 || a != 0 || fill) && verts.len() < MAX_TRAIL_VERTICES {
            verts.push((x, y));
        }
        proof {
            let np = trail_points(start, angles@, sin@, cos@, fill, i + 1);
            if i == 0 || a != 0 || fill {
                assert(np == pts.push((x, y)));
                if pts.len() < MAX_TRAIL_VERTICES {
                    assert(verts@ =~= np.take(np.len() as int));
                } else {
                    assert(verts@ =~= np.take(MAX_TRAIL_VERTICES as int));
                }
            } else {
                assert(np == pts);
            }
            pts = np;
        }
        acc = ((acc as u64 + (a as i64 + 0x1_0000_0000) as u64) % 0x1_0000_0000) as u32;
        proof {
            assert(acc == angle_sum(angles@, i + 1));
        }
        let s: Fixed = trig_lookup(sin, acc);
        let c: Fixed = trig_lookup(cos, acc);
        let sx: i32 = wrapping_to_i32(s.0 as i64 * 8);
        let cy: i32 = wrapping_to_i32(c.0 as i64 * 8);
        x = wrapping_to_i32(x as i64 + sx as i64);
        y = wrapping_to_i32(y as i64 - cy as i64);
        i = i + 1;
    }
    if verts.len() < MAX_TRAIL_VERTICES {
        verts.push(target);
        proof {
            assert(verts@ =~= pts.push(target).take(pts.len() + 1int));
        }
    } else {
        proof {
            assert(verts@ =~= pts.push(target).take(MAX_TRAIL_VERTICES as int));
        }
    }
    verts
}

} // verus!
