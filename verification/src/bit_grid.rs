//! Bit grids: one bit per cell, rows padded to four bytes, used for
//! spatial collision and visibility queries.
//!
//! The size computations run on 32-bit machine words and wrap, as the
//! game's own do; a request whose sizes wrap so far that the buffer would
//! be smaller than the grid is refused.
use vstd::prelude::*;

verus! {

/// A bit grid and its geometry.
#[derive(Debug, Clone)]
pub struct BitGrid {
    pub data: Vec<u8>,
    pub cells_per_unit: u32,
    pub row_stride: u32,
    pub width: u32,
    pub height: u32,
    pub width_dup: u32,
    pub height_dup: u32,
}

/// `v` reduced to 32 bits.
pub open spec fn wrap_u32(v: int) -> int {
    v % 0x1_0000_0000
}

/// `v` reduced to 32 bits and read as signed.
pub open spec fn wrap_signed(v: int) -> int {
    let w = wrap_u32(v);
    if w >= 0x8000_0000 {
        w - 0x1_0000_0000
    } else {
        w
    }
}

/// The largest multiple of four not above `v`.
pub open spec fn floor4(v: int) -> int {
    v / 4 * 4
}

/// Bytes per grid row: the row's bits (`cells_per_unit * width`, plus 7,
/// as a signed 32-bit value) in whole bytes, rounded up to four.
pub open spec fn grid_row_stride(cells_per_unit: u32, width: u32) -> int {
    let bits = wrap_signed(cells_per_unit * width + 7);
    floor4(bits / 8 + 3)
}

/// Bytes of grid data: `height` rows.
pub open spec fn grid_total_size(cells_per_unit: u32, width: u32, height: u32) -> int {
    wrap_u32(wrap_u32(grid_row_stride(cells_per_unit, width)) * height)
}

/// Bytes of the buffer the grid is given: the data rounded up to four,
/// plus a 32-byte header.
pub open spec fn grid_alloc_size(total: int) -> int {
    wrap_u32(floor4(wrap_u32(total + 3)) + 0x20)
}

fn wrap_signed_exec(v: u64) -> (r: i64)
    requires
        v < 0x1_0000_0000_0000_0000,
    ensures
        r == wrap_signed(v as int),
{
    let w = v % 0x1_0000_0000;
    if w >= 0x8000_0000 {
        w as i64 - 0x1_0000_0000
    } else {
        w as i64
    }
}

/// Set up a bit grid of `width × height` cells with `cells_per_unit` bits
/// per cell unit, all clear. `None` when the 32-bit size arithmetic wraps
/// so that the grid data would not fit its buffer.
pub fn bit_grid_init(cells_per_unit: u32, width: u32, height: u32) -> (r: Option<BitGrid>)
    ensures
        ({
            let total = grid_total_size(cells_per_unit, width, height);
            &&& r is None <==> total > grid_alloc_size(total)
            &&& r matches Some(g) ==> {
                &&& g.data@ == Seq::new(total as nat, |_i: int| 0u8)
                &&& g.cells_per_unit == cells_per_unit
                &&& g.row_stride as int == wrap_u32(grid_row_stride(cells_per_unit, width))
                &&& g.width == width && g.width_dup == width
                &&& g.height == height && g.height_dup == height
            }
        }),
{
    assert((cells_per_unit as int) * (width as int) < 0x1_0000_0000_0000_0000 - 7) by (nonlinear_arith)
        requires
            cells_per_unit < 0x1_0000_0000,
            width < 0x1_0000_0000,
    ;
    let product: u64 = cells_per_unit as u64 * width as u64;
    let bits: i64 = wrap_signed_exec(product + 7);
    // Floor division by 8 and rounding down to four, done on offsets that
    // keep both operands non-negative.
    let q: i64 = (bits + 0x8000_0000) / 8 - 0x1000_0000;
    assert(q == bits / 8) by (nonlinear_arith)
        requires
            q == (bits + 0x8000_0000) / 8 - 0x1000_0000,
            -0x8000_0000 <= bits < 0x8000_0000,
    ;
    assert(-0x1000_0000 <= q < 0x1000_0000) by (nonlinear_arith)
        requires
            q == bits / 8,
            -0x8000_0000 <= bits < 0x8000_0000,
    ;
    let t: i64 = q + 3;
    let stride: i64 = (t + 0x2000_0000) / 4 * 4 - 0x2000_0000;
    assert(stride == floor4(t as int) && t - 3 <= stride <= t) by (nonlinear_arith)
        requires
            stride == (t + 0x2000_0000) / 4 * 4 - 0x2000_0000,
            -0x2000_0000 <= t < 0x2000_0000,
    ;
    let stride_u: u64 = ((stride + 0x1_0000_0000) % 0x1_0000_0000) as u64;
    assert(stride_u == wrap_u32(stride as int)) by (nonlinear_arith)
        requires
            stride_u == (stride + 0x1_0000_0000) % 0x1_0000_0000,
            -0x2000_0000 <= stride < 0x2000_0000,
    ;
    assert((stride_u as int) * (height as int) < 0x1_0000_0000_0000_0000) by (nonlinear_arith)
        requires
            stride_u < 0x1_0000_0000,
            height < 0x1_0000_0000,
    ;
    let prod2: u64 = stride_u * height as u64;
    let total: u64 = prod2 % 0x1_0000_0000;
    let rounded: u64 = ((total + 3) % 0x1_0000_0000) / 4 * 4;
    let alloc: u64 = (rounded + 0x20) % 0x1_0000_0000;
    if total > alloc {
        return None;
    }
    let data: Vec<u8> = vec![0u8; total as usize];
    assert(data@ =~= Seq::new(total as nat, |_i: int| 0u8));
    Some(
        BitGrid {
            data,
            cells_per_unit,
            row_stride: stride_u as u32,
            width,
            height,
            width_dup: width,
            height_dup: height,
        },
    )
}

/// The same grid set-up under the name of the task state machine that
/// owns one.
pub fn task_state_machine_init(param1: u32, width: u32, height: u32) -> (r: Option<BitGrid>)
    ensures
        ({
            let total = grid_total_size(param1, width, height);
            &&& r is None <==> total > grid_alloc_size(total)
            &&& r matches Some(g) ==> {
                &&& g.data@ == Seq::new(total as nat, |_i: int| 0u8)
                &&& g.cells_per_unit == param1
                &&& g.row_stride as int == wrap_u32(grid_row_stride(param1, width))
                &&& g.width == width && g.width_dup == width
                &&& g.height == height && g.height_dup == height
            }
        }),
{
    bit_grid_init(param1, width, height)
}

} // verus!
