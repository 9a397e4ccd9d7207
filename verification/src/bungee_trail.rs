//! Drawing the trail of a bungee drop: a sprite where the trail starts,
//! then the trail itself as a filled polygon or as a line strip, queued
//! on the frame's render queue.
use vstd::prelude::*;

use crate::fixed::Fixed;
use crate::render_queue::{QueueEntry, RenderQueue, MAX_QUEUE_ENTRIES};
use crate::trig::{bungee_trail_vertices, trail_points, MAX_TRAIL_VERTICES, TRIG_TABLE_LEN};

verus! {

/// Sprite drawn where the trail starts.
pub const TRAIL_START_SPRITE: u32 = 0x45;

/// Layer of the start sprite.
pub const TRAIL_SPRITE_LAYER: u32 = 0xD_FFFF;

/// Layer of the trail shape.
pub const TRAIL_SHAPE_LAYER: u32 = 0xE_0000;

/// Bytes of a sprite command in the queue.
pub const SPRITE_CMD_BYTES: usize = 24;

/// Bytes of a polygon command before its vertices.
pub const POLYGON_HEADER_BYTES: usize = 0x20;

/// Bytes of a line-strip command before its vertices.
pub const LINE_STRIP_HEADER_BYTES: usize = 0x1C;

/// Bytes of one queued vertex.
pub const VERTEX_BYTES: usize = 0xC;

/// How the trail is drawn: a polygon outlined in `outline` and filled with
/// `fill`, or a line strip in `color`.
#[derive(Debug, Clone, Copy, PartialEq, Eq, Structural)]
pub enum TrailShape {
    Polygon { outline: u32, fill: u32 },
    LineStrip { color: u32 },
}

/// What a trail draw queues: the start sprite's position (whole pixels)
/// and palette argument, the shape, its vertices, its size in bytes, and
/// whether the queue took the sprite and the shape.
#[derive(Debug, Clone)]
pub struct BungeeTrailDraw {
    pub sprite_x: i32,
    pub sprite_y: i32,
    pub sprite_palette: u32,
    pub shape: TrailShape,
    pub vertices: Vec<(i32, i32)>,
    pub shape_bytes: usize,
    pub sprite_queued: bool,
    pub shape_queued: bool,
}

/// The queue (its free offset and its entries) after a raw command of
/// `size` bytes is queued, when it fits; unchanged otherwise.
pub open spec fn raw_queued(q: (int, Seq<QueueEntry>), size: int) -> (int, Seq<QueueEntry>) {
    if raw_fits(q, size) {
        (q.0 - size, q.1.push(QueueEntry { offset: (q.0 - size) as i32, size: size as usize, command: None }))
    } else {
        q
    }
}

/// A raw command of `size` bytes fits in the queue.
pub open spec fn raw_fits(q: (int, Seq<QueueEntry>), size: int) -> bool {
    q.1.len() < MAX_QUEUE_ENTRIES && q.0 - size >= 0
}

/// The vertices of the trail: those of `trail_points` (every segment when
/// the trail is filled), then the target, at most 256 of them.
pub open spec fn trail_vertices(
    start: (i32, i32),
    angles: Seq<i32>,
    target: (i32, i32),
    filled: bool,
    sin: Seq<i32>,
    cos: Seq<i32>,
) -> Seq<(i32, i32)> {
    let pts = trail_points(start, angles, sin, cos, filled, angles.len() as int);
    pts.push(target).take(
        if pts.len() + 1 <= MAX_TRAIL_VERTICES {
            pts.len() + 1int
        } else {
            MAX_TRAIL_VERTICES as int
        },
    )
}

/// Queues the trail of a bungee drop on `rq` when it is `visible` and has
/// segments (`angles`, the turn of each segment): a sprite at the start
/// (raw 16.16 position `start`) whose palette argument is the first turn
/// plus 0x8100, then the trail to `target` as a polygon (`fill` non-zero:
/// outlined in `style`, filled with `fill`) or a line strip in `style`.
/// Returns what it queued, or `None` (with the queue untouched) when there
/// is nothing to draw.
pub fn draw_bungee_trail(
    rq: &mut RenderQueue,
    visible: bool,
    start: (i32, i32),
    angles: &[i32],
    target: (i32, i32),
    style: u32,
    fill: u32,
    sin: &[i32],
    cos: &[i32],
) -> (r: Option<BungeeTrailDraw>)
    requires
        old(rq).wf(),
        sin@.len() >= TRIG_TABLE_LEN,
        cos@.len() >= TRIG_TABLE_LEN,
        angles@.len() > 0 ==> angles@[0] + 0x8100 <= i32::MAX,
    ensures
        final(rq).wf(),
        r is None <==> (!visible || angles@.len() == 0),
        r is None ==> *final(rq) == *old(rq),
        r matches Some(d) ==> {
            let v = trail_vertices(start, angles@, target, fill != 0, sin@, cos@);
            let q0 = (old(rq).buffer_offset as int, old(rq).entries@);
            let q1 = raw_queued(q0, SPRITE_CMD_BYTES as int);
            &&& d.sprite_x == start.0 / 0x10000
            &&& d.sprite_y == start.1 / 0x10000
            &&& d.sprite_palette == (angles@[0] + 0x8100) as u32
            &&& d.vertices@ == v
            &&& d.shape == (if fill != 0 {
                TrailShape::Polygon { outline: style, fill }
            } else {
                TrailShape::LineStrip { color: style }
            })
            &&& d.shape_bytes == v.len() * VERTEX_BYTES + (if fill != 0 {
                POLYGON_HEADER_BYTES
            } else {
                LINE_STRIP_HEADER_BYTES
            })
            &&& d.sprite_queued == raw_fits(q0, SPRITE_CMD_BYTES as int)
            &&& d.shape_queued == raw_fits(q1, d.shape_bytes as int)
            &&& (final(rq).buffer_offset as int, final(rq).entries@) == raw_queued(
                q1,
                d.shape_bytes as int,
            )
        },
{
    if !visible || angles.len() == 0 {
        return None;
    }
    let sprite_x = Fixed(start.0).to_int();
    let sprite_y = Fixed(start.1).to_int();
    let sprite_palette = (angles[0] + 0x8100) as u32;
    let filled = fill != 0;
    let vertices = bungee_trail_vertices(start, angles, target, filled, sin, cos);
    let shape = if filled {
        TrailShape::Polygon { outline: style, fill }
    } else {
        TrailShape::LineStrip { color: style }
    };
    let header: usize = if filled {
        POLYGON_HEADER_BYTES
    } else {
        LINE_STRIP_HEADER_BYTES
    };
    let shape_bytes: usize = vertices.len() * VERTEX_BYTES + header;
    let sprite_queued = rq.alloc_raw(SPRITE_CMD_BYTES).is_some();
    let shape_queued = rq.alloc_raw(shape_bytes).is_some();
    Some(
        BungeeTrailDraw {
            sprite_x,
            sprite_y,
            sprite_palette,
            shape,
            vertices,
            shape_bytes,
            sprite_queued,
            shape_queued,
        },
    )
}

} // verus!
