use openwa_core::bungee_trail::{draw_bungee_trail, TrailShape};
use openwa_core::fixed::Fixed;
use openwa_core::render_queue::{
    QueueEntry, RenderMessage, RenderQueue, TypedRenderCmd, COMMAND_TYPE_TYPED,
    MAX_QUEUE_ENTRIES, TYPED_CMD_SIZE,
};
use openwa_core::sprite_op::SpriteOp;

#[test]
fn commands_grow_down_from_the_end() {
    let mut q = RenderQueue::new();
    assert_eq!(q.alloc_raw(0x100), Some(0xFF00));
    assert_eq!(q.alloc_aux(0x10), Some(0xFEF0));
    assert_eq!(q.entries.len(), 1);
    let msg = RenderMessage::Sprite {
        local: true,
        x: Fixed(1),
        y: Fixed(2),
        sprite: SpriteOp(0x45),
        palette: 9,
    };
    assert!(q.push_typed(7, msg));
    assert_eq!(q.buffer_offset, 0xFEF0 - TYPED_CMD_SIZE as i32);
    assert_eq!(
        q.entries[1],
        QueueEntry {
            offset: 0xFEF0 - TYPED_CMD_SIZE as i32,
            size: TYPED_CMD_SIZE,
            command: Some(TypedRenderCmd { command_type: COMMAND_TYPE_TYPED, layer: 7, message: msg }),
        }
    );
}

#[test]
fn exhausted_arena_refuses() {
    let mut q = RenderQueue::new();
    assert_eq!(q.alloc_raw(0x10000), Some(0));
    let before = (q.buffer_offset, q.entries.clone());
    assert_eq!(q.alloc_raw(1), None);
    assert_eq!(q.alloc_aux(1), None);
    assert_eq!((q.buffer_offset, q.entries.clone()), before);
    assert_eq!(q.alloc_aux(0), Some(0));
}

#[test]
fn at_most_2048_commands() {
    let mut q = RenderQueue::new();
    for _ in 0..MAX_QUEUE_ENTRIES {
        assert!(q.alloc_raw(1).is_some());
    }
    assert_eq!(q.alloc_raw(1), None);
    assert!(!q.push_typed(0, RenderMessage::Sprite {
        local: false,
        x: Fixed(0),
        y: Fixed(0),
        sprite: SpriteOp(0),
        palette: 0,
    }));
    // Auxiliary data does not count as a command.
    assert!(q.alloc_aux(4).is_some());
}

#[test]
fn bungee_trail_queues_a_sprite_and_a_line_strip() {
    let sin = vec![0i32; 1025];
    let cos = vec![0i32; 1025];
    let mut rq = RenderQueue::new();
    let start = (0x0003_8000, -0x0001_0000);
    let target = (7, 9);
    let d = draw_bungee_trail(&mut rq, true, start, &[0x100, 0, 5], target, 11, 0, &sin, &cos)
        .unwrap();
    assert_eq!((d.sprite_x, d.sprite_y), (3, -1));
    assert_eq!(d.sprite_palette, 0x8200);
    assert_eq!(d.shape, TrailShape::LineStrip { color: 11 });
    // The first segment and the turning third get a vertex; then the target.
    assert_eq!(d.vertices, vec![start, start, target]);
    assert_eq!(d.shape_bytes, 3 * 12 + 0x1C);
    assert!(d.sprite_queued && d.shape_queued);
    assert_eq!(rq.buffer_offset, 0x10000 - 24 - 64);
    assert_eq!(rq.entries.len(), 2);

    let filled = draw_bungee_trail(&mut rq, true, start, &[0x100, 0, 5], target, 11, 4, &sin, &cos)
        .unwrap();
    assert_eq!(filled.shape, TrailShape::Polygon { outline: 11, fill: 4 });
    assert_eq!(filled.vertices.len(), 4);
    assert_eq!(filled.shape_bytes, 4 * 12 + 0x20);

    let before = rq.buffer_offset;
    assert!(draw_bungee_trail(&mut rq, false, start, &[1], target, 11, 0, &sin, &cos).is_none());
    assert!(draw_bungee_trail(&mut rq, true, start, &[], target, 11, 0, &sin, &cos).is_none());
    assert_eq!(rq.buffer_offset, before);
}
