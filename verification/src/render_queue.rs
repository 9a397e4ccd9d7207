//! The per-frame render queue: draw commands allocated downward from the
//! end of a 64 KB arena, at most 2048 of them per frame.
use vstd::prelude::*;

use crate::fixed::Fixed;
use crate::sprite_op::SpriteOp;

verus! {

/// Size of the queue's arena in bytes.
pub const QUEUE_BUFFER_SIZE: i32 = 0x10000;

/// Most commands per frame.
pub const MAX_QUEUE_ENTRIES: usize = 0x800;

/// Command type of a typed render command.
pub const COMMAND_TYPE_TYPED: u32 = 0x100;

/// Bytes a typed render command takes in the arena.
pub const TYPED_CMD_SIZE: usize = 28;

/// A typed render message.
#[derive(Debug, Clone, Copy, PartialEq, Eq, Structural)]
pub enum RenderMessage {
    /// A sprite at `(x, y)`, in screen space when `local`, with the
    /// producer's palette argument.
    Sprite { local: bool, x: Fixed, y: Fixed, sprite: SpriteOp, palette: u32 },
}

/// A typed command as stored in the queue.
#[derive(Debug, Clone, Copy, PartialEq, Eq, Structural)]
pub struct TypedRenderCmd {
    pub command_type: u32,
    pub layer: u32,
    pub message: RenderMessage,
}

/// One queued command: where its bytes start in the arena, how many there
/// are, and the typed command stored there, if it is one.
#[derive(Debug, Clone, Copy, PartialEq, Eq, Structural)]
pub struct QueueEntry {
    pub offset: i32,
    pub size: usize,
    pub command: Option<TypedRenderCmd>,
}

/// The render queue: the start of the allocated part of the arena, and
/// the queued commands in order.
#[derive(Debug, Clone)]
pub struct RenderQueue {
    pub buffer_offset: i32,
    pub entries: Vec<QueueEntry>,
}

impl RenderQueue {
    /// The queue's invariant: the allocated part lies in the arena, at most
    /// 2048 commands are queued, every command lies in the allocated part,
    /// and each command lies wholly below the ones queued before it.
    pub open spec fn wf(&self) -> bool {
        &&& 0 <= self.buffer_offset <= QUEUE_BUFFER_SIZE
        &&& self.entries@.len() <= MAX_QUEUE_ENTRIES
        &&& forall|i: int|
            0 <= i < self.entries@.len() ==> {
                let e = #[trigger] self.entries@[i];
                &&& self.buffer_offset <= e.offset
                &&& e.offset + e.size <= QUEUE_BUFFER_SIZE
            }
        &&& forall|i: int, j: int|
            0 <= i < j < self.entries@.len() ==> #[trigger] self.entries@[j].offset
                + self.entries@[j].size <= #[trigger] self.entries@[i].offset
    }

    /// An empty queue with the whole arena free.
    pub fn new() -> (q: RenderQueue)
        ensures
            q.wf(),
            q.buffer_offset == QUEUE_BUFFER_SIZE,
            q.entries@.len() == 0,
    {
        RenderQueue { buffer_offset: QUEUE_BUFFER_SIZE, entries: Vec::new() }
    }

    /// Takes `size` bytes below the allocated part without queueing a
    /// command (for data that a later command points to); `None` when the
    /// arena is exhausted.
    pub fn alloc_aux(&mut self, size: usize) -> (r: Option<i32>)
        requires
            old(self).wf(),
            size <= i32::MAX,
        ensures
            final(self).wf(),
            final(self).entries@ == old(self).entries@,
            old(self).buffer_offset - size < 0 ==> r is None && final(self).buffer_offset == old(
                self,
            ).buffer_offset,
            old(self).buffer_offset - size >= 0 ==> r == Some((old(self).buffer_offset - size) as i32)
                && final(self).buffer_offset == old(self).buffer_offset - size,
    {
        let new_offset: i32 = self.buffer_offset - size as i32;
        if new_offset < 0 {
            return None;
        }
        self.buffer_offset = new_offset;
        Some(new_offset)
    }

    /// Queues a command of `size` bytes below the allocated part and returns
    /// where it starts; `None` when 2048 commands are queued or the arena
    /// is exhausted. `command` is what is stored there, if typed.
    fn push_entry(&mut self, size: usize, command: Option<TypedRenderCmd>) -> (r: Option<i32>)
        requires
            old(self).wf(),
            size <= i32::MAX,
        ensures
            final(self).wf(),
            (old(self).entries@.len() >= MAX_QUEUE_ENTRIES || old(self).buffer_offset - size < 0)
                ==> r is None && *final(self) == *old(self),
            !(old(self).entries@.len() >= MAX_QUEUE_ENTRIES || old(self).buffer_offset - size < 0)
                ==> {
                let o = (old(self).buffer_offset - size) as i32;
                &&& r == Some(o)
                &&& final(self).buffer_offset == o
                &&& final(self).entries@ == old(self).entries@.push(
                    QueueEntry { offset: o, size, command },
                )
            },
    {
        if self.entries.len() >= MAX_QUEUE_ENTRIES {
            return None;
        }
        let new_offset: i32 = self.buffer_offset - size as i32;
        if new_offset < 0 {
            return None;
        }
        let ghost old_entries = self.entries@;
        let ghost old_offset = self.buffer_offset;
        self.buffer_offset = new_offset;
        self.entries.push(QueueEntry { offset: new_offset, size, command });
        proof {
            assert forall|i: int, j: int|
                0 <= i < j < self.entries@.len() implies #[trigger] self.entries@[j].offset
                + self.entries@[j].size <= #[trigger] self.entries@[i].offset by {
                if j == old_entries.len() {
                    assert(old_offset <= old_entries[i].offset);
                }
            }
        }
        Some(new_offset)
    }

    /// Queues `size` raw bytes as a command (see `push_entry`).
    pub fn alloc_raw(&mut self, size: usize) -> (r: Option<i32>)
        requires
            old(self).wf(),
            size <= i32::MAX,
        ensures
            final(self).wf(),
            (old(self).entries@.len() >= MAX_QUEUE_ENTRIES || old(self).buffer_offset - size < 0)
                ==> r is None && *final(self) == *old(self),
            !(old(self).entries@.len() >= MAX_QUEUE_ENTRIES || old(self).buffer_offset - size < 0)
                ==> {
                let o = (old(self).buffer_offset - size) as i32;
                &&& r == Some(o)
                &&& final(self).buffer_offset == o
                &&& final(self).entries@ == old(self).entries@.push(
                    QueueEntry { offset: o, size, command: None },
                )
            },
    {
        self.push_entry(size, None)
    }

    /// Queues a typed message for `layer`; `false` when the queue is full.
    pub fn push_typed(&mut self, layer: u32, message: RenderMessage) -> (r: bool)
        requires
            old(self).wf(),
        ensures
            final(self).wf(),
            r == !(old(self).entries@.len() >= MAX_QUEUE_ENTRIES || old(self).buffer_offset
                - TYPED_CMD_SIZE < 0),
            !r ==> *final(self) == *old(self),
            r ==> final(self).buffer_offset == old(self).buffer_offset - TYPED_CMD_SIZE
                && final(self).entries@ == old(self).entries@.push(
                QueueEntry {
                    offset: (old(self).buffer_offset - TYPED_CMD_SIZE) as i32,
                    size: TYPED_CMD_SIZE,
                    command: Some(TypedRenderCmd { command_type: COMMAND_TYPE_TYPED, layer, message }),
                },
            ),
    {
        let cmd = TypedRenderCmd { command_type: COMMAND_TYPE_TYPED, layer, message };
        match self.push_entry(TYPED_CMD_SIZE, Some(cmd)) {
            Some(_) => true,
            None => false,
        }
    }
}

} // verus!
