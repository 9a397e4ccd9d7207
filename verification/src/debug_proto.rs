//! Messages of the debug server protocol and their length-prefixed framing:
//! each frame is a little-endian `u32` length followed by that many bytes
//! of serialized message.
use vstd::prelude::*;

use crate::bytes::le_u32;

verus! {

/// Classification of a value that looks like a pointer.
#[derive(Debug, Clone, Copy, PartialEq, Eq, Structural)]
pub enum PointerKind {
    Vtable,
    Code,
    Data,
    Object,
    Heap,
}

/// A pointer found in memory that was read.
#[derive(Debug, Clone)]
pub struct PointerInfo {
    pub offset: u32,
    pub raw_value: u32,
    pub ghidra_value: u32,
    pub kind: PointerKind,
    pub detail: Option<String>,
}

/// A formatted field value from a struct inspection.
#[derive(Debug, Clone)]
pub struct FieldValue {
    pub offset: u32,
    pub name: String,
    pub size: u32,
    /// Raw hex representation.
    pub hex: String,
    /// Human-readable formatted value.
    pub display: String,
}

/// A tracked live object.
#[derive(Debug, Clone)]
pub struct LiveObjectInfo {
    pub runtime_addr: u32,
    pub ghidra_addr: u32,
    pub size: u32,
    pub class_name: String,
    pub field_count: u32,
}

/// Result of resolving a named alias (such as "ddgame") to an address.
#[derive(Debug, Clone)]
pub struct ResolvedAlias {
    pub runtime_addr: u32,
    pub class_name: String,
}

/// Result of resolving a field name to its offset.
#[derive(Debug, Clone, Copy, PartialEq, Eq, Structural)]
pub struct ResolvedField {
    pub offset: u32,
    pub size: u32,
}

/// Requests to the debug server.
#[derive(Debug, Clone)]
pub enum Request {
    Ping,
    Help,
    Read { addr: u32, len: u32, absolute: bool },
    /// Walk a pointer chain: start at `addr`, then for each offset in `chain`,
    /// deref the current DWORD and add the offset. Read `len` bytes at the end.
    ReadChain { addr: u32, chain: Vec<u32>, len: u32, absolute: bool },
    /// Pause the game at the next frame boundary.
    Suspend,
    /// Resume the game.
    Resume,
    /// Advance `count` frames, then pause.
    Step { count: i32 },
    /// Query current frame number and pause state.
    Frame,
    /// Set a frame breakpoint (-1 to clear).
    Break { frame: i32 },
    /// Capture a canonical game state snapshot.
    Snapshot,
    /// Typed struct inspection: read all named fields at an address.
    Inspect { class_name: String, addr: u32, chain: Vec<u32>, absolute: bool },
    /// List all tracked live objects.
    ListObjects,
    /// Resolve a named alias (such as "ddgame") to a runtime address.
    ResolveAlias { name: String },
    /// Resolve a field name to its offset within a struct.
    ResolveField { class_name: String, field_name: String },
}

/// One step in a resolved pointer chain, for display.
#[derive(Debug, Clone, Copy, PartialEq, Eq, Structural)]
pub struct ChainStep {
    /// Address read from.
    pub deref_addr: u32,
    /// Value (DWORD) read.
    pub value: u32,
    /// Offset added after the deref.
    pub offset: u32,
    /// Resulting address (value + offset).
    pub result_addr: u32,
}

/// Description of one server command.
#[derive(Debug, Clone)]
pub struct CommandHelp {
    pub name: String,
    pub usage: String,
    pub description: String,
}

/// Responses of the debug server.
#[derive(Debug, Clone)]
pub enum Response {
    Pong,
    Help { commands: Vec<CommandHelp> },
    ReadResult { ghidra_addr: u32, runtime_addr: u32, data: Vec<u8>, pointers: Vec<PointerInfo> },
    ReadChainResult {
        /// Each deref step in the chain (for trace output).
        steps: Vec<ChainStep>,
        /// Final address (Ghidra VA).
        ghidra_addr: u32,
        /// Final address (runtime).
        runtime_addr: u32,
        /// Memory at the final address.
        data: Vec<u8>,
        /// Pointer annotations in the final data.
        pointers: Vec<PointerInfo>,
    },
    /// Game is now suspended at this frame.
    Suspended { frame: i32 },
    /// Game resumed.
    Resumed,
    /// Current frame info.
    FrameInfo { frame: i32, paused: bool, breakpoint: i32 },
    /// Breakpoint set or cleared.
    BreakSet { frame: i32 },
    /// Game state snapshot.
    Snapshot { frame: i32, text: String },
    /// Typed struct inspection result.
    InspectResult { class_name: String, ghidra_addr: u32, runtime_addr: u32, fields: Vec<FieldValue> },
    /// List of tracked live objects.
    ObjectList { objects: Vec<LiveObjectInfo> },
    /// Resolved named alias.
    AliasResult(ResolvedAlias),
    /// Resolved field offset.
    FieldResult(ResolvedField),
    Error { message: String },
}

/// Port the debug server listens on by default.
pub const DEFAULT_PORT: u16 = 19840;
/// Largest memory read a request may ask for (1 MB).
pub const MAX_READ_SIZE: u32 = 0x10_0000;
/// Largest frame payload accepted (8 MB: read data and pointer metadata).
pub const MAX_FRAME_SIZE: usize = 0x80_0000;

/// Errors of frame handling.
#[derive(Debug, Clone, Copy, PartialEq, Eq, Structural)]
pub enum FrameError {
    /// The announced payload is larger than `MAX_FRAME_SIZE`.
    TooLarge,
}

/// The frame of `payload`: its length as four little-endian bytes, then
/// the payload.
pub open spec fn spec_frame(payload: Seq<u8>) -> Seq<u8> {
    let n = payload.len() as u32;
    seq![
        (n & 0xffu32) as u8,
        ((n >> 8u32) & 0xffu32) as u8,
        ((n >> 16u32) & 0xffu32) as u8,
        ((n >> 24u32) & 0xffu32) as u8,
    ] + payload
}

/// Frame a serialized message.
pub fn frame_bytes(payload: &[u8]) -> (r: Vec<u8>)
    requires
        payload@.len() <= u32::MAX,
    ensures
        r@ == spec_frame(payload@),
{
    let n: u32 = payload.len() as u32;
    let mut out: Vec<u8> = Vec::new();
    out.push((n & 0xff) as u8);
    out.push(((n >> 8u32) & 0xff) as u8);
    out.push(((n >> 16u32) & 0xff) as u8);
    out.push(((n >> 24u32) & 0xff) as u8);
    let mut i: usize = 0;
    while i < payload.len()
        invariant
            0 <= i <= payload@.len(),
            n == payload@.len(),
            out@ =~= spec_frame(payload@).subrange(0, 4 + i),
        decreases payload@.len() - i,
    {
        out.push(payload[i]);
        i = i + 1;
    }
    assert(out@ =~= spec_frame(payload@));
    out
}

/// The payload length announced by a frame header, if it is acceptable.
pub fn frame_payload_len(header: [u8; 4]) -> (r: Result<usize, FrameError>)
    ensures
        ({
            let n = le_u32(header@, 0);
            &&& n > MAX_FRAME_SIZE ==> r == Err::<usize, FrameError>(FrameError::TooLarge)
            &&& n <= MAX_FRAME_SIZE ==> r == Ok::<usize, FrameError>(n as usize)
        }),
{
    let n: u32 = crate::bytes::read_u32_le(&header, 0);
    if n as usize > MAX_FRAME_SIZE {
        Err(FrameError::TooLarge)
    } else {
        Ok(n as usize)
    }
}

/// Reading the header of a frame gives back the length of its payload.
pub proof fn lemma_frame_header_roundtrip(payload: Seq<u8>)
    requires
        payload.len() <= u32::MAX,
    ensures
        le_u32(spec_frame(payload), 0) == payload.len(),
{
    let n = payload.len() as u32;
    let f = spec_frame(payload);
    crate::bytes::lemma_le_u32_bytes(n, f);
}

} // verus!
