//! Game entity tasks: the memory layout of the task objects and the
//! decisions made on their fields.
//!
//! Pointer fields hold 32-bit addresses in the game's address space.
use vstd::prelude::*;

use crate::fixed::Fixed;

verus! {

/// Base task class in WA's entity hierarchy.
///
/// All game objects inherit from CTask. Tasks form a tree via parent/children
/// pointers and communicate through the TaskMessage system.
///
/// Source: wkJellyWorm CTask.h, Ghidra decompilation of 0x5625A0 + 0x562520
///   0x1C: 0x563210 ProcessFrame
pub struct CTask {
    /// 0x00: Pointer to virtual method table
    pub vtable: u32,
    /// 0x04: Parent task in the hierarchy
    pub parent: u32,
    /// 0x08: Children array capacity — starts at 0x10, doubles via realloc when full.
    pub children_capacity: u32,
    /// 0x0C: Set to 1 by `FUN_004fdce0` when a child slot is nulled (dirty flag).
    /// Zero at construction. Not decremented; purely a "child was removed" marker.
    pub children_dirty: u32,
    /// 0x10: Insert watermark — incremented on every child insertion, never decremented
    /// on removal. Dead children leave null slots; `children_data[0..children_watermark]`
    /// is a sparse array. This grows without bound within a session (e.g., sea bubbles
    /// continuously spawn/die, each consuming a new slot and doubling capacity as needed).
    pub children_watermark: u32,
    /// 0x14: Pointer to children data array (sparse, allocated 0x60 bytes initially,
    /// reallocated to `children_capacity * 8 + 0x20` bytes on overflow).
    /// Non-null entries are valid CTask pointers (any subclass).
    pub children_data: u32,
    /// 0x18: Children hash list pointer (set to 0 in constructor)
    pub children_hash: u32,
    /// 0x1C: Unknown (set to 0 by parent-linking helper FUN_00562520)
    pub _unknown_1c: u32,
    /// 0x20: Task classification type (set to ClassType::Task by FUN_00562520,
    /// overridden by derived constructors)
    pub class_type: u32,
    /// 0x24: Shared data buffer pointer (inherited from parent, or allocated
    /// 0x420 bytes for root tasks)
    pub shared_data: u32,
    /// 0x28: nonzero for a root task, which owns its shared data
    pub owns_shared_data: u32,
    /// 0x2C: DDGame pointer (3rd param to CTask::Constructor, stored at this+0x2C)
    pub ddgame: u32,
}

/// Game task - extends CTask with physics and gameplay data.
///
/// PARTIAL: Most fields between 0x30-0x83 and 0x98-0xE7 are unknown.
/// Only position and velocity fields have been verified.
///
/// Source: wkJellyWorm CGameTask.h
///
/// Additional vtable (12 methods at offsets 0x1C-0x48 in vtable)
pub struct CGameTask {
    /// 0x00-0x2F: Base CTask fields
    pub base: CTask,
    /// 0x30-0x83: Subclass-specific gameplay fields (84 bytes); subclasses
    /// keep state here (the worm's state code at +0x44, its weapon fire
    /// completion flag at +0x3C).
    pub subclass_data: [u8; 0x54],
    /// 0x84: X position in fixed-point
    pub pos_x: Fixed,
    /// 0x88: Y position in fixed-point
    pub pos_y: Fixed,
    /// 0x8C: Rotation angle (fixed-point 16.16).
    pub angle: Fixed,
    /// 0x90: X velocity in fixed-point
    pub speed_x: Fixed,
    /// 0x94: Y velocity in fixed-point
    pub speed_y: Fixed,
    /// 0x98-0xE7: Unknown gameplay fields
    pub _unknown_98: [u8; 0x50],
    /// 0xE8: Embedded sound emitter sub-object (MSVC multiple inheritance).
    pub sound_emitter: SoundEmitter,
}

/// Sound emitter sub-object embedded in CGameTask via MSVC multiple inheritance.
///
/// Provides spatial audio support. The `this` pointer for its vtable methods
/// points to the start of this sub-object (CGameTask+0xE8), not the CGameTask.
pub struct SoundEmitter {
    /// +0x00: Vtable pointer
    pub vtable: u32,
    /// +0x04-0x0B: Unknown fields
    pub _unknown_04: [u8; 8],
    /// +0x0C: Number of active local sounds
    pub local_sound_count: i32,
    /// +0x10: Back-pointer to containing CGameTask
    pub owner: u32,
}

/// Worm entity task — the primary playable character in WA.
///
/// Extends CGameTask (0xFC bytes) with worm identity, physics overrides, and
/// per-worm state. Total size: 0x3FC bytes.
///
/// Constructor: 0x50BFB0 (stdcall, 5 params):
///   this, parent_task, team_index, worm_index, init_data_ptr
///
/// Vtable at 0x6644C8. Class type byte: 0x12.
///
/// # Important fields in the CGameTask base
/// The worm state field lives at **offset +0x44** (inside `base.subclass_data`).
/// Use [`CTaskWorm::state`] to read it without pointer arithmetic.
///
/// Source: Ghidra decompilation of 0x50BFB0, vtable analysis of 0x6644C8,
///         wkJellyWorm CTaskWorm.h
pub struct CTaskWorm {
    /// 0x00–0xFB: CGameTask base (position, velocity, sound emitter, etc.)
    pub base: CGameTask,

    /// 0xFC: Team index (0-based); 3rd constructor param
    pub team_index: u32,
    /// 0x100: Worm index within team (0-based); 4th constructor param
    pub worm_index: u32,
    /// 0x104: Unknown flag (checked in OnContactEntity)
    pub _unknown_104: u32,
    /// 0x108–0x10F: Unknown
    pub _unknown_108: [u8; 8],
    /// 0x110–0x137: Ten u32s copied from spawn init_data (5th constructor param)
    pub spawn_params: [u32; 0xa],
    /// 0x138–0x14F: Unknown
    pub _unknown_138: [u8; 0x18],
    /// 0x150: Unknown (slot 9 in GetEntityData query 0x7D4 output)
    pub _unknown_150: u32,
    /// 0x154: Unknown (rope-related; cleared in some SetState transitions)
    pub _unknown_154: u32,
    /// 0x158: Worm pool slot index in DDGame (assigned from pool at construction)
    pub slot_id: u32,
    /// 0x15C–0x163: Unknown
    pub _unknown_15c: [u8; 8],
    /// 0x164: Frames the worm has stayed stationary (no movement). Resets on movement.
    pub stationary_frames: u32,
    /// 0x168–0x16F: Unknown
    pub _unknown_168: [u8; 8],
    /// 0x170: Currently selected weapon ID.
    pub selected_weapon: u32,
    /// 0x174–0x1A7: Unknown
    pub _unknown_174: [u8; 0x34],
    /// 0x1A8: Facing direction copy. -1 = left, +1 = right (same as +0x3DC).
    pub facing_direction_2: i32,
    /// 0x1AC: Inverted facing direction. +1 = left, -1 = right.
    pub facing_direction_inv: i32,
    /// 0x1B0–0x1EB: Unknown
    pub _unknown_1b0: [u8; 0x3c],
    /// 0x1EC: Movement streak counter. Increases ~once per second while moving
    /// in one direction. Resets to 0 when movement resumes after a stop.
    /// Set to -1 when the worm is blocked (e.g. hits a wall).
    pub movement_streak: i32,
    /// 0x1F0–0x247: Unknown
    pub _unknown_1f0: [u8; 0x58],
    /// 0x248: Unknown
    pub _unknown_248: u32,
    /// 0x24C: Aim angle (fixed-point 16.16, range 0..0x10000 = 0..360 degrees).
    pub aim_angle: u32,
    /// 0x250–0x267: Unknown
    pub _unknown_250: [u8; 0x18],
    /// 0x268: Show aiming cursor flag (nonzero = cursor visible).
    pub show_cursor: u32,
    /// 0x26C–0x283: Unknown
    pub _unknown_26c: [u8; 0x18],
    /// 0x284–0x28B: Aiming data (slots 5–6 in GetEntityData query 0x7D4)
    pub _unknown_284: [u32; 2],
    /// 0x28C–0x2EF: Unknown
    pub _unknown_28c: [u8; 0x64],
    /// 0x2F0: Worm name, null-terminated (max 17 chars, from spawn init_data+3)
    pub worm_name: [u8; 0x11],
    /// 0x301: Country / team name from scheme, null-terminated (max 17 chars)
    pub country_name: [u8; 0x11],
    /// 0x312–0x333: Unknown (rope string, state history, etc.)
    pub _unknown_312: [u8; 0x22],
    /// 0x334: Facing direction copy. -1 = left, +1 = right (same as +0x3DC).
    pub facing_direction_3: i32,
    /// 0x338–0x367: Unknown
    pub _unknown_338: [u8; 0x30],
    /// 0x368: Animator / controller object (dispatched via vtable for state animations)
    pub animator: u32,
    /// 0x36C: Active weapon entry pointer. Points to `&WeaponTable.entries[selected_weapon]`.
    /// Contains fire type (+0x30), subtypes (+0x34/+0x38), and completion flag (+0x3C).
    /// Used by WeaponRelease: `MOV EAX, [EDI+0x36C]` before calling FireWeapon.
    pub active_weapon_entry: u32,
    /// 0x370–0x3DB: Unknown (rope anchor, weapon-specific data, etc.)
    pub _unknown_370: [u8; 0x6c],
    /// 0x3DC: Facing direction. -1 = facing left, +1 = facing right.
    pub facing_direction: i32,
    /// 0x3E0–0x3E3: Unknown
    pub _unknown_3e0: u32,
    /// 0x3E4: Input: aim up key held (nonzero = adjusting aim upward).
    pub input_aim_up: u32,
    /// 0x3E8: Input: aim down key held (nonzero = adjusting aim downward).
    pub input_aim_down: u32,
    /// 0x3EC: Input: move left key held (nonzero = worm walking left).
    pub input_move_left: u32,
    /// 0x3F0: Input: move right key held (nonzero = worm walking right).
    pub input_move_right: u32,
    /// 0x3F4–0x3FB: Unknown
    pub _unknown_3f4: [u8; 8],
}

/// Projectile / missile entity task.
///
/// Extends CGameTask (0xFC bytes). One instance per airborne projectile
/// (rockets, grenades, mortar shells, homing missiles, sheep, etc.).
///
/// Inheritance: CTask → CGameTask → CTaskMissile. class_type = 0x0B (11).
/// Constructor: `CTaskMissile__Constructor` (0x507D10, stdcall, 4 params).
/// Vtable: `CTaskMissile__vtable` (0x00664438).
///
/// Constructor params:
///   param_1 = this
///   param_2 = parent task pointer (passed to CGameTask ctor)
///   param_3 = scheme weapon data (94 DWORDs from WGT blob)
///   param_4 = spawn data (11 DWORDs: position, velocity, owner, pellet index)
///
/// Source: Ghidra decompilation of 0x507D10 (constructor) and
///         wkJellyWorm CTaskMissile.h (field layout reference).
pub struct CTaskMissile {
    /// 0x00–0xFB: CGameTask base (pos at 0x84/0x88, speed at 0x90/0x94).
    pub base: CGameTask,

    // ---- 0xFC–0x12F: missile init fields ----
    /// 0xFC–0x10F: Unknown missile flags and state
    pub _unknown_fc: [u8; 0x14],
    /// 0x110: Unknown
    pub _unknown_110: u32,
    /// 0x114: Unknown
    pub _unknown_114: u32,
    /// 0x118: Unknown — observed being set from scheme data at construction
    pub _unknown_118: u32,
    /// 0x11C: Unknown
    pub _unknown_11c: u32,
    /// 0x120: Unknown
    pub _unknown_120: u32,
    /// 0x124: Unknown
    pub _unknown_124: u32,
    /// 0x128: Position-derived launch seed. Computed by constructor as:
    /// `((spawn_x + spawn_y) / 256 / 20) + 0x10000`. param_1[0x4A].
    pub launch_seed: u32,
    /// 0x12C: Object pool slot index (assigned from DDGame+0x3600 pool).
    /// param_1[0x4B].
    pub slot_id: u32,

    // ---- 0x130–0x15B: spawn data (11 DWORDs, from param_4) ----
    /// 0x130–0x15B: Spawn parameters copied from constructor param_4.
    /// See `WeaponSpawnData` for field documentation.
    pub spawn_params: WeaponSpawnData,

    // ---- 0x15C–0x2D3: weapon/scheme data (94 DWORDs, from param_3) ----
    /// 0x15C–0x2D3: Weapon/scheme properties (94 DWORDs copied verbatim from param_3).
    ///
    /// The WGT scheme blob is split into two logical halves:
    ///   [0x00..0x34] primary projectile params (→ also mirrored in render_data)
    ///   [0x34..0x5E] cluster sub-pellet params (→ render_data when pellet_index > 0)
    ///
    /// Runtime-observed for bazooka:
    ///   [0x03] = 137342 → Fixed16.16 ≈ 2.10 (some radius/size)
    ///   [0x05] = 100, [0x06] = 50, [0x09] = 48
    ///   [0x0F] gravity_pct  — 100 → gravity_factor = 1.0  (→ CGameTask+0x58 via render_data)
    ///   [0x10] bounce_pct   — 100 → bounce_factor  = 1.0  (→ CGameTask+0x5C via render_data)
    ///   [0x12] friction_pct — 100 → friction_factor = 1.0 (→ CGameTask+0x60 via render_data)
    ///   [0x14] = 9000
    ///   [0x1A] missile_type — discriminator (2=Standard, 3=Homing, 4=Sheep, 5=Cluster)
    ///   [0x1B] = 4194304 → Fixed16.16 = 64.0
    ///   [0x1C] render_timer — 1 for bazooka, 30 for grenade (3s fuse @ 10fps)
    pub weapon_data: [u32; 0x5e],

    // ---- 0x2D4–0x37B: render/physics parameters (42 DWORDs) ----
    /// 0x2D4–0x37B: Per-projectile render and physics parameters (42 DWORDs).
    ///
    /// This is NOT a separate data block — it is a shifted copy of weapon_data:
    ///   if spawn_params[8] == 0 (single shot):   render_data[N] = weapon_data[N+3]
    ///   if spawn_params[8]  > 0 (cluster pellet): render_data[N] = weapon_data[N+52]
    ///
    /// The constructor copies 42 DWORDs from the appropriate source range
    /// into this region (param_1[0xB5..0xDE]). Dynamic physics values update
    /// some entries during flight (e.g. render_data[0x29] @ 0x37C).
    ///
    /// Key indices (relative to render_data, = weapon_data[N+3] for single shots):
    ///   [0x0C] gravity_pct  → (value << 16) / 100 → CGameTask+0x58 (gravity_factor)
    ///   [0x0D] bounce_pct   → (value << 16) / 100 → CGameTask+0x5C (bounce_factor)
    ///   [0x0F] friction_pct → (value << 16) / 100 → CGameTask+0x60 (friction_factor)
    ///   [0x11] = 9000 for bazooka (→ also copied to post-render field at 0x37C)
    ///   [0x17] missile_type — type discriminator (see MissileType)
    ///   [0x18] = 4194304 → Fixed16.16 = 64.0 (sprite/render size)
    ///   [0x19] render_timer — 1 for bazooka, 30 for grenade (3s fuse timer)
    pub render_data: [u32; 0x2a],

    // ---- 0x37C–0x41B: post-render physics and state ----
    /// 0x37C–0x39F: Post-render dynamic state. render_data[0x11] is copied to
    /// [0x37C] by the constructor; physics updates the values each frame.
    pub _unknown_37c: [u8; 0x24],
    /// 0x3A0: Fixed16.16 launch speed magnitude (computed from initial velocity).
    /// Observed as 0 for bazooka — may only be populated for specific types.
    pub launch_speed_raw: Fixed,
    /// 0x3A4: Unknown
    pub _unknown_3a4: u32,
    /// 0x3A8: Homing mode enabled flag (nonzero = active homing).
    /// param_1[0xEA] in constructor. Set to 1 when missile_type == 3 and conditions
    /// are met (target acquired).
    pub homing_enabled: u32,
    /// 0x3AC–0x3BF: Unknown homing state fields
    pub _unknown_3ac: [u8; 0x14],
    /// 0x3C0–0x3C7: Unknown
    pub _unknown_3c0: [u8; 8],
    /// 0x3C8: Horizontal direction sign (+1 or -1, determines facing/travel dir).
    /// param_1[0xF2] in constructor. Set to -1 for homing/sheep if initial_speed_x < 0.
    pub direction: i32,
    /// 0x3CC–0x40B: Unknown trailing state.
    /// Allocation size is 0x40C; constructor zeros bytes 0x00–0x3EB.
    pub _unknown_3cc: [u8; 0x40],
}

/// Arrow/bullet projectile entity (Shotgun, Longbow).
///
/// Extends CGameTask (0xFC bytes). Allocated size: 0x168 bytes.
/// Constructor zeros 0x148 of 0x168 bytes (first 0x20 not zeroed).
///
/// Inheritance: CTask → CGameTask → CTaskArrow. class_type = 0x0C (via ctor +0x20 = 12).
/// Constructor: 0x4FE130, stdcall(this, parent, fire_params, spawn_data), RET 0x10.
/// Vtable: 0x664198.
pub struct CTaskArrow {
    /// 0x00–0xFB: CGameTask base (pos at 0x84/0x88, speed at 0x90/0x94).
    pub base: CGameTask,

    /// 0xFC–0x167: Arrow-specific fields. Layout unknown.
    pub _unknown_fc: [u8; 0x6c],
}

/// Bitfield grid buffer used for spatial collision/visibility queries.
/// Vtable at 0x6640EC (shared with DisplayGfx base).
/// Size: 0x2C bytes (11 u32 fields).
pub struct BitGrid {
    pub vtable: u32,
    pub _unused_04: u32,
    pub data: u32,
    pub cells_per_unit: u32,
    pub row_stride: u32,
    pub width: u32,
    pub height: u32,
    pub _unused_1c: u32,
    pub _unused_20: u32,
    pub width_dup: u32,
    pub height_dup: u32,
}

/// Spawn parameters of a projectile (11 words): owner, position, velocity,
/// aim cursor, cluster pellet index and fallback timing.
pub struct WeaponSpawnData {
    pub owner_id: u32,
    pub spawn_x: Fixed,
    pub spawn_y: Fixed,
    pub initial_speed_x: Fixed,
    pub initial_speed_y: Fixed,
    pub cursor_x: Fixed,
    pub cursor_y: Fixed,
    pub _unknown_1c: u32,
    pub pellet_index: u32,
    pub fallback_timer: u32,
    pub fallback_param: u32,
}

/// Signed 32-bit value of the four little-endian bytes of `b` from `off`.
pub open spec fn le_i32_at(b: Seq<u8>, off: int) -> i32 {
    (b[off] as u32 | (b[off + 1] as u32) << 8u32 | (b[off + 2] as u32) << 16u32 | (b[off + 3] as u32)
        << 24u32) as i32
}

/// Unsigned 32-bit value of the four little-endian bytes of `b` from `off`.
pub open spec fn le_u32_at(b: Seq<u8>, off: int) -> u32 {
    b[off] as u32 | (b[off + 1] as u32) << 8u32 | (b[off + 2] as u32) << 16u32 | (b[off + 3] as u32)
        << 24u32
}

/// Offset in `CGameTask::subclass_data` of the worm state code (+0x44).
pub const WORM_STATE_OFFSET: usize = 0x14;
/// Offset in `CGameTask::subclass_data` of the weapon fire completion flag
/// (+0x3C).
pub const FIRE_COMPLETE_OFFSET: usize = 12;

impl CTaskWorm {
    /// The worm's state code (at +0x44, inside the base's subclass data).
    pub fn state(&self) -> (r: u32)
        ensures
            r == le_u32_at(self.base.subclass_data@, WORM_STATE_OFFSET as int),
    {
        let d = &self.base.subclass_data;
        (d[20] as u32) | (d[21] as u32) << 8u32 | (d[22] as u32) << 16u32 | (d[23] as u32) << 24u32
    }

    /// Weapon fire completion flag (at +0x3C): 0 before a weapon fire is
    /// dispatched, 1 after.
    pub fn fire_complete(&self) -> (r: i32)
        ensures
            r == le_i32_at(self.base.subclass_data@, FIRE_COMPLETE_OFFSET as int),
    {
        let d = &self.base.subclass_data;
        ((d[12] as u32) | (d[13] as u32) << 8u32 | (d[14] as u32) << 16u32 | (d[15] as u32)
            << 24u32) as i32
    }

    /// Set the weapon fire completion flag; nothing else changes.
    pub fn set_fire_complete(&mut self, value: i32)
        ensures
            le_i32_at(final(self).base.subclass_data@, FIRE_COMPLETE_OFFSET as int) == value,
            forall|i: int|
                0 <= i < 0x54 && !(12 <= i < 16) ==> final(self).base.subclass_data@[i]
                    == old(self).base.subclass_data@[i],
            *final(self) == (CTaskWorm {
                base: CGameTask { subclass_data: final(self).base.subclass_data, ..old(self).base },
                ..*old(self)
            }),
    {
        let v: u32 = value as u32;
        let b0: u8 = (v & 0xff) as u8;
        let b1: u8 = ((v >> 8u32) & 0xff) as u8;
        let b2: u8 = ((v >> 16u32) & 0xff) as u8;
        let b3: u8 = ((v >> 24u32) & 0xff) as u8;
        self.base.subclass_data[12] = b0;
        self.base.subclass_data[13] = b1;
        self.base.subclass_data[14] = b2;
        self.base.subclass_data[15] = b3;
        let ghost d = self.base.subclass_data@;
        assert(d[12] == b0 && d[13] == b1 && d[14] == b2 && d[15] == b3);
        assert(((b0 as u32 | (b1 as u32) << 8u32 | (b2 as u32) << 16u32 | (b3 as u32) << 24u32)
            as i32) == value) by (bit_vector)
            requires
                v == value as u32,
                b0 == (v & 0xff) as u8,
                b1 == ((v >> 8u32) & 0xff) as u8,
                b2 == ((v >> 16u32) & 0xff) as u8,
                b3 == ((v >> 24u32) & 0xff) as u8,
        ;
    }
}

/// Movement and behaviour type of a missile, encoded in `render_data[0x17]`.
#[derive(Debug, Clone, Copy, PartialEq, Eq, Structural)]
pub enum MissileType {
    /// Standard trajectory projectile (bazooka, mortar, grenade). Code 2.
    Standard,
    /// Homing missile that tracks the nearest worm. Code 3.
    Homing,
    /// Sheep or other animal that walks on the terrain. Code 4.
    Sheep,
    /// Cluster projectile that spawns pellets on detonation. Code 5.
    Cluster,
    /// Any other code.
    Unknown(u32),
}

/// The missile type of code `n`.
pub open spec fn missile_type_of(n: u32) -> MissileType {
    if n == 2 {
        MissileType::Standard
    } else if n == 3 {
        MissileType::Homing
    } else if n == 4 {
        MissileType::Sheep
    } else if n == 5 {
        MissileType::Cluster
    } else {
        MissileType::Unknown(n)
    }
}

/// Index in `CTaskMissile::render_data` of the missile type code.
pub const MISSILE_TYPE_INDEX: usize = 0x17;

impl CTaskMissile {
    /// Missile type, from `render_data[0x17]`.
    pub fn missile_type(&self) -> (t: MissileType)
        ensures
            t == missile_type_of(self.render_data@[MISSILE_TYPE_INDEX as int]),
    {
        match self.render_data[MISSILE_TYPE_INDEX] {
            2 => MissileType::Standard,
            3 => MissileType::Homing,
            4 => MissileType::Sheep,
            5 => MissileType::Cluster,
            n => MissileType::Unknown(n),
        }
    }

    /// Spawn X position.
    pub fn spawn_x(&self) -> (r: Fixed)
        ensures
            r == self.spawn_params.spawn_x,
    {
        self.spawn_params.spawn_x
    }

    /// Spawn Y position.
    pub fn spawn_y(&self) -> (r: Fixed)
        ensures
            r == self.spawn_params.spawn_y,
    {
        self.spawn_params.spawn_y
    }

    /// Aim cursor X at the time of firing.
    pub fn cursor_x(&self) -> (r: Fixed)
        ensures
            r == self.spawn_params.cursor_x,
    {
        self.spawn_params.cursor_x
    }

    /// Aim cursor Y at the time of firing.
    pub fn cursor_y(&self) -> (r: Fixed)
        ensures
            r == self.spawn_params.cursor_y,
    {
        self.spawn_params.cursor_y
    }
}

/// One entity registered in the shared-data table under a key pair.
#[derive(Clone, Copy, PartialEq, Eq, Structural, Debug)]
pub struct SharedDataNode {
    pub key_edi: u32,
    pub key_esi: u32,
    /// Address of the registered entity.
    pub entity: u32,
}

/// Number of buckets of the shared-data table.
pub const SHARED_DATA_BUCKETS: usize = 256;

/// The 256-bucket entity table that all tasks of a game tree share; each
/// bucket lists its nodes in chain order.
pub struct SharedDataTable {
    pub buckets: Vec<Vec<SharedDataNode>>,
}

/// The hash of a key pair: `key_esi * 0x11 + key_edi` (wrapping), reduced as
/// a signed 32-bit value modulo 256 with the sign of the dividend, so that
/// a sum with bit 31 set and a non-zero low byte yields `0xFFFFFF00` plus
/// that byte.
pub open spec fn bucket_hash(key_esi: u32, key_edi: u32) -> u32 {
    let x = ((key_esi as int * 0x11 + key_edi as int) % 0x1_0000_0000) as u32;
    if x & 0x8000_0000u32 != 0 && x & 0xffu32 != 0 {
        (x & 0xffu32) | 0xffff_ff00u32
    } else {
        x & 0xffu32
    }
}

/// Index of the first node of `nodes` with the key pair, if any.
pub open spec fn first_match(nodes: Seq<SharedDataNode>, key_esi: u32, key_edi: u32) -> Option<int>
    decreases nodes.len(),
{
    if nodes.len() == 0 {
        None
    } else if nodes[0].key_edi == key_edi && nodes[0].key_esi == key_esi {
        Some(0)
    } else {
        match first_match(nodes.drop_first(), key_esi, key_edi) {
            Some(i) => Some(i + 1),
            None => None,
        }
    }
}

proof fn lemma_first_match_step(nodes: Seq<SharedDataNode>, key_esi: u32, key_edi: u32, i: int)
    requires
        0 <= i < nodes.len(),
        forall|j: int| 0 <= j < i ==> !(nodes[j].key_edi == key_edi && nodes[j].key_esi == key_esi),
    ensures
        first_match(nodes, key_esi, key_edi) == (if nodes[i].key_edi == key_edi && nodes[i].key_esi
            == key_esi {
            Some(i)
        } else {
            match first_match(nodes.subrange(i + 1, nodes.len() as int), key_esi, key_edi) {
                Some(k) => Some(k + i + 1),
                None => None,
            }
        }),
    decreases i,
{
    if i > 0 {
        let rest = nodes.drop_first();
        assert forall|j: int| 0 <= j < i - 1 implies !(rest[j].key_edi == key_edi
            && rest[j].key_esi == key_esi) by {
            assert(rest[j] == nodes[j + 1]);
        }
        lemma_first_match_step(rest, key_esi, key_edi, i - 1);
        assert(rest.subrange(i, rest.len() as int) =~= nodes.subrange(i + 1, nodes.len() as int));
    }
}

proof fn lemma_first_match_none(nodes: Seq<SharedDataNode>, key_esi: u32, key_edi: u32)
    requires
        forall|j: int| 0 <= j < nodes.len() ==> !(nodes[j].key_edi == key_edi && nodes[j].key_esi
            == key_esi),
    ensures
        first_match(nodes, key_esi, key_edi) == None::<int>,
    decreases nodes.len(),
{
    if nodes.len() > 0 {
        let rest = nodes.drop_first();
        assert forall|j: int| 0 <= j < rest.len() implies !(rest[j].key_edi == key_edi
            && rest[j].key_esi == key_esi) by {
            assert(rest[j] == nodes[j + 1]);
        }
        lemma_first_match_none(rest, key_esi, key_edi);
    }
}

impl SharedDataTable {
    /// The table has its 256 buckets.
    pub open spec fn wf(&self) -> bool {
        self.buckets@.len() == SHARED_DATA_BUCKETS
    }

    /// Bucket of a key pair.
    pub fn bucket_for(key_esi: u32, key_edi: u32) -> (r: u32)
        ensures
            r == bucket_hash(key_esi, key_edi),
    {
        let x: u32 = key_esi.wrapping_mul(0x11).wrapping_add(key_edi);
        proof {
            let m = (key_esi as int * 0x11) % 0x1_0000_0000;
            vstd::arithmetic::div_mod::lemma_add_mod_noop(key_esi as int * 0x11, key_edi as int, 0x1_0000_0000);
            vstd::arithmetic::div_mod::lemma_mod_bound(key_esi as int * 0x11, 0x1_0000_0000);
            vstd::arithmetic::div_mod::lemma_small_mod(key_edi as nat, 0x1_0000_0000);
            if m + key_edi >= 0x1_0000_0000 {
                vstd::arithmetic::div_mod::lemma_mod_sub_multiples_vanish(m + key_edi, 0x1_0000_0000);
                vstd::arithmetic::div_mod::lemma_small_mod((m + key_edi - 0x1_0000_0000) as nat, 0x1_0000_0000);
            } else {
                vstd::arithmetic::div_mod::lemma_small_mod((m + key_edi) as nat, 0x1_0000_0000);
            }
            assert(x as int == (key_esi as int * 0x11 + key_edi as int) % 0x1_0000_0000);
        }
        let mut h: u32 = x & 0x8000_00ff;
        if (h as i32) < 0 {
            let ghost h0 = h;
            assert(h0 == x & 0x8000_00ffu32 && (h0 as i32) < 0 ==> h0 >= 0x8000_0000u32) by (bit_vector);
            h = h.wrapping_sub(1) | 0xffff_ff00;
            let ghost h1 = h;
            h = h.wrapping_add(1);
            assert(h == (if h1 == 0xffff_ffffu32 { 0u32 } else { (h1 + 1) as u32 }));
            assert(h1 == ((h0 - 1) as u32) | 0xffff_ff00u32);
            assert(h == (if x & 0x8000_0000u32 != 0 && x & 0xffu32 != 0 {
                (x & 0xffu32) | 0xffff_ff00u32
            } else {
                x & 0xffu32
            })) by (bit_vector)
                requires
                    h0 == x & 0x8000_00ffu32,
                    h0 >= 0x8000_0000u32,
                    h1 == ((h0 - 1) as u32) | 0xffff_ff00u32,
                    h == (if h1 == 0xffff_ffffu32 { 0u32 } else { (h1 + 1) as u32 }),
            ;
        } else {
            assert(h == (if x & 0x8000_0000u32 != 0 && x & 0xffu32 != 0 {
                (x & 0xffu32) | 0xffff_ff00u32
            } else {
                x & 0xffu32
            })) by (bit_vector)
                requires
                    h == x & 0x8000_00ffu32,
                    !((h as i32) < 0),
            ;
        }
        h
    }

    /// The entity registered under the key pair: the first node of its
    /// bucket with both keys, or 0 if there is none.
    pub fn lookup(&self, key_esi: u32, key_edi: u32) -> (r: u32)
        requires
            self.wf(),
            bucket_hash(key_esi, key_edi) < SHARED_DATA_BUCKETS,
        ensures
            ({
                let nodes = self.buckets@[bucket_hash(key_esi, key_edi) as int]@;
                r == match first_match(nodes, key_esi, key_edi) {
                    Some(i) => nodes[i].entity,
                    None => 0,
                }
            }),
    {
        let b: usize = Self::bucket_for(key_esi, key_edi) as usize;
        let nodes: &Vec<SharedDataNode> = &self.buckets[b];
        let mut i: usize = 0;
        while i < nodes.len()
            invariant
                0 <= i <= nodes@.len(),
                b as int == bucket_hash(key_esi, key_edi) as int,
                nodes@ == self.buckets@[b as int]@,
                forall|j: int|
                    0 <= j < i ==> !(nodes@[j].key_edi == key_edi && nodes@[j].key_esi == key_esi),
            decreases nodes@.len() - i,
        {
            let n = nodes[i];
            if n.key_edi == key_edi && n.key_esi == key_esi {
                proof {
                    lemma_first_match_step(nodes@, key_esi, key_edi, i as int);
                }
                return n.entity;
            }
            i = i + 1;
        }
        proof {
            lemma_first_match_none(nodes@, key_esi, key_edi);
        }
        0
    }

    /// All nodes, bucket by bucket in bucket order, each bucket in chain
    /// order.
    pub fn nodes(&self) -> (r: Vec<SharedDataNode>)
        ensures
            r@ == self.buckets@.map_values(|b: Vec<SharedDataNode>| b@).flatten(),
    {
        let mut out: Vec<SharedDataNode> = Vec::new();
        let mut b: usize = 0;
        while b < self.buckets.len()
            invariant
                0 <= b <= self.buckets@.len(),
                out@ == self.buckets@.subrange(0, b as int).map_values(
                    |v: Vec<SharedDataNode>| v@,
                ).flatten(),
            decreases self.buckets@.len() - b,
        {
            let bucket: &Vec<SharedDataNode> = &self.buckets[b];
            let ghost before = out@;
            let mut i: usize = 0;
            while i < bucket.len()
                invariant
                    0 <= i <= bucket@.len(),
                    out@ == before + bucket@.subrange(0, i as int),
                decreases bucket@.len() - i,
            {
                out.push(bucket[i]);
                proof {
                    assert(bucket@.subrange(0, i + 1) =~= bucket@.subrange(0, i as int).push(
                        bucket@[i as int],
                    ));
                }
                i = i + 1;
            }
            proof {
                let s = self.buckets@.subrange(0, b + 1).map_values(|v: Vec<SharedDataNode>| v@);
                let t = self.buckets@.subrange(0, b as int).map_values(|v: Vec<SharedDataNode>| v@);
                assert(s =~= t.push(bucket@));
                t.lemma_flatten_push(bucket@);
                assert(bucket@.subrange(0, bucket@.len() as int) =~= bucket@);
            }
            b = b + 1;
        }
        proof {
            assert(self.buckets@.subrange(0, self.buckets@.len() as int) =~= self.buckets@);
        }
        out
    }
}

/// The chains of a table as sequences, in bucket order.
pub open spec fn bucket_seqs(t: SharedDataTable) -> Seq<Seq<SharedDataNode>> {
    t.buckets@.map_values(|v: Vec<SharedDataNode>| v@)
}

/// An iteration over the nodes of a table: the chain of bucket `bucket`
/// from place `pos` on, then the chains of the following buckets.
pub struct SharedDataIter<'a> {
    pub table: &'a SharedDataTable,
    pub bucket: usize,
    pub pos: usize,
}

impl<'a> SharedDataIter<'a> {
    /// The position lies in the table: inside a chain, or past the last
    /// bucket.
    pub open spec fn wf(&self) -> bool {
        &&& self.table.wf()
        &&& self.bucket <= SHARED_DATA_BUCKETS
        &&& self.bucket < SHARED_DATA_BUCKETS ==> self.pos <= self.table.buckets@[self.bucket as int]@.len()
        &&& self.bucket == SHARED_DATA_BUCKETS ==> self.pos == 0
    }

    /// How many nodes the iteration has handed out.
    pub open spec fn index(&self) -> int {
        bucket_seqs(*self.table).take(self.bucket as int).flatten().len() + self.pos
    }

    /// The next node, in the order of `SharedDataTable::nodes`, or `None`
    /// when every node has been handed out.
    pub fn next(&mut self) -> (r: Option<SharedDataNode>)
        requires
            old(self).wf(),
        ensures
            final(self).wf(),
            final(self).table == old(self).table,
            ({
                let all = bucket_seqs(*old(self).table).flatten();
                match r {
                    Some(n) => old(self).index() < all.len() && n == all[old(self).index()]
                        && final(self).index() == old(self).index() + 1,
                    None => old(self).index() == all.len() && final(self).index() == old(self).index(),
                }
            }),
    {
        let ghost bs = bucket_seqs(*self.table);
        let ghost start = self.index();
        while self.bucket < SHARED_DATA_BUCKETS && self.pos == self.table.buckets[self.bucket].len()
            invariant
                self.wf(),
                self.table == old(self).table,
                bs == bucket_seqs(*self.table),
                self.index() == start,
            decreases SHARED_DATA_BUCKETS - self.bucket,
        {
            proof {
                let b = self.bucket as int;
                assert(bs.take(b + 1) =~= bs.take(b).push(bs[b]));
                bs.take(b).lemma_flatten_push(bs[b]);
            }
            self.bucket = self.bucket + 1;
            self.pos = 0;
        }
        if self.bucket == SHARED_DATA_BUCKETS {
            proof {
                assert(bs.take(SHARED_DATA_BUCKETS as int) =~= bs);
            }
            return None;
        }
        let b: usize = self.bucket;
        let p: usize = self.pos;
        let n = self.table.buckets[b][p];
        proof {
            let bi = b as int;
            assert(bs.take(bi + 1) =~= bs.take(bi).push(bs[bi]));
            bs.take(bi).lemma_flatten_push(bs[bi]);
            vstd::seq_lib::lemma_flatten_concat(bs.take(bi + 1), bs.skip(bi + 1));
            assert(bs.take(bi + 1) + bs.skip(bi + 1) =~= bs);
            assert(bs[bi] == self.table.buckets@[bi]@);
            assert(bs.flatten()[start] == bs.take(bi + 1).flatten()[start]);
        }
        self.pos = p + 1;
        Some(n)
    }
}

impl SharedDataTable {
    /// An iteration over all nodes, from the start.
    pub fn iter(&self) -> (it: SharedDataIter)
        requires
            self.wf(),
        ensures
            it.wf(),
            *it.table == *self,
            it.index() == 0,
    {
        let it = SharedDataIter { table: self, bucket: 0, pos: 0 };
        proof {
            assert(bucket_seqs(*self).take(0) =~= Seq::<Seq<SharedDataNode>>::empty());
            assert(Seq::<Seq<SharedDataNode>>::empty().flatten() =~= Seq::<SharedDataNode>::empty());
        }
        it
    }
}

/// A task, its parent (0 for none) and the slots of its child array (0 for
/// an empty slot).
#[derive(Debug, Clone)]
pub struct TaskNode {
    pub addr: u32,
    pub parent: u32,
    pub children: Vec<u32>,
}

/// The tasks reachable in the game, each with its child slots.
#[derive(Debug, Clone)]
pub struct TaskTree {
    pub nodes: Vec<TaskNode>,
}

/// The child slots of task `a`: those of the first node with that address,
/// or none when the tree has no such node.
pub open spec fn child_slots(nodes: Seq<TaskNode>, a: u32) -> Seq<u32>
    decreases nodes.len(),
{
    if nodes.len() == 0 {
        Seq::empty()
    } else if nodes[0].addr == a {
        nodes[0].children@
    } else {
        child_slots(nodes.drop_first(), a)
    }
}

/// The non-empty slots of `s`, in order.
pub open spec fn nonzero_slots(s: Seq<u32>) -> Seq<u32>
    decreases s.len(),
{
    if s.len() == 0 {
        Seq::empty()
    } else {
        let rest = nonzero_slots(s.drop_last());
        if s.last() != 0 {
            rest.push(s.last())
        } else {
            rest
        }
    }
}

impl TaskTree {
    /// The non-empty child slots of task `a`, in slot order.
    pub fn children_of(&self, a: u32) -> (r: Vec<u32>)
        ensures
            r@ == nonzero_slots(child_slots(self.nodes@, a)),
    {
        let mut i: usize = 0;
        assert(self.nodes@.skip(0) =~= self.nodes@);
        while i < self.nodes.len()
            invariant
                i <= self.nodes@.len(),
                child_slots(self.nodes@, a) == child_slots(self.nodes@.skip(i as int), a),
            decreases self.nodes@.len() - i,
        {
            proof {
                assert(self.nodes@.skip(i as int).drop_first() =~= self.nodes@.skip(i + 1));
            }
            if self.nodes[i].addr == a {
                let slots = &self.nodes[i].children;
                let mut out: Vec<u32> = Vec::new();
                let mut k: usize = 0;
                while k < slots.len()
                    invariant
                        k <= slots@.len(),
                        out@ == nonzero_slots(slots@.take(k as int)),
                    decreases slots@.len() - k,
                {
                    proof {
                        assert(slots@.take(k + 1).drop_last() =~= slots@.take(k as int));
                    }
                    if slots[k] != 0 {
                        out.push(slots[k]);
                    }
                    k = k + 1;
                }
                proof {
                    assert(slots@.take(k as int) =~= slots@);
                }
                return out;
            }
            i = i + 1;
        }
        Vec::new()
    }
}

/// One step of a message broadcast over a task's child slots: the first
/// non-empty slot at or after `cursor` below `watermark`, with the cursor
/// just past it; `None` once no such slot remains. The slots and the
/// watermark are read afresh before each step, as a child's handler may
/// change them.
pub fn broadcast_next(children: &[u32], watermark: usize, cursor: usize) -> (r: Option<(u32, usize)>)
    requires
        watermark <= children.len(),
    ensures
        r matches Some((c, next)) ==> {
            &&& cursor < next <= watermark
            &&& c == children[next - 1]
            &&& c != 0
            &&& forall|k: int| cursor <= k < next - 1 ==> children[k] == 0
        },
        r is None ==> forall|k: int| cursor <= k < watermark ==> children[k] == 0,
{
    let mut i = cursor;
    while i < watermark
        invariant
            watermark <= children.len(),
            cursor <= i || i >= watermark,
            forall|k: int| cursor <= k < i ==> children[k] == 0,
        decreases watermark - i,
    {
        let c = children[i];
        i = i + 1;
        if c != 0 {
            return Some((c, i));
        }
    }
    None
}

proof fn lemma_nonzero_slots_skip_zeros(s: Seq<u32>, a: int, b: int)
    requires
        0 <= a <= b <= s.len(),
        forall|k: int| a <= k < b ==> s[k] == 0,
    ensures
        nonzero_slots(s.take(b)) == nonzero_slots(s.take(a)),
    decreases b - a,
{
    if a < b {
        lemma_nonzero_slots_skip_zeros(s, a, b - 1);
        assert(s.take(b).drop_last() =~= s.take(b - 1));
    }
}

/// The children a broadcast reaches when no handler changes the slots:
/// the non-empty slots below the watermark, in slot order.
pub fn broadcast_targets(children: &[u32], watermark: usize) -> (r: Vec<u32>)
    requires
        watermark <= children.len(),
    ensures
        r@ == nonzero_slots(children@.take(watermark as int)),
{
    let mut out: Vec<u32> = Vec::new();
    let mut cursor: usize = 0;
    assert(children@.take(0) =~= Seq::<u32>::empty());
    loop
        invariant
            watermark <= children.len(),
            cursor <= watermark,
            out@ == nonzero_slots(children@.take(cursor as int)),
        decreases watermark - cursor,
    {
        match broadcast_next(children, watermark, cursor) {
            Some((c, next)) => {
                proof {
                    lemma_nonzero_slots_skip_zeros(children@, cursor as int, next - 1);
                    assert(children@.take(next as int).drop_last() =~= children@.take(next - 1));
                }
                out.push(c);
                cursor = next;
            },
            None => {
                proof {
                    lemma_nonzero_slots_skip_zeros(children@, cursor as int, watermark as int);
                }
                return out;
            },
        }
    }
}

/// Most child slots read of one task while walking the tree.
pub const MAX_CHILD_SLOTS: usize = 4096;

/// The child slots of task `a` that a walk reads: at most the first 4096.
pub open spec fn capped_slots(nodes: Seq<TaskNode>, a: u32) -> Seq<u32> {
    let s = child_slots(nodes, a);
    if s.len() <= MAX_CHILD_SLOTS {
        s
    } else {
        s.take(MAX_CHILD_SLOTS as int)
    }
}

/// Whether `c` is a child of `p` for a walk: both non-empty, and `c` in a
/// slot of `p` that the walk reads.
pub open spec fn child_of(nodes: Seq<TaskNode>, p: u32, c: u32) -> bool {
    p != 0 && c != 0 && capped_slots(nodes, p).contains(c)
}

/// The tasks reachable from `root` in at most `n` child steps.
pub open spec fn reach_in(nodes: Seq<TaskNode>, root: u32, n: nat) -> Set<u32>
    decreases n,
{
    if n == 0 {
        set![root]
    } else {
        let prev = reach_in(nodes, root, (n - 1) as nat);
        Set::new(
            |c: u32|
                prev.contains(c) || exists|p: u32| #![trigger child_of(nodes, p, c)] prev.contains(p) && child_of(nodes, p, c),
        )
    }
}

/// Whether `x` is reachable from `root` through child slots.
pub open spec fn reachable(nodes: Seq<TaskNode>, root: u32, x: u32) -> bool {
    exists|n: nat| #[trigger] reach_in(nodes, root, n).contains(x)
}

/// Every value held in any child slot of the tree.
pub open spec fn all_slots(nodes: Seq<TaskNode>) -> Set<u32>
    decreases nodes.len(),
{
    if nodes.len() == 0 {
        Set::empty()
    } else {
        nodes[0].children@.to_set().union(all_slots(nodes.drop_first()))
    }
}

proof fn lemma_all_slots_finite(nodes: Seq<TaskNode>)
    ensures
        all_slots(nodes).finite(),
    decreases nodes.len(),
{
    if nodes.len() > 0 {
        lemma_all_slots_finite(nodes.drop_first());
        nodes[0].children@.lemma_cardinality_of_set();
    }
}

proof fn lemma_child_slots_in_all(nodes: Seq<TaskNode>, a: u32, x: u32)
    requires
        child_slots(nodes, a).contains(x),
    ensures
        all_slots(nodes).contains(x),
    decreases nodes.len(),
{
    if nodes.len() > 0 && nodes[0].addr != a {
        lemma_child_slots_in_all(nodes.drop_first(), a, x);
    }
}

proof fn lemma_nonzero_slots_contains(s: Seq<u32>, x: u32)
    ensures
        nonzero_slots(s).contains(x) <==> (x != 0 && s.contains(x)),
    decreases s.len(),
{
    if s.len() > 0 {
        lemma_nonzero_slots_contains(s.drop_last(), x);
        assert(s =~= s.drop_last().push(s.last()));
        if s.contains(x) && x != 0 && !s.drop_last().contains(x) {
            assert(s.last() == x);
        }
        if s.drop_last().contains(x) {
            let i = choose|i: int| 0 <= i < s.drop_last().len() && s.drop_last()[i] == x;
            assert(s[i] == x);
        }
        if nonzero_slots(s.drop_last()).contains(x) {
            let i = choose|i: int| 0 <= i < nonzero_slots(s.drop_last()).len() && nonzero_slots(s.drop_last())[i] == x;
            if s.last() != 0 {
                assert(nonzero_slots(s)[i] == x);
            }
        }
        if s.last() != 0 && s.last() == x {
            assert(nonzero_slots(s)[nonzero_slots(s).len() - 1] == x);
        }
    }
}

/// A set that holds `root` (when non-empty) and the children of each of
/// its members holds every non-empty task reachable from `root`.
proof fn lemma_closed_holds_reach(nodes: Seq<TaskNode>, root: u32, seen: Seq<u32>, n: nat, x: u32)
    requires
        root != 0 ==> seen.contains(root),
        forall|v: u32, c: u32| seen.contains(v) && #[trigger] child_of(nodes, v, c) ==> seen.contains(c),
        reach_in(nodes, root, n).contains(x),
        x != 0,
    ensures
        seen.contains(x),
    decreases n,
{
    if n > 0 {
        let prev = reach_in(nodes, root, (n - 1) as nat);
        if prev.contains(x) {
            lemma_closed_holds_reach(nodes, root, seen, (n - 1) as nat, x);
        } else {
            let p = choose|p: u32| #![trigger child_of(nodes, p, x)] prev.contains(p) && child_of(nodes, p, x);
            lemma_closed_holds_reach(nodes, root, seen, (n - 1) as nat, p);
        }
    }
}

fn seq_contains_u32(v: &Vec<u32>, x: u32) -> (r: bool)
    ensures
        r == v@.contains(x),
{
    let mut i: usize = 0;
    while i < v.len()
        invariant
            i <= v.len(),
            forall|k: int| 0 <= k < i ==> v@[k] != x,
        decreases v.len() - i,
    {
        if v[i] == x {
            return true;
        }
        i = i + 1;
    }
    false
}

impl TaskTree {
    /// The non-empty children of task `a` that a walk reads (its first
    /// 4096 slots), in slot order.
    pub fn walk_children(&self, a: u32) -> (r: Vec<u32>)
        ensures
            r@ == nonzero_slots(capped_slots(self.nodes@, a)),
    {
        let mut i: usize = 0;
        assert(self.nodes@.skip(0) =~= self.nodes@);
        while i < self.nodes.len()
            invariant
                i <= self.nodes@.len(),
                child_slots(self.nodes@, a) == child_slots(self.nodes@.skip(i as int), a),
            decreases self.nodes@.len() - i,
        {
            proof {
                assert(self.nodes@.skip(i as int).drop_first() =~= self.nodes@.skip(i + 1));
            }
            if self.nodes[i].addr == a {
                let slots = &self.nodes[i].children;
                let n = if slots.len() <= MAX_CHILD_SLOTS {
                    slots.len()
                } else {
                    MAX_CHILD_SLOTS
                };
                let mut out: Vec<u32> = Vec::new();
                let mut k: usize = 0;
                while k < n
                    invariant
                        n <= slots@.len(),
                        k <= n,
                        out@ == nonzero_slots(slots@.take(k as int)),
                    decreases n - k,
                {
                    proof {
                        assert(slots@.take(k + 1).drop_last() =~= slots@.take(k as int));
                    }
                    if slots[k] != 0 {
                        out.push(slots[k]);
                    }
                    k = k + 1;
                }
                proof {
                    if slots.len() <= MAX_CHILD_SLOTS {
                        assert(slots@.take(k as int) =~= slots@);
                    }
                }
                return out;
            }
            i = i + 1;
        }
        proof {
            assert(capped_slots(self.nodes@, a) =~= Seq::<u32>::empty());
            assert(nonzero_slots(Seq::<u32>::empty()) =~= Seq::<u32>::empty());
        }
        Vec::new()
    }
}

/// Every non-empty task reachable from `root` through child slots, each
/// once: a depth-first walk that takes the children of a task in slot
/// order onto a stack and skips tasks seen already.
pub fn collect_task_tree(tree: &TaskTree, root: u32) -> (r: Vec<u32>)
    ensures
        r@.no_duplicates(),
        forall|i: int| 0 <= i < r.len() ==> r[i] != 0 && reachable(tree.nodes@, root, #[trigger] r[i]),
        forall|x: u32| x != 0 && reachable(tree.nodes@, root, x) ==> r@.contains(x),
{
    let ghost nodes = tree.nodes@;
    let ghost univ = all_slots(nodes).insert(root);
    proof {
        lemma_all_slots_finite(nodes);
        assert(reach_in(nodes, root, 0).contains(root));
    }
    let mut out: Vec<u32> = Vec::new();
    let mut stack: Vec<u32> = Vec::new();
    stack.push(root);
    assert(stack@[0] == root);
    while stack.len() > 0
        invariant
            nodes == tree.nodes@,
            univ == all_slots(nodes).insert(root),
            univ.finite(),
            out@.no_duplicates(),
            forall|i: int| 0 <= i < out.len() ==> out[i] != 0 && univ.contains(#[trigger] out[i]),
            forall|i: int| 0 <= i < out.len() ==> reachable(nodes, root, #[trigger] out[i]),
            forall|i: int| 0 <= i < stack.len() ==> univ.contains(#[trigger] stack[i]),
            forall|i: int| 0 <= i < stack.len() ==> reachable(nodes, root, #[trigger] stack[i]),
            forall|v: u32, c: u32|
                out@.contains(v) && #[trigger] child_of(nodes, v, c) ==> out@.contains(c) || stack@.contains(c),
            root != 0 ==> out@.contains(root) || stack@.contains(root),
        decreases univ.len() - out.len(), stack.len(),
    {
        proof {
            out@.unique_seq_to_set();
            assert(out@.to_set().subset_of(univ));
            vstd::set_lib::lemma_len_subset(out@.to_set(), univ);
        }
        let ghost before_stack = stack@;
        let addr = stack.pop().unwrap();
        proof {
            assert(before_stack == stack@.push(addr));
            assert(before_stack[before_stack.len() - 1] == addr);
            assert forall|x: u32| before_stack.contains(x) implies stack@.contains(x) || x == addr by {
                let i = choose|i: int| 0 <= i < before_stack.len() && before_stack[i] == x;
                if i < stack.len() {
                    assert(stack@[i] == x);
                }
            }
            assert(root != 0 ==> out@.contains(root) || stack@.contains(root) || addr == root);
        }
        if addr == 0 || seq_contains_u32(&out, addr) {
            continue;
        }
        let ghost out_before = out@;
        out.push(addr);
        proof {
            assert(out@.to_set().subset_of(univ)) by {
                assert forall|x: u32| out@.to_set().contains(x) implies univ.contains(x) by {
                    let i = choose|i: int| 0 <= i < out.len() && out@[i] == x;
                    if i < out_before.len() {
                        assert(out_before[i] == x);
                    }
                }
            }
            out@.unique_seq_to_set();
            vstd::set_lib::lemma_len_subset(out@.to_set(), univ);
        }
        let kids = tree.walk_children(addr);
        let ghost n_addr = choose|n: nat| #[trigger] reach_in(nodes, root, n).contains(addr);
        let mut k: usize = 0;
        let ghost stack0 = stack@;
        while k < kids.len()
            invariant
                nodes == tree.nodes@,
                univ == all_slots(nodes).insert(root),
                addr != 0,
                reach_in(nodes, root, n_addr).contains(addr),
                kids@ == nonzero_slots(capped_slots(nodes, addr)),
                k <= kids.len(),
                stack@ == stack0 + kids@.take(k as int),
            decreases kids.len() - k,
        {
            stack.push(kids[k]);
            proof {
                assert(kids@.take(k + 1) =~= kids@.take(k as int).push(kids[k as int]));
            }
            k = k + 1;
        }
        proof {
            assert(kids@.take(k as int) =~= kids@);
            assert forall|c: u32| #[trigger] child_of(nodes, addr, c) implies kids@.contains(c) by {
                lemma_nonzero_slots_contains(capped_slots(nodes, addr), c);
            }
            assert forall|j: int| 0 <= j < kids.len() implies child_of(nodes, addr, #[trigger] kids@[j]) by {
                lemma_nonzero_slots_contains(capped_slots(nodes, addr), kids@[j]);
                assert(kids@.contains(kids@[j]));
            }
            assert forall|i: int| 0 <= i < stack.len() implies univ.contains(#[trigger] stack[i]) && reachable(
                nodes,
                root,
                stack[i],
            ) by {
                if i >= stack0.len() {
                    let j = i - stack0.len();
                    assert(stack[i] == kids@[j]);
                    let c = kids@[j];
                    assert(child_of(nodes, addr, c));
                    let cs = capped_slots(nodes, addr);
                    let q = choose|q: int| 0 <= q < cs.len() && cs[q] == c;
                    assert(child_slots(nodes, addr)[q] == c);
                    lemma_child_slots_in_all(nodes, addr, c);
                    assert(reach_in(nodes, root, n_addr + 1).contains(c));
                } else {
                    assert(stack[i] == stack0[i]);
                }
            }
            assert forall|v: u32, c: u32|
                out@.contains(v) && #[trigger] child_of(nodes, v, c) implies out@.contains(c) || stack@.contains(c) by {
                if v == addr {
                    assert(kids@.contains(c));
                    let j = choose|j: int| 0 <= j < kids.len() && kids@[j] == c;
                    assert(stack@[stack0.len() + j] == c);
                } else {
                    let i = choose|i: int| 0 <= i < out.len() && out@[i] == v;
                    assert(out_before[i] == v);
                    assert(out_before.contains(v));
                    if out_before.contains(c) {
                        let m = choose|m: int| 0 <= m < out_before.len() && out_before[m] == c;
                        assert(out@[m] == c);
                    } else if c == addr {
                        assert(out@[out.len() - 1] == c);
                    } else {
                        assert(before_stack.contains(c));
                        assert(stack0.contains(c));
                        let m = choose|m: int| 0 <= m < stack0.len() && stack0[m] == c;
                        assert(stack@[m] == c);
                    }
                }
            }
            if root != 0 && root != addr {
                if out_before.contains(root) {
                    let m = choose|m: int| 0 <= m < out_before.len() && out_before[m] == root;
                    assert(out@[m] == root);
                } else {
                    assert(stack0.contains(root));
                    let m = choose|m: int| 0 <= m < stack0.len() && stack0[m] == root;
                    assert(stack@[m] == root);
                }
            }
            if root == addr {
                assert(out@[out.len() - 1] == root);
            }
        }
    }
    proof {
        assert forall|x: u32| x != 0 && reachable(nodes, root, x) implies out@.contains(x) by {
            let n = choose|n: nat| #[trigger] reach_in(nodes, root, n).contains(x);
            lemma_closed_holds_reach(nodes, root, out@, n, x);
        }
    }
    out
}

/// The parent of task `a`: that of the first node with that address, or 0
/// when the tree has no such node.
pub open spec fn task_parent(nodes: Seq<TaskNode>, a: u32) -> u32
    decreases nodes.len(),
{
    if nodes.len() == 0 {
        0
    } else if nodes[0].addr == a {
        nodes[0].parent
    } else {
        task_parent(nodes.drop_first(), a)
    }
}

/// Where a walk up the parents from `cur` ends within `fuel` steps: the
/// first task without a parent, or nothing when the steps run out first.
pub open spec fn root_walk(nodes: Seq<TaskNode>, cur: u32, fuel: nat) -> Option<u32>
    decreases fuel,
{
    if fuel == 0 {
        None
    } else if task_parent(nodes, cur) == 0 {
        Some(cur)
    } else {
        root_walk(nodes, task_parent(nodes, cur), (fuel - 1) as nat)
    }
}

/// Most parent steps taken looking for the root task.
pub const MAX_ROOT_DEPTH: u32 = 64;

impl TaskTree {
    /// The parent of task `a` (0 for none or an unknown task).
    pub fn parent_of(&self, a: u32) -> (r: u32)
        ensures
            r == task_parent(self.nodes@, a),
    {
        let mut i: usize = 0;
        assert(self.nodes@.skip(0) =~= self.nodes@);
        while i < self.nodes.len()
            invariant
                i <= self.nodes@.len(),
                task_parent(self.nodes@, a) == task_parent(self.nodes@.skip(i as int), a),
            decreases self.nodes@.len() - i,
        {
            proof {
                assert(self.nodes@.skip(i as int).drop_first() =~= self.nodes@.skip(i + 1));
            }
            if self.nodes[i].addr == a {
                return self.nodes[i].parent;
            }
            i = i + 1;
        }
        0
    }
}

/// The root of the task tree, found by walking up the parents from
/// `start` (the landscape task): nothing for a null start, or when no
/// parentless task is met within 64 steps (a broken or cyclic chain).
pub fn find_root_task(tree: &TaskTree, start: u32) -> (r: Option<u32>)
    ensures
        r == (if start == 0 {
            None
        } else {
            root_walk(tree.nodes@, start, MAX_ROOT_DEPTH as nat)
        }),
{
    if start == 0 {
        return None;
    }
    let mut cur = start;
    let mut steps: u32 = 0;
    while steps < MAX_ROOT_DEPTH
        invariant
            start != 0,
            steps <= MAX_ROOT_DEPTH,
            root_walk(tree.nodes@, start, MAX_ROOT_DEPTH as nat) == root_walk(
                tree.nodes@,
                cur,
                (MAX_ROOT_DEPTH - steps) as nat,
            ),
        decreases MAX_ROOT_DEPTH - steps,
    {
        let p = tree.parent_of(cur);
        if p == 0 {
            return Some(cur);
        }
        cur = p;
        steps = steps + 1;
    }
    None
}

/// Every live task: the tasks reachable from the root found above the
/// landscape task `entity_land` (see `find_root_task`), each once; none
/// when no root is found.
pub fn collect_live_entities(tree: &TaskTree, entity_land: u32) -> (r: Vec<u32>)
    ensures
        match (if entity_land == 0 {
            None
        } else {
            root_walk(tree.nodes@, entity_land, MAX_ROOT_DEPTH as nat)
        }) {
            None => r@.len() == 0,
            Some(root) => {
                &&& r@.no_duplicates()
                &&& forall|i: int| 0 <= i < r.len() ==> r[i] != 0 && reachable(tree.nodes@, root, #[trigger] r[i])
                &&& forall|x: u32| x != 0 && reachable(tree.nodes@, root, x) ==> r@.contains(x)
            },
        },
{
    match find_root_task(tree, entity_land) {
        None => Vec::new(),
        Some(root) => collect_task_tree(tree, root),
    }
}

/// A breadth-first walk of the task tree: the tasks still to visit, in
/// order.
pub struct CTaskBfsIter {
    pub queue: std::collections::VecDeque<u32>,
}

impl CTaskBfsIter {
    /// A walk that starts at `root`.
    pub fn new(root: u32) -> (it: CTaskBfsIter)
        ensures
            it.queue@ == seq![root],
    {
        let mut queue: std::collections::VecDeque<u32> = std::collections::VecDeque::new();
        queue.push_back(root);
        CTaskBfsIter { queue }
    }

    /// The next task of the walk, whose non-empty child slots join the end
    /// of the queue, or `None` when the walk is over.
    pub fn next(&mut self, tree: &TaskTree) -> (r: Option<u32>)
        ensures
            match r {
                Some(t) => old(self).queue@.len() > 0 && t == old(self).queue@[0]
                    && final(self).queue@ == old(self).queue@.drop_first() + nonzero_slots(
                    child_slots(tree.nodes@, t),
                ),
                None => old(self).queue@.len() == 0 && final(self).queue@ == old(self).queue@,
            },
    {
        match self.queue.pop_front() {
            None => None,
            Some(t) => {
                let kids = tree.children_of(t);
                let ghost q0 = self.queue@;
                let mut k: usize = 0;
                while k < kids.len()
                    invariant
                        k <= kids@.len(),
                        self.queue@ == q0 + kids@.take(k as int),
                    decreases kids@.len() - k,
                {
                    self.queue.push_back(kids[k]);
                    proof {
                        assert(kids@.take(k + 1) =~= kids@.take(k as int).push(kids@[k as int]));
                    }
                    k = k + 1;
                }
                proof {
                    assert(kids@.take(k as int) =~= kids@);
                }
                Some(t)
            },
        }
    }
}

/// Worm state machine states.
///
/// CTaskWorm's `SetState` (vtable slot 14) transitions between these.
/// The state byte lives at CTaskWorm+0x44 (inside `base.subclass_data`).
/// Also stored in WormEntry.state in the TeamArenaState.
///
/// States 0x68..=0x8A are the "weapon/action active" range — checked by
/// `(state - 0x68) < 0x23` in HandleMessage. States 0x80+ are dying/dead.
/// Names are best guesses from behavioral observation and disassembly.
///
/// Source: CTaskWorm::HandleMessage (0x510B40) decompilation + weapon fire dispatch.
#[derive(Debug, Clone, Copy, PartialEq, Eq, Hash, Structural)]
pub enum WormState {
    /// Transitional state checked by CheckWormState0x64 (0x5228D0).
    /// Appears briefly during turn transitions.
    Transitional,
    /// Idle — not this worm's turn. Also used by MailMineMole to re-enter idle.
    Idle,
    /// Idle variant — grouped with 0x65/0x67 in HandleMessage switch cases.
    IdleVariant_Maybe,
    /// Active turn — this worm is currently being controlled.
    Active,
    /// Active variant — observed in WormEntry. Start of weapon/action range.
    ActiveVariant_Maybe,
    /// Blowtorch — using the blowtorch weapon.
    Blowtorch,
    /// Baseball Bat — swinging the baseball bat. Frequently checked in HandleMessage.
    BaseballBat,
    /// Kamikaze — performing kamikaze attack.
    Kamikaze,
    /// Dragon Ball — performing dragon ball attack.
    DragonBall,
    /// Scales of Justice — using scales of justice.
    ScalesOfJustice,
    /// Suicide Bomber — performing suicide bomber attack.
    SuicideBomber,
    /// Weapon charging — entered from aiming states (0x7B, 0x7C) before release.
    /// Also set by CheckPendingAction when field +0xBC is nonzero.
    WeaponCharging_Maybe,
    /// Teleport cancelled — teleport failed or was denied.
    TeleportCancelled_Maybe,
    /// Fire Punch — performing fire punch attack.
    FirePunch,
    /// Weapon selected — entered via SelectCursor (msg 0x24) from idle/active states.
    /// HandleMessage sets param[0xa7]=-1 when already in this state.
    WeaponSelected_Maybe,
    /// Weapon aimed — post-select state. Teleport check accepts this.
    /// Also used for Magic Bullet weapon fire.
    WeaponAimed_Maybe,
    /// Aiming with angle — entered for aimed weapons. Sets angle params.
    /// Teleport check accepts this. Transitions to 0x73 on fire.
    AimingAngle_Maybe,
    /// Rope swinging — IsNotOnRope checks `state != 0x7C`.
    /// Transitions to 0x73 on fire.
    RopeSwinging,
    /// Pre-fire variant — MailMineMole version check uses this.
    /// Transitions to 0x7E or 0x65 depending on FUN_004fb580.
    PreFire_Maybe,
    /// Post-fire / special movement — entered from 0x78 and 0x7D
    /// when FUN_004fb580 returns nonzero.
    PostFire_Maybe,
    /// Drowning — worm fell in water.
    Drowning,
    /// Hurt — worm took damage.
    Hurt,
    /// Dead variant 1.
    Dead1,
    /// Dying variant 1 — checked alongside 0x83 in HandleMessage.
    Dying1_Maybe,
    /// Dying variant 2 — checked alongside 0x82 in HandleMessage.
    Dying2_Maybe,
    /// Dead — set by Surrender (msg 0x29). Frequently checked in HandleMessage.
    Dead,
    /// Dead variant 3.
    Dead3,
    /// Unknown — grouped with idle states (0x65/0x66/0x67/0x8B) in HandleMessage.
    Unknown_0x88,
    /// Dying/special animation (from WormEntry state documentation).
    DyingAnimation_Maybe,
    /// Unknown state checked in CTaskTeam handlers.
    /// Grouped with idle states in HandleMessage switch cases.
    Unknown_0x8B,
}

/// The numeric code of each `WormState`.
pub open spec fn worm_state_code(x: WormState) -> u8 {
    match x {
        WormState::Transitional => 100u8,
        WormState::Idle => 101u8,
        WormState::IdleVariant_Maybe => 102u8,
        WormState::Active => 103u8,
        WormState::ActiveVariant_Maybe => 104u8,
        WormState::Blowtorch => 108u8,
        WormState::BaseballBat => 109u8,
        WormState::Kamikaze => 110u8,
        WormState::DragonBall => 112u8,
        WormState::ScalesOfJustice => 113u8,
        WormState::SuicideBomber => 114u8,
        WormState::WeaponCharging_Maybe => 115u8,
        WormState::TeleportCancelled_Maybe => 116u8,
        WormState::FirePunch => 117u8,
        WormState::WeaponSelected_Maybe => 119u8,
        WormState::WeaponAimed_Maybe => 120u8,
        WormState::AimingAngle_Maybe => 123u8,
        WormState::RopeSwinging => 124u8,
        WormState::PreFire_Maybe => 125u8,
        WormState::PostFire_Maybe => 126u8,
        WormState::Drowning => 127u8,
        WormState::Hurt => 128u8,
        WormState::Dead1 => 129u8,
        WormState::Dying1_Maybe => 130u8,
        WormState::Dying2_Maybe => 131u8,
        WormState::Dead => 134u8,
        WormState::Dead3 => 135u8,
        WormState::Unknown_0x88 => 136u8,
        WormState::DyingAnimation_Maybe => 137u8,
        WormState::Unknown_0x8B => 139u8,
    }
}

/// Whether `v` is the code of some `WormState`.
pub open spec fn worm_state_is_code(v: u8) -> bool {
    exists|x: WormState| #[trigger] worm_state_code(x) == v
}

/// The `WormState` with code `v` (meaningful where `worm_state_is_code(v)`).
pub open spec fn worm_state_of_code(v: u8) -> WormState {
    if v == 100u8 { WormState::Transitional } else 
    if v == 101u8 { WormState::Idle } else 
    if v == 102u8 { WormState::IdleVariant_Maybe } else 
    if v == 103u8 { WormState::Active } else 
    if v == 104u8 { WormState::ActiveVariant_Maybe } else 
    if v == 108u8 { WormState::Blowtorch } else 
    if v == 109u8 { WormState::BaseballBat } else 
    if v == 110u8 { WormState::Kamikaze } else 
    if v == 112u8 { WormState::DragonBall } else 
    if v == 113u8 { WormState::ScalesOfJustice } else 
    if v == 114u8 { WormState::SuicideBomber } else 
    if v == 115u8 { WormState::WeaponCharging_Maybe } else 
    if v == 116u8 { WormState::TeleportCancelled_Maybe } else 
    if v == 117u8 { WormState::FirePunch } else 
    if v == 119u8 { WormState::WeaponSelected_Maybe } else 
    if v == 120u8 { WormState::WeaponAimed_Maybe } else 
    if v == 123u8 { WormState::AimingAngle_Maybe } else 
    if v == 124u8 { WormState::RopeSwinging } else 
    if v == 125u8 { WormState::PreFire_Maybe } else 
    if v == 126u8 { WormState::PostFire_Maybe } else 
    if v == 127u8 { WormState::Drowning } else 
    if v == 128u8 { WormState::Hurt } else 
    if v == 129u8 { WormState::Dead1 } else 
    if v == 130u8 { WormState::Dying1_Maybe } else 
    if v == 131u8 { WormState::Dying2_Maybe } else 
    if v == 134u8 { WormState::Dead } else 
    if v == 135u8 { WormState::Dead3 } else 
    if v == 136u8 { WormState::Unknown_0x88 } else 
    if v == 137u8 { WormState::DyingAnimation_Maybe } else 
    { WormState::Unknown_0x8B }
}

impl WormState {
    /// Numeric code.
    pub fn code(self) -> (r: u8)
        ensures
            r == worm_state_code(self),
    {
        match self {
            WormState::Transitional => 100,
            WormState::Idle => 101,
            WormState::IdleVariant_Maybe => 102,
            WormState::Active => 103,
            WormState::ActiveVariant_Maybe => 104,
            WormState::Blowtorch => 108,
            WormState::BaseballBat => 109,
            WormState::Kamikaze => 110,
            WormState::DragonBall => 112,
            WormState::ScalesOfJustice => 113,
            WormState::SuicideBomber => 114,
            WormState::WeaponCharging_Maybe => 115,
            WormState::TeleportCancelled_Maybe => 116,
            WormState::FirePunch => 117,
            WormState::WeaponSelected_Maybe => 119,
            WormState::WeaponAimed_Maybe => 120,
            WormState::AimingAngle_Maybe => 123,
            WormState::RopeSwinging => 124,
            WormState::PreFire_Maybe => 125,
            WormState::PostFire_Maybe => 126,
            WormState::Drowning => 127,
            WormState::Hurt => 128,
            WormState::Dead1 => 129,
            WormState::Dying1_Maybe => 130,
            WormState::Dying2_Maybe => 131,
            WormState::Dead => 134,
            WormState::Dead3 => 135,
            WormState::Unknown_0x88 => 136,
            WormState::DyingAnimation_Maybe => 137,
            WormState::Unknown_0x8B => 139,
        }
    }
}

/// Decoding the code of a `WormState` gives it back.
pub proof fn lemma_worm_state_code_roundtrip(x: WormState)
    ensures
        worm_state_is_code(worm_state_code(x)),
        worm_state_of_code(worm_state_code(x)) == x,
{
}

} // verus!
