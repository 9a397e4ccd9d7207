//! The display's resource tables: which palette layers are set up, which
//! sprite and font ids are taken, and on which layer each lives.
//!
//! Loading a resource is split in steps: a check that decides whether to
//! load at all, the load itself (reading the archive into a new object),
//! and the registration of what was loaded.
use vstd::prelude::*;

use crate::display::{palette_slot_alloc, SpriteAnim, SLOT_TABLE_LEN};
use crate::palette::{palette_after, palette_context_init, update_palette, DisplayPalette, PaletteContext, widen_max, widen_min};

verus! {

/// Number of sprite ids (valid ids are `1..=0x3FF`).
pub const SPRITE_SLOTS: usize = 0x400;

/// Number of font slots (valid ids are `1..=31`).
pub const FONT_SLOTS: usize = 32;

/// Number of palette layers (layers `1..=3`).
pub const LAYER_COUNT: usize = 3;

/// Bit of a sprite id that marks it as loaded already.
pub const SPRITE_LOAD_ALREADY_DONE: u32 = 0x0080_0000;

/// Highest valid font id.
pub const MAX_FONT_ID: i32 = 31;

/// The display's resource tables. Layer `n` is at index `n - 1` of the
/// layer tables.
#[derive(Debug, Clone)]
pub struct DisplayRegistry {
    pub layer_contexts: Vec<Option<PaletteContext>>,
    pub layer_visibility: Vec<i32>,
    pub sprites: Vec<bool>,
    pub sprite_layers: Vec<u32>,
    pub banks: Vec<bool>,
    pub layer_sprites: Vec<bool>,
    pub fonts: Vec<bool>,
    pub font_layers: Vec<u32>,
}

/// What a load check decided: answer at once, or go on and load.
#[derive(Clone, Copy, PartialEq, Eq, Structural, Debug)]
pub enum LoadStep {
    Done(u32),
    Load,
}

/// Whether `layer` names a palette layer.
pub open spec fn valid_layer(layer: int) -> bool {
    1 <= layer <= 3
}

/// Whether `id` is a valid sprite id.
pub open spec fn valid_sprite_id(id: int) -> bool {
    1 <= id <= 0x3ff
}

/// Whether `id` is a valid font id.
pub open spec fn valid_font_id(id: int) -> bool {
    1 <= id <= MAX_FONT_ID
}

impl DisplayRegistry {
    /// The tables have their fixed sizes.
    pub open spec fn wf(&self) -> bool {
        &&& self.layer_contexts.len() == LAYER_COUNT
        &&& self.layer_visibility.len() == LAYER_COUNT
        &&& self.sprites.len() == SPRITE_SLOTS
        &&& self.sprite_layers.len() == SPRITE_SLOTS
        &&& self.banks.len() == SPRITE_SLOTS
        &&& self.layer_sprites.len() == SPRITE_SLOTS
        &&& self.fonts.len() == FONT_SLOTS
        &&& self.font_layers.len() == FONT_SLOTS
    }

    /// Whether sprite id `id` is taken in any of the sprite tables.
    pub open spec fn sprite_taken(&self, id: int) -> bool {
        self.sprites@[id] || self.banks@[id] || self.layer_sprites@[id]
    }

    /// Whether palette layer `layer` is set up.
    pub open spec fn has_context(&self, layer: int) -> bool {
        self.layer_contexts@[layer - 1] is Some
    }

    /// Empty tables: no layer set up, nothing loaded.
    pub fn new() -> (r: DisplayRegistry)
        ensures
            r.wf(),
            forall|l: int| 0 <= l < LAYER_COUNT ==> #[trigger] r.layer_contexts@[l] is None,
            forall|i: int| 0 <= i < SPRITE_SLOTS ==> !#[trigger] r.sprite_taken(i),
            forall|i: int| 0 <= i < FONT_SLOTS ==> !#[trigger] r.fonts@[i],
    {
        let mut layer_contexts: Vec<Option<PaletteContext>> = Vec::new();
        layer_contexts.push(None);
        layer_contexts.push(None);
        layer_contexts.push(None);
        DisplayRegistry {
            layer_contexts,
            layer_visibility: vec![0; LAYER_COUNT],
            sprites: vec![false; SPRITE_SLOTS],
            sprite_layers: vec![0; SPRITE_SLOTS],
            banks: vec![false; SPRITE_SLOTS],
            layer_sprites: vec![false; SPRITE_SLOTS],
            fonts: vec![false; FONT_SLOTS],
            font_layers: vec![0; FONT_SLOTS],
        }
    }
}

fn taken(reg: &DisplayRegistry, i: usize) -> (r: bool)
    requires
        reg.wf(),
        i < SPRITE_SLOTS,
    ensures
        r == reg.sprite_taken(i as int),
{
    reg.sprites[i] || reg.banks[i] || reg.layer_sprites[i]
}

/// The sprite slot a load request names: the low half of its id (the high
/// half carries the frame rounding mode).
pub open spec fn sprite_slot(id: u32) -> int {
    (id % 0x10000) as int
}

/// Whether sprite `id` on palette layer `layer` is to be loaded: ids
/// marked as loaded already answer 1; a layer outside `1..=3` or without
/// a palette, an invalid slot (low half of the id), or a slot taken
/// already answer 0.
pub fn load_sprite(reg: &DisplayRegistry, layer: u32, id: u32) -> (r: LoadStep)
    requires
        reg.wf(),
    ensures
        r == (if id & SPRITE_LOAD_ALREADY_DONE != 0 {
            LoadStep::Done(1)
        } else if !valid_layer(layer as int) || !reg.has_context(layer as int) || !valid_sprite_id(
            sprite_slot(id),
        ) || reg.sprite_taken(sprite_slot(id)) {
            LoadStep::Done(0)
        } else {
            LoadStep::Load
        }),
{
    if id & SPRITE_LOAD_ALREADY_DONE != 0 {
        return LoadStep::Done(1);
    }
    if layer < 1 || layer > 3 {
        return LoadStep::Done(0);
    }
    if reg.layer_contexts[(layer - 1) as usize].is_none() {
        return LoadStep::Done(0);
    }
    let slot = id % 0x10000;
    if slot < 1 || slot > 0x3ff {
        return LoadStep::Done(0);
    }
    if taken(reg, slot as usize) {
        return LoadStep::Done(0);
    }
    LoadStep::Load
}

/// Register a sprite that `load_sprite` let through, once its load has
/// run: 0 if the load failed (nothing changes), else 1, with the slot (low
/// half of `id`) taken on `layer` and the layer's use count raised. With
/// `flag`, the sprite's frame count is capped at the slot number (when
/// that is lower) and its rounding mode is the low byte of the id's high
/// half.
pub fn load_sprite_register(
    reg: &mut DisplayRegistry,
    layer: u32,
    id: u32,
    flag: u32,
    loaded: bool,
    sprite: &mut SpriteAnim,
) -> (r: u32)
    requires
        old(reg).wf(),
        valid_layer(layer as int),
        valid_sprite_id(sprite_slot(id)),
        old(reg).layer_visibility@[layer - 1] < i32::MAX,
    ensures
        final(reg).wf(),
        !loaded ==> r == 0 && *final(reg) == *old(reg) && *final(sprite) == *old(sprite),
        loaded ==> {
            &&& r == 1
            &&& final(reg).sprites@ == old(reg).sprites@.update(sprite_slot(id), true)
            &&& final(reg).sprite_layers@ == old(reg).sprite_layers@.update(sprite_slot(id), layer)
            &&& final(reg).layer_visibility@ == old(reg).layer_visibility@.update(
                layer - 1,
                (old(reg).layer_visibility@[layer - 1] + 1) as i32,
            )
            &&& final(reg).layer_contexts == old(reg).layer_contexts
            &&& final(reg).banks == old(reg).banks
            &&& final(reg).layer_sprites == old(reg).layer_sprites
            &&& final(reg).fonts == old(reg).fonts
            &&& final(reg).font_layers == old(reg).font_layers
            &&& *final(sprite) == (if flag != 0 {
                SpriteAnim {
                    max_frames: if sprite_slot(id) < old(sprite).max_frames {
                        sprite_slot(id) as u16
                    } else {
                        old(sprite).max_frames
                    },
                    frame_round_mode: ((id / 0x10000) % 0x100) as u8,
                    ..*old(sprite)
                }
            } else {
                *old(sprite)
            })
        },
{
    if !loaded {
        return 0;
    }
    let slot = id % 0x10000;
    let i = slot as usize;
    let l = (layer - 1) as usize;
    reg.sprites.set(i, true);
    reg.sprite_layers.set(i, layer);
    let v = reg.layer_visibility[l];
    reg.layer_visibility.set(l, v + 1);
    if flag != 0 {
        let id16 = slot as u16;
        if id16 != 0 && id16 < sprite.max_frames {
            sprite.max_frames = id16;
        }
        sprite.frame_round_mode = ((id / 0x10000) % 0x100) as u8;
    }
    1
}

/// Whether layer sprite `id` is to be loaded: ids marked as loaded
/// already, and ids taken already, answer 1; an invalid id answers 0.
pub fn load_sprite_by_layer(reg: &DisplayRegistry, id: u32) -> (r: LoadStep)
    requires
        reg.wf(),
    ensures
        r == (if id & SPRITE_LOAD_ALREADY_DONE != 0 {
            LoadStep::Done(1)
        } else if !valid_sprite_id(id as int) {
            LoadStep::Done(0)
        } else if reg.sprite_taken(id as int) {
            LoadStep::Done(1)
        } else {
            LoadStep::Load
        }),
{
    if id & SPRITE_LOAD_ALREADY_DONE != 0 {
        return LoadStep::Done(1);
    }
    if id < 1 || id > 0x3ff {
        return LoadStep::Done(0);
    }
    if taken(reg, id as usize) {
        return LoadStep::Done(1);
    }
    LoadStep::Load
}

/// Register a layer sprite that `load_sprite_by_layer` let through: 0 if
/// its load failed, else 1 with the id taken.
pub fn load_sprite_by_layer_register(reg: &mut DisplayRegistry, id: u32, loaded: bool) -> (r: u32)
    requires
        old(reg).wf(),
        valid_sprite_id(id as int),
    ensures
        final(reg).wf(),
        r == (if loaded {
            1u32
        } else {
            0u32
        }),
        final(reg).layer_sprites@ == (if loaded {
            old(reg).layer_sprites@.update(id as int, true)
        } else {
            old(reg).layer_sprites@
        }),
        final(reg).sprites == old(reg).sprites,
        final(reg).banks == old(reg).banks,
        final(reg).sprite_layers == old(reg).sprite_layers,
        final(reg).layer_contexts == old(reg).layer_contexts,
        final(reg).layer_visibility == old(reg).layer_visibility,
        final(reg).fonts == old(reg).fonts,
        final(reg).font_layers == old(reg).font_layers,
{
    if !loaded {
        return 0;
    }
    reg.layer_sprites.set(id as usize, true);
    1
}

/// Whether font `font_id` on palette layer `layer` is to be loaded: a
/// layer outside `1..=3` or without a palette, an invalid font id, or a
/// font id taken already answer 0.
pub fn load_font(reg: &DisplayRegistry, layer: u32, font_id: i32) -> (r: LoadStep)
    requires
        reg.wf(),
    ensures
        r == (if !valid_layer(layer as int) || !reg.has_context(layer as int) || !valid_font_id(
            font_id as int,
        ) || reg.fonts@[font_id as int] {
            LoadStep::Done(0)
        } else {
            LoadStep::Load
        }),
{
    if layer < 1 || layer > 3 {
        return LoadStep::Done(0);
    }
    if reg.layer_contexts[(layer - 1) as usize].is_none() {
        return LoadStep::Done(0);
    }
    if font_id < 1 || font_id > MAX_FONT_ID {
        return LoadStep::Done(0);
    }
    if reg.fonts[font_id as usize] {
        return LoadStep::Done(0);
    }
    LoadStep::Load
}

/// Register a font that `load_font` let through: 0 if its load failed,
/// else 1 with the font id taken on `layer` and the layer's use count
/// raised.
pub fn load_font_register(reg: &mut DisplayRegistry, layer: u32, font_id: i32, loaded: bool) -> (r: u32)
    requires
        old(reg).wf(),
        valid_layer(layer as int),
        valid_font_id(font_id as int),
        old(reg).layer_visibility@[layer - 1] < i32::MAX,
    ensures
        final(reg).wf(),
        !loaded ==> r == 0 && *final(reg) == *old(reg),
        loaded ==> {
            &&& r == 1
            &&& final(reg).fonts@ == old(reg).fonts@.update(font_id as int, true)
            &&& final(reg).font_layers@ == old(reg).font_layers@.update(font_id as int, layer)
            &&& final(reg).layer_visibility@ == old(reg).layer_visibility@.update(
                layer - 1,
                (old(reg).layer_visibility@[layer - 1] + 1) as i32,
            )
            &&& final(reg).layer_contexts == old(reg).layer_contexts
            &&& final(reg).sprites == old(reg).sprites
            &&& final(reg).sprite_layers == old(reg).sprite_layers
            &&& final(reg).banks == old(reg).banks
            &&& final(reg).layer_sprites == old(reg).layer_sprites
        },
{
    if !loaded {
        return 0;
    }
    let i = font_id as usize;
    let l = (layer - 1) as usize;
    reg.fonts.set(i, true);
    reg.font_layers.set(i, layer);
    let v = reg.layer_visibility[l];
    reg.layer_visibility.set(l, v + 1);
    1
}

/// Whether font `font_id` can take an extension: `None` for an invalid or
/// unloaded font; else the palette layer the font was loaded on, whose
/// context serves the extension's glyphs (the colour itself is looked up
/// on layer 1).
pub fn load_font_extension(reg: &DisplayRegistry, font_id: i32) -> (r: Option<u32>)
    requires
        reg.wf(),
    ensures
        r == (if valid_font_id(font_id as int) && reg.fonts@[font_id as int] {
            Some(reg.font_layers@[font_id as int])
        } else {
            None
        }),
{
    if font_id < 1 || font_id > MAX_FONT_ID {
        return None;
    }
    if !reg.fonts[font_id as usize] {
        return None;
    }
    Some(reg.font_layers[font_id as usize])
}

/// A fresh palette context: 256 free-stack, use-mark, cache and colour
/// entries, all zero.
fn blank_context() -> (r: PaletteContext)
    ensures
        r.free_stack.len() == 256,
        r.in_use.len() == 256,
        r.cache.len() == 256,
        r.rgb_table.len() == 256,
{
    PaletteContext {
        dirty_range_min: 0,
        dirty_range_max: 0,
        cache: vec![0; 256],
        cache_count: 0,
        cache_iter: 0,
        free_stack: vec![0; 256],
        free_count: 0,
        in_use: vec![0; 256],
        dirty: 0,
        rgb_table: vec![0; 256],
    }
}

/// Set up palette layer `layer` with `color` entries: unless the layer is
/// invalid or set up already, the first run of `color` free palette slots
/// is claimed (see `palette_slot_alloc`) and the layer gets a context over
/// them, starting at the run's start (-1 when no run was found), with its
/// use count cleared.
pub fn set_layer_color(reg: &mut DisplayRegistry, slot_table: &mut Vec<u32>, layer: i32, color: i32)
    requires
        old(reg).wf(),
        old(slot_table)@.len() == SLOT_TABLE_LEN,
        valid_layer(layer as int) ==> -32766 <= color <= 256,
    ensures
        final(reg).wf(),
        final(slot_table)@.len() == SLOT_TABLE_LEN,
        !valid_layer(layer as int) || old(reg).has_context(layer as int) ==> *final(reg) == *old(reg)
            && final(slot_table)@ == old(slot_table)@,
        valid_layer(layer as int) && !old(reg).has_context(layer as int) ==> {
            &&& final(reg).layer_contexts@[layer - 1] matches Some(ctx) && {
                &&& ctx.dirty_range_max - ctx.dirty_range_min + 1 == color
                &&& ctx.free_count == color
                &&& ctx.cache_count == 0
            }
            &&& final(reg).layer_visibility@ == old(reg).layer_visibility@.update(layer - 1, 0)
            &&& forall|l: int|
                0 <= l < LAYER_COUNT && l != layer - 1 ==> #[trigger] final(reg).layer_contexts@[l]
                    == old(reg).layer_contexts@[l]
            &&& final(reg).sprites == old(reg).sprites
            &&& final(reg).fonts == old(reg).fonts
        },
{
    if layer < 1 || layer > 3 {
        return;
    }
    let l = (layer - 1) as usize;
    if reg.layer_contexts[l].is_some() {
        return;
    }
    let start = palette_slot_alloc(slot_table, color);
    assert(-1 <= start <= SLOT_TABLE_LEN);
    let mut ctx = blank_context();
    palette_context_init(&mut ctx, start as i16, (start + color - 1) as i16);
    reg.layer_contexts.set(l, Some(ctx));
    reg.layer_visibility.set(l, 0);
}

/// The palette context of layer `layer`, if the layer is valid and set up.
pub fn set_active_layer(reg: &DisplayRegistry, layer: i32) -> (r: Option<&PaletteContext>)
    requires
        reg.wf(),
    ensures
        match r {
            Some(c) => valid_layer(layer as int) && reg.layer_contexts@[layer - 1] == Some(*c),
            None => !valid_layer(layer as int) || reg.layer_contexts@[layer - 1] is None,
        },
{
    if layer < 1 || layer > 3 {
        return None;
    }
    match &reg.layer_contexts[(layer - 1) as usize] {
        Some(c) => Some(c),
        None => None,
    }
}

/// Show or hide palette layer `layer`: a set-up layer copies its changed
/// colours into the display palette (see `update_palette`; a non-zero
/// `visible` commits them, and the range to push is returned); a negative
/// `visible` also clears the layer's use count. Nothing happens for an
/// invalid layer.
pub fn set_layer_visibility(reg: &mut DisplayRegistry, display: &mut DisplayPalette, layer: i32, visible: i32) -> (r:
    Option<(u32, u32)>)
    requires
        old(reg).wf(),
        old(display).entries.len() == 1024,
        valid_layer(layer as int) ==> (old(reg).layer_contexts@[layer - 1] matches Some(c) ==> c.rgb_table.len()
            == 256 && c.cache_count <= c.cache.len()),
    ensures
        final(reg).wf(),
        !valid_layer(layer as int) ==> *final(reg) == *old(reg) && *final(display) == *old(display) && r is None,
        valid_layer(layer as int) ==> {
            &&& final(reg).layer_visibility@ == (if visible < 0 {
                old(reg).layer_visibility@.update(layer - 1, 0)
            } else {
                old(reg).layer_visibility@
            })
            &&& match old(reg).layer_contexts@[layer - 1] {
                None => *final(display) == *old(display) && r is None,
                Some(c) => final(reg).layer_contexts@[layer - 1] matches Some(n) && n.cache == c.cache
                    && n.rgb_table == c.rgb_table && (c.cache_count <= 0 ==> *final(display) == *old(display)
                    && r is None) && (c.cache_count > 0 ==> {
                    let lo = widen_min(old(display).dirty_min, c.dirty_range_min);
                    let hi = widen_max(old(display).dirty_max, c.dirty_range_max);
                    &&& final(display).entries@ == palette_after(
                        old(display).entries@,
                        c.cache@,
                        c.cache_count as int,
                        c.rgb_table@,
                    )
                    &&& visible != 0 ==> r == Some((lo, hi)) && final(display).dirty_min == 0x100
                        && final(display).dirty_max == 0xFFFF_FFFF
                    &&& visible == 0 ==> r is None && final(display).dirty_min == lo && final(display).dirty_max
                        == hi
                }),
            }
            &&& forall|l: int|
                0 <= l < LAYER_COUNT && l != layer - 1 ==> #[trigger] final(reg).layer_contexts@[l]
                    == old(reg).layer_contexts@[l]
        },
{
    if layer < 1 || layer > 3 {
        return None;
    }
    let l = (layer - 1) as usize;
    let mut r: Option<(u32, u32)> = None;
    let taken = reg.layer_contexts[l].take();
    let ghost before_take = old(reg).layer_contexts@;
    match taken {
        Some(mut ctx) => {
            r = update_palette(display, &mut ctx, visible);
            reg.layer_contexts.set(l, Some(ctx));
        },
        None => {
            reg.layer_contexts.set(l, None);
        },
    }
    if visible < 0 {
        reg.layer_visibility.set(l, 0);
    }
    proof {
        assert forall|k: int| 0 <= k < LAYER_COUNT && k != l implies #[trigger] reg.layer_contexts@[k]
            == before_take[k] by {}
    }
    r
}

} // verus!
