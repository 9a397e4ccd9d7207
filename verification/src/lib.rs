use vstd::prelude::*;

pub mod bit_grid;
pub mod bungee_trail;
pub mod bytes;
pub mod capture_view;
pub mod cp1252;
pub mod debug_cli;
pub mod debug_proto;
pub mod display;
pub mod draw;
pub mod fixed;
pub mod frame_cache;
pub mod font;
pub mod gfx_dir;
pub mod layer_sprite;
pub mod layout;
pub mod log;
pub mod names;
pub mod palette;
pub mod pixel_grid;
pub mod registry;
pub mod render_queue;
pub mod scheme;
pub mod scheme_laws;
pub mod snapshot;
pub mod spr;
pub mod sprite_blit;
pub mod sprite_op;
pub mod task;
pub mod tiled;
pub mod trig;
pub mod vec2;
pub mod vtable_layout;
pub mod weapon;
pub mod wgt;

verus! {

} // verus!
