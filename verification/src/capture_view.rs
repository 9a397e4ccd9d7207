//! The render-capture viewer's stepping state: whether frames are frozen
//! and stepped, how many queued commands a step replays, and whether the
//! viewer is open. Its two events are the freeze toggle and the arrival
//! of a capture; each returns the step limit to hand to the capture side
//! when it changes.
use vstd::prelude::*;

verus! {

/// The viewer's stepping state; `last_capture_len` is the number of
/// commands of the latest capture, if one arrived.
#[derive(Debug, Clone, Copy, PartialEq, Eq, Structural)]
pub struct StepView {
    pub step_mode: bool,
    pub step_limit: u32,
    pub show_capture_window: bool,
    pub last_capture_len: Option<u32>,
    pub selected_capture: Option<usize>,
}

/// The freeze toggle sets stepping to `on`. Turning it on opens the viewer
/// and, when a capture has arrived, replays all of its commands (the new
/// limit is returned); nothing else changes.
pub fn on_step_toggle(v: &mut StepView, on: bool) -> (limit: Option<u32>)
    ensures
        final(v).step_mode == on,
        final(v).last_capture_len == old(v).last_capture_len,
        final(v).selected_capture == old(v).selected_capture,
        (on && !old(v).step_mode) ==> {
            &&& final(v).show_capture_window
            &&& limit == old(v).last_capture_len
            &&& final(v).step_limit == match old(v).last_capture_len {
                Some(n) => n,
                None => old(v).step_limit,
            }
        },
        !(on && !old(v).step_mode) ==> limit is None && final(v).show_capture_window == old(
            v,
        ).show_capture_window && final(v).step_limit == old(v).step_limit,
{
    let was_on = v.step_mode;
    v.step_mode = on;
    if on && !was_on {
        v.show_capture_window = true;
        match v.last_capture_len {
            Some(n) => {
                v.step_limit = n;
                Some(n)
            },
            None => None,
        }
    } else {
        None
    }
}

/// A capture of `len` commands arrives. While stepping, a capture whose
/// size differs from the previous one resets the limit to all of its
/// commands (returned); when not stepping the viewer opens with no capture
/// selected. The capture becomes the latest.
pub fn on_capture(v: &mut StepView, len: u32) -> (limit: Option<u32>)
    ensures
        final(v).last_capture_len == Some(len),
        final(v).step_mode == old(v).step_mode,
        ({
            let changed = old(v).last_capture_len matches Some(prev) && prev != len;
            &&& (changed && old(v).step_mode) ==> limit == Some(len) && final(v).step_limit == len
            &&& !(changed && old(v).step_mode) ==> limit is None && final(v).step_limit == old(
                v,
            ).step_limit
        }),
        !old(v).step_mode ==> final(v).show_capture_window && final(v).selected_capture is None,
        old(v).step_mode ==> final(v).show_capture_window == old(v).show_capture_window
            && final(v).selected_capture == old(v).selected_capture,
{
    let changed = match v.last_capture_len {
        Some(prev) => prev != len,
        None => false,
    };
    let mut limit: Option<u32> = None;
    if changed && v.step_mode {
        v.step_limit = len;
        limit = Some(len);
    }
    if !v.step_mode {
        v.show_capture_window = true;
        v.selected_capture = None;
    }
    v.last_capture_len = Some(len);
    limit
}

} // verus!
