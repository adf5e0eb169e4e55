//! The engine overlay: the host remembers the Tauri window the engine is laid
//! over and the preview panel's last geometry, so that the engine window can
//! be put back in place. The geometry is CSS pixels as `f64`; the library
//! only stores and returns it, so it holds each value by its bit pattern.
use vstd::prelude::*;

verus! {

/// A frame in screen coordinates, in whole pixels.
#[derive(Clone, Copy, Debug, PartialEq, Eq)]
pub struct OverlayFrame {
    pub x: i32,
    pub y: i32,
    pub width: i32,
    pub height: i32,
}

/// The Tauri window (by its native handle) and the panel's last geometry,
/// each coordinate by its `f64::to_bits` pattern.
#[derive(Clone, Copy, Debug, PartialEq, Eq)]
pub struct OverlayState {
    pub tauri_ns_window: usize,
    pub last_x: u64,
    pub last_y: u64,
    pub last_w: u64,
    pub last_h: u64,
}

/// The overlay: attached to a window, or not.
#[derive(Clone, Copy, Debug, PartialEq, Eq)]
pub struct Overlay {
    pub state: Option<OverlayState>,
}

/// The state right after attaching to `ns_window`: geometry all `0.0`
/// (whose bit pattern is 0).
pub open spec fn attached(ns_window: usize) -> OverlayState {
    OverlayState { tauri_ns_window: ns_window, last_x: 0, last_y: 0, last_w: 0, last_h: 0 }
}

/// The state after a geometry update: nothing while detached, otherwise the
/// new window and geometry.
pub open spec fn after_update(
    s: Option<OverlayState>,
    ns_window: usize,
    x: u64,
    y: u64,
    w: u64,
    h: u64,
) -> Option<OverlayState> {
    match s {
        None => None,
        Some(_) => Some(
            OverlayState { tauri_ns_window: ns_window, last_x: x, last_y: y, last_w: w, last_h: h },
        ),
    }
}

impl Overlay {
    /// A detached overlay.
    pub fn new() -> (r: Overlay)
        ensures
            r.state is None,
    {
        Overlay { state: None }
    }
}

/// Attaches the overlay to the Tauri window `tauri_ns_window`, with an
/// all-zero geometry (`embed_engine`).
pub fn embed_engine(overlay: &mut Overlay, tauri_ns_window: usize) -> (r: Result<(), String>)
    ensures
        r is Ok,
        final(overlay).state == Some(attached(tauri_ns_window)),
{
    overlay.state = Some(
        OverlayState { tauri_ns_window, last_x: 0, last_y: 0, last_w: 0, last_h: 0 },
    );
    Ok(())
}

/// Records the panel's new geometry and window (`update_engine_frame`);
/// gives back the state to place the engine from, none while detached.
/// The scale factor is not used.
pub fn update_engine_frame(
    overlay: &mut Overlay,
    tauri_ns_window: usize,
    x: u64,
    y: u64,
    w: u64,
    h: u64,
    _scale_factor: u64,
) -> (r: Result<Option<OverlayState>, String>)
    ensures
        final(overlay).state == after_update(old(overlay).state, tauri_ns_window, x, y, w, h),
        r == Ok::<Option<OverlayState>, String>(final(overlay).state),
{
    match overlay.state {
        None => Ok(None),
        Some(_) => {
            let s = OverlayState { tauri_ns_window, last_x: x, last_y: y, last_w: w, last_h: h };
            overlay.state = Some(s);
            Ok(Some(s))
        },
    }
}

/// The state to put the engine back in place from, none while detached
/// (`reposition_to_last`).
pub fn reposition_to_last(overlay: &Overlay) -> (r: Result<Option<OverlayState>, String>)
    ensures
        r == Ok::<Option<OverlayState>, String>(overlay.state),
{
    Ok(overlay.state)
}

/// Detaches the overlay (`detach_engine`).
pub fn detach_engine(overlay: &mut Overlay) -> (r: Result<(), String>)
    ensures
        r is Ok,
        final(overlay).state is None,
{
    overlay.state = None;
    Ok(())
}

/// An update while attached is what the next reposition reads back; an
/// update while detached leaves the overlay detached.
pub proof fn law_reposition_reads_last_update(
    s: Option<OverlayState>,
    ns_window: usize,
    x: u64,
    y: u64,
    w: u64,
    h: u64,
)
    ensures
        s is Some ==> after_update(s, ns_window, x, y, w, h) == Some(
            OverlayState { tauri_ns_window: ns_window, last_x: x, last_y: y, last_w: w, last_h: h },
        ),
        s is None ==> after_update(s, ns_window, x, y, w, h) is None,
{
}

} // verus!
