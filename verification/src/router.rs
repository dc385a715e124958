//! Pointer input router: converts pointer events into calls on the stroke
//! surface. Pointer-down begins a stroke, pointer-move extends it (a silent
//! no-op while none is active, by the surface's own policy), and pointer-up
//! ends it. Every move event is forwarded: no gating, debouncing or
//! coalescing happens here.

use crate::surface::{begin_model, end_model, extend_model, Surface, SurfaceModel};
use vstd::prelude::*;

verus! {

/// A pointer event, with surface-local coordinates where it has a position.
/// Pointer-up carries none: ending a stroke does not depend on where the
/// pointer was released.
#[derive(Clone, Copy, Debug)]
pub enum PointerEvent {
    Down(usize, usize),
    Move(usize, usize),
    Up,
}

/// Whether the event's coordinates (if any) lie on the surface. The router
/// receives surface-local coordinates, so this holds of every event the
/// host delivers for the drawing area.
pub open spec fn event_in_bounds(e: PointerEvent, s: SurfaceModel) -> bool {
    match e {
        PointerEvent::Down(x, y) => x < s.width && y < s.height,
        PointerEvent::Move(x, y) => x < s.width && y < s.height,
        PointerEvent::Up => true,
    }
}

/// The surface after one pointer event is routed: down begins a stroke, move
/// extends it, up ends it.
pub open spec fn route_model(s: SurfaceModel, e: PointerEvent) -> SurfaceModel {
    match e {
        PointerEvent::Down(x, y) => begin_model(s, x as int, y as int),
        PointerEvent::Move(x, y) => extend_model(s, x as int, y as int),
        PointerEvent::Up => end_model(s),
    }
}

/// The surface after a whole sequence of pointer events is routed, first
/// event first.
pub open spec fn route_all_model(s: SurfaceModel, events: Seq<PointerEvent>) -> SurfaceModel
    decreases events.len(),
{
    if events.len() == 0 {
        s
    } else {
        route_all_model(route_model(s, events[0]), events.drop_first())
    }
}

/// Routes one pointer event to the surface.
pub fn route(surface: &mut Surface, event: PointerEvent)
    requires
        old(surface)@.wf(),
        event_in_bounds(event, old(surface)@),
    ensures
        final(surface)@ == route_model(old(surface)@, event),
        final(surface)@.wf(),
{
    match event {
        PointerEvent::Down(x, y) => surface.begin_stroke(x, y),
        PointerEvent::Move(x, y) => surface.extend_stroke(x, y),
        PointerEvent::Up => surface.end_stroke(),
    }
}

} // verus!
