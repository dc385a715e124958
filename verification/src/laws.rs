//! Laws that relate the surface operations, the router and the sampler:
//! stated over the mathematical model and proved once for all inputs.

use crate::router::{route_all_model, route_model, PointerEvent};
use crate::sampler::sample_rep;
use crate::surface::{
    begin_model, covers, end_model, extend_model, init_model, stroke_byte, SurfaceModel,
};
use vstd::arithmetic::div_mod::lemma_fundamental_div_mod_converse;
use vstd::prelude::*;

verus! {

/// While no stroke is active, extending a stroke mutates no pixel and no
/// state at all, so pointer-move events outside a stroke leave the surface
/// exactly as it was — however many of them arrive.
pub proof fn lemma_inactive_extend_noop(s: SurfaceModel, x: int, y: int)
    requires
        !s.active,
    ensures
        extend_model(s, x, y) == s,
        route_model(s, PointerEvent::Move(x as usize, y as usize)) == s,
{
}

/// However many pointer-move events arrive while no stroke is active, the
/// surface stays exactly as it was: a whole sequence of moves routed in the
/// idle state mutates no pixel and no state.
pub proof fn lemma_idle_moves_never_mutate(s: SurfaceModel, events: Seq<PointerEvent>)
    requires
        !s.active,
        forall|i: int| 0 <= i < events.len() ==> (#[trigger] events[i]) is Move,
    ensures
        route_all_model(s, events) == s,
    decreases events.len(),
{
    if events.len() > 0 {
        assert(route_model(s, events[0]) == s);
        assert(forall|i: int|
            0 <= i < events.drop_first().len() ==> (#[trigger] events.drop_first()[i]) is Move);
        lemma_idle_moves_never_mutate(s, events.drop_first());
    }
}

/// After a stroke begins at `(x0, y0)` and extends to `(x1, y1)`, every
/// pixel covered by the segment between the two points carries the stroke
/// color (opaque black), every other pixel is unchanged, and the cursor
/// stands at `(x1, y1)` with the stroke still active.
pub proof fn lemma_begin_extend_renders_segment(
    s: SurfaceModel,
    x0: int,
    y0: int,
    x1: int,
    y1: int,
    px: int,
    py: int,
)
    requires
        s.wf(),
        0 <= x0 < s.width,
        0 <= y0 < s.height,
        0 <= x1 < s.width,
        0 <= y1 < s.height,
        0 <= px < s.width,
        0 <= py < s.height,
    ensures
        ({
            let after = extend_model(begin_model(s, x0, y0), x1, y1);
            let base = 4 * (py * s.width + px);
            &&& after.active
            &&& after.cursor_x == x1
            &&& after.cursor_y == y1
            &&& after.pixels.len() == s.pixels.len()
            &&& covers(x0, y0, x1, y1, px, py) ==> forall|c: int|
                0 <= c < 4 ==> #[trigger] after.pixels[base + c] == stroke_byte(c)
            &&& !covers(x0, y0, x1, y1, px, py) ==> forall|c: int|
                0 <= c < 4 ==> #[trigger] after.pixels[base + c] == s.pixels[base + c]
        }),
{
    let after = extend_model(begin_model(s, x0, y0), x1, y1);
    let w = s.width as int;
    let p = py * w + px;
    let base = 4 * p;
    assert(0 <= p && p < s.width * s.height && p * 4 + 3 < s.pixels.len()) by (nonlinear_arith)
        requires
            0 <= px < s.width,
            0 <= py < s.height,
            p == py * (s.width as int) + px,
            s.pixels.len() == 4 * s.width * s.height,
    ;
    assert forall|c: int| 0 <= c < 4 implies #[trigger] ((base + c) / 4) == p && (base + c) % 4
        == c && 0 <= base + c < s.pixels.len() by {
        lemma_fundamental_div_mod_converse(base + c, 4, p, c);
    }
    lemma_fundamental_div_mod_converse(p, w, py, px);
}

/// Ending a stroke always deactivates drawing, whatever the prior state, and
/// doing it twice is the same as doing it once.
pub proof fn lemma_end_stroke_idempotent(s: SurfaceModel)
    ensures
        end_model(s).active == false,
        end_model(end_model(s)) == end_model(s),
{
}

/// Sampling a freshly initialized surface of size `w` by `h` yields exactly
/// `w * h` elements, every one equal to the white background value.
pub proof fn lemma_sample_fresh(w: nat, h: nat)
    ensures
        sample_rep(init_model(w, h)).len() == w * h,
        forall|i: int|
            0 <= i < w * h ==> sample_rep(init_model(w, h))[i] == crate::surface::BACKGROUND,
{
    let wh = (w * h) as int;
    assert(4 * w * h == 4 * (w * h)) by (nonlinear_arith);
    vstd::arithmetic::div_mod::lemma_div_multiples_vanish(wh, 4);
    assert forall|i: int| 0 <= i < w * h implies sample_rep(init_model(w, h))[i]
        == crate::surface::BACKGROUND by {
        assert(0 <= 4 * i && 4 * i < 4 * wh);
    }
}

/// Sampling is pure with respect to the stroke state: the sample is a
/// function of the pixel buffer alone, and beginning or ending a stroke
/// touches no pixel, so neither changes what a sample returns. Two samples
/// with no intervening drawing are therefore equal.
pub proof fn lemma_sample_ignores_stroke_state(s: SurfaceModel, x: int, y: int)
    ensures
        sample_rep(begin_model(s, x, y)) == sample_rep(s),
        sample_rep(end_model(s)) == sample_rep(s),
{
}

} // verus!
