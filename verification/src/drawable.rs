use vstd::prelude::*;

use crate::canvas::{Displayable, PixelOp};
use crate::color::{random_color, Color};

verus! {

/// The uniform "draw yourself" capability every shape satisfies.
///
/// A shape's one draw emits `self.draw_ops(c)` onto the surface, where `c`
/// is the color chosen for the whole shape.  The default `color` picks that
/// color freshly at random on every call, so `draw` promises its emission
/// for some color rather than a particular one.
pub trait Drawable {
    /// The shapes a draw can handle: those whose derived coordinates all
    /// fit the surface's i32 coordinates.
    spec fn wf(&self) -> bool;

    /// The exact sequence of pixel-set calls one draw emits, given the
    /// color chosen for the shape.
    spec fn draw_ops(&self, color: Color) -> Seq<PixelOp>;

    fn draw<D: Displayable>(&self, image: &mut D)
        requires
            self.wf(),
        ensures
            exists|c: Color|
                final(image).pixels() == old(image).pixels() + self.draw_ops(c),
    ;

    /// The color a draw uses when the caller supplies none: a fresh
    /// uniformly random one per call.
    fn color(&self) -> Color {
        random_color()
    }
}

} // verus!
