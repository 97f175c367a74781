use vstd::prelude::*;

use crate::color::Color;

verus! {

/// One pixel-set call, as the specifications speak of it: an integer
/// coordinate pair together with the color it was set to.
pub ghost struct PixelOp {
    pub x: int,
    pub y: int,
    pub color: Color,
}

/// The surface capability: a single operation, "set the pixel at integer
/// coordinate (x, y) to the given color".  The surface is modeled by the
/// sequence of pixel-set calls made against it, oldest first; `display`
/// appends exactly one entry.  Out-of-bounds coordinates are the surface's
/// own business: the drawing code never validates them.
pub trait Displayable {
    /// The pixel-set calls received so far, oldest first.
    spec fn pixels(&self) -> Seq<PixelOp>;

    fn display(&mut self, x: i32, y: i32, color: Color)
        ensures
            final(self).pixels() == old(self).pixels().push(
                PixelOp { x: x as int, y: y as int, color },
            ),
    ;
}

/// A surface that records every pixel-set call in order, for replaying onto
/// an external image or for inspection in tests.
pub struct PixelBuffer {
    pub ops: Vec<(i32, i32, Color)>,
}

impl PixelBuffer {
    pub fn new() -> (buf: PixelBuffer)
        ensures
            buf.pixels() == Seq::<PixelOp>::empty(),
            buf.ops@.len() == 0,
    {
        let buf = PixelBuffer { ops: Vec::new() };
        proof {
            assert(buf.pixels() =~= Seq::<PixelOp>::empty());
        }
        buf
    }
}

impl Displayable for PixelBuffer {
    open spec fn pixels(&self) -> Seq<PixelOp> {
        self.ops@.map_values(
            |op: (i32, i32, Color)| PixelOp { x: op.0 as int, y: op.1 as int, color: op.2 },
        )
    }

    fn display(&mut self, x: i32, y: i32, color: Color) {
        self.ops.push((x, y, color));
        proof {
            assert(self.pixels() =~= old(self).pixels().push(
                PixelOp { x: x as int, y: y as int, color },
            ));
        }
    }
}

} // verus!
