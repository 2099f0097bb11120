//! What the machine asks of a screen.

use vstd::prelude::*;

verus! {

/// Whether every entry of a pixel buffer is 0 or 1.
pub open spec fn is_monochrome(pixels: Seq<u8>) -> bool {
    forall|p: int| 0 <= p < pixels.len() ==> #[trigger] pixels[p] <= 1
}

/// A backend that shows the machine's 64 by 32 screen.
pub trait Display {
    /// Blanks the output.
    fn clear(&mut self);

    /// Takes the whole current pixel buffer, row after row. The machine
    /// only ever hands over entries that are 0 or 1.
    fn draw(&mut self, pixels: [u8; 2048])
        requires
            is_monochrome(pixels@),
    ;
}

} // verus!
