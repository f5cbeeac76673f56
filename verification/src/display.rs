//! A snapshot of the frame buffer, handed to the host for presentation.

use vstd::prelude::*;

verus! {

/// A copy of the 32x64 frame buffer taken for rendering.
pub struct Display {
    pub buff: [[bool; 64]; 32],
}

impl Display {
    /// Wrap a frame-buffer snapshot.
    pub fn new(display_buffer: [[bool; 64]; 32]) -> (d: Display)
        ensures
            d.buff == display_buffer,
    {
        Display { buff: display_buffer }
    }
}

} // verus!
