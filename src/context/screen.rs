use vstd::prelude::*;

verus! {

/// Size of the drawing surface, in pixels.
pub struct Screen {
    pub width: u32,
    pub height: u32,
}

impl Screen {
    pub fn new() -> (s: Screen)
        ensures
            s.width == 0 && s.height == 0,
    {
        Screen { width: 0, height: 0 }
    }

    pub fn set_dimensions(&mut self, width: u32, height: u32)
        ensures
            final(self).width == width,
            final(self).height == height,
    {
        self.width = width;
        self.height = height;
    }
}

} // verus!
