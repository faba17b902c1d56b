use vstd::prelude::*;
use crate::components::Component;

verus! {

/// A region `[start, start + length)` of a buffer, in elements.
#[derive(Clone, Copy, Debug, PartialEq, Eq, Structural)]
pub struct VertexRange {
    pub start: usize,
    pub length: usize,
}

/// Per-object drawing state. Position and size are IEEE-754 single-precision
/// values held as their bit patterns: this crate only carries them to the
/// vertex buffer and never computes with them.
#[derive(Clone, Copy, Debug, PartialEq, Eq, Structural)]
pub struct Renderable {
    /// Set whenever the position or size changed since the last upload.
    pub dirty: bool,
    /// Where the object's four vertices live in the vertex buffer, once assigned.
    pub vertex_range: Option<VertexRange>,
    /// Where the object's six indices live in the index buffer, once assigned.
    pub index_range: Option<VertexRange>,
    pub x: u32,
    pub y: u32,
    pub z: u32,
    pub width: u32,
    pub height: u32,
}

/// The name under which an entity holds its renderable.
pub const RENDERABLE_NAME: &'static str = "renderable";

impl Component for Renderable {
    fn name(&self) -> &'static str {
        Renderable::name()
    }
}

impl Renderable {
    /// The name under which an entity holds its renderable.
    pub fn name() -> (r: &'static str)
        ensures
            r == RENDERABLE_NAME,
    {
        RENDERABLE_NAME
    }

    /// A renderable at the origin with zero size, not yet uploaded.
    pub fn new() -> (r: Box<Renderable>)
        ensures
            r.dirty,
            r.vertex_range is None,
            r.index_range is None,
            r.x == 0 && r.y == 0 && r.z == 0 && r.width == 0 && r.height == 0,
    {
        Box::new(
            Renderable {
                dirty: true,
                vertex_range: None,
                index_range: None,
                x: 0,
                y: 0,
                z: 0,
                width: 0,
                height: 0,
            },
        )
    }

    pub open spec fn moved(self, x: u32, y: u32, z: u32) -> Renderable {
        Renderable { x, y, z, dirty: true, ..self }
    }

    pub open spec fn resized(self, width: u32, height: u32) -> Renderable {
        Renderable { width, height, dirty: true, ..self }
    }

    pub fn set_position(&mut self, x: u32, y: u32, z: u32)
        ensures
            *final(self) == old(self).moved(x, y, z),
    {
        self.x = x;
        self.y = y;
        self.z = z;
        self.dirty = true;
    }

    pub fn set_size(&mut self, width: u32, height: u32)
        ensures
            *final(self) == old(self).resized(width, height),
    {
        self.width = width;
        self.height = height;
        self.dirty = true;
    }
}

} // verus!
