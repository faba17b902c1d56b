pub mod ranges;
pub mod texture;
pub mod laws;

use vstd::prelude::*;
use vstd::std_specs::btree::spec_btree_keys_iter;
use vstd::std_specs::iter::IteratorSpec;
use std::collections::BTreeSet;
use crate::components::renderable::{Renderable, VertexRange};
use crate::context::Context;
use crate::context::generational::Slot;
use crate::entities::Entity;
use self::texture::TextureManager;
use self::ranges::{
    end_before, first_fit, is_first_fit, lemma_first_fit_unique, lemma_insert_first_fit,
    lemma_iter_lists_in_order, lemma_scan_result, lists_in_order, range_end, ranges_wf,
};

verus! {

broadcast use vstd::laws_cmp::group_laws_cmp;

/// Words (32-bit floats) per vertex: position, colour, translation, scale.
pub const VERTEX_SIZE: usize = 12;
pub const VERTS_PER_OBJECT: usize = 4;
pub const INDICES_PER_OBJECT: usize = 6;
/// Objects the buffers are sized for.
pub const NUM_OBJECTS: usize = 5120;
/// Vertices the vertex buffer holds.
pub const VERTEX_CAPACITY: usize = NUM_OBJECTS * VERTS_PER_OBJECT;
/// Indices the index buffer holds.
pub const INDEX_CAPACITY: usize = NUM_OBJECTS * VERTS_PER_OBJECT * 3;

/// What re-uploading one object writes: its quad at `vertex_range` and, where
/// it has one, its two triangles at `index_range`.
#[derive(Clone, Copy, Debug, PartialEq, Eq, Structural)]
pub struct Upload {
    pub vertex_range: VertexRange,
    pub index_range: Option<VertexRange>,
    pub x: u32,
    pub y: u32,
    pub z: u32,
    pub width: u32,
    pub height: u32,
}

/// The regions handed out so far from the vertex and the index buffer.
pub struct RangeState {
    pub vertex: Set<(usize, usize)>,
    pub index: Set<(usize, usize)>,
}

impl RangeState {
    pub open spec fn wf(self) -> bool {
        &&& ranges_wf(self.vertex)
        &&& ranges_wf(self.index)
        &&& forall|r: (usize, usize)| #[trigger] self.vertex.contains(r) ==> range_end(r) <= VERTEX_CAPACITY
        &&& forall|r: (usize, usize)| #[trigger] self.index.contains(r) ==> range_end(r) <= INDEX_CAPACITY
    }

    /// One object's part of a frame. A clean object is left alone. A dirty
    /// one gets regions on its first upload, by first-fit in each buffer, and
    /// stays dirty without them if either buffer has no room; then it is
    /// uploaded at its regions and marked clean.
    pub open spec fn step(self, r: Renderable) -> (RangeState, Renderable, Option<Upload>) {
        if !r.dirty {
            (self, r, None)
        } else if r.vertex_range is Some {
            let done = Renderable { dirty: false, ..r };
            (self, done, Some(upload_of(done)))
        } else {
            let pv = first_fit(self.vertex, VERTS_PER_OBJECT as int);
            let pi = first_fit(self.index, INDICES_PER_OBJECT as int);
            if pv + VERTS_PER_OBJECT <= VERTEX_CAPACITY && pi + INDICES_PER_OBJECT
                <= INDEX_CAPACITY {
                let vr = VertexRange { start: pv as usize, length: VERTS_PER_OBJECT };
                let ir = VertexRange { start: pi as usize, length: INDICES_PER_OBJECT };
                let done = Renderable {
                    dirty: false,
                    vertex_range: Some(vr),
                    index_range: Some(ir),
                    ..r
                };
                (
                    RangeState {
                        vertex: self.vertex.insert((vr.start, vr.length)),
                        index: self.index.insert((ir.start, ir.length)),
                    },
                    done,
                    Some(upload_of(done)),
                )
            } else {
                (self, r, None)
            }
        }
    }
}

/// The upload of a renderable that has its vertex region.
pub open spec fn upload_of(r: Renderable) -> Upload {
    Upload {
        vertex_range: r.vertex_range.unwrap(),
        index_range: r.index_range,
        x: r.x,
        y: r.y,
        z: r.z,
        width: r.width,
        height: r.height,
    }
}

/// Single-precision bit patterns of the constants in the vertex data.
pub const ZERO: u32 = 0x0000_0000;
pub const ONE: u32 = 0x3F80_0000;
pub const HALF: u32 = 0x3F00_0000;
pub const MINUS_HALF: u32 = 0xBF00_0000;

/// The words an upload writes at its vertex region: for each corner of the
/// unit quad (top left, top right, bottom left, bottom right) its position and
/// colour, then the object's translation and scale.
pub open spec fn vertex_words(u: Upload) -> Seq<u32> {
    let place = seq![u.x, u.y, u.z, u.width, u.height, ZERO];
    seq![MINUS_HALF, HALF, ZERO, ONE, ZERO, ZERO] + place + seq![HALF, HALF, ZERO, ZERO, ONE, ZERO]
        + place + seq![MINUS_HALF, MINUS_HALF, ZERO, ZERO, ZERO, ONE] + place + seq![
        HALF,
        MINUS_HALF,
        ZERO,
        ONE,
        ZERO,
        ZERO,
    ] + place
}

/// The indices an upload writes at its index region: the two triangles
/// `{0, 1, 2}` and `{1, 2, 3}` over the object's four vertices.
pub open spec fn index_words(u: Upload) -> Seq<u32> {
    let b = u.vertex_range.start as u32;
    seq![b, (b + 1) as u32, (b + 2) as u32, (b + 1) as u32, (b + 2) as u32, (b + 3) as u32]
}

/// The vertex data of an upload, `VERTEX_SIZE` words per vertex.
pub fn quad_vertices(u: &Upload) -> (v: Vec<u32>)
    ensures
        v@ == vertex_words(*u),
{
    let v = vec![
        MINUS_HALF, HALF, ZERO, ONE, ZERO, ZERO, u.x, u.y, u.z, u.width, u.height, ZERO,
        HALF, HALF, ZERO, ZERO, ONE, ZERO, u.x, u.y, u.z, u.width, u.height, ZERO,
        MINUS_HALF, MINUS_HALF, ZERO, ZERO, ZERO, ONE, u.x, u.y, u.z, u.width, u.height, ZERO,
        HALF, MINUS_HALF, ZERO, ONE, ZERO, ZERO, u.x, u.y, u.z, u.width, u.height, ZERO,
    ];
    assert(v@ =~= vertex_words(*u));
    v
}

/// The index data of an upload. Indices are 32 bits wide, so the object's
/// vertices must lie within their reach.
pub fn quad_indices(u: &Upload) -> (v: Vec<u32>)
    requires
        u.vertex_range.start + 3 <= u32::MAX,
    ensures
        v@ == index_words(*u),
{
    let b = u.vertex_range.start as u32;
    let v = vec![b, b + 1, b + 2, b + 1, b + 2, b + 3];
    assert(v@ =~= index_words(*u));
    v
}

/// The renderable held in a slot, if the slot holds an entity that has one.
pub open spec fn renderable_in(slot: Slot<Entity>) -> Option<Renderable> {
    match slot.value {
        Some(e) => e.renderable_spec(),
        None => None,
    }
}

impl RangeState {
    /// One slot's part of a frame: only a renderable changes.
    pub open spec fn slot_step(self, slot: Slot<Entity>) -> (RangeState, Slot<Entity>, Option<Upload>) {
        match slot.value {
            Some(e) => match e.renderable_spec() {
                Some(r) => {
                    let (st, done, u) = self.step(r);
                    (st, Slot { generation: slot.generation, value: Some(e.with_renderable(done)) }, u)
                },
                None => (self, slot, None),
            },
            None => (self, slot, None),
        }
    }

    /// A frame's pass over `slots`, in order: the regions handed out, the
    /// slots after it, and the uploads it makes.
    pub open spec fn pass(self, slots: Seq<Slot<Entity>>) -> (RangeState, Seq<Slot<Entity>>, Seq<Upload>)
        decreases slots.len(),
    {
        if slots.len() == 0 {
            (self, Seq::empty(), Seq::empty())
        } else {
            let (st, done, ups) = self.pass(slots.drop_last());
            let (st2, slot, u) = st.slot_step(slots.last());
            (
                st2,
                done.push(slot),
                match u {
                    Some(x) => ups.push(x),
                    None => ups,
                },
            )
        }
    }
}

/// One past the last index that a slot's renderable draws, as far as a `usize`
/// can count; zero without an index region.
pub open spec fn draw_end(slot: Slot<Entity>) -> int {
    match renderable_in(slot) {
        Some(r) => match r.index_range {
            Some(ir) => if ir.start + ir.length <= usize::MAX {
                ir.start + ir.length
            } else {
                usize::MAX as int
            },
            None => 0,
        },
        None => 0,
    }
}

/// The number of indices a draw must cover to reach every renderable in `slots`.
pub open spec fn draw_bound(slots: Seq<Slot<Entity>>) -> int
    decreases slots.len(),
{
    if slots.len() == 0 {
        0
    } else {
        let rest = draw_bound(slots.drop_last());
        let last = draw_end(slots.last());
        if rest >= last {
            rest
        } else {
            last
        }
    }
}

/// A renderable in slot `i` is still dirty.
pub open spec fn dirty_at(slots: Seq<Slot<Entity>>, i: int) -> bool {
    &&& 0 <= i < slots.len()
    &&& renderable_in(slots[i]) matches Some(r)
    &&& r.dirty
}

/// What a frame decided: the uploads, in slot order, and how many indices the
/// draw covers.
pub struct Frame {
    pub uploads: Vec<Upload>,
    pub max_index: usize,
    /// Some dirty renderable found no room in a buffer and was left as it was.
    pub exhausted: bool,
}

/// Keeps the vertex and index buffers in step with the renderables: hands out
/// buffer regions and decides what each frame re-uploads and draws.
pub struct System {
    vertex_ranges: BTreeSet<(usize, usize)>,
    index_ranges: BTreeSet<(usize, usize)>,
    vbo_size: usize,
    ebo_size: usize,
    texture_manager: TextureManager,
}

impl View for System {
    type V = RangeState;

    closed spec fn view(&self) -> RangeState {
        RangeState { vertex: self.vertex_ranges@, index: self.index_ranges@ }
    }
}

impl System {
    pub closed spec fn wf(&self) -> bool {
        &&& self@.wf()
        &&& self.vbo_size == VERTEX_CAPACITY * VERTEX_SIZE
        &&& self.ebo_size == INDEX_CAPACITY
    }

    pub fn new() -> (s: System)
        ensures
            s.wf(),
            s@.wf(),
            s@.vertex.is_empty(),
            s@.index.is_empty(),
            s.textures().wf(),
            s.textures()@.len() == 0,
    {
        System {
            vertex_ranges: BTreeSet::new(),
            index_ranges: BTreeSet::new(),
            vbo_size: VERTEX_CAPACITY * VERTEX_SIZE,
            ebo_size: INDEX_CAPACITY,
            texture_manager: TextureManager::new(),
        }
    }

    /// The texture arrays and their pending uploads.
    pub closed spec fn textures(&self) -> TextureManager {
        self.texture_manager
    }

    pub fn texture_manager(&mut self) -> (m: &mut TextureManager)
        requires
            old(self).wf(),
        ensures
            *m == old(self).textures(),
            final(self).textures() == *final(m),
            final(self)@ == old(self)@,
            final(self).wf(),
    {
        &mut self.texture_manager
    }

    /// Size of the vertex buffer, in words.
    pub fn vbo_size(&self) -> (n: usize)
        requires
            self.wf(),
        ensures
            n == VERTEX_CAPACITY * VERTEX_SIZE,
    {
        self.vbo_size
    }

    /// Size of the index buffer, in indices.
    pub fn ebo_size(&self) -> (n: usize)
        requires
            self.wf(),
        ensures
            n == INDEX_CAPACITY,
    {
        self.ebo_size
    }

    /// Finds where a region of `size` elements goes among `ranges`, scanning them
    /// by increasing start: the first gap wider than `size`, else the end of the
    /// last region.
    pub fn find_free_range(&self, ranges: &BTreeSet<(usize, usize)>, size: usize) -> (r: VertexRange)
        requires
            ranges_wf(ranges@),
        ensures
            r.length == size,
            is_first_fit(ranges@, size as int, r.start as int),
    {
        let ghost s = spec_btree_keys_iter(ranges).remaining().unref();
        proof {
            lemma_iter_lists_in_order(ranges);
        }
        let mut first_free_index: usize = 0;
        let ghost mut stop: int = s.len() as int;
        for range in it: ranges.iter()
            invariant_except_break
                stop == s.len(),
                first_free_index == end_before(s, it.index()),
                forall|j: int| 0 <= j < it.index() ==> #[trigger] s[j].0 <= end_before(s, j) + size,
            invariant
                it.seq().unref() == s,
                ranges_wf(ranges@),
                lists_in_order(ranges@, s),
            ensures
                0 <= stop <= s.len(),
                first_free_index == end_before(s, stop),
                forall|j: int| 0 <= j < stop ==> #[trigger] s[j].0 <= end_before(s, j) + size,
                stop < s.len() ==> s[stop].0 > end_before(s, stop) + size,
        {
            let ghost k = it.index();
            proof {
                assert(*range == s[k]);
                assert(ranges@.contains(s[k]));
                if k > 0 {
                    assert(range_end(s[k - 1]) <= s[k].0);
                }
            }
            if range.0 - first_free_index > size {
                proof {
                    stop = k;
                }
                break;
            }
            first_free_index = range.0 + range.1;
        }
        proof {
            lemma_scan_result(ranges@, s, size as int, stop);
        }
        VertexRange { start: first_free_index, length: size }
    }

    /// The per-frame pass: visits every slot of the store in order, uploads
    /// each dirty renderable (giving it buffer regions on its first upload),
    /// marks it clean, and works out how many indices the draw covers.
    pub fn apply(&mut self, context: &mut Context) -> (f: Frame)
        requires
            old(self).wf(),
            old(context).entities.wf(),
        ensures
            final(self).wf(),
            final(self)@.wf(),
            final(self).textures() == old(self).textures(),
            final(context).entities.wf(),
            final(context).clock == old(context).clock,
            final(context).screen == old(context).screen,
            final(context).entities@.free == old(context).entities@.free,
            final(context).entities@.generation == old(context).entities@.generation,
            (final(self)@, final(context).entities@.slots, f.uploads@) == old(self)@.pass(
                old(context).entities@.slots,
            ),
            f.max_index == draw_bound(final(context).entities@.slots),
            f.exhausted == exists|i: int| dirty_at(final(context).entities@.slots, i),
    {
        let ghost st0 = self@;
        let ghost slots0 = context.entities@.slots;
        let entities = &mut context.entities;
        let mut uploads: Vec<Upload> = Vec::new();
        let mut max_index: usize = 0;
        let mut exhausted = false;
        let n = entities.raw_len();
        let mut i: usize = 0;
        while i < n
            invariant
                0 <= i <= n,
                n == slots0.len(),
                self.wf(),
                self.textures() == old(self).textures(),
                entities.wf(),
                entities@.free == old(context).entities@.free,
                entities@.generation == old(context).entities@.generation,
                entities@.slots.len() == n,
                (self@, entities@.slots.take(i as int), uploads@) == st0.pass(slots0.take(i as int)),
                forall|j: int| i <= j < n ==> entities@.slots[j] == slots0[j],
                max_index == draw_bound(entities@.slots.take(i as int)),
                exhausted == exists|j: int| 0 <= j < i && dirty_at(entities@.slots, j),
            decreases n - i,
        {
            proof {
                assert(slots0.take(i + 1).drop_last() =~= slots0.take(i as int));
            }
            let ghost before = entities@.slots;
            let ghost mut seen: Option<Renderable> = None;
            match entities.get_raw(i) {
                Some(entity) => match entity.get_component(Renderable::name()) {
                    Some(renderable) => {
                        let u = self.render(renderable);
                        if let Some(up) = u {
                            uploads.push(up);
                        }
                        if renderable.dirty {
                            exhausted = true;
                        }
                        if let Some(ir) = renderable.index_range {
                            let end = ir.start.saturating_add(ir.length);
                            if end > max_index {
                                max_index = end;
                            }
                        }
                        proof {
                            seen = Some(*renderable);
                        }
                    },
                    None => {},
                },
                None => {},
            }
            proof {
                let now = entities@.slots;
                assert(renderable_in(now[i as int]) == seen);
                assert(now.take(i as int) =~= before.take(i as int));
                assert(now.take(i + 1).drop_last() =~= now.take(i as int));
                assert(now.take(i + 1).last() == now[i as int]);
                assert forall|j: int| 0 <= j < i implies dirty_at(now, j) == dirty_at(before, j) by {
                    assert(now[j] == now.take(i as int)[j]);
                    assert(before[j] == before.take(i as int)[j]);
                }
                assert(dirty_at(now, i as int) == (seen matches Some(r) && r.dirty));
                if dirty_at(now, i as int) {
                    assert(exhausted);
                } else {
                    assert((exists|j: int| 0 <= j < i + 1 && dirty_at(now, j)) ==> exists|j: int|
                        0 <= j < i && dirty_at(before, j));
                }
            }
            i = i + 1;
        }
        proof {
            assert(entities@.slots.take(n as int) =~= entities@.slots);
            assert(slots0.take(n as int) =~= slots0);
        }
        Frame { uploads, max_index, exhausted }
    }

    /// Gives `renderable` a vertex region and an index region by first-fit;
    /// gives it nothing and returns false if either buffer lacks room.
    fn assign_vertex_range(&mut self, renderable: &mut Renderable) -> (placed: bool)
        requires
            old(self).wf(),
        ensures
            final(self).wf(),
            final(self).textures() == old(self).textures(),
            ({
                let pv = first_fit(old(self)@.vertex, VERTS_PER_OBJECT as int);
                let pi = first_fit(old(self)@.index, INDICES_PER_OBJECT as int);
                &&& placed == (pv + VERTS_PER_OBJECT <= VERTEX_CAPACITY && pi
                    + INDICES_PER_OBJECT <= INDEX_CAPACITY)
                &&& placed ==> {
                    let vr = VertexRange { start: pv as usize, length: VERTS_PER_OBJECT };
                    let ir = VertexRange { start: pi as usize, length: INDICES_PER_OBJECT };
                    &&& *final(renderable) == Renderable {
                        vertex_range: Some(vr),
                        index_range: Some(ir),
                        ..*old(renderable)
                    }
                    &&& final(self)@ == RangeState {
                        vertex: old(self)@.vertex.insert((vr.start, vr.length)),
                        index: old(self)@.index.insert((ir.start, ir.length)),
                    }
                }
                &&& !placed ==> *final(renderable) == *old(renderable) && final(self)@ == old(self)@
            }),
    {
        let vertex_range = self.find_free_range(&self.vertex_ranges, VERTS_PER_OBJECT);
        let index_range = self.find_free_range(&self.index_ranges, INDICES_PER_OBJECT);
        proof {
            lemma_first_fit_unique(self@.vertex, VERTS_PER_OBJECT as int, vertex_range.start as int);
            lemma_first_fit_unique(self@.index, INDICES_PER_OBJECT as int, index_range.start as int);
        }
        if vertex_range.start > VERTEX_CAPACITY - VERTS_PER_OBJECT || index_range.start
            > INDEX_CAPACITY - INDICES_PER_OBJECT {
            return false;
        }
        proof {
            lemma_insert_first_fit(self@.vertex, VERTS_PER_OBJECT as int, vertex_range.start as int);
            lemma_insert_first_fit(self@.index, INDICES_PER_OBJECT as int, index_range.start as int);
        }
        renderable.vertex_range = Some(vertex_range);
        renderable.index_range = Some(index_range);
        self.vertex_ranges.insert((vertex_range.start, vertex_range.length));
        self.index_ranges.insert((index_range.start, index_range.length));
        true
    }

    /// One object's part of a frame (see [`RangeState::step`]).
    fn render(&mut self, renderable: &mut Renderable) -> (u: Option<Upload>)
        requires
            old(self).wf(),
        ensures
            final(self).wf(),
            final(self).textures() == old(self).textures(),
            (final(self)@, *final(renderable), u) == old(self)@.step(*old(renderable)),
    {
        if !renderable.dirty {
            return None;
        }
        if renderable.vertex_range.is_none() {
            if !self.assign_vertex_range(renderable) {
                return None;
            }
        }
        renderable.dirty = false;
        match renderable.vertex_range {
            Some(vertex_range) => Some(
                Upload {
                    vertex_range,
                    index_range: renderable.index_range,
                    x: renderable.x,
                    y: renderable.y,
                    z: renderable.z,
                    width: renderable.width,
                    height: renderable.height,
                },
            ),
            None => None,
        }
    }
}

} // verus!
