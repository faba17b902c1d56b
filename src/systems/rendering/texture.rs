use vstd::prelude::*;
use vstd::std_specs::btree::{increasing_seq, spec_btree_keys_iter};
use vstd::std_specs::iter::IteratorSpec;
use vstd::std_specs::cmp::OrdSpec;
use vstd::laws_cmp::obeys_cmp;
use std::collections::BTreeSet;

verus! {

broadcast use vstd::laws_cmp::group_laws_cmp;

/// Layers in each texture array.
pub const NUM_TEXTURES_PER_SET: i32 = 512;

/// `n` is the lowest layer not in `used`.
pub open spec fn is_first_missing(used: Set<i32>, n: int) -> bool {
    &&& 0 <= n
    &&& !used.contains(n as i32)
    &&& forall|m: i32| 0 <= m < n ==> #[trigger] used.contains(m)
}

/// Where a texture lives: its group and its layer in that group's array.
#[derive(Clone, Copy, Debug, PartialEq, Eq, Structural)]
pub struct TextureId {
    pub group: usize,
    pub index: i32,
}

/// Pixels waiting to be copied into layer `index` of their group's array.
pub struct PendingTexture {
    pub index: i32,
    pub texture: Box<[u8]>,
}

/// A texture array of fixed size whose layers are handed out first-fit.
pub struct TextureGroup {
    /// The device texture, 0 until it is created.
    pub handle: u32,
    pub max_size: i32,
    pub width: i32,
    pub height: i32,
    pub pending_textures: Vec<PendingTexture>,
    /// The layers handed out.
    pub used_indices: BTreeSet<i32>,
}

impl TextureGroup {
    pub open spec fn used(&self) -> Set<i32> {
        self.used_indices@
    }

    pub open spec fn wf(&self) -> bool {
        &&& self.used().finite()
        &&& forall|i: i32| #[trigger] self.used().contains(i) ==> 0 <= i < i32::MAX
    }

    pub fn new(width: i32, height: i32) -> (g: TextureGroup)
        ensures
            g.wf(),
            g.used().is_empty(),
            g.handle == 0,
            g.max_size == NUM_TEXTURES_PER_SET,
            g.width == width,
            g.height == height,
            g.pending_textures@.len() == 0,
    {
        TextureGroup {
            handle: 0,
            max_size: NUM_TEXTURES_PER_SET,
            width,
            height,
            used_indices: BTreeSet::new(),
            pending_textures: Vec::new(),
        }
    }

    /// The lowest layer not yet handed out.
    fn first_free_index(&self) -> (n: i32)
        requires
            self.wf(),
        ensures
            is_first_missing(self.used(), n as int),
    {
        let ghost rem = spec_btree_keys_iter(&self.used_indices).remaining();
        let ghost s = rem.unref();
        proof {
            assert(s.to_set() == self.used());
            assert(obeys_cmp::<i32>());
            assert(obeys_cmp::<&i32>());
            assert(increasing_seq(rem));
            assert forall|i: int, j: int| 0 <= i < j < s.len() implies s[i] < s[j] by {
                assert(<&i32 as OrdSpec>::cmp_spec(&rem[i], &rem[j]) is Less);
            }
            assert forall|i: int| 0 <= i < s.len() implies #[trigger] self.used().contains(s[i]) by {
                assert(s.to_set().contains(s[i]));
            }
        }
        let mut last_index: i32 = -1;
        let ghost mut stop: int = s.len() as int;
        for i in it: self.used_indices.iter()
            invariant_except_break
                stop == s.len(),
                last_index == it.index() - 1,
                forall|j: int| 0 <= j < it.index() ==> #[trigger] s[j] == j,
            invariant
                it.seq().unref() == s,
                self.wf(),
                s.to_set() == self.used(),
                forall|i: int, j: int| 0 <= i < j < s.len() ==> s[i] < s[j],
                forall|i: int| 0 <= i < s.len() ==> #[trigger] self.used().contains(s[i]),
            ensures
                0 <= stop <= s.len(),
                last_index == stop - 1,
                forall|j: int| 0 <= j < stop ==> #[trigger] s[j] == j,
                stop < s.len() ==> s[stop] > stop,
        {
            let ghost k = it.index();
            proof {
                assert(*i == s[k]);
                assert(self.used().contains(s[k]));
                if k > 0 {
                    assert(s[k - 1] < s[k]);
                }
            }
            if *i > last_index + 1 {
                proof {
                    stop = k;
                }
                break;
            }
            last_index = *i;
        }
        proof {
            let n = stop;
            if n > 0 {
                assert(s[n - 1] == n - 1);
                assert(self.used().contains(s[n - 1]));
            }
            assert forall|m: i32| 0 <= m < n implies #[trigger] self.used().contains(m) by {
                assert(s[m as int] == m);
            }
            assert(!self.used().contains(n as i32)) by {
                if self.used().contains(n as i32) {
                    assert(s.to_set().contains(n as i32));
                    let j = choose|j: int| 0 <= j < s.len() && s[j] == n as i32;
                    if j < n {
                        assert(s[j] == j);
                    } else if j > n {
                        assert(s[n] < s[j]);
                    }
                }
            }
        }
        last_index + 1
    }
}

/// The texture arrays in use.
pub struct TextureManager {
    groups: Vec<TextureGroup>,
}

impl View for TextureManager {
    type V = Seq<TextureGroup>;

    closed spec fn view(&self) -> Seq<TextureGroup> {
        self.groups@
    }
}

impl TextureManager {
    pub open spec fn wf(&self) -> bool {
        forall|i: int| 0 <= i < self@.len() ==> #[trigger] self@[i].wf()
    }

    pub fn new() -> (m: TextureManager)
        ensures
            m.wf(),
            m@.len() == 0,
    {
        TextureManager { groups: Vec::new() }
    }

    /// Adds an empty group of `width` by `height` textures; returns its number.
    pub fn add_group(&mut self, width: i32, height: i32) -> (n: usize)
        requires
            old(self).wf(),
        ensures
            final(self).wf(),
            n == old(self)@.len(),
            final(self)@.len() == old(self)@.len() + 1,
            final(self)@.take(n as int) == old(self)@,
            final(self)@[n as int].used().is_empty(),
            final(self)@[n as int].handle == 0,
            final(self)@[n as int].max_size == NUM_TEXTURES_PER_SET,
            final(self)@[n as int].width == width,
            final(self)@[n as int].height == height,
            final(self)@[n as int].pending_textures@.len() == 0,
    {
        self.groups.push(TextureGroup::new(width, height));
        assert(self@.take(self@.len() - 1) =~= old(self)@);
        self.groups.len() - 1
    }

    pub fn get_group(&mut self, index: usize) -> (g: &mut TextureGroup)
        requires
            index < old(self)@.len(),
        ensures
            *g == old(self)@[index as int],
            final(self)@ == old(self)@.update(index as int, *final(g)),
    {
        &mut self.groups[index]
    }

    pub fn num_groups(&self) -> (n: usize)
        ensures
            n == self@.len(),
    {
        self.groups.len()
    }

    /// Hands `texture` the lowest free layer of group `group_index` and queues
    /// it for upload; returns `None`, changing nothing, when that layer lies
    /// beyond the group's size.
    pub fn add_texture(&mut self, group_index: usize, texture: Box<[u8]>) -> (id: Option<TextureId>)
        requires
            old(self).wf(),
            group_index < old(self)@.len(),
        ensures
            final(self).wf(),
            final(self)@.len() == old(self)@.len(),
            forall|i: int| 0 <= i < old(self)@.len() && i != group_index ==> final(self)@[i] == old(self)@[i],
            ({
                let g = old(self)@[group_index as int];
                let g2 = final(self)@[group_index as int];
                match id {
                    Some(t) => {
                        &&& t.group == group_index
                        &&& is_first_missing(g.used(), t.index as int)
                        &&& t.index < g.max_size
                        &&& g2.used() == g.used().insert(t.index)
                        &&& g2.pending_textures@.len() == g.pending_textures@.len() + 1
                        &&& g2.pending_textures@.take(g.pending_textures@.len() as int) == g.pending_textures@
                        &&& g2.pending_textures@.last().index == t.index
                        &&& g2.pending_textures@.last().texture == texture
                        &&& g2.handle == g.handle && g2.max_size == g.max_size
                        &&& g2.width == g.width && g2.height == g.height
                    },
                    None => {
                        &&& g2 == g
                        &&& exists|n: int| is_first_missing(g.used(), n) && n >= g.max_size
                    },
                }
            }),
    {
        let group = &mut self.groups[group_index];
        let index = group.first_free_index();
        if index >= group.max_size {
            return None;
        }
        proof {
            assert(obeys_cmp::<i32>());
        }
        group.used_indices.insert(index);
        let pending_texture = PendingTexture { index, texture };
        group.pending_textures.push(pending_texture);
        proof {
            assert(group.pending_textures@.take(group.pending_textures@.len() - 1)
                =~= old(self)@[group_index as int].pending_textures@);
            assert(group.wf());
        }
        Some(TextureId { group: group_index, index })
    }
}

} // verus!
