use vstd::prelude::*;
use crate::components::renderable::{Renderable, RENDERABLE_NAME};
use vstd::string::StringSliceAdditionalSpecFns;

verus! {

/// Whether two names are spelled alike, byte for byte.
pub fn same_name(a: &str, b: &str) -> (r: bool)
    ensures
        r == (a.spec_bytes() == b.spec_bytes()),
{
    let left = a.as_bytes();
    let right = b.as_bytes();
    if left.len() != right.len() {
        return false;
    }
    let mut i: usize = 0;
    while i < left.len()
        invariant
            left@ == a.spec_bytes(),
            right@ == b.spec_bytes(),
            left@.len() == right@.len(),
            0 <= i <= left@.len(),
            forall|j: int| 0 <= j < i ==> left@[j] == right@[j],
        decreases left@.len() - i,
    {
        if left[i] != right[i] {
            assert(left@[i as int] != right@[i as int]);
            return false;
        }
        i = i + 1;
    }
    assert(left@ == right@);
    true
}

/// A game object: at most one component of each kind, looked up by the kind's name.
pub struct Entity {
    pub(crate) id: u64,
    pub(crate) renderable: Option<Renderable>,
}

impl Entity {
    /// The entity's renderable, if it has one.
    pub open(crate) spec fn renderable_spec(&self) -> Option<Renderable> {
        self.renderable
    }

    /// The same entity holding `r` as its renderable.
    pub open(crate) spec fn with_renderable(self, r: Renderable) -> Entity {
        Entity { id: self.id, renderable: Some(r) }
    }

    pub fn new(id: u64) -> (e: Entity)
        ensures
            e.renderable_spec() is None,
    {
        Entity { id, renderable: None }
    }

    /// The component held under `name`, if any.
    pub fn get_component(&mut self, name: &str) -> (r: Option<&mut Renderable>)
        ensures
            r is Some <==> (name.spec_bytes() == RENDERABLE_NAME.spec_bytes()
                && old(self).renderable_spec() is Some),
            r is Some ==> {
                &&& Some(*r.unwrap()) == old(self).renderable_spec()
                &&& *final(self) == old(self).with_renderable(*final(r.unwrap()))
            },
            r is None ==> *final(self) == *old(self),
    {
        if !same_name(name, RENDERABLE_NAME) {
            return None;
        }
        self.renderable.as_mut()
    }

    /// Gives the entity `component`, replacing any it held of the same kind.
    pub fn set_component(&mut self, component: Box<Renderable>)
        ensures
            *final(self) == old(self).with_renderable(*component),
    {
        self.renderable = Some(*component);
    }
}

} // verus!
