pub mod renderable;

use vstd::prelude::*;

verus! {

/// Something an entity can hold, addressed by a stable name per kind.
pub trait Component {
    fn name(&self) -> &'static str;
}

} // verus!
