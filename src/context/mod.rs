pub mod clock;
pub mod generational;
pub mod screen;

use vstd::prelude::*;
use crate::entities::Entity;
use self::clock::Clock;
use self::generational::GenerationalArray;
use self::screen::Screen;

verus! {

/// What the frame loop hands to the game and the systems each frame.
pub struct Context {
    pub clock: Clock,
    pub entities: GenerationalArray<Entity>,
    pub screen: Screen,
}

impl Context {
    pub fn new() -> (c: Context)
        ensures
            c.entities.wf(),
            c.entities@.slots.len() == 0,
            c.clock@.time_of_pause is None,
            c.clock@.pause_duration == 0,
            c.screen.width == 0 && c.screen.height == 0,
    {
        Context { clock: Clock::new(), entities: GenerationalArray::new(), screen: Screen::new() }
    }
}

} // verus!
