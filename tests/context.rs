use engine::components::renderable::{Renderable, RENDERABLE_NAME};
use engine::components::Component;
use engine::context::clock::Clock;
use engine::context::screen::Screen;
use engine::context::Context;
use engine::entities::{same_name, Entity};

#[test]
fn clock_stops_while_paused() {
    let mut clock = Clock::new();
    assert_eq!(clock.game_time_at(100), 100);
    clock.pause_at(100);
    assert!(clock.is_paused());
    assert_eq!(clock.game_time_at(150), 100);
    clock.pause_at(120);
    clock.resume_at(160);
    assert!(!clock.is_paused());
    assert_eq!(clock.game_time_at(160), 100);
    assert_eq!(clock.game_time_at(200), 140);
    clock.resume_at(300);
    assert_eq!(clock.game_time_at(300), 240);
    clock.pause_at(300);
    clock.resume_at(250);
    assert_eq!(clock.game_time_at(400), 340);
}

#[test]
fn clock_runs_on_the_monotonic_clock() {
    let mut clock = Clock::new();
    let t0 = clock.game_time();
    clock.pause();
    assert!(clock.is_paused());
    let t1 = clock.game_time();
    let t2 = clock.game_time();
    assert_eq!(t1, t2);
    assert!(t1 >= t0);
    clock.resume();
    assert!(!clock.is_paused());
    assert!(clock.game_time() >= t1);
}

#[test]
fn screen_takes_new_dimensions() {
    let mut screen = Screen::new();
    assert_eq!((screen.width, screen.height), (0, 0));
    screen.set_dimensions(800, 600);
    assert_eq!((screen.width, screen.height), (800, 600));
}

#[test]
fn context_starts_empty() {
    let mut context = Context::new();
    assert_eq!(context.entities.raw_len(), 0);
    assert_eq!((context.screen.width, context.screen.height), (0, 0));
    assert!(!context.clock.is_paused());
}

#[test]
fn components_are_found_by_name() {
    let mut entity = Entity::new(3);
    assert!(entity.get_component(Renderable::name()).is_none());
    let mut r = Renderable::new();
    r.set_position(1, 2, 3);
    entity.set_component(r);
    assert_eq!(entity.get_component("renderable").map(|r| r.x), Some(1));
    assert!(entity.get_component("sprite").is_none());
    assert!(entity.get_component("renderables").is_none());
    let mut other = Renderable::new();
    other.set_size(4, 5);
    entity.set_component(other);
    let found = entity.get_component(RENDERABLE_NAME).unwrap();
    assert_eq!((found.x, found.width, found.height), (0, 4, 5));
    assert_eq!(found.name(), "renderable");
}

#[test]
fn new_renderable_is_dirty_and_unplaced() {
    let r = Renderable::new();
    assert!(r.dirty);
    assert_eq!(r.vertex_range, None);
    assert_eq!(r.index_range, None);
    assert_eq!((r.x, r.y, r.z, r.width, r.height), (0, 0, 0, 0, 0));
}

#[test]
fn names_compare_byte_for_byte() {
    assert!(same_name("renderable", "renderable"));
    assert!(!same_name("renderable", "Renderable"));
    assert!(!same_name("render", "renderable"));
    assert!(same_name("", ""));
}
