use engine::components::renderable::VertexRange;
use engine::systems::rendering::System;
use std::collections::BTreeSet;

fn set_of(ranges: &[(usize, usize)]) -> BTreeSet<(usize, usize)> {
    ranges.iter().cloned().collect()
}

#[test]
fn first_gap_wide_enough_wins_over_the_end() {
    let system = System::new();
    let r = system.find_free_range(&set_of(&[(0, 4), (10, 6)]), 4);
    assert_eq!(r, VertexRange { start: 4, length: 4 });
}

#[test]
fn empty_set_starts_at_zero() {
    let system = System::new();
    let r = system.find_free_range(&BTreeSet::new(), 6);
    assert_eq!(r, VertexRange { start: 0, length: 6 });
}

#[test]
fn gap_of_exactly_the_size_is_passed_over() {
    let system = System::new();
    let r = system.find_free_range(&set_of(&[(0, 4), (8, 6)]), 4);
    assert_eq!(r, VertexRange { start: 14, length: 4 });
}

#[test]
fn gap_before_the_first_range_is_used() {
    let system = System::new();
    let r = system.find_free_range(&set_of(&[(10, 2)]), 4);
    assert_eq!(r, VertexRange { start: 0, length: 4 });
}

#[test]
fn packed_ranges_append_after_the_last() {
    let system = System::new();
    let r = system.find_free_range(&set_of(&[(0, 4), (4, 4), (8, 4)]), 4);
    assert_eq!(r, VertexRange { start: 12, length: 4 });
}
