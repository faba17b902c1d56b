use engine::context::generational::GenerationalArray;

#[test]
fn key_reads_value_until_removed() {
    let mut store: GenerationalArray<u32> = GenerationalArray::new();
    let a = store.add(Box::new(7));
    let b = store.add(Box::new(9));
    assert_eq!(store.get(&a).map(|v| *v), Some(7));
    assert_eq!(store.get(&b).map(|v| *v), Some(9));
    store.remove(&a);
    assert_eq!(store.get(&a), None);
    assert_eq!(store.get(&b).map(|v| *v), Some(9));
    let c = store.add(Box::new(11));
    assert_eq!(c.index, a.index);
    assert_eq!(store.get(&a), None);
    assert_eq!(store.get(&c).map(|v| *v), Some(11));
    store.remove(&c);
    let d = store.add(Box::new(13));
    assert_eq!(store.get(&a), None);
    assert_eq!(store.get(&c), None);
    assert_eq!(store.get(&d).map(|v| *v), Some(13));
}

#[test]
fn freed_slots_are_reused_last_in_first_out() {
    let mut store: GenerationalArray<&str> = GenerationalArray::new();
    let a = store.add(Box::new("a"));
    let b = store.add(Box::new("b"));
    let _c = store.add(Box::new("c"));
    store.remove(&a);
    store.remove(&b);
    let d = store.add(Box::new("d"));
    assert_eq!(d.index, b.index);
    let e = store.add(Box::new("e"));
    assert_eq!(e.index, a.index);
    let f = store.add(Box::new("f"));
    assert_eq!(f.index, 3);
    assert_eq!(store.get(&b), None);
    assert_eq!(store.get(&d).map(|v| *v), Some("d"));
    assert_eq!(store.get(&e).map(|v| *v), Some("e"));
    assert_eq!(store.raw_len(), 4);
}

#[test]
fn removing_twice_does_not_free_a_slot_twice() {
    let mut store: GenerationalArray<u8> = GenerationalArray::new();
    let a = store.add(Box::new(1));
    store.remove(&a);
    store.remove(&a);
    let b = store.add(Box::new(2));
    let c = store.add(Box::new(3));
    assert_ne!(b.index, c.index);
    assert_eq!(store.get(&b).map(|v| *v), Some(2));
    assert_eq!(store.get(&c).map(|v| *v), Some(3));
}

#[test]
fn get_through_key_changes_the_value() {
    let mut store: GenerationalArray<u32> = GenerationalArray::new();
    let a = store.add(Box::new(1));
    if let Some(v) = store.get(&a) {
        *v = 5;
    }
    assert_eq!(store.get(&a).map(|v| *v), Some(5));
}

#[test]
fn raw_access_ignores_generations_and_skips_free_slots() {
    let mut store: GenerationalArray<u32> = GenerationalArray::new();
    let a = store.add(Box::new(1));
    let _b = store.add(Box::new(2));
    store.remove(&a);
    assert_eq!(store.raw_len(), 2);
    assert_eq!(store.get_raw(0), None);
    assert_eq!(store.get_raw(1).map(|v| *v), Some(2));
    assert_eq!(store.get_raw(2), None);
}

#[test]
fn foreign_key_is_not_found() {
    let mut one: GenerationalArray<u32> = GenerationalArray::new();
    let mut other: GenerationalArray<u32> = GenerationalArray::new();
    let _x = one.add(Box::new(1));
    let y = one.add(Box::new(2));
    assert_eq!(other.get(&y), None);
    other.remove(&y);
    assert_eq!(other.raw_len(), 0);
}
