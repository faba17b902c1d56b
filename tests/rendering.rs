use engine::components::renderable::{Renderable, VertexRange};
use engine::context::generational::Key;
use engine::context::Context;
use engine::entities::Entity;
use engine::systems::rendering::{
    quad_indices, quad_vertices, System, Upload, HALF, INDEX_CAPACITY, MINUS_HALF, NUM_OBJECTS,
    ONE, VERTEX_CAPACITY, VERTEX_SIZE, ZERO,
};

fn add_box(context: &mut Context, x: f32, y: f32, w: f32, h: f32) -> Key {
    let mut entity = Entity::new(32);
    let mut renderable = Renderable::new();
    renderable.set_position(x.to_bits(), y.to_bits(), 0f32.to_bits());
    renderable.set_size(w.to_bits(), h.to_bits());
    entity.set_component(renderable);
    context.entities.add(Box::new(entity))
}

fn renderable_of(context: &mut Context, key: &Key) -> Renderable {
    *context
        .entities
        .get(key)
        .unwrap()
        .get_component(Renderable::name())
        .unwrap()
}

#[test]
fn two_objects_are_packed_and_only_new_work_is_uploaded() {
    let mut context = Context::new();
    let mut system = System::new();
    let a = add_box(&mut context, 0.0, 0.0, 1.0, 1.0);
    let frame = system.apply(&mut context);
    let ra = renderable_of(&mut context, &a);
    assert_eq!(ra.vertex_range, Some(VertexRange { start: 0, length: 4 }));
    assert_eq!(ra.index_range, Some(VertexRange { start: 0, length: 6 }));
    assert!(!ra.dirty);
    assert_eq!(frame.max_index, 6);
    assert_eq!(frame.uploads.len(), 1);
    assert!(!frame.exhausted);

    let b = add_box(&mut context, 0.0, 0.0, 1.0, 1.0);
    let frame = system.apply(&mut context);
    let rb = renderable_of(&mut context, &b);
    assert_eq!(rb.vertex_range, Some(VertexRange { start: 4, length: 4 }));
    assert_eq!(rb.index_range, Some(VertexRange { start: 6, length: 6 }));
    assert!(!rb.dirty);
    assert_eq!(frame.max_index, 12);
    assert_eq!(frame.uploads.len(), 1);
    assert_eq!(frame.uploads[0].vertex_range, VertexRange { start: 4, length: 4 });
    assert_eq!(renderable_of(&mut context, &a), ra);
}

#[test]
fn three_objects_draw_eighteen_indices() {
    let mut context = Context::new();
    let mut system = System::new();
    for i in 0..3 {
        add_box(&mut context, i as f32, 0.0, 1.0, 1.0);
    }
    let frame = system.apply(&mut context);
    assert_eq!(frame.max_index, 18);
    assert_eq!(frame.uploads.len(), 3);
    let again = system.apply(&mut context);
    assert_eq!(again.max_index, 18);
    assert_eq!(again.uploads.len(), 0);
}

#[test]
fn moving_an_object_reuploads_it_in_place() {
    let mut context = Context::new();
    let mut system = System::new();
    let a = add_box(&mut context, 0.0, 0.0, 1.0, 1.0);
    let b = add_box(&mut context, 5.0, 5.0, 2.0, 2.0);
    system.apply(&mut context);
    let before = renderable_of(&mut context, &b);

    {
        let r = context
            .entities
            .get(&b)
            .unwrap()
            .get_component(Renderable::name())
            .unwrap();
        r.set_position(7f32.to_bits(), 8f32.to_bits(), 0);
        assert!(r.dirty);
    }
    let frame = system.apply(&mut context);
    let after = renderable_of(&mut context, &b);
    assert_eq!(after.vertex_range, before.vertex_range);
    assert_eq!(after.index_range, before.index_range);
    assert!(!after.dirty);
    assert_eq!(frame.uploads.len(), 1);
    assert_eq!(
        frame.uploads[0],
        Upload {
            vertex_range: VertexRange { start: 4, length: 4 },
            index_range: Some(VertexRange { start: 6, length: 6 }),
            x: 7f32.to_bits(),
            y: 8f32.to_bits(),
            z: 0,
            width: 2f32.to_bits(),
            height: 2f32.to_bits(),
        }
    );
    assert!(!renderable_of(&mut context, &a).dirty);

    {
        let r = context
            .entities
            .get(&a)
            .unwrap()
            .get_component(Renderable::name())
            .unwrap();
        r.set_size(3f32.to_bits(), 3f32.to_bits());
    }
    let frame = system.apply(&mut context);
    assert_eq!(frame.uploads.len(), 1);
    assert_eq!(frame.uploads[0].vertex_range, VertexRange { start: 0, length: 4 });
    assert_eq!(frame.uploads[0].width, 3f32.to_bits());
    assert_eq!(frame.max_index, 12);
}

#[test]
fn entities_without_a_renderable_and_freed_slots_are_skipped() {
    let mut context = Context::new();
    let mut system = System::new();
    context.entities.add(Box::new(Entity::new(1)));
    let gone = add_box(&mut context, 0.0, 0.0, 1.0, 1.0);
    context.entities.remove(&gone);
    let kept = add_box(&mut context, 1.0, 1.0, 1.0, 1.0);
    let frame = system.apply(&mut context);
    assert_eq!(frame.uploads.len(), 1);
    assert_eq!(frame.max_index, 6);
    let r = renderable_of(&mut context, &kept);
    assert_eq!(r.vertex_range, Some(VertexRange { start: 0, length: 4 }));
}

#[test]
fn empty_store_draws_nothing() {
    let mut context = Context::new();
    let mut system = System::new();
    let frame = system.apply(&mut context);
    assert_eq!(frame.max_index, 0);
    assert!(frame.uploads.is_empty());
    assert!(!frame.exhausted);
}

#[test]
fn objects_beyond_the_buffers_stay_dirty_and_are_reported() {
    let mut context = Context::new();
    let mut system = System::new();
    let mut keys = Vec::new();
    for _ in 0..NUM_OBJECTS + 1 {
        keys.push(add_box(&mut context, 0.0, 0.0, 1.0, 1.0));
    }
    let frame = system.apply(&mut context);
    assert!(frame.exhausted);
    assert_eq!(frame.uploads.len(), NUM_OBJECTS);
    assert_eq!(frame.max_index, NUM_OBJECTS * 6);
    let last = renderable_of(&mut context, &keys[NUM_OBJECTS]);
    assert!(last.dirty);
    assert_eq!(last.vertex_range, None);
    let full = renderable_of(&mut context, &keys[NUM_OBJECTS - 1]);
    assert_eq!(
        full.vertex_range,
        Some(VertexRange { start: VERTEX_CAPACITY - 4, length: 4 })
    );
}

#[test]
fn buffer_sizes_follow_the_object_count() {
    let system = System::new();
    assert_eq!(system.vbo_size(), 5120 * 4 * VERTEX_SIZE);
    assert_eq!(system.ebo_size(), INDEX_CAPACITY);
    assert_eq!(INDEX_CAPACITY, 5120 * 12);
}

#[test]
fn quad_data_for_an_upload() {
    let u = Upload {
        vertex_range: VertexRange { start: 8, length: 4 },
        index_range: Some(VertexRange { start: 12, length: 6 }),
        x: 1.5f32.to_bits(),
        y: 2.5f32.to_bits(),
        z: 0.25f32.to_bits(),
        width: 10f32.to_bits(),
        height: 20f32.to_bits(),
    };
    let v = quad_vertices(&u);
    assert_eq!(v.len(), 4 * VERTEX_SIZE);
    assert_eq!(f32::from_bits(MINUS_HALF), -0.5);
    assert_eq!(f32::from_bits(HALF), 0.5);
    assert_eq!(f32::from_bits(ONE), 1.0);
    assert_eq!(f32::from_bits(ZERO), 0.0);
    let floats: Vec<f32> = v.iter().map(|w| f32::from_bits(*w)).collect();
    let place = [1.5, 2.5, 0.25, 10.0, 20.0, 0.0];
    let corners = [
        [-0.5, 0.5, 0.0, 1.0, 0.0, 0.0],
        [0.5, 0.5, 0.0, 0.0, 1.0, 0.0],
        [-0.5, -0.5, 0.0, 0.0, 0.0, 1.0],
        [0.5, -0.5, 0.0, 1.0, 0.0, 0.0],
    ];
    for k in 0..4 {
        assert_eq!(&floats[k * 12..k * 12 + 6], &corners[k][..]);
        assert_eq!(&floats[k * 12 + 6..k * 12 + 12], &place[..]);
    }
    assert_eq!(quad_indices(&u), vec![8, 9, 10, 9, 10, 11]);
}
