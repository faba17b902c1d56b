use engine::systems::rendering::texture::{TextureGroup, TextureId, TextureManager, NUM_TEXTURES_PER_SET};
use engine::systems::rendering::System;

#[test]
fn layers_are_handed_out_in_order_per_group() {
    let mut manager = TextureManager::new();
    let g0 = manager.add_group(64, 64);
    let g1 = manager.add_group(32, 16);
    assert_eq!((g0, g1), (0, 1));
    assert_eq!(manager.num_groups(), 2);
    let a = manager.add_texture(g0, vec![1u8; 4].into_boxed_slice());
    let b = manager.add_texture(g0, vec![2u8; 4].into_boxed_slice());
    let c = manager.add_texture(g1, vec![3u8; 4].into_boxed_slice());
    assert_eq!(a, Some(TextureId { group: 0, index: 0 }));
    assert_eq!(b, Some(TextureId { group: 0, index: 1 }));
    assert_eq!(c, Some(TextureId { group: 1, index: 0 }));
    let group = manager.get_group(0);
    assert_eq!(group.pending_textures.len(), 2);
    assert_eq!(group.pending_textures[1].index, 1);
    assert_eq!(&group.pending_textures[1].texture[..], &[2u8; 4][..]);
    assert_eq!(group.handle, 0);
    let group = manager.get_group(1);
    assert_eq!((group.width, group.height), (32, 16));
}

#[test]
fn a_full_group_refuses_more() {
    let mut manager = TextureManager::new();
    let g = manager.add_group(1, 1);
    for i in 0..NUM_TEXTURES_PER_SET {
        let id = manager.add_texture(g, vec![0u8; 4].into_boxed_slice());
        assert_eq!(id, Some(TextureId { group: g, index: i }));
    }
    assert_eq!(manager.add_texture(g, vec![0u8; 4].into_boxed_slice()), None);
    assert_eq!(manager.get_group(g).pending_textures.len(), 512);
}

#[test]
fn lowest_free_layer_is_used() {
    let mut manager = TextureManager::new();
    let g = manager.add_group(1, 1);
    manager.get_group(g).used_indices.insert(1);
    manager.get_group(g).used_indices.insert(2);
    let id = manager.add_texture(g, vec![0u8; 4].into_boxed_slice());
    assert_eq!(id, Some(TextureId { group: g, index: 0 }));
    let id = manager.add_texture(g, vec![0u8; 4].into_boxed_slice());
    assert_eq!(id, Some(TextureId { group: g, index: 3 }));
}

#[test]
fn new_group_is_empty() {
    let group = TextureGroup::new(8, 4);
    assert_eq!(group.handle, 0);
    assert_eq!(group.max_size, 512);
    assert_eq!((group.width, group.height), (8, 4));
    assert!(group.pending_textures.is_empty());
    assert!(group.used_indices.is_empty());
}

#[test]
fn the_renderer_owns_a_texture_manager() {
    let mut system = System::new();
    let g = system.texture_manager().add_group(2, 2);
    assert_eq!(system.texture_manager().num_groups(), 1);
    assert_eq!(
        system.texture_manager().add_texture(g, vec![0u8; 16].into_boxed_slice()),
        Some(TextureId { group: 0, index: 0 })
    );
}
