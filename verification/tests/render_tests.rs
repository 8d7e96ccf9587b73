use bevy_neosprite::{
    color_material_flags, prepare_lights, ImageLoadRequest, NeoMaterialAssetLoader,
    SpriteAtlasAssetLoader, COLOR_MATERIAL_FLAGS_NONE, COLOR_MATERIAL_FLAGS_NORMAL,
    COLOR_MATERIAL_FLAGS_TEXTURE, COLOR_MATERIAL_FLAGS_UNINITIALIZED, MAX_POINT_LIGHTS,
};

#[test]
fn no_lights_leaves_every_slot_default() {
    let layout = prepare_lights(0);
    assert_eq!(layout.n_point_lights, 0);
    assert_eq!(layout.point_lights, vec![None; MAX_POINT_LIGHTS]);
}

#[test]
fn few_lights_fill_leading_slots() {
    let layout = prepare_lights(3);
    assert_eq!(layout.n_point_lights, 3);
    assert_eq!(layout.point_lights.len(), 32);
    assert_eq!(&layout.point_lights[..4], &[Some(0), Some(1), Some(2), None]);
    assert!(layout.point_lights[3..].iter().all(|s| s.is_none()));
}

#[test]
fn exactly_max_lights_fill_all_slots() {
    let layout = prepare_lights(32);
    assert_eq!(layout.n_point_lights, 32);
    for (i, slot) in layout.point_lights.iter().enumerate() {
        assert_eq!(*slot, Some(i));
    }
}

#[test]
fn lights_beyond_max_are_dropped() {
    let layout = prepare_lights(40);
    assert_eq!(layout.n_point_lights, 32);
    assert_eq!(layout.point_lights[31], Some(31));
    assert_eq!(layout.point_lights.len(), 32);
}

#[test]
fn flags_follow_bound_textures() {
    assert_eq!(color_material_flags(false, false), COLOR_MATERIAL_FLAGS_NONE);
    assert_eq!(color_material_flags(true, false), COLOR_MATERIAL_FLAGS_TEXTURE);
    assert_eq!(color_material_flags(false, true), COLOR_MATERIAL_FLAGS_NORMAL);
    assert_eq!(color_material_flags(true, true), 3);
}

#[test]
fn flag_constants_match_shader() {
    assert_eq!(COLOR_MATERIAL_FLAGS_TEXTURE, 1 << 0);
    assert_eq!(COLOR_MATERIAL_FLAGS_NORMAL, 1 << 1);
    assert_eq!(COLOR_MATERIAL_FLAGS_NONE, 0);
    assert_eq!(COLOR_MATERIAL_FLAGS_UNINITIALIZED, 0xFFFF);
    for t in [false, true] {
        for n in [false, true] {
            assert_ne!(color_material_flags(t, n), COLOR_MATERIAL_FLAGS_UNINITIALIZED);
        }
    }
}

#[test]
fn loader_extensions() {
    assert_eq!(NeoMaterialAssetLoader.extensions(), &[".neomat.ron"]);
    let atlas_loader: SpriteAtlasAssetLoader<u8> = SpriteAtlasAssetLoader::default();
    assert_eq!(atlas_loader.extensions(), &[".atlas.ron"]);
}

#[test]
fn texture_is_srgb_and_normal_is_linear() {
    let (texture, normal) = NeoMaterialAssetLoader.image_loads(
        Some("sprites/diffuse_0000.png".to_string()),
        Some("sprites/normal_0000.png".to_string()),
    );
    assert_eq!(
        texture,
        Some(ImageLoadRequest { path: "sprites/diffuse_0000.png".to_string(), is_srgb: true })
    );
    assert_eq!(
        normal,
        Some(ImageLoadRequest { path: "sprites/normal_0000.png".to_string(), is_srgb: false })
    );
}

#[test]
fn missing_paths_load_nothing() {
    let (texture, normal) = NeoMaterialAssetLoader.image_loads(None, None);
    assert_eq!(texture, None);
    assert_eq!(normal, None);
    let (texture, normal) = NeoMaterialAssetLoader.image_loads(None, Some("n.png".to_string()));
    assert_eq!(texture, None);
    assert_eq!(normal, Some(ImageLoadRequest { path: "n.png".to_string(), is_srgb: false }));
}
