use bevy_neosprite::{
    update_sprite_atlas_material, update_sprite_atlas_uv_ranges, ActiveSprite, AssetKey,
    GridUvRange, SpriteAnimation, SpriteAtlas, SpriteMaterialState, SpriteUvState,
};

fn grid(h: u32, v: u32, total: u32) -> SpriteAnimation {
    SpriteAnimation::UniformGrid {
        sprites_horizontal: h,
        sprites_vertical: v,
        sprites_total: total,
    }
}

fn range(sx: u32, sy: u32) -> GridUvRange {
    GridUvRange { start: (sx, sy), end: (sx + 1, sy + 1) }
}

#[test]
fn first_frame_is_top_left_cell() {
    assert_eq!(grid(10, 4, 9).frame_range(0), range(0, 0));
}

#[test]
fn frames_fill_rows_left_to_right() {
    let anim = grid(10, 4, 40);
    assert_eq!(anim.frame_range(9), range(9, 0));
    assert_eq!(anim.frame_range(10), range(0, 1));
    assert_eq!(anim.frame_range(13), range(3, 1));
    assert_eq!(anim.frame_range(39), range(9, 3));
}

#[test]
fn single_column_grid_stacks_frames() {
    let anim = grid(1, 5, 5);
    assert_eq!(anim.frame_range(4), range(0, 4));
}

#[test]
fn frame_past_the_grid_lands_below_it() {
    // Frames beyond horizontal * vertical are not rejected: they map below the region.
    assert_eq!(grid(2, 2, 4).frame_range(5), range(1, 2));
}

#[test]
fn largest_frame_with_a_next_row() {
    let anim = grid(2, 1, 1);
    assert_eq!(anim.frame_range(u32::MAX), range(1, u32::MAX / 2));
}

#[test]
fn distinct_frames_give_distinct_cells() {
    let anim = grid(3, 3, 9);
    for a in 0..9u32 {
        for b in 0..9u32 {
            if a != b {
                assert_ne!(anim.frame_range(a), anim.frame_range(b));
            }
        }
    }
}

#[test]
fn frames_inside_grid_stay_inside_region() {
    let anim = grid(4, 3, 12);
    for f in 0..12u32 {
        let r = anim.frame_range(f);
        assert!(r.end.0 <= 4 && r.end.1 <= 3);
    }
}

#[test]
fn atlas_uv_range_uses_named_animation() {
    let atlas = SpriteAtlas {
        animations: vec![grid(10, 4, 40), grid(3, 3, 9)],
        material: AssetKey::Uuid { uuid: 1 },
    };
    assert_eq!(atlas.uv_range(&ActiveSprite { animation: 1, frame: 4 }), range(1, 1));
    assert_eq!(atlas.uv_range(&ActiveSprite { animation: 0, frame: 4 }), range(4, 0));
}

fn atlases() -> Vec<SpriteAtlas> {
    vec![
        SpriteAtlas {
            animations: vec![grid(4, 4, 16)],
            material: AssetKey::Index { index: 3, generation: 0 },
        },
        SpriteAtlas {
            animations: vec![grid(2, 2, 4), grid(8, 1, 8)],
            material: AssetKey::Uuid { uuid: 99 },
        },
    ]
}

#[test]
fn uv_updates_skip_sprites_without_loaded_atlas() {
    let sprites = vec![
        SpriteUvState { entity: 10, atlas: Some(0), active: ActiveSprite { animation: 0, frame: 5 } },
        SpriteUvState { entity: 11, atlas: None, active: ActiveSprite { animation: 7, frame: 0 } },
        SpriteUvState { entity: 12, atlas: Some(1), active: ActiveSprite { animation: 1, frame: 6 } },
    ];
    let updates = update_sprite_atlas_uv_ranges(&sprites, &atlases());
    assert_eq!(updates, vec![(10, range(1, 1)), (12, range(6, 0))]);
}

#[test]
fn uv_updates_of_no_sprites_is_empty() {
    assert!(update_sprite_atlas_uv_ranges(&vec![], &atlases()).is_empty());
}

#[test]
fn material_inserted_when_missing_or_different() {
    let sprites = vec![
        SpriteMaterialState { entity: 1, atlas: Some(0), material: None },
        SpriteMaterialState {
            entity: 2,
            atlas: Some(0),
            material: Some(AssetKey::Index { index: 3, generation: 0 }),
        },
        SpriteMaterialState {
            entity: 3,
            atlas: Some(0),
            material: Some(AssetKey::Index { index: 3, generation: 1 }),
        },
        SpriteMaterialState { entity: 4, atlas: None, material: None },
        SpriteMaterialState {
            entity: 5,
            atlas: Some(1),
            material: Some(AssetKey::Index { index: 3, generation: 0 }),
        },
    ];
    let inserts = update_sprite_atlas_material(&sprites, &atlases());
    assert_eq!(
        inserts,
        vec![
            (1, AssetKey::Index { index: 3, generation: 0 }),
            (3, AssetKey::Index { index: 3, generation: 0 }),
            (5, AssetKey::Uuid { uuid: 99 }),
        ]
    );
}

#[test]
fn material_update_settles_after_one_round() {
    let atlases = atlases();
    let mut sprites = vec![
        SpriteMaterialState { entity: 1, atlas: Some(1), material: None },
        SpriteMaterialState { entity: 2, atlas: None, material: None },
        SpriteMaterialState {
            entity: 3,
            atlas: Some(0),
            material: Some(AssetKey::Uuid { uuid: 99 }),
        },
    ];
    let inserts = update_sprite_atlas_material(&sprites, &atlases);
    assert_eq!(inserts.len(), 2);
    for (entity, key) in inserts {
        for s in sprites.iter_mut() {
            if s.entity == entity {
                s.material = Some(key);
            }
        }
    }
    assert!(update_sprite_atlas_material(&sprites, &atlases).is_empty());
}

#[test]
fn uuid_and_index_keys_differ() {
    let sprites = vec![SpriteMaterialState {
        entity: 1,
        atlas: Some(0),
        material: Some(AssetKey::Uuid { uuid: 3 }),
    }];
    assert_eq!(update_sprite_atlas_material(&sprites, &atlases()).len(), 1);
}
