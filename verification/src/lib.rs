//! Sprite-atlas animation, material and point-light bookkeeping for 2D rendering.
//!
//! The renderer reads entities, assets and GPU buffers; this library decides what it writes:
//! which grid cell of an atlas each animated sprite shows, which sprites need their atlas's
//! material, how point lights fill the lights uniform, which flag bits a material sets, and
//! which images a material file asks for.
pub mod mesh2d;
pub mod sprite2d;

pub use mesh2d::light_render::{prepare_lights, GpuLightsLayout, MAX_POINT_LIGHTS};
pub use mesh2d::neo_material::{
    color_material_flags, COLOR_MATERIAL_FLAGS_NONE, COLOR_MATERIAL_FLAGS_NORMAL,
    COLOR_MATERIAL_FLAGS_TEXTURE, COLOR_MATERIAL_FLAGS_UNINITIALIZED,
};
pub use mesh2d::neo_material_loader::{ImageLoadRequest, NeoMaterialAssetLoader};
pub use sprite2d::loader::SpriteAtlasAssetLoader;
pub use sprite2d::sprite::{
    update_sprite_atlas_material, update_sprite_atlas_uv_ranges, ActiveSprite, AssetKey,
    GridUvRange, SpriteAnimation, SpriteAtlas, SpriteMaterialState, SpriteUvState,
};
