pub mod light_render;
pub mod neo_material;
pub mod neo_material_loader;
