use vstd::prelude::*;

verus! {

/// Flag bit set in the material uniform when the material samples a color texture.
pub const COLOR_MATERIAL_FLAGS_TEXTURE: u32 = 1;

/// Flag bit set in the material uniform when the material samples a normal map.
pub const COLOR_MATERIAL_FLAGS_NORMAL: u32 = 2;

/// No flag bit set.
pub const COLOR_MATERIAL_FLAGS_NONE: u32 = 0;

/// Marks a uniform that was never filled in from a material.
pub const COLOR_MATERIAL_FLAGS_UNINITIALIZED: u32 = 0xFFFF;

/// The flag word a material with the given bindings writes into its uniform.
pub open spec fn spec_color_material_flags(has_texture: bool, has_normal: bool) -> u32 {
    ((if has_texture { COLOR_MATERIAL_FLAGS_TEXTURE } else { 0u32 })
        + (if has_normal { COLOR_MATERIAL_FLAGS_NORMAL } else { 0u32 })) as u32
}

/// Computes the uniform flag word from which textures a material binds.
pub fn color_material_flags(has_texture: bool, has_normal: bool) -> (flags: u32)
    ensures
        flags == spec_color_material_flags(has_texture, has_normal),
        (flags & COLOR_MATERIAL_FLAGS_TEXTURE != 0) == has_texture,
        (flags & COLOR_MATERIAL_FLAGS_NORMAL != 0) == has_normal,
        flags != COLOR_MATERIAL_FLAGS_UNINITIALIZED,
        flags <= 3,
{
    let mut flags: u32 = COLOR_MATERIAL_FLAGS_NONE;
    if has_texture {
        flags = flags | COLOR_MATERIAL_FLAGS_TEXTURE;
    }
    if has_normal {
        flags = flags | COLOR_MATERIAL_FLAGS_NORMAL;
    }
    assert(0u32 | 1u32 == 1u32) by (bit_vector);
    assert(0u32 | 2u32 == 2u32) by (bit_vector);
    assert(1u32 | 2u32 == 3u32) by (bit_vector);
    assert(0u32 & 1u32 == 0u32 && 0u32 & 2u32 == 0u32) by (bit_vector);
    assert(1u32 & 1u32 == 1u32 && 1u32 & 2u32 == 0u32) by (bit_vector);
    assert(2u32 & 1u32 == 0u32 && 2u32 & 2u32 == 2u32) by (bit_vector);
    assert(3u32 & 1u32 == 1u32 && 3u32 & 2u32 == 2u32) by (bit_vector);
    flags
}

} // verus!
