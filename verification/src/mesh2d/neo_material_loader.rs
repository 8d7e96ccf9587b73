use vstd::prelude::*;

verus! {

/// A request to load the image at `path`, decoded as sRGB color data when `is_srgb` holds and
/// as linear data otherwise.
#[derive(Clone, Debug, PartialEq, Eq)]
pub struct ImageLoadRequest {
    pub path: String,
    pub is_srgb: bool,
}

/// Loads `.neomat.ron` material files.
#[derive(Clone, Copy, Debug, Default)]
pub struct NeoMaterialAssetLoader;

/// `load` asks for the image at `path`, if there is one, decoded as sRGB data exactly when
/// `is_srgb` holds.
pub open spec fn requests_image(
    path: Option<String>,
    is_srgb: bool,
    load: Option<ImageLoadRequest>,
) -> bool {
    match path {
        Some(p) => load matches Some(request) && request.path@ == p@ && request.is_srgb
            == is_srgb,
        None => load is None,
    }
}

impl NeoMaterialAssetLoader {
    /// The file extensions this loader handles.
    pub fn extensions(&self) -> (extensions: &'static [&'static str])
        ensures
            extensions@.len() == 1,
            extensions@[0]@ == ".neomat.ron"@,
    {
        &[".neomat.ron"]
    }

    /// The images that a material file names: its color texture, decoded as sRGB, and its
    /// normal map, decoded as linear data since its texels are directions, not colors.
    pub fn image_loads(&self, texture: Option<String>, normal: Option<String>) -> (loads: (
        Option<ImageLoadRequest>,
        Option<ImageLoadRequest>,
    ))
        ensures
            requests_image(texture, true, loads.0),
            requests_image(normal, false, loads.1),
            loads.0 is Some <==> texture is Some,
            loads.1 is Some <==> normal is Some,
            loads.0 matches Some(r) ==> r.path@ == texture.unwrap()@ && r.is_srgb,
            loads.1 matches Some(r) ==> r.path@ == normal.unwrap()@ && !r.is_srgb,
    {
        let texture_load = match texture {
            Some(path) => Some(ImageLoadRequest { path, is_srgb: true }),
            None => None,
        };
        let normal_load = match normal {
            Some(path) => Some(ImageLoadRequest { path, is_srgb: false }),
            None => None,
        };
        (texture_load, normal_load)
    }
}

} // verus!
