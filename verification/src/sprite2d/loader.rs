use std::marker::PhantomData;
use vstd::prelude::*;

verus! {

/// Loads `.atlas.ron` sprite-atlas files whose material is of type `T`.
#[derive(Default)]
pub struct SpriteAtlasAssetLoader<T>(pub PhantomData<T>);

impl<T> SpriteAtlasAssetLoader<T> {
    /// The file extensions this loader handles.
    pub fn extensions(&self) -> (extensions: &'static [&'static str])
        ensures
            extensions@.len() == 1,
            extensions@[0]@ == ".atlas.ron"@,
    {
        &[".atlas.ron"]
    }
}

} // verus!
