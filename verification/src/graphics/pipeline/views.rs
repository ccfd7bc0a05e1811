//! Handles that a bind group can refer to.
use vstd::prelude::*;

verus! {

/// A view into a texture; `V` is the backend's handle.
pub struct TextureView<V>(pub V);

/// A GPU-resident array of textures, by its view.
pub struct GPUTextureArray<V> {
    pub view: V,
}

/// A GPU-resident cubemap, by its view.
pub struct GPUCubemap<V> {
    pub view: V,
}

/// A sampler; `S` is the backend's handle.
pub struct Sampler<S>(pub S);

/// The layout of a bind group; `L` is the backend's handle.
pub struct BindGroupLayout<L>(pub L);

} // verus!
