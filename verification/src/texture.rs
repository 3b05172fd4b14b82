//! Texture metadata: pixel format, filtering mode, and the opaque handle
//! a texture is bound by.

use vstd::prelude::*;

verus! {

/// How a texture is sampled.
#[derive(Clone, Copy, PartialEq, Eq, Structural, Debug)]
pub enum FilteringMethod {
    Nearest,
    BiLinear,
    TriLinear,
    Anisotropic,
}

/// The channel layout of a texture's pixels.
#[derive(Clone, Copy, PartialEq, Eq, Structural, Debug)]
pub enum TextureFormat {
    RGB,
    RGBA,
    Alpha,
    Luminance,
    LuminanceAlpha,
}

/// The opaque value under which a texture is set as a shader parameter.
pub type TextureParamHandle = u32;

/// The capability surface of a texture, whatever backend owns it.
pub trait Texture {
    /// The handle this texture is identified by in shader parameters.
    spec fn spec_handle(&self) -> u32;

    /// The texture's pixel format.
    spec fn spec_format(&self) -> TextureFormat;

    /// The filtering mode the texture should be sampled with.
    spec fn spec_filtering(&self) -> FilteringMethod;

    fn param_handle(&self) -> (handle: TextureParamHandle)
        ensures
            handle == self.spec_handle(),
    ;

    fn format(&self) -> (format: &TextureFormat)
        ensures
            *format == self.spec_format(),
    ;

    /// Changes the filtering mode; the backend applies it lazily.
    fn set_filtering_method(&mut self, method: FilteringMethod)
        ensures
            final(self).spec_filtering() == method,
            final(self).spec_handle() == old(self).spec_handle(),
            final(self).spec_format() == old(self).spec_format(),
    ;
}

} // verus!
