//! Conversions between the engine's abstract formats and WebGL2 enumerants.
use vstd::prelude::*;
use crate::gl;

verus! {

/// Pixel formats of the engine's texture descriptors.
#[derive(Clone, Copy, Debug, PartialEq, Eq, Structural)]
pub enum TextureFormat {
    R8Unorm,
    R8Snorm,
    R8Uint,
    R8Sint,
    R16Uint,
    R16Sint,
    R16Float,
    Rg8Unorm,
    Rg8Snorm,
    Rg8Uint,
    Rg8Sint,
    R32Uint,
    R32Sint,
    R32Float,
    Rg16Uint,
    Rg16Sint,
    Rg16Float,
    Rgba8Unorm,
    Rgba8UnormSrgb,
    Rgba8Snorm,
    Rgba8Uint,
    Rgba8Sint,
    Bgra8Unorm,
    Bgra8UnormSrgb,
    Rgb10a2Unorm,
    Rg11b10Float,
    Rg32Uint,
    Rg32Sint,
    Rg32Float,
    Rgba16Uint,
    Rgba16Sint,
    Rgba16Float,
    Rgba32Uint,
    Rgba32Sint,
    Rgba32Float,
    Depth32Float,
    Depth24Plus,
    Depth24PlusStencil8,
}

/// The triple (internal format, transfer format, component type) documented for each pixel
/// format; the two BGRA formats, which WebGL2 lacks, map to their RGBA counterparts.
pub open spec fn texture_format_triple(f: TextureFormat) -> (u32, u32, u32) {
    match f {
        TextureFormat::R8Unorm => (gl::R8, gl::RED, gl::UNSIGNED_BYTE),
        TextureFormat::R8Snorm => (gl::R8_SNORM, gl::RED, gl::BYTE),
        TextureFormat::R8Uint => (gl::R8UI, gl::RED_INTEGER, gl::UNSIGNED_BYTE),
        TextureFormat::R8Sint => (gl::R8I, gl::RGBA_INTEGER, gl::INT),
        TextureFormat::R16Uint => (gl::R16UI, gl::RGBA_INTEGER, gl::UNSIGNED_INT),
        TextureFormat::R16Sint => (gl::R16I, gl::RGBA_INTEGER, gl::INT),
        TextureFormat::R16Float => (gl::R16F, gl::RED, gl::HALF_FLOAT),
        TextureFormat::Rg8Unorm => (gl::RG8, gl::RG, gl::UNSIGNED_BYTE),
        TextureFormat::Rg8Snorm => (gl::RG8_SNORM, gl::RG, gl::BYTE),
        TextureFormat::Rg8Uint => (gl::RG8UI, gl::RG_INTEGER, gl::UNSIGNED_BYTE),
        TextureFormat::Rg8Sint => (gl::RG8I, gl::RG_INTEGER, gl::BYTE),
        TextureFormat::R32Uint => (gl::R32UI, gl::RED_INTEGER, gl::UNSIGNED_INT),
        TextureFormat::R32Sint => (gl::R32I, gl::RED_INTEGER, gl::INT),
        TextureFormat::R32Float => (gl::R32F, gl::RED, gl::FLOAT),
        TextureFormat::Rg16Uint => (gl::RG16UI, gl::RG_INTEGER, gl::UNSIGNED_SHORT),
        TextureFormat::Rg16Sint => (gl::RG16I, gl::RG_INTEGER, gl::SHORT),
        TextureFormat::Rg16Float => (gl::RG16F, gl::RG, gl::HALF_FLOAT),
        TextureFormat::Rgba8Unorm => (gl::RGBA8, gl::RGBA, gl::UNSIGNED_BYTE),
        TextureFormat::Rgba8UnormSrgb => (gl::SRGB8_ALPHA8, gl::RGBA, gl::UNSIGNED_BYTE),
        TextureFormat::Rgba8Snorm => (gl::RGBA8_SNORM, gl::RGBA, gl::BYTE),
        TextureFormat::Rgba8Uint => (gl::RGBA8UI, gl::RGBA_INTEGER, gl::UNSIGNED_BYTE),
        TextureFormat::Rgba8Sint => (gl::RGBA8I, gl::RGBA_INTEGER, gl::BYTE),
        TextureFormat::Bgra8Unorm => (gl::RGBA8, gl::RGBA, gl::UNSIGNED_BYTE),
        TextureFormat::Bgra8UnormSrgb => (gl::SRGB8_ALPHA8, gl::RGBA, gl::UNSIGNED_BYTE),
        TextureFormat::Rgb10a2Unorm => (gl::RGB10_A2, gl::RGBA, gl::UNSIGNED_INT_2_10_10_10_REV),
        TextureFormat::Rg11b10Float => (gl::R11F_G11F_B10F, gl::RGB, gl::UNSIGNED_INT_10F_11F_11F_REV),
        TextureFormat::Rg32Uint => (gl::RG32UI, gl::RG_INTEGER, gl::UNSIGNED_INT),
        TextureFormat::Rg32Sint => (gl::RG32I, gl::RG_INTEGER, gl::INT),
        TextureFormat::Rg32Float => (gl::RG32F, gl::RG, gl::FLOAT),
        TextureFormat::Rgba16Uint => (gl::RGBA16UI, gl::RGBA_INTEGER, gl::UNSIGNED_SHORT),
        TextureFormat::Rgba16Sint => (gl::RGBA16I, gl::RGBA_INTEGER, gl::SHORT),
        TextureFormat::Rgba16Float => (gl::RGBA16F, gl::RGBA, gl::HALF_FLOAT),
        TextureFormat::Rgba32Uint => (gl::RGBA32UI, gl::RGBA_INTEGER, gl::UNSIGNED_INT),
        TextureFormat::Rgba32Sint => (gl::RGBA32I, gl::RGBA_INTEGER, gl::INT),
        TextureFormat::Rgba32Float => (gl::RGBA32F, gl::RGBA, gl::FLOAT),
        TextureFormat::Depth32Float => (gl::DEPTH_COMPONENT32F, gl::DEPTH_COMPONENT, gl::FLOAT),
        TextureFormat::Depth24Plus => (gl::DEPTH24_STENCIL8, gl::DEPTH_STENCIL, gl::UNSIGNED_INT_24_8),
        TextureFormat::Depth24PlusStencil8 => (gl::DEPTH24_STENCIL8, gl::DEPTH_STENCIL, gl::UNSIGNED_INT_24_8),
    }
}

/// The formats that WebGL2 cannot hold natively and that are replaced by a close equivalent.
pub open spec fn is_substituted_format(f: TextureFormat) -> bool {
    f == TextureFormat::Bgra8Unorm || f == TextureFormat::Bgra8UnormSrgb
}

/// The result of converting a pixel format: the native triple, and whether a substitute had
/// to be used (the caller reports that as a warning).
#[derive(Clone, Copy, Debug, PartialEq, Eq, Structural)]
pub struct FormatConversion {
    pub internal_format: u32,
    pub format: u32,
    pub component_type: u32,
    pub substituted: bool,
}

/// Converts a pixel format to its native triple.
pub fn texture_format_to_gl(f: TextureFormat) -> (r: FormatConversion)
    ensures
        (r.internal_format, r.format, r.component_type) == texture_format_triple(f),
        r.substituted == is_substituted_format(f),
{
    let (internal_format, format, component_type) = match f {
        TextureFormat::R8Unorm => (gl::R8, gl::RED, gl::UNSIGNED_BYTE),
        TextureFormat::R8Snorm => (gl::R8_SNORM, gl::RED, gl::BYTE),
        TextureFormat::R8Uint => (gl::R8UI, gl::RED_INTEGER, gl::UNSIGNED_BYTE),
        TextureFormat::R8Sint => (gl::R8I, gl::RGBA_INTEGER, gl::INT),
        TextureFormat::R16Uint => (gl::R16UI, gl::RGBA_INTEGER, gl::UNSIGNED_INT),
        TextureFormat::R16Sint => (gl::R16I, gl::RGBA_INTEGER, gl::INT),
        TextureFormat::R16Float => (gl::R16F, gl::RED, gl::HALF_FLOAT),
        TextureFormat::Rg8Unorm => (gl::RG8, gl::RG, gl::UNSIGNED_BYTE),
        TextureFormat::Rg8Snorm => (gl::RG8_SNORM, gl::RG, gl::BYTE),
        TextureFormat::Rg8Uint => (gl::RG8UI, gl::RG_INTEGER, gl::UNSIGNED_BYTE),
        TextureFormat::Rg8Sint => (gl::RG8I, gl::RG_INTEGER, gl::BYTE),
        TextureFormat::R32Uint => (gl::R32UI, gl::RED_INTEGER, gl::UNSIGNED_INT),
        TextureFormat::R32Sint => (gl::R32I, gl::RED_INTEGER, gl::INT),
        TextureFormat::R32Float => (gl::R32F, gl::RED, gl::FLOAT),
        TextureFormat::Rg16Uint => (gl::RG16UI, gl::RG_INTEGER, gl::UNSIGNED_SHORT),
        TextureFormat::Rg16Sint => (gl::RG16I, gl::RG_INTEGER, gl::SHORT),
        TextureFormat::Rg16Float => (gl::RG16F, gl::RG, gl::HALF_FLOAT),
        TextureFormat::Rgba8Unorm => (gl::RGBA8, gl::RGBA, gl::UNSIGNED_BYTE),
        TextureFormat::Rgba8UnormSrgb => (gl::SRGB8_ALPHA8, gl::RGBA, gl::UNSIGNED_BYTE),
        TextureFormat::Rgba8Snorm => (gl::RGBA8_SNORM, gl::RGBA, gl::BYTE),
        TextureFormat::Rgba8Uint => (gl::RGBA8UI, gl::RGBA_INTEGER, gl::UNSIGNED_BYTE),
        TextureFormat::Rgba8Sint => (gl::RGBA8I, gl::RGBA_INTEGER, gl::BYTE),
        TextureFormat::Bgra8Unorm => (gl::RGBA8, gl::RGBA, gl::UNSIGNED_BYTE),
        TextureFormat::Bgra8UnormSrgb => (gl::SRGB8_ALPHA8, gl::RGBA, gl::UNSIGNED_BYTE),
        TextureFormat::Rgb10a2Unorm => (gl::RGB10_A2, gl::RGBA, gl::UNSIGNED_INT_2_10_10_10_REV),
        TextureFormat::Rg11b10Float => (gl::R11F_G11F_B10F, gl::RGB, gl::UNSIGNED_INT_10F_11F_11F_REV),
        TextureFormat::Rg32Uint => (gl::RG32UI, gl::RG_INTEGER, gl::UNSIGNED_INT),
        TextureFormat::Rg32Sint => (gl::RG32I, gl::RG_INTEGER, gl::INT),
        TextureFormat::Rg32Float => (gl::RG32F, gl::RG, gl::FLOAT),
        TextureFormat::Rgba16Uint => (gl::RGBA16UI, gl::RGBA_INTEGER, gl::UNSIGNED_SHORT),
        TextureFormat::Rgba16Sint => (gl::RGBA16I, gl::RGBA_INTEGER, gl::SHORT),
        TextureFormat::Rgba16Float => (gl::RGBA16F, gl::RGBA, gl::HALF_FLOAT),
        TextureFormat::Rgba32Uint => (gl::RGBA32UI, gl::RGBA_INTEGER, gl::UNSIGNED_INT),
        TextureFormat::Rgba32Sint => (gl::RGBA32I, gl::RGBA_INTEGER, gl::INT),
        TextureFormat::Rgba32Float => (gl::RGBA32F, gl::RGBA, gl::FLOAT),
        TextureFormat::Depth32Float => (gl::DEPTH_COMPONENT32F, gl::DEPTH_COMPONENT, gl::FLOAT),
        TextureFormat::Depth24Plus => (gl::DEPTH24_STENCIL8, gl::DEPTH_STENCIL, gl::UNSIGNED_INT_24_8),
        TextureFormat::Depth24PlusStencil8 => (gl::DEPTH24_STENCIL8, gl::DEPTH_STENCIL, gl::UNSIGNED_INT_24_8),
    };
    let substituted = match f {
        TextureFormat::Bgra8Unorm | TextureFormat::Bgra8UnormSrgb => true,
        _ => false,
    };
    FormatConversion { internal_format, format, component_type, substituted }
}

/// Conversion into a backend-native representation.
pub trait WebGl2From<T>: Sized {
    /// What converting `val` gives.
    spec fn from_spec(val: T) -> Self;

    fn from(val: T) -> (r: Self)
        ensures
            r == Self::from_spec(val),
    ;
}

/// The reverse direction of [`WebGl2From`].
pub trait WebGl2Into<U>: Sized {
    /// What converting `self` gives.
    spec fn into_spec(self) -> U;

    fn webgl2_into(self) -> (r: U)
        ensures
            r == self.into_spec(),
    ;
}

/// A pixel format converts to its native triple.
impl WebGl2From<TextureFormat> for (u32, u32, u32) {
    open spec fn from_spec(val: TextureFormat) -> (u32, u32, u32) {
        texture_format_triple(val)
    }

    fn from(val: TextureFormat) -> (r: (u32, u32, u32)) {
        let c = texture_format_to_gl(val);
        (c.internal_format, c.format, c.component_type)
    }
}

/// A pixel format converts to its native triple together with whether a substitute was used,
/// which the caller reports as a warning.
impl WebGl2From<TextureFormat> for FormatConversion {
    open spec fn from_spec(val: TextureFormat) -> FormatConversion {
        FormatConversion {
            internal_format: texture_format_triple(val).0,
            format: texture_format_triple(val).1,
            component_type: texture_format_triple(val).2,
            substituted: is_substituted_format(val),
        }
    }

    fn from(val: TextureFormat) -> (r: FormatConversion) {
        texture_format_to_gl(val)
    }
}

impl WebGl2Into<(u32, u32, u32)> for TextureFormat {
    open spec fn into_spec(self) -> (u32, u32, u32) {
        texture_format_triple(self)
    }

    fn webgl2_into(self) -> (r: (u32, u32, u32)) {
        let c = texture_format_to_gl(self);
        (c.internal_format, c.format, c.component_type)
    }
}

impl WebGl2Into<FormatConversion> for TextureFormat {
    open spec fn into_spec(self) -> FormatConversion {
        <FormatConversion as WebGl2From<TextureFormat>>::from_spec(self)
    }

    fn webgl2_into(self) -> (r: FormatConversion) {
        texture_format_to_gl(self)
    }
}

/// Every format but the two BGRA ones converts to its own documented triple; the two BGRA
/// formats convert to the triple of their RGBA counterpart and are reported as substituted.
pub proof fn lemma_format_fallbacks()
    ensures
        texture_format_triple(TextureFormat::Bgra8Unorm) == texture_format_triple(
            TextureFormat::Rgba8Unorm,
        ),
        texture_format_triple(TextureFormat::Bgra8UnormSrgb) == texture_format_triple(
            TextureFormat::Rgba8UnormSrgb,
        ),
        texture_format_triple(TextureFormat::Bgra8Unorm) == (gl::RGBA8, gl::RGBA, gl::UNSIGNED_BYTE),
        texture_format_triple(TextureFormat::Bgra8UnormSrgb) == (
            gl::SRGB8_ALPHA8,
            gl::RGBA,
            gl::UNSIGNED_BYTE,
        ),
        forall|f: TextureFormat|
            #[trigger] is_substituted_format(f) <==> (f == TextureFormat::Bgra8Unorm || f
                == TextureFormat::Bgra8UnormSrgb),
{
}

/// Vertex attribute formats of the engine's vertex buffer layouts.
#[derive(Clone, Copy, Debug, PartialEq, Eq, Structural)]
pub enum VertexFormat {
    Uchar2,
    Uchar4,
    Char2,
    Char4,
    Uchar2Norm,
    Uchar4Norm,
    Char2Norm,
    Char4Norm,
    Ushort2,
    Ushort4,
    Short2,
    Short4,
    Ushort2Norm,
    Ushort4Norm,
    Short2Norm,
    Short4Norm,
    Half2,
    Half4,
    Float,
    Float2,
    Float3,
    Float4,
    Uint,
    Uint2,
    Uint3,
    Uint4,
    Int,
    Int2,
    Int3,
    Int4,
}

/// How a vertex attribute is described to the driver: component type, number of components
/// and whether integer data is normalized.
#[derive(Clone, Copy, Debug, PartialEq, Eq, Structural)]
pub struct GlVertexFormat {
    pub format: u32,
    pub nr_of_components: i32,
    pub normalized: bool,
}

/// The native description of each vertex format.
pub open spec fn vertex_format_spec(f: VertexFormat) -> (u32, i32, bool) {
    match f {
        VertexFormat::Uchar2 => (gl::BYTE, 2, false),
        VertexFormat::Uchar4 => (gl::BYTE, 4, false),
        VertexFormat::Char2 => (gl::BYTE, 2, false),
        VertexFormat::Char4 => (gl::BYTE, 4, false),
        VertexFormat::Uchar2Norm => (gl::BYTE, 2, true),
        VertexFormat::Uchar4Norm => (gl::BYTE, 4, true),
        VertexFormat::Char2Norm => (gl::BYTE, 2, true),
        VertexFormat::Char4Norm => (gl::BYTE, 4, true),
        VertexFormat::Ushort2 => (gl::UNSIGNED_SHORT, 2, false),
        VertexFormat::Ushort4 => (gl::UNSIGNED_SHORT, 4, false),
        VertexFormat::Short2 => (gl::SHORT, 2, false),
        VertexFormat::Short4 => (gl::SHORT, 4, false),
        VertexFormat::Ushort2Norm => (gl::UNSIGNED_SHORT, 2, true),
        VertexFormat::Ushort4Norm => (gl::UNSIGNED_SHORT, 4, true),
        VertexFormat::Short2Norm => (gl::SHORT, 2, true),
        VertexFormat::Short4Norm => (gl::SHORT, 4, true),
        VertexFormat::Half2 => (gl::HALF_FLOAT, 2, false),
        VertexFormat::Half4 => (gl::HALF_FLOAT, 4, false),
        VertexFormat::Float => (gl::FLOAT, 1, false),
        VertexFormat::Float2 => (gl::FLOAT, 2, false),
        VertexFormat::Float3 => (gl::FLOAT, 3, false),
        VertexFormat::Float4 => (gl::FLOAT, 4, false),
        VertexFormat::Uint => (gl::UNSIGNED_INT, 1, false),
        VertexFormat::Uint2 => (gl::UNSIGNED_INT, 2, false),
        VertexFormat::Uint3 => (gl::UNSIGNED_INT, 3, false),
        VertexFormat::Uint4 => (gl::UNSIGNED_INT, 4, false),
        VertexFormat::Int => (gl::INT, 1, false),
        VertexFormat::Int2 => (gl::INT, 2, false),
        VertexFormat::Int3 => (gl::INT, 3, false),
        VertexFormat::Int4 => (gl::INT, 4, false),
    }
}

/// Describes a vertex format to the driver.
pub fn gl_vertex_format(vertex_format: &VertexFormat) -> (r: GlVertexFormat)
    ensures
        (r.format, r.nr_of_components, r.normalized) == vertex_format_spec(*vertex_format),
{
    let (format, nr_of_components, normalized): (u32, i32, bool) = match vertex_format {
        VertexFormat::Uchar2 => (gl::BYTE, 2, false),
        VertexFormat::Uchar4 => (gl::BYTE, 4, false),
        VertexFormat::Char2 => (gl::BYTE, 2, false),
        VertexFormat::Char4 => (gl::BYTE, 4, false),
        VertexFormat::Uchar2Norm => (gl::BYTE, 2, true),
        VertexFormat::Uchar4Norm => (gl::BYTE, 4, true),
        VertexFormat::Char2Norm => (gl::BYTE, 2, true),
        VertexFormat::Char4Norm => (gl::BYTE, 4, true),
        VertexFormat::Ushort2 => (gl::UNSIGNED_SHORT, 2, false),
        VertexFormat::Ushort4 => (gl::UNSIGNED_SHORT, 4, false),
        VertexFormat::Short2 => (gl::SHORT, 2, false),
        VertexFormat::Short4 => (gl::SHORT, 4, false),
        VertexFormat::Ushort2Norm => (gl::UNSIGNED_SHORT, 2, true),
        VertexFormat::Ushort4Norm => (gl::UNSIGNED_SHORT, 4, true),
        VertexFormat::Short2Norm => (gl::SHORT, 2, true),
        VertexFormat::Short4Norm => (gl::SHORT, 4, true),
        VertexFormat::Half2 => (gl::HALF_FLOAT, 2, false),
        VertexFormat::Half4 => (gl::HALF_FLOAT, 4, false),
        VertexFormat::Float => (gl::FLOAT, 1, false),
        VertexFormat::Float2 => (gl::FLOAT, 2, false),
        VertexFormat::Float3 => (gl::FLOAT, 3, false),
        VertexFormat::Float4 => (gl::FLOAT, 4, false),
        VertexFormat::Uint => (gl::UNSIGNED_INT, 1, false),
        VertexFormat::Uint2 => (gl::UNSIGNED_INT, 2, false),
        VertexFormat::Uint3 => (gl::UNSIGNED_INT, 3, false),
        VertexFormat::Uint4 => (gl::UNSIGNED_INT, 4, false),
        VertexFormat::Int => (gl::INT, 1, false),
        VertexFormat::Int2 => (gl::INT, 2, false),
        VertexFormat::Int3 => (gl::INT, 3, false),
        VertexFormat::Int4 => (gl::INT, 4, false),
    };
    GlVertexFormat { format, nr_of_components, normalized }
}

/// The vertex format that reflection assigns to an active attribute of the given native type:
/// float, int and unsigned-int scalars and vectors of one to four components.
pub open spec fn attribute_format_of(gl_type: u32) -> Option<VertexFormat> {
    if gl_type == gl::FLOAT {
        Some(VertexFormat::Float)
    } else if gl_type == gl::FLOAT_VEC2 {
        Some(VertexFormat::Float2)
    } else if gl_type == gl::FLOAT_VEC3 {
        Some(VertexFormat::Float3)
    } else if gl_type == gl::FLOAT_VEC4 {
        Some(VertexFormat::Float4)
    } else if gl_type == gl::INT {
        Some(VertexFormat::Int)
    } else if gl_type == gl::INT_VEC2 {
        Some(VertexFormat::Int2)
    } else if gl_type == gl::INT_VEC3 {
        Some(VertexFormat::Int3)
    } else if gl_type == gl::INT_VEC4 {
        Some(VertexFormat::Int4)
    } else if gl_type == gl::UNSIGNED_INT {
        Some(VertexFormat::Uint)
    } else if gl_type == gl::UNSIGNED_INT_VEC2 {
        Some(VertexFormat::Uint2)
    } else if gl_type == gl::UNSIGNED_INT_VEC3 {
        Some(VertexFormat::Uint3)
    } else if gl_type == gl::UNSIGNED_INT_VEC4 {
        Some(VertexFormat::Uint4)
    } else {
        None
    }
}

/// Whether reflection recognises an active attribute of the given native type.
pub fn is_attribute_type(gl_type: u32) -> (r: bool)
    ensures
        r == attribute_format_of(gl_type).is_some(),
{
    gl_type == gl::FLOAT || gl_type == gl::FLOAT_VEC2 || gl_type == gl::FLOAT_VEC3 || gl_type == gl::FLOAT_VEC4 || gl_type == gl::INT || gl_type == gl::INT_VEC2 || gl_type == gl::INT_VEC3 || gl_type == gl::INT_VEC4 || gl_type == gl::UNSIGNED_INT || gl_type == gl::UNSIGNED_INT_VEC2 || gl_type == gl::UNSIGNED_INT_VEC3 || gl_type == gl::UNSIGNED_INT_VEC4
}

/// The vertex format of an active attribute of a recognised native type.
pub fn get_vertex_format(gl_type: u32) -> (r: VertexFormat)
    requires
        attribute_format_of(gl_type).is_some(),
    ensures
        attribute_format_of(gl_type) == Some(r),
{
    if gl_type == gl::FLOAT {
        VertexFormat::Float
    } else if gl_type == gl::FLOAT_VEC2 {
        VertexFormat::Float2
    } else if gl_type == gl::FLOAT_VEC3 {
        VertexFormat::Float3
    } else if gl_type == gl::FLOAT_VEC4 {
        VertexFormat::Float4
    } else if gl_type == gl::INT {
        VertexFormat::Int
    } else if gl_type == gl::INT_VEC2 {
        VertexFormat::Int2
    } else if gl_type == gl::INT_VEC3 {
        VertexFormat::Int3
    } else if gl_type == gl::INT_VEC4 {
        VertexFormat::Int4
    } else if gl_type == gl::UNSIGNED_INT {
        VertexFormat::Uint
    } else if gl_type == gl::UNSIGNED_INT_VEC2 {
        VertexFormat::Uint2
    } else if gl_type == gl::UNSIGNED_INT_VEC3 {
        VertexFormat::Uint3
    } else {
        VertexFormat::Uint4
    }
}

} // verus!
