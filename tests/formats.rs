use bevy_webgl2::formats::{
    get_vertex_format, gl_vertex_format, FormatConversion, is_attribute_type, texture_format_to_gl, TextureFormat,
    VertexFormat, WebGl2From, WebGl2Into,
};
use bevy_webgl2::gl;

#[test]
fn texture_format_table() {
    let table: Vec<(TextureFormat, (u32, u32, u32), bool)> = vec![
        (TextureFormat::R8Unorm, (gl::R8, gl::RED, gl::UNSIGNED_BYTE), false),
        (TextureFormat::R8Snorm, (gl::R8_SNORM, gl::RED, gl::BYTE), false),
        (TextureFormat::R8Uint, (gl::R8UI, gl::RED_INTEGER, gl::UNSIGNED_BYTE), false),
        (TextureFormat::R8Sint, (gl::R8I, gl::RGBA_INTEGER, gl::INT), false),
        (TextureFormat::R16Uint, (gl::R16UI, gl::RGBA_INTEGER, gl::UNSIGNED_INT), false),
        (TextureFormat::R16Sint, (gl::R16I, gl::RGBA_INTEGER, gl::INT), false),
        (TextureFormat::R16Float, (gl::R16F, gl::RED, gl::HALF_FLOAT), false),
        (TextureFormat::Rg8Unorm, (gl::RG8, gl::RG, gl::UNSIGNED_BYTE), false),
        (TextureFormat::Rg8Snorm, (gl::RG8_SNORM, gl::RG, gl::BYTE), false),
        (TextureFormat::Rg8Uint, (gl::RG8UI, gl::RG_INTEGER, gl::UNSIGNED_BYTE), false),
        (TextureFormat::Rg8Sint, (gl::RG8I, gl::RG_INTEGER, gl::BYTE), false),
        (TextureFormat::R32Uint, (gl::R32UI, gl::RED_INTEGER, gl::UNSIGNED_INT), false),
        (TextureFormat::R32Sint, (gl::R32I, gl::RED_INTEGER, gl::INT), false),
        (TextureFormat::R32Float, (gl::R32F, gl::RED, gl::FLOAT), false),
        (TextureFormat::Rg16Uint, (gl::RG16UI, gl::RG_INTEGER, gl::UNSIGNED_SHORT), false),
        (TextureFormat::Rg16Sint, (gl::RG16I, gl::RG_INTEGER, gl::SHORT), false),
        (TextureFormat::Rg16Float, (gl::RG16F, gl::RG, gl::HALF_FLOAT), false),
        (TextureFormat::Rgba8Unorm, (gl::RGBA8, gl::RGBA, gl::UNSIGNED_BYTE), false),
        (TextureFormat::Rgba8UnormSrgb, (gl::SRGB8_ALPHA8, gl::RGBA, gl::UNSIGNED_BYTE), false),
        (TextureFormat::Rgba8Snorm, (gl::RGBA8_SNORM, gl::RGBA, gl::BYTE), false),
        (TextureFormat::Rgba8Uint, (gl::RGBA8UI, gl::RGBA_INTEGER, gl::UNSIGNED_BYTE), false),
        (TextureFormat::Rgba8Sint, (gl::RGBA8I, gl::RGBA_INTEGER, gl::BYTE), false),
        (TextureFormat::Bgra8Unorm, (gl::RGBA8, gl::RGBA, gl::UNSIGNED_BYTE), true),
        (TextureFormat::Bgra8UnormSrgb, (gl::SRGB8_ALPHA8, gl::RGBA, gl::UNSIGNED_BYTE), true),
        (TextureFormat::Rgb10a2Unorm, (gl::RGB10_A2, gl::RGBA, gl::UNSIGNED_INT_2_10_10_10_REV), false),
        (TextureFormat::Rg11b10Float, (gl::R11F_G11F_B10F, gl::RGB, gl::UNSIGNED_INT_10F_11F_11F_REV), false),
        (TextureFormat::Rg32Uint, (gl::RG32UI, gl::RG_INTEGER, gl::UNSIGNED_INT), false),
        (TextureFormat::Rg32Sint, (gl::RG32I, gl::RG_INTEGER, gl::INT), false),
        (TextureFormat::Rg32Float, (gl::RG32F, gl::RG, gl::FLOAT), false),
        (TextureFormat::Rgba16Uint, (gl::RGBA16UI, gl::RGBA_INTEGER, gl::UNSIGNED_SHORT), false),
        (TextureFormat::Rgba16Sint, (gl::RGBA16I, gl::RGBA_INTEGER, gl::SHORT), false),
        (TextureFormat::Rgba16Float, (gl::RGBA16F, gl::RGBA, gl::HALF_FLOAT), false),
        (TextureFormat::Rgba32Uint, (gl::RGBA32UI, gl::RGBA_INTEGER, gl::UNSIGNED_INT), false),
        (TextureFormat::Rgba32Sint, (gl::RGBA32I, gl::RGBA_INTEGER, gl::INT), false),
        (TextureFormat::Rgba32Float, (gl::RGBA32F, gl::RGBA, gl::FLOAT), false),
        (TextureFormat::Depth32Float, (gl::DEPTH_COMPONENT32F, gl::DEPTH_COMPONENT, gl::FLOAT), false),
        (TextureFormat::Depth24Plus, (gl::DEPTH24_STENCIL8, gl::DEPTH_STENCIL, gl::UNSIGNED_INT_24_8), false),
        (TextureFormat::Depth24PlusStencil8, (gl::DEPTH24_STENCIL8, gl::DEPTH_STENCIL, gl::UNSIGNED_INT_24_8), false),
    ];
    assert_eq!(table.len(), 38);
    for (format, triple, substituted) in table {
        let c = texture_format_to_gl(format);
        assert_eq!((c.internal_format, c.format, c.component_type), triple, "{:?}", format);
        assert_eq!(c.substituted, substituted, "{:?}", format);
    }
}

#[test]
fn texture_format_numeric_values() {
    let c = texture_format_to_gl(TextureFormat::Rgba8Unorm);
    assert_eq!((c.internal_format, c.format, c.component_type), (0x8058, 0x1908, 0x1401));
    let c = texture_format_to_gl(TextureFormat::Depth32Float);
    assert_eq!((c.internal_format, c.format, c.component_type), (0x8CAC, 0x1902, 0x1406));
    let c = texture_format_to_gl(TextureFormat::Bgra8UnormSrgb);
    assert_eq!((c.internal_format, c.format, c.component_type), (0x8C43, 0x1908, 0x1401));
}

#[test]
fn bgra_formats_fall_back_to_rgba() {
    let bgra = texture_format_to_gl(TextureFormat::Bgra8Unorm);
    let rgba = texture_format_to_gl(TextureFormat::Rgba8Unorm);
    assert!(bgra.substituted);
    assert!(!rgba.substituted);
    assert_eq!(
        (bgra.internal_format, bgra.format, bgra.component_type),
        (rgba.internal_format, rgba.format, rgba.component_type)
    );
    let bgra_srgb = texture_format_to_gl(TextureFormat::Bgra8UnormSrgb);
    let rgba_srgb = texture_format_to_gl(TextureFormat::Rgba8UnormSrgb);
    assert!(bgra_srgb.substituted);
    assert_eq!(
        (bgra_srgb.internal_format, bgra_srgb.format, bgra_srgb.component_type),
        (rgba_srgb.internal_format, rgba_srgb.format, rgba_srgb.component_type)
    );
}

#[test]
fn webgl2_conversion_traits() {
    let a: (u32, u32, u32) = TextureFormat::R32Float.webgl2_into();
    let b: (u32, u32, u32) = <(u32, u32, u32) as WebGl2From<TextureFormat>>::from(TextureFormat::R32Float);
    assert_eq!(a, (gl::R32F, gl::RED, gl::FLOAT));
    assert_eq!(a, b);
    let c: FormatConversion = TextureFormat::Bgra8Unorm.webgl2_into();
    assert!(c.substituted);
    assert_eq!((c.internal_format, c.format, c.component_type), (gl::RGBA8, gl::RGBA, gl::UNSIGNED_BYTE));
    let d = <FormatConversion as WebGl2From<TextureFormat>>::from(TextureFormat::Rg16Float);
    assert!(!d.substituted);
    assert_eq!((d.internal_format, d.format, d.component_type), (gl::RG16F, gl::RG, gl::HALF_FLOAT));
}

#[test]
fn vertex_formats() {
    let f = gl_vertex_format(&VertexFormat::Float3);
    assert_eq!((f.format, f.nr_of_components, f.normalized), (gl::FLOAT, 3, false));
    let f = gl_vertex_format(&VertexFormat::Uchar4Norm);
    assert_eq!((f.format, f.nr_of_components, f.normalized), (gl::BYTE, 4, true));
    let f = gl_vertex_format(&VertexFormat::Ushort2Norm);
    assert_eq!((f.format, f.nr_of_components, f.normalized), (gl::UNSIGNED_SHORT, 2, true));
    let f = gl_vertex_format(&VertexFormat::Half4);
    assert_eq!((f.format, f.nr_of_components, f.normalized), (gl::HALF_FLOAT, 4, false));
    let f = gl_vertex_format(&VertexFormat::Int);
    assert_eq!((f.format, f.nr_of_components, f.normalized), (gl::INT, 1, false));
    let f = gl_vertex_format(&VertexFormat::Uint2);
    assert_eq!((f.format, f.nr_of_components, f.normalized), (0x1405, 2, false));
}

#[test]
fn attribute_types() {
    assert_eq!(get_vertex_format(gl::FLOAT_VEC3), VertexFormat::Float3);
    assert_eq!(get_vertex_format(gl::INT_VEC2), VertexFormat::Int2);
    assert_eq!(get_vertex_format(gl::UNSIGNED_INT_VEC4), VertexFormat::Uint4);
    assert_eq!(get_vertex_format(0x1406), VertexFormat::Float);
    assert!(is_attribute_type(gl::FLOAT_VEC2));
    assert!(!is_attribute_type(gl::SAMPLER_2D));
    assert!(!is_attribute_type(0));
}
