use bevy_webgl2::gl;
use bevy_webgl2::pass::{
    blend_equation, clear_kind, cull_face, depth_func, draw_arrays,
    draw_buffers, draw_elements, front_face, gl_blend, primitive_mode, read_pixels_format,
    swapchain_clear_mask, targets_swapchain, BlendFactor, BlendOperation, BlendState, ClearKind,
    ColorTargetState, CompareFunction, CullMode, FrontFace, PrimitiveTopology,
};
use bevy_webgl2::pipeline::IndexFormat;

#[test]
fn indexed_draw_offsets_in_bytes() {
    let d = draw_elements(PrimitiveTopology::TriangleList, IndexFormat::Uint16, 6, 18, 0, 3);
    assert_eq!((d.mode, d.count, d.index_type, d.byte_offset, d.instance_count), (gl::TRIANGLES, 12, gl::UNSIGNED_SHORT, 12, 3));
    let d = draw_elements(PrimitiveTopology::LineStrip, IndexFormat::Uint32, 6, 18, 2, 3);
    assert_eq!((d.mode, d.index_type, d.byte_offset, d.instance_count), (gl::LINE_STRIP, gl::UNSIGNED_INT, 24, 1));
    let d = draw_arrays(PrimitiveTopology::PointList, 4, 10, 1, 4);
    assert_eq!((d.mode, d.first, d.count, d.instance_count), (gl::POINTS, 4, 6, 3));
    assert_eq!(primitive_mode(PrimitiveTopology::TriangleStrip), 5);
}

#[test]
fn fixed_function_state() {
    assert_eq!(cull_face(CullMode::Disabled), None);
    assert_eq!(cull_face(CullMode::Front), Some(gl::FRONT));
    assert_eq!(cull_face(CullMode::Back), Some(0x0405));
    assert_eq!(front_face(FrontFace::Ccw), gl::CCW);
    assert_eq!(front_face(FrontFace::Cw), 0x0900);
    assert_eq!(depth_func(CompareFunction::LessEqual), gl::LEQUAL);
    assert_eq!(depth_func(CompareFunction::Always), 0x0207);
    assert_eq!(blend_equation(BlendOperation::ReverseSubtract), gl::FUNC_REVERSE_SUBTRACT);
}

#[test]
fn blend_state() {
    let s = ColorTargetState {
        color_blend: BlendState {
            src_factor: BlendFactor::SrcAlpha,
            dst_factor: BlendFactor::OneMinusSrcAlpha,
            operation: BlendOperation::Add,
        },
        alpha_blend: BlendState {
            src_factor: BlendFactor::One,
            dst_factor: BlendFactor::Zero,
            operation: BlendOperation::Max,
        },
    };
    let b = gl_blend(s);
    assert_eq!(
        (b.src_color, b.dst_color, b.src_alpha, b.dst_alpha, b.equation),
        (gl::SRC_ALPHA, gl::ONE_MINUS_SRC_ALPHA, gl::ONE, gl::ZERO, gl::FUNC_ADD)
    );
}

#[test]
fn pass_targets() {
    assert!(targets_swapchain(1, 1, false));
    assert!(targets_swapchain(2, 1, true));
    assert!(!targets_swapchain(2, 1, false));
    assert_eq!(swapchain_clear_mask(true, true), 0x4100);
    assert_eq!(swapchain_clear_mask(false, true), 0x0100);
    assert_eq!(swapchain_clear_mask(false, false), 0);
    assert_eq!(draw_buffers(&vec![true, false, true]), vec![0x8CE0, 0, 0x8CE2]);
    assert_eq!(clear_kind(0), ClearKind::Float);
    assert_eq!(clear_kind(2), ClearKind::UnsignedInt);
}

#[test]
fn read_back_formats() {
    assert_eq!(read_pixels_format(gl::UNSIGNED_BYTE), Some(gl::RGBA));
    assert_eq!(read_pixels_format(gl::INT), Some(gl::RGBA_INTEGER));
    assert_eq!(read_pixels_format(gl::UNSIGNED_INT), Some(gl::RGBA_INTEGER));
    assert_eq!(read_pixels_format(gl::FLOAT), None);
}
