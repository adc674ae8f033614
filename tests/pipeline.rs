use bevy_webgl2::formats::VertexFormat;
use bevy_webgl2::gl;
use bevy_webgl2::layout::{InputStepMode, VertexAttribute, VertexBufferLayout};
use bevy_webgl2::pipeline::{
    attribute_pointers, scissors_state, setup_vao, GlVertexAttribute,
    GlVertexBufferDescripror, IndexFormat, PointerKind, VaoError, VaoState,
};
use bevy_webgl2::pass::{
    BlendFactor, BlendOperation, BlendState, ColorTargetState, CompareFunction, CullMode,
    FrontFace, PrimitiveTopology,
};
use bevy_webgl2::pipeline::{pipeline_gl_state, PrimitiveState, ScissorsState, WebGL2Pipeline};
use bevy_webgl2::resources::Buffer;

#[test]
fn same_vertex_buffer_does_not_mark_dirty() {
    let mut s = VaoState::new();
    assert!(!s.update_vao);
    s.set_vertex_buffer(7);
    assert!(s.update_vao);
    assert!(s.setup());
    assert!(!s.update_vao);
    s.set_vertex_buffer(7);
    assert!(!s.update_vao);
    assert!(!s.setup());
    s.set_vertex_buffer(8);
    assert!(s.update_vao);
    assert_eq!(s.vertex_buffer, Some(8));
}

#[test]
fn index_buffer_tracking() {
    let mut s = VaoState::new();
    assert_eq!(s.index_format, IndexFormat::Uint32);
    s.set_index_buffer(3, IndexFormat::Uint16);
    assert!(s.update_vao);
    assert_eq!(s.index_format, IndexFormat::Uint16);
    s.setup();
    s.set_index_buffer(3, IndexFormat::Uint32);
    assert!(!s.update_vao);
    assert_eq!(s.index_format, IndexFormat::Uint16);
}

fn attr(name: &str, offset: u64, format: VertexFormat, loc: u32) -> VertexAttribute {
    VertexAttribute { name: name.to_string(), offset, format, shader_location: loc }
}

#[test]
fn attribute_pointers_choose_entry_points() {
    let layout = VertexBufferLayout {
        name: "mesh".to_string(),
        stride: 28,
        step_mode: InputStepMode::Vertex,
        attributes: vec![
            attr("pos", 0, VertexFormat::Float3, 0),
            attr("unused", 12, VertexFormat::Float, 1),
            attr("joint", 16, VertexFormat::Uint, 2),
            attr("uv", 20, VertexFormat::Half2, 3),
        ],
    };
    let d = GlVertexBufferDescripror::from(&layout, &vec![0, -1, 2, 1]);
    assert_eq!(d.stride, 28);
    assert_eq!(d.attributes.len(), 4);
    let p = attribute_pointers(&d);
    assert_eq!(p.len(), 3);
    assert_eq!((p[0].location, p[0].kind, p[0].nr_of_components, p[0].format), (0, PointerKind::Float, 3, gl::FLOAT));
    assert_eq!((p[1].location, p[1].kind, p[1].offset), (2, PointerKind::Integer, 16));
    assert_eq!((p[2].location, p[2].kind, p[2].format), (1, PointerKind::Float, gl::HALF_FLOAT));
    assert_eq!(p[2].stride, 28);
}

#[test]
fn vertex_attribute_from_layout() {
    let a = GlVertexAttribute::from(&attr("color", 8, VertexFormat::Uchar4Norm, 0), 5);
    assert_eq!(a.name, "color");
    assert_eq!(a.offset, 8);
    assert_eq!(a.attrib_location, 5);
    assert!(a.format.normalized);
    assert_eq!(a.format.nr_of_components, 4);
}

#[test]
fn scissor_is_flipped_to_bottom_up() {
    let s = scissors_state(10, 20, 30, 40, 600);
    assert_eq!((s.x, s.y, s.w, s.h), (10, 540, 30, 40));
}

fn one_descriptor() -> Vec<GlVertexBufferDescripror> {
    let layout = VertexBufferLayout {
        name: "mesh".to_string(),
        stride: 12,
        step_mode: InputStepMode::Vertex,
        attributes: vec![attr("pos", 0, VertexFormat::Float3, 0)],
    };
    vec![GlVertexBufferDescripror::from(&layout, &vec![0])]
}

#[test]
fn vao_is_rebuilt_only_when_dirty() {
    let d = one_descriptor();
    let vb = Buffer::WebGlBuffer(3);
    let mut s = VaoState::new();
    assert!(setup_vao(&mut s, &d, Some(&vb), None).unwrap().is_none());
    s.set_vertex_buffer(3);
    let setup = setup_vao(&mut s, &d, Some(&vb), None).unwrap().unwrap();
    assert_eq!(setup.vertex_buffer, Some(3));
    assert_eq!(setup.index_buffer, None);
    assert_eq!(setup.pointers.len(), 1);
    assert!(!s.update_vao);
    assert!(setup_vao(&mut s, &d, Some(&vb), None).unwrap().is_none());
}

#[test]
fn vao_refuses_in_memory_buffers() {
    let d = one_descriptor();
    let host = Buffer::Data(vec![0, 0, 0, 0]);
    let mut s = VaoState::new();
    s.set_vertex_buffer(1);
    assert_eq!(setup_vao(&mut s, &d, Some(&host), None).err(), Some(VaoError::HostBufferBound));
}

fn pipeline(color_targets: Vec<ColorTargetState>, scissors: Option<ScissorsState>) -> WebGL2Pipeline {
    WebGL2Pipeline {
        shader_stages: (1, 2),
        vertex_buffer_descriptors: one_descriptor(),
        vao: 0,
        vao_state: VaoState::new(),
        color_target_states: color_targets,
        depth_compare: Some(CompareFunction::Less),
        primitive: PrimitiveState {
            topology: PrimitiveTopology::TriangleList,
            front_face: FrontFace::Cw,
            cull_mode: CullMode::Back,
        },
        scissors_state: scissors,
    }
}

#[test]
fn pipeline_state_values() {
    let blend = BlendState {
        src_factor: BlendFactor::One,
        dst_factor: BlendFactor::OneMinusSrcAlpha,
        operation: BlendOperation::Subtract,
    };
    let p = pipeline(
        vec![ColorTargetState { color_blend: blend, alpha_blend: blend }],
        Some(ScissorsState { x: 1, y: 2, w: 3, h: 4 }),
    );
    let s = pipeline_gl_state(&p);
    assert_eq!(s.cull_face, Some(gl::BACK));
    assert_eq!(s.front_face, gl::CW);
    assert_eq!(s.depth_func, Some(gl::LESS));
    let b = s.blend.unwrap();
    assert_eq!((b.src_color, b.dst_color, b.equation), (gl::ONE, gl::ONE_MINUS_SRC_ALPHA, gl::FUNC_SUBTRACT));
    assert_eq!(s.scissors, Some(ScissorsState { x: 1, y: 2, w: 3, h: 4 }));
    let p = pipeline(vec![], None);
    let s = pipeline_gl_state(&p);
    assert!(s.blend.is_none());
    assert!(s.scissors.is_none());
}
