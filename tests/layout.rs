use bevy_webgl2::annotations::{Annotation, GlBindGroups};
use bevy_webgl2::formats::VertexFormat;
use bevy_webgl2::gl;
use bevy_webgl2::layout::{
    attributes_recognised_exec, reflect_layout, ActiveInfo, BindType, InputStepMode, PipelineLayout, UniformBlockInfo,
    UniformProperty,
};
use bevy_webgl2::shader::{compile_shader, link_program, GlProgram, GlShader};

fn block(name: &str, size: u32) -> UniformBlockInfo {
    UniformBlockInfo { name: name.to_string(), data_size: size }
}

fn info(name: &str, t: u32) -> ActiveInfo {
    ActiveInfo { name: name.to_string(), type_: t }
}

fn program(annotations: &[(&str, u32, u32)]) -> GlProgram {
    let mut g = GlBindGroups::new();
    for (n, set, binding) in annotations {
        g.insert(Annotation { name: n.to_string(), set: *set, binding: *binding });
    }
    GlProgram::new(1, g)
}

fn places(layout: &PipelineLayout) -> Vec<(u32, String, u32)> {
    let mut r = Vec::new();
    for g in layout.bind_groups.iter() {
        for b in g.bindings.iter() {
            r.push((g.index, b.name.clone(), b.index));
        }
    }
    r
}

#[test]
fn end_to_end_single_annotated_block() {
    let vs = "#version 300 es\nuniform Transform { // set = 1, binding = 0\n    mat4 model;\n};\nin vec3 position;\nvoid main() { gl_Position = model * vec4(position, 1.0); }\n";
    let fs = "#version 300 es\nprecision mediump float;\nout vec4 color;\nvoid main() { color = vec4(1.0); }\n";
    let v = compile_shader(vs, Ok(10)).ok().unwrap();
    let f = compile_shader(fs, Ok(11)).ok().unwrap();
    let shaders: Vec<GlShader> = vec![v, f];
    let p = link_program(&shaders, Ok(20)).ok().unwrap();
    assert_eq!(p.program, 20);
    let layout = reflect_layout(
        &p,
        &vec![info("position", gl::FLOAT_VEC3)],
        &vec![block("Transform", 64)],
        &vec![info("model", 0x8B5C)],
    );
    assert_eq!(layout.bind_groups.len(), 1);
    let g = &layout.bind_groups[0];
    assert_eq!(g.index, 1);
    assert_eq!(g.bindings.len(), 1);
    assert_eq!(g.bindings[0].index, 0);
    assert_eq!(g.bindings[0].name, "Transform");
    assert_eq!(g.bindings[0].bind_type, BindType::Uniform(UniformProperty::UIntArray(16)));
    assert!(g.bindings[0].shader_stage.vertex && g.bindings[0].shader_stage.fragment);
    assert!(layout.bind_groups.iter().all(|g| g.index != 0));
    assert_eq!(layout.vertex_buffer_descriptors.len(), 1);
    let vb = &layout.vertex_buffer_descriptors[0];
    assert_eq!(vb.name, "position");
    assert_eq!(vb.stride, 0);
    assert_eq!(vb.step_mode, InputStepMode::Vertex);
    assert_eq!(vb.attributes[0].format, VertexFormat::Float3);
    assert_eq!(vb.attributes[0].shader_location, 0);
}

#[test]
fn layout_is_sorted_by_group_then_binding() {
    let p = program(&[("B", 3, 2), ("C", 3, 0), ("tex", 1, 5)]);
    let layout = reflect_layout(
        &p,
        &vec![],
        &vec![block("A", 16), block("B", 32), block("CameraPosition", 16), block("C", 8)],
        &vec![info("other", gl::SAMPLER_2D), info("tex", gl::SAMPLER_2D), info("m", gl::FLOAT)],
    );
    let got = places(&layout);
    // Group 0 is the camera's; A takes group 2 (1 and 3 are annotated), "other" group 4.
    assert_eq!(
        got,
        vec![
            (0, "CameraPosition".to_string(), 1),
            (1, "tex".to_string(), 5),
            (2, "A".to_string(), 0),
            (3, "C".to_string(), 0),
            (3, "B".to_string(), 2),
            (4, "other".to_string(), 0),
        ]
    );
    for w in layout.bind_groups.windows(2) {
        assert!(w[0].index < w[1].index);
    }
    for g in layout.bind_groups.iter() {
        for w in g.bindings.windows(2) {
            assert!(w[0].index <= w[1].index);
        }
    }
}

#[test]
fn unannotated_blocks_take_free_groups_in_order() {
    let p = program(&[]);
    let layout = reflect_layout(
        &p,
        &vec![],
        &vec![block("X", 4), block("Y", 4), block("Z", 4)],
        &vec![info("s", gl::INT_SAMPLER_2D), info("u", gl::UNSIGNED_INT_SAMPLER_2D)],
    );
    let got = places(&layout);
    assert_eq!(
        got,
        vec![
            (0, "X".to_string(), 0),
            (1, "Y".to_string(), 0),
            (2, "Z".to_string(), 0),
            (3, "s".to_string(), 0),
            (4, "u".to_string(), 0),
        ]
    );
    assert_eq!(layout.bind_groups[3].bindings[0].bind_type, BindType::Texture);
    assert!(!layout.bind_groups[3].bindings[0].shader_stage.vertex);
}

#[test]
fn annotation_takes_precedence_over_free_group() {
    // Without the annotation, Late would be placed at group 2 after First and Second.
    let p = program(&[("Late", 2, 1)]);
    let layout = reflect_layout(
        &p,
        &vec![],
        &vec![block("First", 4), block("Second", 4), block("Third", 4), block("Late", 4)],
        &vec![],
    );
    let got = places(&layout);
    assert_eq!(
        got,
        vec![
            (0, "First".to_string(), 0),
            (1, "Second".to_string(), 0),
            (2, "Late".to_string(), 1),
            (3, "Third".to_string(), 0),
        ]
    );
}

#[test]
fn camera_view_proj_ignores_its_annotation() {
    let p = program(&[("CameraViewProj", 5, 3)]);
    let layout = reflect_layout(&p, &vec![], &vec![block("Mesh", 4), block("CameraViewProj", 64)], &vec![]);
    let got = places(&layout);
    // Group 5 is reserved by the annotation, group 0 by the camera: Mesh takes group 1.
    assert_eq!(got, vec![(0, "CameraViewProj".to_string(), 0), (1, "Mesh".to_string(), 0)]);
    let b = &layout.bind_groups[0].bindings[0];
    assert_eq!(b.bind_type, BindType::Uniform(UniformProperty::Mat4Struct));
    assert!(b.shader_stage.vertex && b.shader_stage.fragment);
}

#[test]
fn camera_position_is_fragment_binding_one() {
    let p = program(&[]);
    let layout = reflect_layout(
        &p,
        &vec![],
        &vec![block("CameraPosition", 16), block("CameraViewProj", 64)],
        &vec![],
    );
    let got = places(&layout);
    assert_eq!(
        got,
        vec![(0, "CameraViewProj".to_string(), 0), (0, "CameraPosition".to_string(), 1)]
    );
    let b = &layout.bind_groups[0].bindings[1];
    assert_eq!(b.bind_type, BindType::Uniform(UniformProperty::Vec4Struct));
    assert!(!b.shader_stage.vertex && b.shader_stage.fragment);
}

#[test]
fn builtin_attributes_are_skipped() {
    let p = program(&[]);
    let layout = reflect_layout(
        &p,
        &vec![
            info("gl_VertexID", gl::INT),
            info("normal", gl::FLOAT_VEC3),
            info("gl_InstanceID", gl::INT),
            info("joint", gl::UNSIGNED_INT_VEC4),
        ],
        &vec![],
        &vec![],
    );
    assert_eq!(layout.bind_groups.len(), 0);
    let v = &layout.vertex_buffer_descriptors;
    assert_eq!(v.len(), 2);
    assert_eq!(v[0].attributes[0].name, "normal");
    assert_eq!(v[0].attributes[0].shader_location, 0);
    assert_eq!(v[1].attributes[0].format, VertexFormat::Uint4);
    assert_eq!(v[1].attributes[0].shader_location, 1);
}

#[test]
fn attribute_types_are_checked() {
    assert!(attributes_recognised_exec(&vec![info("gl_VertexID", 0), info("p", gl::FLOAT_VEC4)]));
    assert!(!attributes_recognised_exec(&vec![info("p", gl::FLOAT_VEC4), info("m", 0x8B5C)]));
    assert!(attributes_recognised_exec(&vec![]));
}
