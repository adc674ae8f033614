use bevy_webgl2::shader::{
    compile_shader, link_program, merge_bind_groups, shader_type, specialize_source,
    starts_with_version_line, GlShader, ShaderError, ShaderStage, ProgramCache, GlProgram,
};
use bevy_webgl2::annotations::GlBindGroups;

#[test]
fn specialize_inserts_defines_after_version() {
    let src = "  \n#version 300 es\nvoid main() {}\n";
    let macros = vec!["FOO".to_string(), "BAR".to_string()];
    assert!(starts_with_version_line(src));
    let out = specialize_source(src, Some(&macros));
    assert_eq!(out, "#version 300 es\n#define FOO\n#define BAR\n#define WEBGL\n\nvoid main() {}\n");
}

#[test]
fn specialize_without_macros() {
    let out = specialize_source("#version 300 es\nx", None);
    assert_eq!(out, "#version 300 es\n#define WEBGL\n\nx");
}

#[test]
fn version_line_is_required() {
    assert!(!starts_with_version_line("void main() {}\n"));
    assert!(!starts_with_version_line("#version 300 es"));
    assert!(!starts_with_version_line(""));
}

#[test]
fn shader_types() {
    assert_eq!(shader_type(ShaderStage::Vertex), 0x8B31);
    assert_eq!(shader_type(ShaderStage::Fragment), 0x8B30);
}

#[test]
fn compile_and_link_errors_carry_the_log() {
    match compile_shader("#version 300 es\n", Err("bad token".to_string())) {
        Err(ShaderError::Compile(log)) => assert_eq!(log, "bad token"),
        _ => panic!("expected a compile error"),
    }
    let shaders: Vec<GlShader> = vec![];
    match link_program(&shaders, Err("link failed".to_string())) {
        Err(ShaderError::Link(log)) => assert_eq!(log, "link failed"),
        _ => panic!("expected a link error"),
    }
    assert!(matches!(
        compile_shader("uniform A { // set = 99999999999, binding = 0", Ok(1)),
        Err(ShaderError::AnnotationNumberTooLarge)
    ));
}

#[test]
fn link_merges_placements_first_shader_wins() {
    let a = compile_shader("uniform T { // set = 1, binding = 0\n", Ok(1)).ok().unwrap();
    let b = compile_shader("uniform T { // set = 6, binding = 6\nuniform sampler2D s; // set = 2, binding = 0\n", Ok(2)).ok().unwrap();
    assert_eq!(a.shader, 1);
    let shaders = vec![a, b];
    let merged = merge_bind_groups(&shaders);
    assert_eq!(merged.get(&"T".to_string()), Some((1, 0)));
    assert_eq!(merged.get(&"s".to_string()), Some((2, 0)));
    let p = link_program(&shaders, Ok(9)).ok().unwrap();
    assert_eq!(p.bind_groups.get(&"T".to_string()), Some((1, 0)));
}

#[test]
fn programs_are_cached_by_stages() {
    let mut c = ProgramCache::new();
    assert!(c.get((1, 2)).is_none());
    c.insert((1, 2), GlProgram::new(5, GlBindGroups::new()));
    c.insert((1, 3), GlProgram::new(6, GlBindGroups::new()));
    assert_eq!(c.get((1, 2)).unwrap().program, 5);
    c.insert((1, 2), GlProgram::new(7, GlBindGroups::new()));
    assert_eq!(c.get((1, 2)).unwrap().program, 7);
    assert_eq!(c.get((1, 3)).unwrap().program, 6);
    assert!(c.get((2, 1)).is_none());
}
