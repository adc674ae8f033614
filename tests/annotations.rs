use bevy_webgl2::annotations::{
    harvest_annotations, scan_annotations, Annotation, AnnotationError, DeclKind, GlBindGroups,
};

fn s(x: &str) -> String {
    x.to_string()
}

#[test]
fn scans_uniform_block_annotations() {
    let src = "#version 300 es\nuniform Transform { // set = 1, binding = 0\n mat4 m; };\nuniform Other {\n vec4 v; };\nlayout(std140) uniform Light{//set=3 ,  binding=7\n";
    let found = scan_annotations(src, DeclKind::UniformBlock).ok().unwrap();
    assert_eq!(found.len(), 2);
    assert_eq!((found[0].name.as_str(), found[0].set, found[0].binding), ("Transform", 1, 0));
    assert_eq!((found[1].name.as_str(), found[1].set, found[1].binding), ("Light", 3, 7));
}

#[test]
fn scans_sampler_annotations() {
    let src = "uniform sampler2D albedo; // set = 2, binding = 1\nuniform sampler2D plain;\nuniform sampler2D  normal_map ;//set = 2,binding = 2";
    let found = scan_annotations(src, DeclKind::Sampler).ok().unwrap();
    assert_eq!(found.len(), 2);
    assert_eq!((found[0].name.as_str(), found[0].set, found[0].binding), ("albedo", 2, 1));
    assert_eq!((found[1].name.as_str(), found[1].set, found[1].binding), ("normal_map", 2, 2));
    let blocks = scan_annotations(src, DeclKind::UniformBlock).ok().unwrap();
    assert_eq!(blocks.len(), 0);
}

#[test]
fn malformed_annotations_are_ignored() {
    let src = "uniform A { // set = , binding = 1\nuniform B { // binding = 1, set = 2\nuniform C // set = 1, binding = 1\nuniformD { // set = 1, binding = 1\n";
    let found = scan_annotations(src, DeclKind::UniformBlock).ok().unwrap();
    assert_eq!(found.len(), 0);
}

#[test]
fn too_large_numbers_are_rejected() {
    let src = "uniform A { // set = 4294967296, binding = 1\n";
    assert!(matches!(
        scan_annotations(src, DeclKind::UniformBlock),
        Err(AnnotationError::NumberTooLarge)
    ));
    let src = "uniform A { // set = 4294967295, binding = 1\n";
    let found = scan_annotations(src, DeclKind::UniformBlock).ok().unwrap();
    assert_eq!(found[0].set, 4294967295);
}

#[test]
fn harvest_keeps_the_later_annotation_of_a_name() {
    let src = "uniform X { // set = 1, binding = 0\nuniform sampler2D X; // set = 4, binding = 2\nuniform Y { // set = 5, binding = 6\n";
    let g = harvest_annotations(src).ok().unwrap();
    assert_eq!(g.len(), 2);
    assert_eq!(g.get(&s("X")), Some((4, 2)));
    assert_eq!(g.get(&s("Y")), Some((5, 6)));
    assert_eq!(g.get(&s("Z")), None);
}

#[test]
fn merge_keeps_the_first_placement() {
    let mut a = GlBindGroups::new();
    a.insert(Annotation { name: s("T"), set: 1, binding: 0 });
    let mut b = GlBindGroups::new();
    b.insert(Annotation { name: s("T"), set: 7, binding: 7 });
    b.insert(Annotation { name: s("U"), set: 2, binding: 3 });
    a.merge_from(&b);
    assert_eq!(a.get(&s("T")), Some((1, 0)));
    assert_eq!(a.get(&s("U")), Some((2, 3)));
    assert_eq!(a.len(), 2);
}

#[test]
fn insert_if_absent_keeps_existing() {
    let mut a = GlBindGroups::new();
    a.insert_if_absent(Annotation { name: s("T"), set: 1, binding: 0 });
    a.insert_if_absent(Annotation { name: s("T"), set: 2, binding: 2 });
    assert_eq!(a.get(&s("T")), Some((1, 0)));
    a.insert(Annotation { name: s("T"), set: 3, binding: 3 });
    assert_eq!(a.get(&s("T")), Some((3, 3)));
    assert_eq!(a.group_indices(), vec![3]);
}
