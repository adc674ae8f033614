use bevy_webgl2::formats::TextureFormat;
use bevy_webgl2::gl;
use bevy_webgl2::resources::{
    get_aligned_uniform_size, host_buffer_from, info_with_data, is_host_buffer, native_buffer,
    new_host_buffer, plan_buffer, GlBufferInfo, BindingProbe, LinkAction, BindCommand, BindError, plan_copy, upload_target, write_host_bytes, Buffer, BufferInfo,
    BufferPlan, BufferUsage, CopyError, CopyPlan, IndexedBinding, RenderResourceBinding,
    WebGL2RenderResourceBinding, WebGL2Resources, COPY_DST, COPY_SRC, INDEX, INDIRECT, MAP_READ,
    MAP_WRITE, STORAGE, STORAGE_BUFFER_SIZE, UNIFORM, VERTEX, tex_image, TextureDescriptor,
};

fn info(size: usize, bits: u32) -> BufferInfo {
    BufferInfo { size, buffer_usage: BufferUsage { bits }, mapped_at_creation: false }
}

#[test]
fn host_mappable_copy_source_buffers_live_in_memory() {
    assert!(is_host_buffer(BufferUsage { bits: MAP_WRITE | COPY_SRC }));
    assert!(is_host_buffer(BufferUsage { bits: MAP_WRITE | COPY_SRC | UNIFORM }));
    assert!(!is_host_buffer(BufferUsage { bits: MAP_WRITE }));
    assert!(!is_host_buffer(BufferUsage { bits: COPY_SRC | MAP_READ }));
    assert_eq!(plan_buffer(info(100, MAP_WRITE | COPY_SRC)), BufferPlan::Host { size: 100 });
}

#[test]
fn native_buffer_plans() {
    assert_eq!(
        plan_buffer(info(100, UNIFORM | COPY_DST)),
        BufferPlan::Native { size: 100, usage_hint: gl::DYNAMIC_DRAW }
    );
    assert_eq!(
        plan_buffer(info(100, STORAGE)),
        BufferPlan::Native { size: STORAGE_BUFFER_SIZE, usage_hint: gl::DYNAMIC_DRAW }
    );
    assert_eq!(
        plan_buffer(info(8, COPY_DST | INDIRECT)),
        BufferPlan::Native { size: 8, usage_hint: 0x88E1 }
    );
}

#[test]
fn upload_targets_and_sizes() {
    assert_eq!(upload_target(BufferUsage { bits: VERTEX }), gl::ARRAY_BUFFER);
    assert_eq!(upload_target(BufferUsage { bits: INDEX }), gl::ELEMENT_ARRAY_BUFFER);
    assert_eq!(upload_target(BufferUsage { bits: UNIFORM }), gl::PIXEL_UNPACK_BUFFER);
    assert_eq!(info_with_data(info(0, VERTEX), 12).size, 12);
    assert_eq!(info_with_data(info(4, VERTEX), 12).size, 4);
}

#[test]
fn copy_into_host_buffer_fails() {
    let host = host_buffer_from(&[1, 2, 3]);
    let gpu = Buffer::WebGlBuffer(4);
    let gpu2 = Buffer::WebGlBuffer(5);
    assert_eq!(plan_copy(&gpu, &host), Err(CopyError::WriteToHostBuffer));
    assert_eq!(plan_copy(&host, &host), Err(CopyError::WriteToHostBuffer));
    assert_eq!(plan_copy(&host, &gpu), Ok(CopyPlan::HostToGpu { dst: 4 }));
    assert_eq!(plan_copy(&gpu, &gpu2), Ok(CopyPlan::GpuToGpu { src: 4, dst: 5 }));
    assert_eq!(native_buffer(&host), None);
    assert_eq!(native_buffer(&gpu), Some(4));
}

#[test]
fn host_writes_land_in_range() {
    let mut b = new_host_buffer(6);
    assert!(write_host_bytes(&mut b, 2, &[9, 8, 7]));
    match &b {
        Buffer::Data(d) => assert_eq!(d, &vec![0, 0, 9, 8, 7, 0]),
        _ => panic!("expected an in-memory buffer"),
    }
    let mut g = Buffer::WebGlBuffer(1);
    assert!(!write_host_bytes(&mut g, 0, &[1]));
}

#[test]
fn uniform_sizes_are_aligned() {
    assert_eq!(get_aligned_uniform_size(0), 0);
    assert_eq!(get_aligned_uniform_size(1), 256);
    assert_eq!(get_aligned_uniform_size(256), 256);
    assert_eq!(get_aligned_uniform_size(257), 512);
}

#[test]
fn bind_groups_resolve_slots_once() {
    let mut r = WebGL2Resources::new();
    let entries = vec![
        IndexedBinding {
            index: 0,
            entry: RenderResourceBinding::Buffer { buffer: 11, range_start: 0, range_end: 64 },
        },
        IndexedBinding { index: 1, entry: RenderResourceBinding::Sampler(3) },
        IndexedBinding { index: 2, entry: RenderResourceBinding::Texture(12) },
    ];
    r.create_bind_group_layout(50, 2);
    r.create_bind_group_layout(59, 9);
    r.create_bind_group(100, 50, &entries);
    let g = r.bind_group(100).unwrap().clone();
    assert_eq!(
        g,
        vec![
            WebGL2RenderResourceBinding::Buffer {
                binding_point: 0,
                buffer: 11,
                range_start: 0,
                range_end: 64
            },
            WebGL2RenderResourceBinding::Texture { texture_unit: 0, texture: 12 },
        ]
    );
    // Creating the same id again changes nothing.
    let other = vec![IndexedBinding { index: 5, entry: RenderResourceBinding::Texture(1) }];
    r.create_bind_group(100, 59, &other);
    assert_eq!(r.bind_group(100).unwrap().len(), 2);
    assert_eq!(r.texture_units.len(), 1);
    // Another group with the same key reuses the binding point.
    r.create_bind_group(101, 50, &entries);
    assert_eq!(r.bind_group(101).unwrap().clone(), g);
    assert_eq!(r.get_or_create_binding_point(2, 0), 0);
    assert_eq!(r.get_or_create_binding_point(0, 0), 1);
    assert!(r.bind_group_exists(101));
    r.clear_bind_groups();
    assert!(!r.bind_group_exists(100));
    assert!(r.bind_group(101).is_none());
}

#[test]
fn texture_images() {
    let t = tex_image(TextureDescriptor { width: 640, height: 480, format: TextureFormat::Bgra8Unorm });
    assert_eq!((t.internal_format, t.width, t.height, t.format, t.component_type), (0x8058, 640, 480, gl::RGBA, gl::UNSIGNED_BYTE));
    assert!(t.substituted);
    let t = tex_image(TextureDescriptor { width: 1, height: 2, format: TextureFormat::R32Uint });
    assert_eq!((t.internal_format, t.format, t.component_type), (gl::R32UI as i32, gl::RED_INTEGER, gl::UNSIGNED_INT));
    assert!(!t.substituted);
}

#[test]
fn window_size_is_recorded() {
    let mut r = WebGL2Resources::new();
    assert_eq!(r.window_size, (0, 0));
    r.set_window_size(800, 600);
    assert_eq!(r.window_size, (800, 600));
}

#[test]
fn resource_tables() {
    let mut r = WebGL2Resources::new();
    r.add_buffer(1, GlBufferInfo { buffer: Buffer::WebGlBuffer(7), info: info(16, VERTEX) });
    r.add_buffer(2, GlBufferInfo { buffer: new_host_buffer(4), info: info(4, MAP_WRITE | COPY_SRC) });
    assert_eq!(r.get_buffer_info(1).unwrap().size, 16);
    assert_eq!(r.get_buffer_info(3), None);
    assert_eq!(r.remove_buffer(1), Some(7));
    assert_eq!(r.remove_buffer(2), None);
    assert_eq!(r.get_buffer_info(1), None);

    let desc = TextureDescriptor { width: 4, height: 4, format: TextureFormat::Rgba8Unorm };
    r.add_texture(10, 3, desc);
    assert_eq!(r.texture_descriptors.get(10), Some(&desc));
    assert_eq!(r.framebuffer(10), None);
    r.add_framebuffer(10, 8);
    assert_eq!(r.framebuffer(10), Some(8));
    assert_eq!(r.remove_texture(10), 3);
    assert!(!r.textures.contains_key(10));
    assert!(!r.texture_descriptors.contains_key(10));

    assert!(!r.bind_group_descriptor_exists(4));
    r.create_bind_group_layout(4, 1);
    r.create_bind_group_layout(4, 2);
    assert!(r.bind_group_descriptor_exists(4));
    assert_eq!(r.bind_group_layouts.get(4), Some(&1));
}

#[test]
fn uniform_links_allocate_slots() {
    let mut r = WebGL2Resources::new();
    let probe = |group: u32, binding: u32, block_index: i32, has_location: bool, is_texture: bool| {
        BindingProbe { group, binding, block_index, has_location, is_texture }
    };
    let probes = vec![
        probe(0, 0, 2, false, false),
        probe(1, 0, -1, true, true),
        probe(2, 0, -1, false, true),
        probe(3, 1, 0, false, false),
        probe(0, 0, 2, false, false),
    ];
    let links = r.plan_uniform_links(&probes);
    assert_eq!(
        links,
        vec![
            LinkAction::Block { block_index: 2, binding_point: 0 },
            LinkAction::Sampler { texture_unit: 0 },
            LinkAction::Skip,
            LinkAction::Block { block_index: 0, binding_point: 1 },
            LinkAction::Block { block_index: 2, binding_point: 0 },
        ]
    );
    assert_eq!(r.binding_points.len(), 2);
    assert_eq!(r.texture_units.len(), 1);
}

#[test]
fn bind_group_commands() {
    let mut r = WebGL2Resources::new();
    r.add_buffer(1, GlBufferInfo { buffer: Buffer::WebGlBuffer(7), info: info(512, UNIFORM) });
    r.add_buffer(2, GlBufferInfo { buffer: Buffer::WebGlBuffer(8), info: info(16, STORAGE) });
    r.add_buffer(3, GlBufferInfo { buffer: new_host_buffer(16), info: info(16, MAP_WRITE | COPY_SRC) });
    r.add_texture(20, 4, TextureDescriptor { width: 1, height: 1, format: TextureFormat::R8Unorm });
    let bindings = vec![
        WebGL2RenderResourceBinding::Buffer { binding_point: 3, buffer: 1, range_start: 256, range_end: 512 },
        WebGL2RenderResourceBinding::Texture { texture_unit: 1, texture: 20 },
        WebGL2RenderResourceBinding::Texture { texture_unit: 2, texture: 21 },
        WebGL2RenderResourceBinding::Buffer { binding_point: 4, buffer: 2, range_start: 0, range_end: 16 },
    ];
    assert_eq!(
        r.plan_bind_group(&bindings, None).unwrap(),
        vec![
            BindCommand::UniformRange { binding_point: 3, buffer: 7, offset: 256, size: 256 },
            BindCommand::Texture { texture_unit: 1, texture: 4 },
            BindCommand::UniformRange { binding_point: 4, buffer: 8, offset: 0, size: 65536 },
        ]
    );
    let offsets = vec![1024];
    assert_eq!(
        r.plan_bind_group(&bindings, Some(&offsets)).unwrap()[0],
        BindCommand::UniformRange { binding_point: 3, buffer: 7, offset: 1024, size: 256 }
    );
    let host = vec![WebGL2RenderResourceBinding::Buffer { binding_point: 0, buffer: 3, range_start: 0, range_end: 16 }];
    assert_eq!(r.plan_bind_group(&host, None), Err(BindError::HostBufferBound));
}
