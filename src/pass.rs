//! Decisions of render passes: the native values of draws and of fixed-function state, the
//! ranges bind groups are bound with, and how a pass targets and clears its attachments.
use vstd::prelude::*;
use crate::gl;
use crate::pipeline::IndexFormat;

verus! {

#[derive(Clone, Copy, Debug, PartialEq, Eq, Structural)]
pub enum PrimitiveTopology {
    PointList,
    LineList,
    LineStrip,
    TriangleList,
    TriangleStrip,
}

pub open spec fn topology_mode(t: PrimitiveTopology) -> u32 {
    match t {
        PrimitiveTopology::PointList => gl::POINTS,
        PrimitiveTopology::LineList => gl::LINES,
        PrimitiveTopology::LineStrip => gl::LINE_STRIP,
        PrimitiveTopology::TriangleList => gl::TRIANGLES,
        PrimitiveTopology::TriangleStrip => gl::TRIANGLE_STRIP,
    }
}

/// The native draw mode of a topology.
pub fn primitive_mode(t: PrimitiveTopology) -> (r: u32)
    ensures
        r == topology_mode(t),
{
    match t {
        PrimitiveTopology::PointList => gl::POINTS,
        PrimitiveTopology::LineList => gl::LINES,
        PrimitiveTopology::LineStrip => gl::LINE_STRIP,
        PrimitiveTopology::TriangleList => gl::TRIANGLES,
        PrimitiveTopology::TriangleStrip => gl::TRIANGLE_STRIP,
    }
}

/// The native element type of an index format and its size in bytes.
pub fn index_type(f: IndexFormat) -> (r: (u32, i32))
    ensures
        f == IndexFormat::Uint16 ==> r == (gl::UNSIGNED_SHORT, 2i32),
        f == IndexFormat::Uint32 ==> r == (gl::UNSIGNED_INT, 4i32),
{
    match f {
        IndexFormat::Uint16 => (gl::UNSIGNED_SHORT, 2),
        IndexFormat::Uint32 => (gl::UNSIGNED_INT, 4),
    }
}

/// The arguments of an instanced indexed draw.
#[derive(Clone, Copy, Debug, PartialEq, Eq, Structural)]
pub struct DrawElements {
    pub mode: u32,
    pub count: i32,
    pub index_type: u32,
    pub byte_offset: i32,
    pub instance_count: i32,
}

/// The indexed draw of indices `index_start..index_end` for instances
/// `instance_start..instance_end`: the offset is counted in bytes of the index type.
pub fn draw_elements(
    t: PrimitiveTopology,
    f: IndexFormat,
    index_start: u32,
    index_end: u32,
    instance_start: u32,
    instance_end: u32,
) -> (r: DrawElements)
    requires
        index_start <= index_end,
        instance_start <= instance_end,
        index_end - index_start <= i32::MAX,
        instance_end - instance_start <= i32::MAX,
        index_start * (if f == IndexFormat::Uint16 { 2int } else { 4int }) <= i32::MAX,
    ensures
        r.mode == topology_mode(t),
        r.count == index_end - index_start,
        r.index_type == (if f == IndexFormat::Uint16 { gl::UNSIGNED_SHORT } else { gl::UNSIGNED_INT }),
        r.byte_offset == index_start * (if f == IndexFormat::Uint16 { 2int } else { 4int }),
        r.instance_count == instance_end - instance_start,
{
    let (index_type, type_size) = index_type(f);
    DrawElements {
        mode: primitive_mode(t),
        count: (index_end - index_start) as i32,
        index_type,
        byte_offset: index_start as i32 * type_size,
        instance_count: (instance_end - instance_start) as i32,
    }
}

/// The arguments of an instanced draw of vertices.
#[derive(Clone, Copy, Debug, PartialEq, Eq, Structural)]
pub struct DrawArrays {
    pub mode: u32,
    pub first: i32,
    pub count: i32,
    pub instance_count: i32,
}

/// The instanced draw of vertices `start..end` for instances `instance_start..instance_end`.
pub fn draw_arrays(
    t: PrimitiveTopology,
    start: u32,
    end: u32,
    instance_start: u32,
    instance_end: u32,
) -> (r: DrawArrays)
    requires
        start <= end,
        end <= i32::MAX,
        instance_start <= instance_end,
        instance_end - instance_start <= i32::MAX,
    ensures
        r.mode == topology_mode(t),
        r.first == start,
        r.count == end - start,
        r.instance_count == instance_end - instance_start,
{
    DrawArrays {
        mode: primitive_mode(t),
        first: start as i32,
        count: (end - start) as i32,
        instance_count: (instance_end - instance_start) as i32,
    }
}

#[derive(Clone, Copy, Debug, PartialEq, Eq, Structural)]
pub enum CullMode {
    Disabled,
    Front,
    Back,
}

/// The face to cull, or `None` when culling is disabled.
pub fn cull_face(c: CullMode) -> (r: Option<u32>)
    ensures
        c == CullMode::Disabled ==> r is None,
        c == CullMode::Front ==> r == Some(gl::FRONT),
        c == CullMode::Back ==> r == Some(gl::BACK),
{
    match c {
        CullMode::Disabled => None,
        CullMode::Front => Some(gl::FRONT),
        CullMode::Back => Some(gl::BACK),
    }
}

#[derive(Clone, Copy, Debug, PartialEq, Eq, Structural)]
pub enum FrontFace {
    Ccw,
    Cw,
}

pub fn front_face(f: FrontFace) -> (r: u32)
    ensures
        f == FrontFace::Cw ==> r == gl::CW,
        f == FrontFace::Ccw ==> r == gl::CCW,
{
    match f {
        FrontFace::Cw => gl::CW,
        FrontFace::Ccw => gl::CCW,
    }
}

#[derive(Clone, Copy, Debug, PartialEq, Eq, Structural)]
pub enum CompareFunction {
    Never,
    Less,
    Equal,
    LessEqual,
    Greater,
    NotEqual,
    GreaterEqual,
    Always,
}

pub open spec fn compare_func_of(c: CompareFunction) -> u32 {
    match c {
        CompareFunction::Never => gl::NEVER,
        CompareFunction::Less => gl::LESS,
        CompareFunction::Equal => gl::EQUAL,
        CompareFunction::LessEqual => gl::LEQUAL,
        CompareFunction::Greater => gl::GREATER,
        CompareFunction::NotEqual => gl::NOTEQUAL,
        CompareFunction::GreaterEqual => gl::GEQUAL,
        CompareFunction::Always => gl::ALWAYS,
    }
}

/// The native depth test function.
pub fn depth_func(c: CompareFunction) -> (r: u32)
    ensures
        r == compare_func_of(c),
{
    match c {
        CompareFunction::Never => gl::NEVER,
        CompareFunction::Less => gl::LESS,
        CompareFunction::Equal => gl::EQUAL,
        CompareFunction::LessEqual => gl::LEQUAL,
        CompareFunction::Greater => gl::GREATER,
        CompareFunction::NotEqual => gl::NOTEQUAL,
        CompareFunction::GreaterEqual => gl::GEQUAL,
        CompareFunction::Always => gl::ALWAYS,
    }
}

#[derive(Clone, Copy, Debug, PartialEq, Eq, Structural)]
pub enum BlendFactor {
    Zero,
    One,
    SrcColor,
    OneMinusSrcColor,
    SrcAlpha,
    OneMinusSrcAlpha,
    DstColor,
    OneMinusDstColor,
    DstAlpha,
    OneMinusDstAlpha,
    SrcAlphaSaturated,
    BlendColor,
    OneMinusBlendColor,
}

/// The native blend factor; `OneMinusBlendColor` has none here.
pub open spec fn blend_factor_of(f: BlendFactor) -> Option<u32> {
    match f {
        BlendFactor::Zero => Some(gl::ZERO),
        BlendFactor::One => Some(gl::ONE),
        BlendFactor::SrcColor => Some(gl::SRC_COLOR),
        BlendFactor::OneMinusSrcColor => Some(gl::ONE_MINUS_SRC_COLOR),
        BlendFactor::SrcAlpha => Some(gl::SRC_ALPHA),
        BlendFactor::OneMinusSrcAlpha => Some(gl::ONE_MINUS_SRC_ALPHA),
        BlendFactor::DstColor => Some(gl::DST_COLOR),
        BlendFactor::OneMinusDstColor => Some(gl::ONE_MINUS_DST_COLOR),
        BlendFactor::DstAlpha => Some(gl::DST_ALPHA),
        BlendFactor::OneMinusDstAlpha => Some(gl::ONE_MINUS_DST_ALPHA),
        BlendFactor::SrcAlphaSaturated => Some(gl::SRC_ALPHA_SATURATE),
        BlendFactor::BlendColor => Some(gl::BLEND_COLOR),
        BlendFactor::OneMinusBlendColor => None,
    }
}

pub fn blend_factor(f: BlendFactor) -> (r: u32)
    requires
        f != BlendFactor::OneMinusBlendColor,
    ensures
        blend_factor_of(f) == Some(r),
{
    match f {
        BlendFactor::Zero => gl::ZERO,
        BlendFactor::One => gl::ONE,
        BlendFactor::SrcColor => gl::SRC_COLOR,
        BlendFactor::OneMinusSrcColor => gl::ONE_MINUS_SRC_COLOR,
        BlendFactor::SrcAlpha => gl::SRC_ALPHA,
        BlendFactor::OneMinusSrcAlpha => gl::ONE_MINUS_SRC_ALPHA,
        BlendFactor::DstColor => gl::DST_COLOR,
        BlendFactor::OneMinusDstColor => gl::ONE_MINUS_DST_COLOR,
        BlendFactor::DstAlpha => gl::DST_ALPHA,
        BlendFactor::OneMinusDstAlpha => gl::ONE_MINUS_DST_ALPHA,
        BlendFactor::SrcAlphaSaturated => gl::SRC_ALPHA_SATURATE,
        _ => gl::BLEND_COLOR,
    }
}

#[derive(Clone, Copy, Debug, PartialEq, Eq, Structural)]
pub enum BlendOperation {
    Add,
    Subtract,
    ReverseSubtract,
    Min,
    Max,
}

pub open spec fn blend_equation_of(op: BlendOperation) -> u32 {
    match op {
        BlendOperation::Add => gl::FUNC_ADD,
        BlendOperation::Subtract => gl::FUNC_SUBTRACT,
        BlendOperation::ReverseSubtract => gl::FUNC_REVERSE_SUBTRACT,
        BlendOperation::Min => gl::MIN,
        BlendOperation::Max => gl::MAX,
    }
}

pub fn blend_equation(op: BlendOperation) -> (r: u32)
    ensures
        r == blend_equation_of(op),
{
    match op {
        BlendOperation::Add => gl::FUNC_ADD,
        BlendOperation::Subtract => gl::FUNC_SUBTRACT,
        BlendOperation::ReverseSubtract => gl::FUNC_REVERSE_SUBTRACT,
        BlendOperation::Min => gl::MIN,
        BlendOperation::Max => gl::MAX,
    }
}

/// One channel of a blend: its factors and operation.
#[derive(Clone, Copy, Debug, PartialEq, Eq, Structural)]
pub struct BlendState {
    pub src_factor: BlendFactor,
    pub dst_factor: BlendFactor,
    pub operation: BlendOperation,
}

/// The blending of a color target, per color and alpha channel.
#[derive(Clone, Copy, Debug, PartialEq, Eq, Structural)]
pub struct ColorTargetState {
    pub color_blend: BlendState,
    pub alpha_blend: BlendState,
}

/// The native blend set-up of a color target: the four factors (color source, color
/// destination, alpha source, alpha destination) and the equation of the color channel.
#[derive(Clone, Copy, Debug, PartialEq, Eq, Structural)]
pub struct GlBlend {
    pub src_color: u32,
    pub dst_color: u32,
    pub src_alpha: u32,
    pub dst_alpha: u32,
    pub equation: u32,
}

pub open spec fn blend_supported(s: ColorTargetState) -> bool {
    s.color_blend.src_factor != BlendFactor::OneMinusBlendColor && s.color_blend.dst_factor
        != BlendFactor::OneMinusBlendColor && s.alpha_blend.src_factor
        != BlendFactor::OneMinusBlendColor && s.alpha_blend.dst_factor
        != BlendFactor::OneMinusBlendColor
}

pub fn gl_blend(s: ColorTargetState) -> (r: GlBlend)
    requires
        blend_supported(s),
    ensures
        blend_factor_of(s.color_blend.src_factor) == Some(r.src_color),
        blend_factor_of(s.color_blend.dst_factor) == Some(r.dst_color),
        blend_factor_of(s.alpha_blend.src_factor) == Some(r.src_alpha),
        blend_factor_of(s.alpha_blend.dst_factor) == Some(r.dst_alpha),
        r.equation == blend_equation_of(s.color_blend.operation),
{
    GlBlend {
        src_color: blend_factor(s.color_blend.src_factor),
        dst_color: blend_factor(s.color_blend.dst_factor),
        src_alpha: blend_factor(s.alpha_blend.src_factor),
        dst_alpha: blend_factor(s.alpha_blend.dst_factor),
        equation: blend_equation(s.color_blend.operation),
    }
}

/// Whether a pass draws to the window: its first color attachment is the swapchain texture or
/// has a resolve target.
pub fn targets_swapchain(first_attachment: u64, swapchain_texture: u64, has_resolve_target: bool) -> (r: bool)
    ensures
        r == (first_attachment == swapchain_texture || has_resolve_target),
{
    first_attachment == swapchain_texture || has_resolve_target
}

/// The clear mask of a pass on the window: the color bit when the color attachment clears,
/// the depth bit when the depth attachment clears (the two bits are distinct, so their sum is
/// their union).
pub fn swapchain_clear_mask(clear_color: bool, clear_depth: bool) -> (r: u32)
    ensures
        r == (if clear_color { gl::COLOR_BUFFER_BIT } else { 0 }) + (if clear_depth {
            gl::DEPTH_BUFFER_BIT
        } else {
            0
        }),
{
    let mut mask: u32 = 0;
    if clear_color {
        mask = mask + gl::COLOR_BUFFER_BIT;
    }
    if clear_depth {
        mask = mask + gl::DEPTH_BUFFER_BIT;
    }
    mask
}

/// The draw buffers of an offscreen pass: attachment `n` that is a texture draws to color
/// attachment `n`, any other to none.
pub fn draw_buffers(is_texture: &Vec<bool>) -> (r: Vec<u32>)
    requires
        is_texture@.len() <= 32,
    ensures
        r@.len() == is_texture@.len(),
        forall|n: int|
            0 <= n < r@.len() ==> #[trigger] r@[n] == (if is_texture@[n] {
                gl::COLOR_ATTACHMENT0 + n
            } else {
                gl::NONE as int
            }),
{
    let mut r: Vec<u32> = Vec::new();
    let mut n: usize = 0;
    while n < is_texture.len()
        invariant
            n <= is_texture@.len() <= 32,
            r@.len() == n,
            forall|k: int|
                0 <= k < n ==> #[trigger] r@[k] == (if is_texture@[k] {
                    gl::COLOR_ATTACHMENT0 + k
                } else {
                    gl::NONE as int
                }),
        decreases is_texture@.len() - n,
    {
        if is_texture[n] {
            r.push(gl::COLOR_ATTACHMENT0 + n as u32);
        } else {
            r.push(gl::NONE);
        }
        n += 1;
    }
    r
}

/// How an attachment of an offscreen pass is cleared.
#[derive(Clone, Copy, Debug, PartialEq, Eq, Structural)]
pub enum ClearKind {
    /// With float components: the first attachment, taken to be a color target.
    Float,
    /// With unsigned integer components: every other attachment.
    UnsignedInt,
}

pub fn clear_kind(attachment_index: usize) -> (r: ClearKind)
    ensures
        r == (if attachment_index == 0 { ClearKind::Float } else { ClearKind::UnsignedInt }),
{
    if attachment_index == 0 {
        ClearKind::Float
    } else {
        ClearKind::UnsignedInt
    }
}

/// The format pixels of a texture with the given component type are read back in:
/// integer types as integer RGBA, unsigned bytes as RGBA; other types cannot be read back.
pub open spec fn read_format_of(component_type: u32) -> Option<u32> {
    if component_type == gl::UNSIGNED_INT || component_type == gl::INT {
        Some(gl::RGBA_INTEGER)
    } else if component_type == gl::UNSIGNED_BYTE {
        Some(gl::RGBA)
    } else {
        None
    }
}

pub fn read_pixels_format(component_type: u32) -> (r: Option<u32>)
    ensures
        r == read_format_of(component_type),
{
    if component_type == gl::UNSIGNED_INT || component_type == gl::INT {
        Some(gl::RGBA_INTEGER)
    } else if component_type == gl::UNSIGNED_BYTE {
        Some(gl::RGBA)
    } else {
        None
    }
}

} // verus!
