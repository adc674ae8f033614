//! Render pipeline state: vertex input descriptions, the lazily rebuilt vertex array, and the
//! native values of the fixed-function state a pipeline sets.
use vstd::prelude::*;
use crate::formats::{gl_vertex_format, vertex_format_spec, GlVertexFormat};
use crate::gl;
use crate::layout::{VertexAttribute, VertexBufferLayout, InputStepMode};
use crate::pass::{
    blend_equation_of, blend_factor_of, blend_supported, compare_func_of, cull_face, depth_func,
    front_face, gl_blend, ColorTargetState, CompareFunction, CullMode, FrontFace, GlBlend,
    PrimitiveTopology,
};
use crate::resources::{native_buffer, Buffer};

verus! {

/// A vertex attribute as the driver is told of it.
pub struct GlVertexAttribute {
    pub name: String,
    pub offset: i32,
    pub format: GlVertexFormat,
    pub attrib_location: i32,
}

impl GlVertexAttribute {
    /// Describes `attr` at the location the linked program gave it.
    pub fn from(attr: &VertexAttribute, attrib_location: i32) -> (r: GlVertexAttribute)
        requires
            attr.offset <= i32::MAX,
        ensures
            r.name@ == attr.name@,
            r.offset == attr.offset as i32,
            (r.format.format, r.format.nr_of_components, r.format.normalized) == vertex_format_spec(
                attr.format,
            ),
            r.attrib_location == attrib_location,
    {
        GlVertexAttribute {
            name: attr.name.clone(),
            offset: attr.offset as i32,
            format: gl_vertex_format(&attr.format),
            attrib_location,
        }
    }
}

/// A vertex buffer as the driver is told of it.
pub struct GlVertexBufferDescripror {
    pub name: String,
    pub stride: i32,
    pub step_mode: InputStepMode,
    pub attributes: Vec<GlVertexAttribute>,
}

impl GlVertexBufferDescripror {
    /// Describes `layout`, its attributes at the locations `locations` the linked program gave
    /// them.
    pub fn from(layout: &VertexBufferLayout, locations: &Vec<i32>) -> (r: GlVertexBufferDescripror)
        requires
            locations@.len() == layout.attributes@.len(),
            layout.stride <= i32::MAX,
            forall|i: int| 0 <= i < layout.attributes@.len() ==> (#[trigger] layout.attributes@[i]).offset <= i32::MAX,
        ensures
            r.name@ == layout.name@,
            r.stride == layout.stride as i32,
            r.step_mode == layout.step_mode,
            r.attributes@.len() == layout.attributes@.len(),
            forall|i: int|
                0 <= i < r.attributes@.len() ==> {
                    &&& (#[trigger] r.attributes@[i]).name@ == layout.attributes@[i].name@
                    &&& r.attributes@[i].offset == layout.attributes@[i].offset as i32
                    &&& (r.attributes@[i].format.format, r.attributes@[i].format.nr_of_components, r.attributes@[i].format.normalized)
                        == vertex_format_spec(layout.attributes@[i].format)
                    &&& r.attributes@[i].attrib_location == locations@[i]
                },
    {
        let mut attributes: Vec<GlVertexAttribute> = Vec::new();
        let mut i: usize = 0;
        while i < layout.attributes.len()
            invariant
                i <= layout.attributes@.len(),
                locations@.len() == layout.attributes@.len(),
                forall|j: int| 0 <= j < layout.attributes@.len() ==> (#[trigger] layout.attributes@[j]).offset <= i32::MAX,
                attributes@.len() == i,
                forall|j: int|
                    0 <= j < i ==> {
                        &&& (#[trigger] attributes@[j]).name@ == layout.attributes@[j].name@
                        &&& attributes@[j].offset == layout.attributes@[j].offset as i32
                        &&& (attributes@[j].format.format, attributes@[j].format.nr_of_components, attributes@[j].format.normalized)
                            == vertex_format_spec(layout.attributes@[j].format)
                        &&& attributes@[j].attrib_location == locations@[j]
                    },
            decreases layout.attributes@.len() - i,
        {
            attributes.push(GlVertexAttribute::from(&layout.attributes[i], locations[i]));
            i += 1;
        }
        GlVertexBufferDescripror {
            name: layout.name.clone(),
            stride: layout.stride as i32,
            step_mode: layout.step_mode,
            attributes,
        }
    }
}

/// Which entry point specifies an attribute's pointer: the float one, for float and half-float
/// data, or the integer one.
#[derive(Clone, Copy, Debug, PartialEq, Eq, Structural)]
pub enum PointerKind {
    Float,
    Integer,
}

/// One attribute pointer to specify when the vertex array is rebuilt.
#[derive(Clone, Copy, Debug, PartialEq, Eq, Structural)]
pub struct AttributePointer {
    pub location: u32,
    pub kind: PointerKind,
    pub nr_of_components: i32,
    pub format: u32,
    pub normalized: bool,
    pub stride: i32,
    pub offset: i32,
}

pub open spec fn pointer_kind_of(format: u32) -> PointerKind {
    if format == gl::FLOAT || format == gl::HALF_FLOAT {
        PointerKind::Float
    } else {
        PointerKind::Integer
    }
}

/// The pointer of an attribute bound to a location.
pub open spec fn pointer_of(a: GlVertexAttribute, stride: i32) -> AttributePointer {
    AttributePointer {
        location: a.attrib_location as u32,
        kind: pointer_kind_of(a.format.format),
        nr_of_components: a.format.nr_of_components,
        format: a.format.format,
        normalized: a.format.normalized,
        stride,
        offset: a.offset,
    }
}

/// The pointers of the attributes the program uses (those with a location), in order.
pub open spec fn pointers_of(attrs: Seq<GlVertexAttribute>, stride: i32) -> Seq<AttributePointer>
    decreases attrs.len(),
{
    if attrs.len() == 0 {
        Seq::empty()
    } else {
        let r = pointers_of(attrs.drop_last(), stride);
        if attrs.last().attrib_location >= 0 {
            r.push(pointer_of(attrs.last(), stride))
        } else {
            r
        }
    }
}

/// The attribute pointers to specify for a vertex buffer when its vertex array is rebuilt.
pub fn attribute_pointers(desc: &GlVertexBufferDescripror) -> (r: Vec<AttributePointer>)
    ensures
        r@ == pointers_of(desc.attributes@, desc.stride),
{
    let mut r: Vec<AttributePointer> = Vec::new();
    let mut i: usize = 0;
    while i < desc.attributes.len()
        invariant
            i <= desc.attributes@.len(),
            r@ == pointers_of(desc.attributes@.take(i as int), desc.stride),
        decreases desc.attributes@.len() - i,
    {
        let a = &desc.attributes[i];
        proof {
            assert(desc.attributes@.take(i + 1).drop_last() =~= desc.attributes@.take(i as int));
            assert(desc.attributes@.take(i + 1).last() == *a);
        }
        if a.attrib_location >= 0 {
            let kind = if a.format.format == gl::FLOAT || a.format.format == gl::HALF_FLOAT {
                PointerKind::Float
            } else {
                PointerKind::Integer
            };
            r.push(
                AttributePointer {
                    location: a.attrib_location as u32,
                    kind,
                    nr_of_components: a.format.nr_of_components,
                    format: a.format.format,
                    normalized: a.format.normalized,
                    stride: desc.stride,
                    offset: a.offset,
                },
            );
        }
        i += 1;
    }
    assert(desc.attributes@.take(i as int) =~= desc.attributes@);
    r
}

/// The element type of an index buffer.
#[derive(Clone, Copy, Debug, PartialEq, Eq, Structural)]
pub enum IndexFormat {
    Uint16,
    Uint32,
}

/// The vertex and index buffers bound to a pipeline, and whether its vertex array must be
/// rebuilt before the next draw.
#[derive(Clone, Copy, Debug, PartialEq, Eq, Structural)]
pub struct VaoState {
    pub vertex_buffer: Option<u64>,
    pub index_buffer: Option<u64>,
    pub index_format: IndexFormat,
    pub update_vao: bool,
}

impl VaoState {
    /// The state after a vertex buffer is set: a different buffer marks the vertex array dirty,
    /// the same buffer changes nothing.
    pub open spec fn with_vertex_buffer(self, id: u64) -> VaoState {
        if self.vertex_buffer == Some(id) {
            self
        } else {
            VaoState { vertex_buffer: Some(id), update_vao: true, ..self }
        }
    }

    /// The state after an index buffer is set, in the same way.
    pub open spec fn with_index_buffer(self, id: u64, format: IndexFormat) -> VaoState {
        if self.index_buffer == Some(id) {
            self
        } else {
            VaoState { index_buffer: Some(id), index_format: format, update_vao: true, ..self }
        }
    }

    /// The state once the vertex array is set up for a draw.
    pub open spec fn set_up(self) -> VaoState {
        VaoState { update_vao: false, ..self }
    }

    /// No buffers bound yet.
    pub fn new() -> (r: VaoState)
        ensures
            r.vertex_buffer is None,
            r.index_buffer is None,
            r.index_format == IndexFormat::Uint32,
            !r.update_vao,
    {
        VaoState {
            vertex_buffer: None,
            index_buffer: None,
            index_format: IndexFormat::Uint32,
            update_vao: false,
        }
    }

    pub fn set_vertex_buffer(&mut self, id: u64)
        ensures
            *final(self) == old(self).with_vertex_buffer(id),
    {
        let same = match self.vertex_buffer {
            Some(v) => v == id,
            None => false,
        };
        if !same {
            self.vertex_buffer = Some(id);
            self.update_vao = true;
        }
    }

    pub fn set_index_buffer(&mut self, id: u64, format: IndexFormat)
        ensures
            *final(self) == old(self).with_index_buffer(id, format),
    {
        let same = match self.index_buffer {
            Some(v) => v == id,
            None => false,
        };
        if !same {
            self.index_buffer = Some(id);
            self.index_format = format;
            self.update_vao = true;
        }
    }

    /// Starts the set-up of the vertex array for a draw: says whether it must be rebuilt and
    /// marks it clean.
    pub fn setup(&mut self) -> (r: bool)
        ensures
            r == old(self).update_vao,
            *final(self) == old(self).set_up(),
    {
        let r = self.update_vao;
        self.update_vao = false;
        r
    }
}

/// Setting the vertex buffer that is bound already leaves the vertex array as clean or dirty
/// as it was; setting another marks it dirty; after the set-up for a draw it is clean, and it
/// stays clean when the same buffer is set again.
pub proof fn lemma_vao_dirty_tracking(s: VaoState, id: u64, other: u64)
    requires
        id != other,
    ensures
        s.with_vertex_buffer(id).with_vertex_buffer(id) == s.with_vertex_buffer(id),
        s.with_vertex_buffer(id).with_vertex_buffer(other).update_vao,
        !s.with_vertex_buffer(id).set_up().update_vao,
        !s.with_vertex_buffer(id).set_up().with_vertex_buffer(id).update_vao,
        s.vertex_buffer == Some(id) ==> s.with_vertex_buffer(id).update_vao == s.update_vao,
        s.vertex_buffer != Some(id) ==> s.with_vertex_buffer(id).update_vao,
{
}

/// The region a pipeline clips to.
#[derive(Clone, Copy, Debug, PartialEq, Eq, Structural)]
pub struct ScissorsState {
    pub x: i32,
    pub y: i32,
    pub w: i32,
    pub h: i32,
}

/// The scissor region of a rectangle given from the top of a viewport of height
/// `viewport_height`, in the bottom-up coordinates of the driver.
pub fn scissors_state(x: u32, y: u32, w: u32, h: u32, viewport_height: i32) -> (r: ScissorsState)
    requires
        x <= i32::MAX,
        w <= i32::MAX,
        h <= i32::MAX,
        y + h <= i32::MAX,
        viewport_height >= 0,
    ensures
        r.x == x as i32,
        r.y == viewport_height - (y + h),
        r.w == w as i32,
        r.h == h as i32,
{
    ScissorsState { x: x as i32, y: viewport_height - (y + h) as i32, w: w as i32, h: h as i32 }
}

/// What must be bound when a vertex array is rebuilt: the native vertex and index buffers, and
/// the attribute pointers.
pub struct VaoSetup {
    pub vertex_buffer: Option<u32>,
    pub index_buffer: Option<u32>,
    pub pointers: Vec<AttributePointer>,
}

/// Why a vertex array cannot be set up.
#[derive(Clone, Copy, Debug, PartialEq, Eq, Structural)]
pub enum VaoError {
    /// The vertex or index buffer is held in memory and cannot be bound.
    HostBufferBound,
}

pub open spec fn native_of(b: Option<&Buffer>) -> Option<Option<u32>> {
    match b {
        None => Some(None),
        Some(Buffer::WebGlBuffer(id)) => Some(Some(*id)),
        Some(Buffer::Data(_)) => None,
    }
}

fn native_of_exec(b: Option<&Buffer>) -> (r: Option<Option<u32>>)
    ensures
        r == native_of(b),
{
    match b {
        None => Some(None),
        Some(buf) => match native_buffer(buf) {
            Some(id) => Some(Some(id)),
            None => None,
        },
    }
}

/// Sets up a pipeline's vertex array for a draw. When it is clean nothing is to be rebuilt
/// (`None`); when dirty it becomes clean and the buffers bound to it (`vertex`, `index`, as
/// the table holds them) and its single vertex buffer's attribute pointers are to be bound.
/// A buffer held in memory cannot be bound.
pub fn setup_vao(
    state: &mut VaoState,
    descriptors: &Vec<GlVertexBufferDescripror>,
    vertex: Option<&Buffer>,
    index: Option<&Buffer>,
) -> (r: Result<Option<VaoSetup>, VaoError>)
    requires
        descriptors@.len() == 1,
    ensures
        *final(state) == old(state).set_up(),
        !old(state).update_vao ==> r matches Ok(None),
        old(state).update_vao && (native_of(vertex) is None || native_of(index) is None) ==> r
            == Err::<Option<VaoSetup>, VaoError>(VaoError::HostBufferBound),
        old(state).update_vao && native_of(vertex) is Some && native_of(index) is Some ==> (
        r matches Ok(Some(s)) && Some(s.vertex_buffer) == native_of(vertex) && Some(s.index_buffer)
            == native_of(index) && s.pointers@ == pointers_of(
            descriptors@[0].attributes@,
            descriptors@[0].stride,
        )),
{
    if !state.setup() {
        return Ok(None);
    }
    let vertex_buffer = match native_of_exec(vertex) {
        Some(v) => v,
        None => {
            return Err(VaoError::HostBufferBound);
        },
    };
    let index_buffer = match native_of_exec(index) {
        Some(v) => v,
        None => {
            return Err(VaoError::HostBufferBound);
        },
    };
    let pointers = attribute_pointers(&descriptors[0]);
    Ok(Some(VaoSetup { vertex_buffer, index_buffer, pointers }))
}

/// How primitives are assembled and culled.
#[derive(Clone, Copy, Debug, PartialEq, Eq, Structural)]
pub struct PrimitiveState {
    pub topology: PrimitiveTopology,
    pub front_face: FrontFace,
    pub cull_mode: CullMode,
}

/// A created render pipeline: the shader stages its program was linked from (vertex and
/// fragment shader handles), its vertex input, its vertex array (by number) and the buffers
/// bound to it, and the fixed-function state it sets.
pub struct WebGL2Pipeline {
    pub shader_stages: (u64, u64),
    pub vertex_buffer_descriptors: Vec<GlVertexBufferDescripror>,
    pub vao: u32,
    pub vao_state: VaoState,
    pub color_target_states: Vec<ColorTargetState>,
    pub depth_compare: Option<CompareFunction>,
    pub primitive: PrimitiveState,
    pub scissors_state: Option<ScissorsState>,
}

/// The native state a pipeline sets: the face culled (`None`: culling off), the front face,
/// the depth function (`None`: left as it is), the blending of its first color target
/// (`None`: blending off), and the scissor region (`None`: scissor test off).
pub struct PipelineGlState {
    pub cull_face: Option<u32>,
    pub front_face: u32,
    pub depth_func: Option<u32>,
    pub blend: Option<GlBlend>,
    pub scissors: Option<ScissorsState>,
}

pub open spec fn pipeline_blend_supported(p: &WebGL2Pipeline) -> bool {
    p.color_target_states@.len() > 0 ==> blend_supported(p.color_target_states@[0])
}

/// The native state `p` sets when a pass switches to it.
pub fn pipeline_gl_state(p: &WebGL2Pipeline) -> (r: PipelineGlState)
    requires
        pipeline_blend_supported(p),
    ensures
        p.primitive.cull_mode == CullMode::Disabled ==> r.cull_face is None,
        p.primitive.cull_mode == CullMode::Front ==> r.cull_face == Some(crate::gl::FRONT),
        p.primitive.cull_mode == CullMode::Back ==> r.cull_face == Some(crate::gl::BACK),
        r.front_face == (if p.primitive.front_face == FrontFace::Cw {
            crate::gl::CW
        } else {
            crate::gl::CCW
        }),
        r.depth_func == (match p.depth_compare {
            Some(c) => Some(compare_func_of(c)),
            None => None,
        }),
        p.color_target_states@.len() == 0 ==> r.blend is None,
        p.color_target_states@.len() > 0 ==> (r.blend matches Some(b) && {
            let s = p.color_target_states@[0];
            &&& blend_factor_of(s.color_blend.src_factor) == Some(b.src_color)
            &&& blend_factor_of(s.color_blend.dst_factor) == Some(b.dst_color)
            &&& blend_factor_of(s.alpha_blend.src_factor) == Some(b.src_alpha)
            &&& blend_factor_of(s.alpha_blend.dst_factor) == Some(b.dst_alpha)
            &&& b.equation == blend_equation_of(s.color_blend.operation)
        }),
        r.scissors == p.scissors_state,
{
    let depth = match p.depth_compare {
        Some(c) => Some(depth_func(c)),
        None => None,
    };
    let blend = if p.color_target_states.len() > 0 {
        Some(gl_blend(p.color_target_states[0]))
    } else {
        None
    };
    PipelineGlState {
        cull_face: cull_face(p.primitive.cull_mode),
        front_face: front_face(p.primitive.front_face),
        depth_func: depth,
        blend,
        scissors: p.scissors_state,
    }
}

} // verus!
