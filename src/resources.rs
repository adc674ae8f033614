//! Buffers and bind groups: how each buffer is backed, what may be done with it, and the
//! table that resolves bind groups to native binding points and texture units.
use vstd::prelude::*;
use crate::gl;
use crate::slots::SlotAllocator;
use crate::table::IdTable;
use crate::pipeline::WebGL2Pipeline;
use crate::formats::{texture_format_to_gl, texture_format_triple, TextureFormat};

verus! {

/// Size every storage buffer is given, whatever size was asked for.
pub const STORAGE_BUFFER_SIZE: usize = 65536;

/// Alignment of uniform buffer ranges.
pub const BIND_BUFFER_ALIGNMENT: usize = 256;

/// A set of buffer usage flags.
#[derive(Clone, Copy, Debug, PartialEq, Eq, Structural)]
pub struct BufferUsage {
    pub bits: u32,
}

pub const MAP_READ: u32 = 1;
pub const MAP_WRITE: u32 = 2;
pub const COPY_SRC: u32 = 4;
pub const COPY_DST: u32 = 8;
pub const INDEX: u32 = 16;
pub const VERTEX: u32 = 32;
pub const UNIFORM: u32 = 64;
pub const STORAGE: u32 = 128;
pub const INDIRECT: u32 = 256;

/// Every flag of `flags` is set in `bits`.
pub open spec fn has_flags(bits: u32, flags: u32) -> bool {
    bits & flags == flags
}

impl BufferUsage {
    /// Whether every flag of `flags` is set.
    pub fn contains(&self, flags: u32) -> (r: bool)
        ensures
            r == has_flags(self.bits, flags),
    {
        self.bits & flags == flags
    }
}

/// What a buffer is asked to be: its size in bytes and its usage.
#[derive(Clone, Copy, Debug, PartialEq, Eq, Structural)]
pub struct BufferInfo {
    pub size: usize,
    pub buffer_usage: BufferUsage,
    pub mapped_at_creation: bool,
}

/// How a buffer is held: a native buffer object, by its number, or bytes in memory.
pub enum Buffer {
    WebGlBuffer(u32),
    Data(Vec<u8>),
}

/// A buffer and what it was asked to be.
pub struct GlBufferInfo {
    pub buffer: Buffer,
    pub info: BufferInfo,
}

/// Buffers that the host maps and copies from are held in memory, never by the GPU.
pub open spec fn is_host_usage(usage: BufferUsage) -> bool {
    has_flags(usage.bits, MAP_WRITE | COPY_SRC)
}

/// Whether a buffer of this usage is held in memory.
pub fn is_host_buffer(usage: BufferUsage) -> (r: bool)
    ensures
        r == is_host_usage(usage),
{
    usage.contains(MAP_WRITE | COPY_SRC)
}

/// How a buffer about to be created is to be held.
#[derive(Clone, Copy, Debug, PartialEq, Eq, Structural)]
pub enum BufferPlan {
    /// An in-memory array of that many bytes.
    Host { size: usize },
    /// A native buffer of `size` bytes created with the usage hint `usage_hint`.
    Native { size: usize, usage_hint: u32 },
}

/// The native size of a buffer: storage buffers always get the fixed storage size.
pub open spec fn native_size(info: BufferInfo) -> usize {
    if has_flags(info.buffer_usage.bits, STORAGE) {
        STORAGE_BUFFER_SIZE
    } else {
        info.size
    }
}

/// The usage hint of a native buffer: buffers copied into and read indirectly are read back
/// by the host, the others are drawn from.
pub open spec fn usage_hint_of(usage: BufferUsage) -> u32 {
    if has_flags(usage.bits, COPY_DST | INDIRECT) {
        gl::STREAM_READ
    } else {
        gl::DYNAMIC_DRAW
    }
}

/// Decides how a buffer created without data is held.
pub fn plan_buffer(info: BufferInfo) -> (r: BufferPlan)
    ensures
        is_host_usage(info.buffer_usage) ==> r == (BufferPlan::Host { size: info.size }),
        !is_host_usage(info.buffer_usage) ==> r == (BufferPlan::Native {
            size: native_size(info),
            usage_hint: usage_hint_of(info.buffer_usage),
        }),
{
    if is_host_buffer(info.buffer_usage) {
        BufferPlan::Host { size: info.size }
    } else {
        let size = if info.buffer_usage.contains(STORAGE) {
            STORAGE_BUFFER_SIZE
        } else {
            info.size
        };
        let usage_hint = if info.buffer_usage.contains(COPY_DST | INDIRECT) {
            gl::STREAM_READ
        } else {
            gl::DYNAMIC_DRAW
        };
        BufferPlan::Native { size, usage_hint }
    }
}

/// The recorded info of a buffer created with data: a size of 0 stands for the data's length.
pub fn info_with_data(info: BufferInfo, data_len: usize) -> (r: BufferInfo)
    ensures
        r.size == (if info.size == 0 {
            data_len
        } else {
            info.size
        }),
        r.buffer_usage == info.buffer_usage,
        r.mapped_at_creation == info.mapped_at_creation,
{
    if info.size == 0 {
        BufferInfo { size: data_len, ..info }
    } else {
        info
    }
}

/// The target a native buffer created with data is uploaded through: vertex buffers through
/// the array target, index buffers through the element target, others through the unpack
/// target.
pub open spec fn upload_target_of(usage: BufferUsage) -> u32 {
    if has_flags(usage.bits, VERTEX) {
        gl::ARRAY_BUFFER
    } else if has_flags(usage.bits, INDEX) {
        gl::ELEMENT_ARRAY_BUFFER
    } else {
        gl::PIXEL_UNPACK_BUFFER
    }
}

pub fn upload_target(usage: BufferUsage) -> (r: u32)
    ensures
        r == upload_target_of(usage),
{
    if usage.contains(VERTEX) {
        gl::ARRAY_BUFFER
    } else if usage.contains(INDEX) {
        gl::ELEMENT_ARRAY_BUFFER
    } else {
        gl::PIXEL_UNPACK_BUFFER
    }
}

/// A new in-memory buffer of `size` zero bytes.
pub fn new_host_buffer(size: usize) -> (r: Buffer)
    ensures
        r matches Buffer::Data(d) && d@ == Seq::new(size as nat, |i: int| 0u8),
{
    let mut d: Vec<u8> = Vec::new();
    let mut i: usize = 0;
    while i < size
        invariant
            i <= size,
            d@ == Seq::new(i as nat, |j: int| 0u8),
        decreases size - i,
    {
        d.push(0);
        i += 1;
        assert(d@ =~= Seq::new(i as nat, |j: int| 0u8));
    }
    Buffer::Data(d)
}

/// An in-memory buffer holding a copy of `data`.
pub fn host_buffer_from(data: &[u8]) -> (r: Buffer)
    ensures
        r matches Buffer::Data(d) && d@ == data@,
{
    let mut d: Vec<u8> = Vec::new();
    let mut i: usize = 0;
    while i < data.len()
        invariant
            i <= data@.len(),
            d@ == data@.take(i as int),
        decreases data@.len() - i,
    {
        d.push(data[i]);
        i += 1;
        assert(d@ =~= data@.take(i as int));
    }
    assert(data@.take(i as int) =~= data@);
    Buffer::Data(d)
}

/// How a buffer-to-buffer copy is carried out.
#[derive(Clone, Copy, Debug, PartialEq, Eq, Structural)]
pub enum CopyPlan {
    /// A copy between the two native buffers.
    GpuToGpu { src: u32, dst: u32 },
    /// An upload of the source's bytes into the native destination.
    HostToGpu { dst: u32 },
}

/// Why a copy cannot be carried out.
#[derive(Clone, Copy, Debug, PartialEq, Eq, Structural)]
pub enum CopyError {
    /// The destination is an in-memory buffer, which copies cannot write.
    WriteToHostBuffer,
}

/// Decides how to copy from `src` to `dst`; copying into an in-memory buffer fails.
pub fn plan_copy(src: &Buffer, dst: &Buffer) -> (r: Result<CopyPlan, CopyError>)
    ensures
        match (src, dst) {
            (Buffer::WebGlBuffer(s), Buffer::WebGlBuffer(d)) => r == Ok::<CopyPlan, CopyError>(
                CopyPlan::GpuToGpu { src: *s, dst: *d },
            ),
            (Buffer::Data(_), Buffer::WebGlBuffer(d)) => r == Ok::<CopyPlan, CopyError>(
                CopyPlan::HostToGpu { dst: *d },
            ),
            (_, Buffer::Data(_)) => r == Err::<CopyPlan, CopyError>(CopyError::WriteToHostBuffer),
        },
{
    match (src, dst) {
        (Buffer::WebGlBuffer(s), Buffer::WebGlBuffer(d)) => Ok(CopyPlan::GpuToGpu { src: *s, dst: *d }),
        (Buffer::Data(_), Buffer::WebGlBuffer(d)) => Ok(CopyPlan::HostToGpu { dst: *d }),
        (_, Buffer::Data(_)) => Err(CopyError::WriteToHostBuffer),
    }
}

/// The native buffer that a draw or bind uses; an in-memory buffer cannot be bound.
pub fn native_buffer(b: &Buffer) -> (r: Option<u32>)
    ensures
        match b {
            Buffer::WebGlBuffer(id) => r == Some(*id),
            Buffer::Data(_) => r is None,
        },
{
    match b {
        Buffer::WebGlBuffer(id) => Some(*id),
        Buffer::Data(_) => None,
    }
}

/// Writes `bytes` at `offset` into an in-memory buffer; a native buffer is left to the driver
/// and reported as `false`.
pub fn write_host_bytes(b: &mut Buffer, offset: usize, bytes: &[u8]) -> (r: bool)
    requires
        *old(b) matches Buffer::Data(d) ==> offset + bytes@.len() <= d@.len(),
    ensures
        match *old(b) {
            Buffer::Data(d) => r && (*final(b) matches Buffer::Data(d2) && d2@ == d@.subrange(
                0,
                offset as int,
            ) + bytes@ + d@.subrange(offset + bytes@.len(), d@.len() as int)),
            Buffer::WebGlBuffer(id) => !r && *final(b) == Buffer::WebGlBuffer(id),
        },
{
    match b {
        Buffer::Data(d) => {
            let ghost d0 = d@;
            let n = d.len();
            let mut i: usize = 0;
            while i < bytes.len()
                invariant
                    offset + bytes@.len() <= d0.len(),
                    d@.len() == d0.len(),
                    d0.len() == n,
                    i <= bytes@.len(),
                    forall|q: int| 0 <= q < offset ==> d@[q] == d0[q],
                    forall|q: int| offset + bytes@.len() <= q < d0.len() ==> d@[q] == d0[q],
                    forall|q: int| 0 <= q < i ==> d@[offset + q] == bytes@[q],
                    forall|q: int| offset + i <= q < offset + bytes@.len() ==> d@[q] == d0[q],
                decreases bytes@.len() - i,
            {
                d.set(offset + i, bytes[i]);
                i += 1;
            }
            assert(d@ =~= d0.subrange(0, offset as int) + bytes@ + d0.subrange(
                offset + bytes@.len(),
                d0.len() as int,
            ));
            true
        },
        Buffer::WebGlBuffer(_) => false,
    }
}

/// The size of a uniform range rounded up to the binding alignment.
pub fn get_aligned_uniform_size(size: usize) -> (r: usize)
    requires
        size + BIND_BUFFER_ALIGNMENT - 1 <= usize::MAX,
    ensures
        r % BIND_BUFFER_ALIGNMENT == 0,
        size <= r < size + BIND_BUFFER_ALIGNMENT,
{
    let r = (size + (BIND_BUFFER_ALIGNMENT - 1)) / BIND_BUFFER_ALIGNMENT * BIND_BUFFER_ALIGNMENT;
    assert(r % 256 == 0 && size <= r < size + 256) by (nonlinear_arith)
        requires
            r == (size + 255) / 256 * 256,
    ;
    r
}

/// What an engine-level binding refers to: a buffer range, a texture or a sampler, by id.
#[derive(Clone, Copy, Debug, PartialEq, Eq, Structural)]
pub enum RenderResourceBinding {
    Buffer { buffer: u64, range_start: u64, range_end: u64 },
    Texture(u64),
    Sampler(u64),
}

/// An engine-level binding at a binding index of its group.
#[derive(Clone, Copy, Debug, PartialEq, Eq, Structural)]
pub struct IndexedBinding {
    pub index: u32,
    pub entry: RenderResourceBinding,
}

/// A binding resolved to the native slot it is bound at.
#[derive(Clone, Copy, Debug, PartialEq, Eq, Structural)]
pub enum WebGL2RenderResourceBinding {
    Buffer { binding_point: u32, buffer: u64, range_start: u64, range_end: u64 },
    Texture { texture_unit: u32, texture: u64 },
    Sampler(u64),
}

/// The keys whose binding points the buffer entries ask for, in order.
pub open spec fn buffer_keys(entries: Seq<IndexedBinding>, group: u32) -> Seq<(u32, u32)>
    decreases entries.len(),
{
    if entries.len() == 0 {
        Seq::empty()
    } else {
        let r = buffer_keys(entries.drop_last(), group);
        match entries.last().entry {
            RenderResourceBinding::Buffer { .. } => r.push((group, entries.last().index)),
            _ => r,
        }
    }
}

/// The keys whose texture units the texture entries ask for, in order.
pub open spec fn texture_keys(entries: Seq<IndexedBinding>, group: u32) -> Seq<(u32, u32)>
    decreases entries.len(),
{
    if entries.len() == 0 {
        Seq::empty()
    } else {
        let r = texture_keys(entries.drop_last(), group);
        match entries.last().entry {
            RenderResourceBinding::Texture(_) => r.push((group, entries.last().index)),
            _ => r,
        }
    }
}

/// The allocator's keys after requesting `k`.
pub open spec fn request(keys: Seq<(u32, u32)>, k: (u32, u32)) -> Seq<(u32, u32)> {
    if keys.contains(k) {
        keys
    } else {
        keys.push(k)
    }
}

/// The allocator's keys after requesting each of `ks` in order.
pub open spec fn request_all(keys: Seq<(u32, u32)>, ks: Seq<(u32, u32)>) -> Seq<(u32, u32)>
    decreases ks.len(),
{
    if ks.len() == 0 {
        keys
    } else {
        request(request_all(keys, ks.drop_last()), ks.last())
    }
}

/// The entries resolved against the binding points `bp` and texture units `tu`: buffers and
/// textures in order, samplers left out.
pub open spec fn resolve_all(
    entries: Seq<IndexedBinding>,
    group: u32,
    bp: Map<(u32, u32), u32>,
    tu: Map<(u32, u32), u32>,
) -> Seq<WebGL2RenderResourceBinding>
    decreases entries.len(),
{
    if entries.len() == 0 {
        Seq::empty()
    } else {
        let r = resolve_all(entries.drop_last(), group, bp, tu);
        let e = entries.last();
        match e.entry {
            RenderResourceBinding::Buffer { buffer, range_start, range_end } => r.push(
                WebGL2RenderResourceBinding::Buffer {
                    binding_point: bp[(group, e.index)],
                    buffer,
                    range_start,
                    range_end,
                },
            ),
            RenderResourceBinding::Texture(texture) => r.push(
                WebGL2RenderResourceBinding::Texture { texture_unit: tu[(group, e.index)], texture },
            ),
            RenderResourceBinding::Sampler(_) => r,
        }
    }
}

proof fn lemma_resolve_all_stable(
    entries: Seq<IndexedBinding>,
    group: u32,
    bp1: Map<(u32, u32), u32>,
    bp2: Map<(u32, u32), u32>,
    tu1: Map<(u32, u32), u32>,
    tu2: Map<(u32, u32), u32>,
)
    requires
        forall|k: (u32, u32)| #[trigger] bp1.contains_key(k) ==> bp2.contains_key(k) && bp2[k] == bp1[k],
        forall|k: (u32, u32)| #[trigger] tu1.contains_key(k) ==> tu2.contains_key(k) && tu2[k] == tu1[k],
        forall|i: int| 0 <= i < buffer_keys(entries, group).len() ==> bp1.contains_key(
            #[trigger] buffer_keys(entries, group)[i],
        ),
        forall|i: int| 0 <= i < texture_keys(entries, group).len() ==> tu1.contains_key(
            #[trigger] texture_keys(entries, group)[i],
        ),
    ensures
        resolve_all(entries, group, bp1, tu1) == resolve_all(entries, group, bp2, tu2),
    decreases entries.len(),
{
    if entries.len() > 0 {
        let d = entries.drop_last();
        let e = entries.last();
        let bk = buffer_keys(entries, group);
        let tk = texture_keys(entries, group);
        assert forall|i: int| 0 <= i < buffer_keys(d, group).len() implies bp1.contains_key(
            #[trigger] buffer_keys(d, group)[i],
        ) by {
            assert(bk[i] == buffer_keys(d, group)[i]);
        }
        assert forall|i: int| 0 <= i < texture_keys(d, group).len() implies tu1.contains_key(
            #[trigger] texture_keys(d, group)[i],
        ) by {
            assert(tk[i] == texture_keys(d, group)[i]);
        }
        lemma_resolve_all_stable(d, group, bp1, bp2, tu1, tu2);
        match e.entry {
            RenderResourceBinding::Buffer { .. } => {
                assert(bk[bk.len() - 1] == (group, e.index));
            },
            RenderResourceBinding::Texture(_) => {
                assert(tk[tk.len() - 1] == (group, e.index));
            },
            _ => {},
        }
    }
}

/// The backend's resource table: the binding point and texture unit allocators, the window
/// size, the resolved bind groups by id, and by handle the buffers, the native textures and
/// their descriptors, the framebuffers made for render-target textures, and the group index of
/// each bind group layout, and the created pipelines.
pub struct WebGL2Resources {
    pub binding_points: SlotAllocator,
    pub texture_units: SlotAllocator,
    pub window_size: (u32, u32),
    pub bind_groups: Vec<(u64, Vec<WebGL2RenderResourceBinding>)>,
    pub buffers: IdTable<GlBufferInfo>,
    pub textures: IdTable<u32>,
    pub texture_descriptors: IdTable<TextureDescriptor>,
    pub framebuffers: IdTable<u32>,
    pub bind_group_layouts: IdTable<u32>,
    pub pipelines: IdTable<WebGL2Pipeline>,
}

impl WebGL2Resources {
    /// The resolved bind groups, by id, in order of creation.
    pub open spec fn bind_groups(&self) -> Seq<(u64, Seq<WebGL2RenderResourceBinding>)> {
        self.bind_groups@.map_values(
            |p: (u64, Vec<WebGL2RenderResourceBinding>)| (p.0, p.1@),
        )
    }

    pub open spec fn wf(&self) -> bool {
        &&& self.binding_points.wf()
        &&& self.texture_units.wf()
        &&& self.buffers.wf()
        &&& self.textures.wf()
        &&& self.texture_descriptors.wf()
        &&& self.framebuffers.wf()
        &&& self.bind_group_layouts.wf()
        &&& self.pipelines.wf()
    }

    /// The handle-indexed tables of `self` and `other` are the same.
    pub open spec fn same_tables(&self, other: &WebGL2Resources) -> bool {
        &&& self.buffers == other.buffers
        &&& self.textures == other.textures
        &&& self.texture_descriptors == other.texture_descriptors
        &&& self.framebuffers == other.framebuffers
        &&& self.bind_group_layouts == other.bind_group_layouts
        &&& self.pipelines == other.pipelines
    }

    pub open spec fn has_bind_group(&self, id: u64) -> bool {
        exists|i: int| 0 <= i < self.bind_groups().len() && (#[trigger] self.bind_groups()[i]).0 == id
    }

    pub fn new() -> (r: WebGL2Resources)
        ensures
            r.wf(),
            r.binding_points.keys() == Seq::<(u32, u32)>::empty(),
            r.texture_units.keys() == Seq::<(u32, u32)>::empty(),
            r.window_size == (0u32, 0u32),
            r.bind_groups() == Seq::<(u64, Seq<WebGL2RenderResourceBinding>)>::empty(),
            r.buffers@ == Map::<u64, GlBufferInfo>::empty(),
            r.textures@ == Map::<u64, u32>::empty(),
            r.texture_descriptors@ == Map::<u64, TextureDescriptor>::empty(),
            r.framebuffers@ == Map::<u64, u32>::empty(),
            r.bind_group_layouts@ == Map::<u64, u32>::empty(),
            r.pipelines@ == Map::<u64, WebGL2Pipeline>::empty(),
    {
        let r = WebGL2Resources {
            binding_points: SlotAllocator::new(),
            texture_units: SlotAllocator::new(),
            window_size: (0, 0),
            bind_groups: Vec::new(),
            buffers: IdTable::new(),
            textures: IdTable::new(),
            texture_descriptors: IdTable::new(),
            framebuffers: IdTable::new(),
            bind_group_layouts: IdTable::new(),
            pipelines: IdTable::new(),
        };
        assert(r.bind_groups() =~= Seq::<(u64, Seq<WebGL2RenderResourceBinding>)>::empty());
        r
    }

    /// The binding point of `(group_index, index)`, allocated on first request.
    pub fn get_or_create_binding_point(&mut self, group_index: u32, index: u32) -> (r: u32)
        requires
            old(self).wf(),
            old(self).binding_points.slots().contains_key((group_index, index))
                || old(self).binding_points.next_slot() < u32::MAX,
        ensures
            final(self).wf(),
            final(self).binding_points.keys() == request(
                old(self).binding_points.keys(),
                (group_index, index),
            ),
            final(self).binding_points.slots().contains_key((group_index, index)),
            r == final(self).binding_points.slots()[(group_index, index)],
            final(self).binding_points.slots() == old(self).binding_points.slots().insert(
                (group_index, index),
                r,
            ),
            final(self).texture_units == old(self).texture_units,
            final(self).bind_groups() == old(self).bind_groups(),
            final(self).window_size == old(self).window_size,
            final(self).same_tables(old(self)),
    {
        self.binding_points.get_or_create(group_index, index)
    }

    /// The texture unit of `(group_index, index)`, allocated on first request.
    pub fn get_or_create_texture_unit(&mut self, group_index: u32, index: u32) -> (r: u32)
        requires
            old(self).wf(),
            old(self).texture_units.slots().contains_key((group_index, index))
                || old(self).texture_units.next_slot() < u32::MAX,
        ensures
            final(self).wf(),
            final(self).texture_units.keys() == request(
                old(self).texture_units.keys(),
                (group_index, index),
            ),
            final(self).texture_units.slots().contains_key((group_index, index)),
            r == final(self).texture_units.slots()[(group_index, index)],
            final(self).texture_units.slots() == old(self).texture_units.slots().insert(
                (group_index, index),
                r,
            ),
            final(self).binding_points == old(self).binding_points,
            final(self).bind_groups() == old(self).bind_groups(),
            final(self).window_size == old(self).window_size,
            final(self).same_tables(old(self)),
    {
        self.texture_units.get_or_create(group_index, index)
    }

    /// Whether a bind group of this id was created.
    pub fn bind_group_exists(&self, id: u64) -> (r: bool)
        ensures
            r == self.has_bind_group(id),
    {
        self.find_bind_group(id).is_some()
    }

    fn find_bind_group(&self, id: u64) -> (r: Option<usize>)
        ensures
            match r {
                Some(i) => i < self.bind_groups().len() && self.bind_groups()[i as int].0 == id,
                None => !self.has_bind_group(id),
            },
    {
        let mut i: usize = 0;
        while i < self.bind_groups.len()
            invariant
                i <= self.bind_groups@.len(),
                forall|j: int| 0 <= j < i ==> (#[trigger] self.bind_groups()[j]).0 != id,
            decreases self.bind_groups@.len() - i,
        {
            if self.bind_groups[i].0 == id {
                return Some(i);
            }
            i += 1;
        }
        None
    }

    /// The resolved bindings of a bind group.
    pub fn bind_group(&self, id: u64) -> (r: Option<&Vec<WebGL2RenderResourceBinding>>)
        ensures
            match r {
                Some(v) => exists|i: int|
                    0 <= i < self.bind_groups().len() && (#[trigger] self.bind_groups()[i]).0 == id
                        && self.bind_groups()[i].1 == v@,
                None => !self.has_bind_group(id),
            },
    {
        match self.find_bind_group(id) {
            Some(i) => Some(&self.bind_groups[i].1),
            None => None,
        }
    }

    /// Forgets every bind group.
    pub fn clear_bind_groups(&mut self)
        ensures
            final(self).bind_groups() == Seq::<(u64, Seq<WebGL2RenderResourceBinding>)>::empty(),
            final(self).binding_points == old(self).binding_points,
            final(self).texture_units == old(self).texture_units,
            final(self).window_size == old(self).window_size,
            final(self).same_tables(old(self)),
    {
        self.bind_groups.clear();
        assert(self.bind_groups() =~= Seq::<(u64, Seq<WebGL2RenderResourceBinding>)>::empty());
    }

    /// Creates bind group `id` of the registered layout `layout`, whose group index is `group`
    /// below: each buffer entry gets the binding point and each texture entry the texture unit
    /// of `(group, binding index)`; samplers are left out. A bind group that exists already is
    /// kept as it is.
    pub fn create_bind_group(&mut self, id: u64, layout: u64, entries: &Vec<IndexedBinding>)
        requires
            old(self).wf(),
            old(self).bind_group_layouts@.contains_key(layout),
            old(self).binding_points.next_slot() + entries@.len() < u32::MAX,
            old(self).texture_units.next_slot() + entries@.len() < u32::MAX,
        ensures
            final(self).wf(),
            final(self).window_size == old(self).window_size,
            final(self).same_tables(old(self)),
            old(self).has_bind_group(id) ==> {
                &&& final(self).bind_groups() == old(self).bind_groups()
                &&& final(self).binding_points == old(self).binding_points
                &&& final(self).texture_units == old(self).texture_units
            },
            !old(self).has_bind_group(id) ==> {
                &&& final(self).binding_points.keys() == request_all(
                    old(self).binding_points.keys(),
                    buffer_keys(entries@, old(self).bind_group_layouts@[layout]),
                )
                &&& final(self).texture_units.keys() == request_all(
                    old(self).texture_units.keys(),
                    texture_keys(entries@, old(self).bind_group_layouts@[layout]),
                )
                &&& final(self).bind_groups() == old(self).bind_groups().push(
                    (
                        id,
                        resolve_all(
                            entries@,
                            old(self).bind_group_layouts@[layout],
                            final(self).binding_points.slots(),
                            final(self).texture_units.slots(),
                        ),
                    ),
                )
            },
    {
        if self.bind_group_exists(id) {
            return;
        }
        let group = match self.bind_group_layouts.get(layout) {
            Some(g) => *g,
            None => {
                return;
            },
        };
        let ghost bp0 = self.binding_points.keys();
        let ghost tu0 = self.texture_units.keys();
        let ghost n0 = self.binding_points.next_slot();
        let ghost m0 = self.texture_units.next_slot();
        let ghost groups0 = self.bind_groups();
        let mut out: Vec<WebGL2RenderResourceBinding> = Vec::new();
        let mut i: usize = 0;
        while i < entries.len()
            invariant
                self.wf(),
                i <= entries@.len(),
                self.bind_groups() == groups0,
                self.binding_points.next_slot() <= n0 + i,
                self.texture_units.next_slot() <= m0 + i,
                n0 + entries@.len() < u32::MAX,
                m0 + entries@.len() < u32::MAX,
                self.window_size == old(self).window_size,
                self.same_tables(old(self)),
                self.binding_points.keys() == request_all(bp0, buffer_keys(entries@.take(i as int), group)),
                self.texture_units.keys() == request_all(tu0, texture_keys(entries@.take(i as int), group)),
                forall|j: int| 0 <= j < buffer_keys(entries@.take(i as int), group).len() ==>
                    self.binding_points.slots().contains_key(
                        #[trigger] buffer_keys(entries@.take(i as int), group)[j],
                    ),
                forall|j: int| 0 <= j < texture_keys(entries@.take(i as int), group).len() ==>
                    self.texture_units.slots().contains_key(
                        #[trigger] texture_keys(entries@.take(i as int), group)[j],
                    ),
                out@ == resolve_all(
                    entries@.take(i as int),
                    group,
                    self.binding_points.slots(),
                    self.texture_units.slots(),
                ),
            decreases entries@.len() - i,
        {
            let e = entries[i];
            let ghost pre = entries@.take(i as int);
            let ghost next = entries@.take(i + 1);
            let ghost bpm = self.binding_points.slots();
            let ghost tum = self.texture_units.slots();
            proof {
                assert(next.drop_last() =~= pre);
                assert(next.last() == e);
            }
            match e.entry {
                RenderResourceBinding::Buffer { buffer, range_start, range_end } => {
                    let binding_point = self.get_or_create_binding_point(group, e.index);
                    out.push(
                        WebGL2RenderResourceBinding::Buffer {
                            binding_point,
                            buffer,
                            range_start,
                            range_end,
                        },
                    );
                },
                RenderResourceBinding::Texture(texture) => {
                    let texture_unit = self.get_or_create_texture_unit(group, e.index);
                    out.push(WebGL2RenderResourceBinding::Texture { texture_unit, texture });
                },
                RenderResourceBinding::Sampler(_) => {},
            }
            proof {
                lemma_resolve_all_stable(
                    pre,
                    group,
                    bpm,
                    self.binding_points.slots(),
                    tum,
                    self.texture_units.slots(),
                );
                let bk = buffer_keys(next, group);
                let tk = texture_keys(next, group);
                let k = (group, e.index);
                match e.entry {
                    RenderResourceBinding::Buffer { .. } => {
                        assert(bk == buffer_keys(pre, group).push(k));
                        assert(bk.drop_last() =~= buffer_keys(pre, group));
                    },
                    RenderResourceBinding::Texture(_) => {
                        assert(tk == texture_keys(pre, group).push(k));
                        assert(tk.drop_last() =~= texture_keys(pre, group));
                    },
                    _ => {},
                }
                assert forall|j: int| 0 <= j < bk.len() implies self.binding_points.slots().contains_key(
                    #[trigger] bk[j],
                ) by {
                    if j < buffer_keys(pre, group).len() {
                        assert(bk[j] == buffer_keys(pre, group)[j]);
                    }
                }
                assert forall|j: int| 0 <= j < tk.len() implies self.texture_units.slots().contains_key(
                    #[trigger] tk[j],
                ) by {
                    if j < texture_keys(pre, group).len() {
                        assert(tk[j] == texture_keys(pre, group)[j]);
                    }
                }
            }
            i += 1;
        }
        proof {
            assert(entries@.take(i as int) =~= entries@);
        }
        let ghost resolved = out@;
        self.bind_groups.push((id, out));
        assert(self.bind_groups() =~= groups0.push((id, resolved)));
    }
}

/// What a texture is created as: its size and pixel format.
#[derive(Clone, Copy, Debug, PartialEq, Eq, Structural)]
pub struct TextureDescriptor {
    pub width: u32,
    pub height: u32,
    pub format: TextureFormat,
}

/// The arguments of the empty image a texture is created with, and whether its format was
/// substituted.
#[derive(Clone, Copy, Debug, PartialEq, Eq, Structural)]
pub struct TexImage {
    pub internal_format: i32,
    pub width: i32,
    pub height: i32,
    pub format: u32,
    pub component_type: u32,
    pub substituted: bool,
}

/// The image of a texture of the given descriptor: the native triple of its format (every
/// internal format is below 2^31) and its size.
pub fn tex_image(desc: TextureDescriptor) -> (r: TexImage)
    requires
        desc.width <= i32::MAX,
        desc.height <= i32::MAX,
    ensures
        (r.internal_format as u32, r.format, r.component_type) == texture_format_triple(desc.format),
        r.width == desc.width,
        r.height == desc.height,
        r.substituted == crate::formats::is_substituted_format(desc.format),
{
    let c = texture_format_to_gl(desc.format);
    TexImage {
        internal_format: c.internal_format as i32,
        width: desc.width as i32,
        height: desc.height as i32,
        format: c.format,
        component_type: c.component_type,
        substituted: c.substituted,
    }
}

impl WebGL2Resources {
    /// Records the window's size in pixels.
    pub fn set_window_size(&mut self, width: u32, height: u32)
        ensures
            final(self).window_size == (width, height),
            final(self).binding_points == old(self).binding_points,
            final(self).texture_units == old(self).texture_units,
            final(self).bind_groups() == old(self).bind_groups(),
            final(self).same_tables(old(self)),
    {
        self.window_size = (width, height);
    }
}

impl WebGL2Resources {
    /// Records a created buffer under its handle.
    pub fn add_buffer(&mut self, id: u64, buffer: GlBufferInfo)
        requires
            old(self).wf(),
        ensures
            final(self).wf(),
            final(self).buffers@ == old(self).buffers@.insert(id, buffer),
            final(self).textures == old(self).textures,
            final(self).texture_descriptors == old(self).texture_descriptors,
            final(self).framebuffers == old(self).framebuffers,
            final(self).bind_group_layouts == old(self).bind_group_layouts,
    {
        self.buffers.insert(id, buffer);
    }

    /// What buffer `id` was asked to be.
    pub fn get_buffer_info(&self, id: u64) -> (r: Option<BufferInfo>)
        requires
            self.wf(),
        ensures
            r == (if self.buffers@.contains_key(id) {
                Some(self.buffers@[id].info)
            } else {
                None
            }),
    {
        match self.buffers.get(id) {
            Some(b) => Some(b.info),
            None => None,
        }
    }

    /// Removes buffer `id`; returns the native buffer to delete when it was GPU-backed.
    pub fn remove_buffer(&mut self, id: u64) -> (r: Option<u32>)
        requires
            old(self).wf(),
            old(self).buffers@.contains_key(id),
        ensures
            final(self).wf(),
            final(self).buffers@ == old(self).buffers@.remove(id),
            r == (match old(self).buffers@[id].buffer {
                Buffer::WebGlBuffer(n) => Some(n),
                Buffer::Data(_) => None,
            }),
            final(self).textures == old(self).textures,
            final(self).texture_descriptors == old(self).texture_descriptors,
    {
        match self.buffers.remove(id) {
            Some(b) => match b.buffer {
                Buffer::WebGlBuffer(n) => Some(n),
                Buffer::Data(_) => None,
            },
            None => vstd::pervasive::unreached(),
        }
    }

    /// Records a created texture: its native texture and its descriptor.
    pub fn add_texture(&mut self, id: u64, native: u32, descriptor: TextureDescriptor)
        requires
            old(self).wf(),
        ensures
            final(self).wf(),
            final(self).textures@ == old(self).textures@.insert(id, native),
            final(self).texture_descriptors@ == old(self).texture_descriptors@.insert(id, descriptor),
            final(self).buffers == old(self).buffers,
            final(self).framebuffers == old(self).framebuffers,
    {
        self.textures.insert(id, native);
        self.texture_descriptors.insert(id, descriptor);
    }

    /// Removes texture `id` and its descriptor; returns the native texture to delete.
    pub fn remove_texture(&mut self, id: u64) -> (r: u32)
        requires
            old(self).wf(),
            old(self).textures@.contains_key(id),
        ensures
            final(self).wf(),
            r == old(self).textures@[id],
            final(self).textures@ == old(self).textures@.remove(id),
            final(self).texture_descriptors@ == old(self).texture_descriptors@.remove(id),
            final(self).buffers == old(self).buffers,
    {
        let r = self.textures.remove(id);
        let _ = self.texture_descriptors.remove(id);
        match r {
            Some(n) => n,
            None => vstd::pervasive::unreached(),
        }
    }

    /// The framebuffer made for render-target texture `texture`, if one was made.
    pub fn framebuffer(&self, texture: u64) -> (r: Option<u32>)
        requires
            self.wf(),
        ensures
            r == (if self.framebuffers@.contains_key(texture) {
                Some(self.framebuffers@[texture])
            } else {
                None
            }),
    {
        match self.framebuffers.get(texture) {
            Some(f) => Some(*f),
            None => None,
        }
    }

    /// Caches the framebuffer made for render-target texture `texture`.
    pub fn add_framebuffer(&mut self, texture: u64, framebuffer: u32)
        requires
            old(self).wf(),
        ensures
            final(self).wf(),
            final(self).framebuffers@ == old(self).framebuffers@.insert(texture, framebuffer),
            final(self).buffers == old(self).buffers,
            final(self).textures == old(self).textures,
    {
        self.framebuffers.insert(texture, framebuffer);
    }

    /// Whether bind group layout `id` was registered.
    pub fn bind_group_descriptor_exists(&self, id: u64) -> (r: bool)
        requires
            self.wf(),
        ensures
            r == self.bind_group_layouts@.contains_key(id),
    {
        self.bind_group_layouts.contains_key(id)
    }

    /// Registers bind group layout `id`, of group index `index`, unless it is registered.
    pub fn create_bind_group_layout(&mut self, id: u64, index: u32)
        requires
            old(self).wf(),
        ensures
            final(self).wf(),
            final(self).bind_group_layouts@ == (if old(self).bind_group_layouts@.contains_key(id) {
                old(self).bind_group_layouts@
            } else {
                old(self).bind_group_layouts@.insert(id, index)
            }),
            final(self).buffers == old(self).buffers,
            final(self).textures == old(self).textures,
    {
        if self.bind_group_layouts.contains_key(id) {
            return;
        }
        self.bind_group_layouts.insert(id, index);
    }
}

/// What the driver reports of one binding of a pipeline's layout, at `(group, binding)`: the
/// index of the uniform block of that name (negative when there is none), whether a plain
/// uniform of that name exists, and whether the binding is a texture.
#[derive(Clone, Copy, Debug, PartialEq, Eq, Structural)]
pub struct BindingProbe {
    pub group: u32,
    pub binding: u32,
    pub block_index: i32,
    pub has_location: bool,
    pub is_texture: bool,
}

/// How one binding is linked to the program.
#[derive(Clone, Copy, Debug, PartialEq, Eq, Structural)]
pub enum LinkAction {
    /// Bind uniform block `block_index` to binding point `binding_point`.
    Block { block_index: u32, binding_point: u32 },
    /// Point the sampler uniform at texture unit `texture_unit`.
    Sampler { texture_unit: u32 },
    /// The program has no such uniform.
    Skip,
}

/// Only textures may be plain (non-block) uniforms.
pub open spec fn probe_ok(p: BindingProbe) -> bool {
    p.block_index < 0 && p.has_location ==> p.is_texture
}

pub open spec fn link_of(p: BindingProbe, bp: Map<(u32, u32), u32>, tu: Map<(u32, u32), u32>) -> LinkAction {
    if p.block_index >= 0 {
        LinkAction::Block { block_index: p.block_index as u32, binding_point: bp[(p.group, p.binding)] }
    } else if p.has_location {
        LinkAction::Sampler { texture_unit: tu[(p.group, p.binding)] }
    } else {
        LinkAction::Skip
    }
}

/// The keys whose binding points the uniform blocks ask for, in order.
pub open spec fn block_keys(probes: Seq<BindingProbe>) -> Seq<(u32, u32)>
    decreases probes.len(),
{
    if probes.len() == 0 {
        Seq::empty()
    } else {
        let r = block_keys(probes.drop_last());
        let p = probes.last();
        if p.block_index >= 0 {
            r.push((p.group, p.binding))
        } else {
            r
        }
    }
}

/// The keys whose texture units the plain sampler uniforms ask for, in order.
pub open spec fn sampler_keys(probes: Seq<BindingProbe>) -> Seq<(u32, u32)>
    decreases probes.len(),
{
    if probes.len() == 0 {
        Seq::empty()
    } else {
        let r = sampler_keys(probes.drop_last());
        let p = probes.last();
        if p.block_index < 0 && p.has_location {
            r.push((p.group, p.binding))
        } else {
            r
        }
    }
}

impl WebGL2Resources {
    /// Decides how each binding of a pipeline's layout is linked to its program: uniform blocks
    /// to the binding point of their place, plain sampler uniforms to the texture unit of their
    /// place, allocating the slots on first request.
    pub fn plan_uniform_links(&mut self, probes: &Vec<BindingProbe>) -> (r: Vec<LinkAction>)
        requires
            old(self).wf(),
            forall|i: int| 0 <= i < probes@.len() ==> probe_ok(#[trigger] probes@[i]),
            old(self).binding_points.next_slot() + probes@.len() < u32::MAX,
            old(self).texture_units.next_slot() + probes@.len() < u32::MAX,
        ensures
            final(self).wf(),
            final(self).window_size == old(self).window_size,
            final(self).same_tables(old(self)),
            final(self).bind_groups() == old(self).bind_groups(),
            final(self).binding_points.keys() == request_all(
                old(self).binding_points.keys(),
                block_keys(probes@),
            ),
            final(self).texture_units.keys() == request_all(
                old(self).texture_units.keys(),
                sampler_keys(probes@),
            ),
            r@.len() == probes@.len(),
            forall|i: int|
                0 <= i < r@.len() ==> #[trigger] r@[i] == link_of(
                    probes@[i],
                    final(self).binding_points.slots(),
                    final(self).texture_units.slots(),
                ),
    {
        let ghost bp0 = self.binding_points.keys();
        let ghost tu0 = self.texture_units.keys();
        let ghost n0 = self.binding_points.next_slot();
        let ghost m0 = self.texture_units.next_slot();
        let mut out: Vec<LinkAction> = Vec::new();
        let mut i: usize = 0;
        while i < probes.len()
            invariant
                self.wf(),
                i <= probes@.len(),
                forall|j: int| 0 <= j < probes@.len() ==> probe_ok(#[trigger] probes@[j]),
                self.bind_groups() == old(self).bind_groups(),
                self.binding_points.next_slot() <= n0 + i,
                self.texture_units.next_slot() <= m0 + i,
                n0 + probes@.len() < u32::MAX,
                m0 + probes@.len() < u32::MAX,
                self.window_size == old(self).window_size,
                self.same_tables(old(self)),
                self.binding_points.keys() == request_all(bp0, block_keys(probes@.take(i as int))),
                self.texture_units.keys() == request_all(tu0, sampler_keys(probes@.take(i as int))),
                out@.len() == i,
                forall|j: int| 0 <= j < i ==> {
                    let p = #[trigger] probes@[j];
                    &&& p.block_index >= 0 ==> self.binding_points.slots().contains_key((p.group, p.binding))
                    &&& p.block_index < 0 && p.has_location ==> self.texture_units.slots().contains_key((p.group, p.binding))
                    &&& out@[j] == link_of(p, self.binding_points.slots(), self.texture_units.slots())
                },
            decreases probes@.len() - i,
        {
            let p = probes[i];
            let ghost pre = probes@.take(i as int);
            let ghost next = probes@.take(i + 1);
            let ghost bpm = self.binding_points.slots();
            let ghost tum = self.texture_units.slots();
            proof {
                assert(next.drop_last() =~= pre);
                assert(next.last() == p);
            }
            let action = if p.block_index >= 0 {
                let binding_point = self.get_or_create_binding_point(p.group, p.binding);
                LinkAction::Block { block_index: p.block_index as u32, binding_point }
            } else if p.has_location {
                let texture_unit = self.get_or_create_texture_unit(p.group, p.binding);
                LinkAction::Sampler { texture_unit }
            } else {
                LinkAction::Skip
            };
            out.push(action);
            proof {
                let k = (p.group, p.binding);
                if p.block_index >= 0 {
                    assert(block_keys(next) == block_keys(pre).push(k));
                    assert(block_keys(next).drop_last() =~= block_keys(pre));
                } else if p.has_location {
                    assert(sampler_keys(next) == sampler_keys(pre).push(k));
                    assert(sampler_keys(next).drop_last() =~= sampler_keys(pre));
                }
                assert forall|j: int| 0 <= j < i + 1 implies {
                    let q = #[trigger] probes@[j];
                    &&& q.block_index >= 0 ==> self.binding_points.slots().contains_key((q.group, q.binding))
                    &&& q.block_index < 0 && q.has_location ==> self.texture_units.slots().contains_key((q.group, q.binding))
                    &&& out@[j] == link_of(q, self.binding_points.slots(), self.texture_units.slots())
                } by {
                    if j < i {
                        let q = probes@[j];
                        assert(out@[j] == link_of(q, bpm, tum));
                    }
                }
            }
            i += 1;
        }
        proof {
            assert(probes@.take(i as int) =~= probes@);
        }
        out
    }
}

/// A native binding to make when a bind group is set.
#[derive(Clone, Copy, Debug, PartialEq, Eq, Structural)]
pub enum BindCommand {
    /// Bind `size` bytes at `offset` of native buffer `buffer` to uniform binding point
    /// `binding_point`.
    UniformRange { binding_point: u32, buffer: u32, offset: u32, size: usize },
    /// Bind native texture `texture` to texture unit `texture_unit`.
    Texture { texture_unit: u32, texture: u32 },
}

/// Why a bind group cannot be set.
#[derive(Clone, Copy, Debug, PartialEq, Eq, Structural)]
pub enum BindError {
    /// A buffer binding refers to an in-memory buffer, which cannot be bound.
    HostBufferBound,
}

/// The offset a buffer binding at position `i` is bound at: its dynamic offset when one is
/// given for that position, else the start of its range.
pub open spec fn bind_offset(i: int, dynamic_offsets: Option<Seq<u32>>, range_start: u64) -> u32 {
    match dynamic_offsets {
        Some(v) => if 0 <= i < v.len() {
            v[i]
        } else {
            range_start as u32
        },
        None => range_start as u32,
    }
}

/// The size a buffer binding is bound with: storage buffers whole, at the fixed storage size,
/// others the length of their range.
pub open spec fn bind_size(usage: BufferUsage, range_start: u64, range_end: u64) -> usize {
    if has_flags(usage.bits, STORAGE) {
        STORAGE_BUFFER_SIZE
    } else {
        (range_end - range_start) as usize
    }
}

/// What setting binding `b`, at position `i` of its group, does: a native binding, nothing
/// (samplers, and textures that are not created yet), or a failure.
pub open spec fn bind_step(
    b: WebGL2RenderResourceBinding,
    i: int,
    dynamic_offsets: Option<Seq<u32>>,
    buffers: Map<u64, GlBufferInfo>,
    textures: Map<u64, u32>,
) -> Result<Option<BindCommand>, BindError> {
    match b {
        WebGL2RenderResourceBinding::Buffer { binding_point, buffer, range_start, range_end } => {
            match buffers[buffer].buffer {
                Buffer::WebGlBuffer(n) => Ok(
                    Some(
                        BindCommand::UniformRange {
                            binding_point,
                            buffer: n,
                            offset: bind_offset(i, dynamic_offsets, range_start),
                            size: bind_size(buffers[buffer].info.buffer_usage, range_start, range_end),
                        },
                    ),
                ),
                Buffer::Data(_) => Err(BindError::HostBufferBound),
            }
        },
        WebGL2RenderResourceBinding::Texture { texture_unit, texture } => if textures.contains_key(
            texture,
        ) {
            Ok(Some(BindCommand::Texture { texture_unit, texture: textures[texture] }))
        } else {
            Ok(None)
        },
        WebGL2RenderResourceBinding::Sampler(_) => Ok(None),
    }
}

/// The native bindings of a bind group, in order, or the failure of the first binding that
/// fails.
pub open spec fn bind_plan(
    bindings: Seq<WebGL2RenderResourceBinding>,
    dynamic_offsets: Option<Seq<u32>>,
    buffers: Map<u64, GlBufferInfo>,
    textures: Map<u64, u32>,
) -> Result<Seq<BindCommand>, BindError>
    decreases bindings.len(),
{
    if bindings.len() == 0 {
        Ok(Seq::empty())
    } else {
        match bind_plan(bindings.drop_last(), dynamic_offsets, buffers, textures) {
            Err(e) => Err(e),
            Ok(s) => match bind_step(
                bindings.last(),
                bindings.len() - 1,
                dynamic_offsets,
                buffers,
                textures,
            ) {
                Err(e) => Err(e),
                Ok(Some(c)) => Ok(s.push(c)),
                Ok(None) => Ok(s),
            },
        }
    }
}

/// Every buffer a binding refers to is in the table, with a well-ordered range.
pub open spec fn buffers_present(bindings: Seq<WebGL2RenderResourceBinding>, buffers: Map<u64, GlBufferInfo>) -> bool {
    forall|i: int|
        0 <= i < bindings.len() ==> match #[trigger] bindings[i] {
            WebGL2RenderResourceBinding::Buffer { buffer, range_start, range_end, .. } => {
                &&& buffers.contains_key(buffer)
                &&& range_start <= range_end
                &&& range_end - range_start <= usize::MAX
            },
            _ => true,
        }
}

pub open spec fn offsets_view(dynamic_offsets: Option<&Vec<u32>>) -> Option<Seq<u32>> {
    match dynamic_offsets {
        Some(v) => Some(v@),
        None => None,
    }
}

proof fn lemma_bind_plan_prefix_err(
    bindings: Seq<WebGL2RenderResourceBinding>,
    d: Option<Seq<u32>>,
    buffers: Map<u64, GlBufferInfo>,
    textures: Map<u64, u32>,
    k: int,
)
    requires
        0 <= k <= bindings.len(),
        bind_plan(bindings.take(k), d, buffers, textures) is Err,
    ensures
        bind_plan(bindings, d, buffers, textures) == bind_plan(bindings.take(k), d, buffers, textures),
    decreases bindings.len(),
{
    if k < bindings.len() {
        let p = bindings.drop_last();
        assert(p.take(k) =~= bindings.take(k));
        lemma_bind_plan_prefix_err(p, d, buffers, textures, k);
    } else {
        assert(bindings.take(k) =~= bindings);
    }
}

impl WebGL2Resources {
    /// The native bindings to make when the bind group of `bindings` is set with the given
    /// dynamic offsets.
    pub fn plan_bind_group(
        &self,
        bindings: &Vec<WebGL2RenderResourceBinding>,
        dynamic_offsets: Option<&Vec<u32>>,
    ) -> (r: Result<Vec<BindCommand>, BindError>)
        requires
            self.wf(),
            buffers_present(bindings@, self.buffers@),
        ensures
            match r {
                Ok(v) => bind_plan(bindings@, offsets_view(dynamic_offsets), self.buffers@, self.textures@)
                    == Ok::<Seq<BindCommand>, BindError>(v@),
                Err(e) => bind_plan(bindings@, offsets_view(dynamic_offsets), self.buffers@, self.textures@)
                    == Err::<Seq<BindCommand>, BindError>(e),
            },
    {
        let ghost d = offsets_view(dynamic_offsets);
        let mut out: Vec<BindCommand> = Vec::new();
        let mut i: usize = 0;
        while i < bindings.len()
            invariant
                self.wf(),
                i <= bindings@.len(),
                d == offsets_view(dynamic_offsets),
                buffers_present(bindings@, self.buffers@),
                bind_plan(bindings@.take(i as int), d, self.buffers@, self.textures@)
                    == Ok::<Seq<BindCommand>, BindError>(out@),
            decreases bindings@.len() - i,
        {
            proof {
                assert(bindings@.take(i + 1).drop_last() =~= bindings@.take(i as int));
                assert(bindings@.take(i + 1).last() == bindings@[i as int]);
            }
            let step: Result<Option<BindCommand>, BindError> = match bindings[i] {
                WebGL2RenderResourceBinding::Buffer { binding_point, buffer, range_start, range_end } => {
                    match self.buffers.get(buffer) {
                        Some(info) => match info.buffer {
                            Buffer::WebGlBuffer(n) => {
                                let offset = match dynamic_offsets {
                                    Some(v) => if i < v.len() {
                                        v[i]
                                    } else {
                                        range_start as u32
                                    },
                                    None => range_start as u32,
                                };
                                let size = if info.info.buffer_usage.contains(STORAGE) {
                                    STORAGE_BUFFER_SIZE
                                } else {
                                    (range_end - range_start) as usize
                                };
                                Ok(Some(BindCommand::UniformRange { binding_point, buffer: n, offset, size }))
                            },
                            Buffer::Data(_) => Err(BindError::HostBufferBound),
                        },
                        None => {
                            proof {
                                assert(buffers_present(bindings@, self.buffers@));
                                assert(self.buffers@.contains_key(buffer));
                            }
                            vstd::pervasive::unreached()
                        },
                    }
                },
                WebGL2RenderResourceBinding::Texture { texture_unit, texture } => {
                    match self.textures.get(texture) {
                        Some(t) => Ok(Some(BindCommand::Texture { texture_unit, texture: *t })),
                        None => Ok(None),
                    }
                },
                WebGL2RenderResourceBinding::Sampler(_) => Ok(None),
            };
            match step {
                Ok(Some(c)) => {
                    out.push(c);
                },
                Ok(None) => {},
                Err(e) => {
                    proof {
                        lemma_bind_plan_prefix_err(bindings@, d, self.buffers@, self.textures@, i + 1);
                    }
                    return Err(e);
                },
            }
            i += 1;
        }
        assert(bindings@.take(i as int) =~= bindings@);
        Ok(out)
    }
}

} // verus!
