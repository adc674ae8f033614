//! Reflection of a linked program into the pipeline layout the engine expects: one vertex
//! buffer per active attribute, and bind groups holding the program's uniform blocks and
//! samplers, each at an explicit, reserved or newly allocated `(group, binding)` place.
use vstd::prelude::*;
use crate::annotations::{placed_groups, GlBindGroups};
use crate::formats::{attribute_format_of, get_vertex_format, is_attribute_type, VertexFormat};
use crate::gl;
use vstd::seq_lib::{to_multiset_build, to_multiset_contains, to_multiset_insert};

verus! {

/// The stages in which a binding is visible.
#[derive(Clone, Copy, Debug, PartialEq, Eq, Structural)]
pub struct ShaderStageFlags {
    pub vertex: bool,
    pub fragment: bool,
}

pub open spec fn fragment_only() -> ShaderStageFlags {
    ShaderStageFlags { vertex: false, fragment: true }
}

pub open spec fn vertex_and_fragment() -> ShaderStageFlags {
    ShaderStageFlags { vertex: true, fragment: true }
}

/// What a uniform block holds, as far as reflection describes it.
#[derive(Clone, Copy, Debug, PartialEq, Eq, Structural)]
pub enum UniformProperty {
    /// A struct of one 4-component vector.
    Vec4Struct,
    /// A struct of one 4x4 matrix.
    Mat4Struct,
    /// An array of that many 32-bit unsigned integers.
    UIntArray(usize),
}

/// The kind of a binding: a uniform block without dynamic offset, or a single-sampled 2D
/// float texture.
#[derive(Clone, Copy, Debug, PartialEq, Eq, Structural)]
pub enum BindType {
    Uniform(UniformProperty),
    Texture,
}

/// One binding of a bind group.
pub struct BindingDescriptor {
    pub name: String,
    pub index: u32,
    pub bind_type: BindType,
    pub shader_stage: ShaderStageFlags,
}

/// A bind group: its index and its bindings.
pub struct BindGroupDescriptor {
    pub index: u32,
    pub bindings: Vec<BindingDescriptor>,
}

/// How consecutive elements of a vertex buffer are stepped through.
#[derive(Clone, Copy, Debug, PartialEq, Eq, Structural)]
pub enum InputStepMode {
    Vertex,
    Instance,
}

/// One attribute of a vertex buffer layout.
pub struct VertexAttribute {
    pub name: String,
    pub offset: u64,
    pub format: VertexFormat,
    pub shader_location: u32,
}

/// The layout of one vertex buffer.
pub struct VertexBufferLayout {
    pub name: String,
    pub stride: u64,
    pub step_mode: InputStepMode,
    pub attributes: Vec<VertexAttribute>,
}

/// The reflected layout of a program.
pub struct PipelineLayout {
    pub bind_groups: Vec<BindGroupDescriptor>,
    pub vertex_buffer_descriptors: Vec<VertexBufferLayout>,
}

/// An active attribute or uniform as the driver reports it: its name and native type.
pub struct ActiveInfo {
    pub name: String,
    pub type_: u32,
}

/// An active uniform block as the driver reports it: its name and data size in bytes.
pub struct UniformBlockInfo {
    pub name: String,
    pub data_size: u32,
}

/// A binding placed in a bind group, as `(group, name, binding index, kind, stages)`.
pub type PlacedView = (u32, Seq<char>, u32, BindType, ShaderStageFlags);

/// A binding still to be placed, as `(name, kind, stages)`.
pub type ItemView = (Seq<char>, BindType, ShaderStageFlags);

pub open spec fn is_camera_name(n: Seq<char>) -> bool {
    n == "CameraPosition"@ || n == "CameraViewProj"@
}

/// The reserved place of a camera block: `CameraPosition` at group 0 binding 1 in the fragment
/// stage, `CameraViewProj` at group 0 binding 0 in both stages.
pub open spec fn camera_placement(n: Seq<char>) -> PlacedView {
    if n == "CameraPosition"@ {
        (0, n, 1, BindType::Uniform(UniformProperty::Vec4Struct), fragment_only())
    } else {
        (0, n, 0, BindType::Uniform(UniformProperty::Mat4Struct), vertex_and_fragment())
    }
}

/// The camera blocks among `blocks`, in order, at their reserved places.
pub open spec fn camera_placements(blocks: Seq<UniformBlockInfo>) -> Seq<PlacedView>
    decreases blocks.len(),
{
    if blocks.len() == 0 {
        Seq::empty()
    } else {
        let r = camera_placements(blocks.drop_last());
        if is_camera_name(blocks.last().name@) {
            r.push(camera_placement(blocks.last().name@))
        } else {
            r
        }
    }
}

/// The other blocks, in order, each seen as an array of `size / 4` unsigned integers visible
/// in both stages.
pub open spec fn block_items(blocks: Seq<UniformBlockInfo>) -> Seq<ItemView>
    decreases blocks.len(),
{
    if blocks.len() == 0 {
        Seq::empty()
    } else {
        let r = block_items(blocks.drop_last());
        let b = blocks.last();
        if is_camera_name(b.name@) {
            r
        } else {
            r.push(
                (
                    b.name@,
                    BindType::Uniform(UniformProperty::UIntArray((b.data_size / 4) as usize)),
                    vertex_and_fragment(),
                ),
            )
        }
    }
}

pub open spec fn is_sampler_type(t: u32) -> bool {
    t == gl::SAMPLER_2D || t == gl::UNSIGNED_INT_SAMPLER_2D || t == gl::INT_SAMPLER_2D
}

/// The sampler uniforms among `uniforms`, in order, as fragment-stage textures.
pub open spec fn sampler_items(uniforms: Seq<ActiveInfo>) -> Seq<ItemView>
    decreases uniforms.len(),
{
    if uniforms.len() == 0 {
        Seq::empty()
    } else {
        let r = sampler_items(uniforms.drop_last());
        if is_sampler_type(uniforms.last().type_) {
            r.push((uniforms.last().name@, BindType::Texture, fragment_only()))
        } else {
            r
        }
    }
}

/// The first group index at or after `g` that is not in use (the largest index when all are).
pub open spec fn free_from(used: Set<u32>, g: int) -> int
    decreases u32::MAX - g,
{
    if g >= u32::MAX || !used.contains(g as u32) {
        g
    } else {
        free_from(used, g + 1)
    }
}

/// The least group index not in use.
pub open spec fn next_group_index(used: Set<u32>) -> u32 {
    free_from(used, 0) as u32
}

/// The place of one item: its annotation if it has one, else binding 0 of the next free group,
/// which is then in use.
pub open spec fn place(ann: Map<Seq<char>, (u32, u32)>, used: Set<u32>, it: ItemView) -> (
    PlacedView,
    Set<u32>,
) {
    if ann.contains_key(it.0) {
        ((ann[it.0].0, it.0, ann[it.0].1, it.1, it.2), used)
    } else {
        let g = next_group_index(used);
        ((g, it.0, 0, it.1, it.2), used.insert(g))
    }
}

/// The places of the items, taken in order, and the group indices in use afterwards.
pub open spec fn place_all(
    ann: Map<Seq<char>, (u32, u32)>,
    used: Set<u32>,
    items: Seq<ItemView>,
) -> (Seq<PlacedView>, Set<u32>)
    decreases items.len(),
{
    if items.len() == 0 {
        (Seq::empty(), used)
    } else {
        let (ps, u) = place_all(ann, used, items.drop_last());
        let (p, u2) = place(ann, u, items.last());
        (ps.push(p), u2)
    }
}

/// The group indices in use before anything is placed: those of the annotations, and 0 when a
/// camera block is present.
pub open spec fn initial_used(ann: Map<Seq<char>, (u32, u32)>, blocks: Seq<UniformBlockInfo>) -> Set<
    u32,
> {
    if camera_placements(blocks).len() > 0 {
        placed_groups(ann).insert(0)
    } else {
        placed_groups(ann)
    }
}

/// Every binding of the reflected layout with its place: camera blocks, then the other blocks,
/// then the samplers.
pub open spec fn placements(
    ann: Map<Seq<char>, (u32, u32)>,
    blocks: Seq<UniformBlockInfo>,
    uniforms: Seq<ActiveInfo>,
) -> Seq<PlacedView> {
    camera_placements(blocks) + place_all(
        ann,
        initial_used(ann, blocks),
        block_items(blocks) + sampler_items(uniforms),
    ).0
}

/// A binding with the group it is placed in.
pub struct PlacedBinding {
    pub group: u32,
    pub binding: BindingDescriptor,
}

impl PlacedBinding {
    pub open spec fn view(&self) -> PlacedView {
        (
            self.group,
            self.binding.name@,
            self.binding.index,
            self.binding.bind_type,
            self.binding.shader_stage,
        )
    }
}

pub open spec fn placed_views(v: Seq<PlacedBinding>) -> Seq<PlacedView> {
    v.map_values(|p: PlacedBinding| p@)
}

struct Item {
    name: String,
    bind_type: BindType,
    stage: ShaderStageFlags,
}

impl Item {
    spec fn view(&self) -> ItemView {
        (self.name@, self.bind_type, self.stage)
    }
}

spec fn item_views(v: Seq<Item>) -> Seq<ItemView> {
    v.map_values(|i: Item| i@)
}

fn name_is(name: &String, lit: &str) -> (r: bool)
    ensures
        r == (name@ == lit@),
{
    let l = lit.to_owned();
    *name == l
}

fn is_sampler_type_exec(t: u32) -> (r: bool)
    ensures
        r == is_sampler_type(t),
{
    t == gl::SAMPLER_2D || t == gl::UNSIGNED_INT_SAMPLER_2D || t == gl::INT_SAMPLER_2D
}

fn contains_u32(v: &Vec<u32>, x: u32) -> (r: bool)
    ensures
        r == v@.contains(x),
{
    let mut i: usize = 0;
    while i < v.len()
        invariant
            i <= v@.len(),
            forall|j: int| 0 <= j < i ==> v@[j] != x,
        decreases v@.len() - i,
    {
        if v[i] == x {
            return true;
        }
        i += 1;
    }
    false
}

/// The least group index that `used` does not hold.
fn next_free_group(used: &Vec<u32>) -> (r: u32)
    ensures
        r == next_group_index(used@.to_set()),
{
    let mut g: u32 = 0;
    while g < u32::MAX && contains_u32(used, g)
        invariant
            free_from(used@.to_set(), 0) == free_from(used@.to_set(), g as int),
        decreases u32::MAX - g,
    {
        g += 1;
    }
    g
}

/// Splits the uniform blocks into the camera blocks at their reserved places and the others,
/// still to be placed.
fn collect_blocks(blocks: &Vec<UniformBlockInfo>) -> (r: (Vec<PlacedBinding>, Vec<Item>))
    ensures
        placed_views(r.0@) == camera_placements(blocks@),
        item_views(r.1@) == block_items(blocks@),
{
    let mut cams: Vec<PlacedBinding> = Vec::new();
    let mut items: Vec<Item> = Vec::new();
    let mut i: usize = 0;
    while i < blocks.len()
        invariant
            i <= blocks@.len(),
            placed_views(cams@) == camera_placements(blocks@.take(i as int)),
            item_views(items@) == block_items(blocks@.take(i as int)),
        decreases blocks@.len() - i,
    {
        let b = &blocks[i];
        proof {
            assert(blocks@.take(i + 1).drop_last() =~= blocks@.take(i as int));
            assert(blocks@.take(i + 1).last() == blocks@[i as int]);
        }
        if name_is(&b.name, "CameraPosition") {
            let binding = BindingDescriptor {
                name: b.name.clone(),
                index: 1,
                bind_type: BindType::Uniform(UniformProperty::Vec4Struct),
                shader_stage: ShaderStageFlags { vertex: false, fragment: true },
            };
            cams.push(PlacedBinding { group: 0, binding });
            assert(placed_views(cams@) =~= camera_placements(blocks@.take(i + 1)));
        } else if name_is(&b.name, "CameraViewProj") {
            let binding = BindingDescriptor {
                name: b.name.clone(),
                index: 0,
                bind_type: BindType::Uniform(UniformProperty::Mat4Struct),
                shader_stage: ShaderStageFlags { vertex: true, fragment: true },
            };
            cams.push(PlacedBinding { group: 0, binding });
            assert(placed_views(cams@) =~= camera_placements(blocks@.take(i + 1)));
        } else {
            let len = (b.data_size / 4) as usize;
            items.push(
                Item {
                    name: b.name.clone(),
                    bind_type: BindType::Uniform(UniformProperty::UIntArray(len)),
                    stage: ShaderStageFlags { vertex: true, fragment: true },
                },
            );
            assert(item_views(items@) =~= block_items(blocks@.take(i + 1)));
        }
        i += 1;
    }
    assert(blocks@.take(i as int) =~= blocks@);
    (cams, items)
}

/// Appends the sampler uniforms, still to be placed.
fn collect_samplers(uniforms: &Vec<ActiveInfo>, items: &mut Vec<Item>)
    ensures
        item_views(final(items)@) == item_views(old(items)@) + sampler_items(uniforms@),
{
    let ghost start = item_views(items@);
    let mut i: usize = 0;
    assert(start + sampler_items(uniforms@.take(0)) =~= start);
    while i < uniforms.len()
        invariant
            i <= uniforms@.len(),
            item_views(items@) == start + sampler_items(uniforms@.take(i as int)),
        decreases uniforms@.len() - i,
    {
        let u = &uniforms[i];
        proof {
            assert(uniforms@.take(i + 1).drop_last() =~= uniforms@.take(i as int));
            assert(uniforms@.take(i + 1).last() == uniforms@[i as int]);
        }
        let ghost before = items@;
        if is_sampler_type_exec(u.type_) {
            items.push(
                Item {
                    name: u.name.clone(),
                    bind_type: BindType::Texture,
                    stage: ShaderStageFlags { vertex: false, fragment: true },
                },
            );
            assert(item_views(items@) =~= item_views(before).push(items@.last()@));
        }
        assert(item_views(items@) =~= start + sampler_items(uniforms@.take(i + 1)));
        i += 1;
    }
    assert(uniforms@.take(i as int) =~= uniforms@);
}

/// Places every binding of the program's blocks and samplers.
pub fn place_bindings(
    ann: &GlBindGroups,
    blocks: &Vec<UniformBlockInfo>,
    uniforms: &Vec<ActiveInfo>,
) -> (r: Vec<PlacedBinding>)
    requires
        ann.wf(),
    ensures
        placed_views(r@) == placements(ann@, blocks@, uniforms@),
{
    let (mut placed, mut items) = collect_blocks(blocks);
    collect_samplers(uniforms, &mut items);
    let mut used = ann.group_indices();
    let ghost groups = used@;
    if placed.len() > 0 {
        used.push(0);
        proof {
            lemma_push_contains(groups, 0);
        }
    }
    proof {
        assert(placed_views(placed@).len() == placed@.len());
        assert(used@.to_set() =~= initial_used(ann@, blocks@));
    }
    let ghost cams = placed_views(placed@);
    let ghost all_items = item_views(items@);
    let mut i: usize = 0;
    while i < items.len()
        invariant
            ann.wf(),
            i <= items@.len(),
            all_items == item_views(items@),
            placed_views(placed@) == cams + place_all(
                ann@,
                initial_used(ann@, blocks@),
                all_items.take(i as int),
            ).0,
            used@.to_set() == place_all(ann@, initial_used(ann@, blocks@), all_items.take(i as int)).1,
        decreases items@.len() - i,
    {
        let it = &items[i];
        let ghost prev = place_all(ann@, initial_used(ann@, blocks@), all_items.take(i as int));
        proof {
            assert(all_items.take(i + 1).drop_last() =~= all_items.take(i as int));
            assert(all_items.take(i + 1).last() == it@);
        }
        let (group, index) = match ann.get(&it.name) {
            Some(p) => p,
            None => {
                let g = next_free_group(&used);
                let ghost u0 = used@;
                used.push(g);
                proof {
                    lemma_push_contains(u0, g);
                }
                assert(used@.to_set() =~= prev.1.insert(g));
                (g, 0)
            },
        };
        let binding = BindingDescriptor {
            name: it.name.clone(),
            index,
            bind_type: it.bind_type,
            shader_stage: it.stage,
        };
        let pb = PlacedBinding { group, binding };
        let ghost before = placed@;
        placed.push(pb);
        assert(placed_views(placed@) =~= placed_views(before).push(pb@));
        assert(pb@ == place(ann@, prev.1, it@).0);
        assert(placed_views(placed@) =~= cams + place_all(
            ann@,
            initial_used(ann@, blocks@),
            all_items.take(i + 1),
        ).0);
        i += 1;
    }
    assert(all_items.take(i as int) =~= all_items);
    placed
}

/// `a` comes no later than `b`: by group index, then by binding index.
pub open spec fn place_le(a: PlacedView, b: PlacedView) -> bool {
    a.0 < b.0 || (a.0 == b.0 && a.2 <= b.2)
}

pub open spec fn sorted_by_place(s: Seq<PlacedView>) -> bool {
    forall|i: int, j: int| 0 <= i < j < s.len() ==> place_le(#[trigger] s[i], #[trigger] s[j])
}

fn place_le_exec(a: &PlacedBinding, b: &PlacedBinding) -> (r: bool)
    ensures
        r == place_le(a@, b@),
{
    a.group < b.group || (a.group == b.group && a.binding.index <= b.binding.index)
}

/// Where `x` goes into `t`, scanning from `i`: before the first element that comes later than
/// `x`, so after every element at the same place.
pub open spec fn insert_pos(t: Seq<PlacedView>, x: PlacedView, i: int) -> int
    decreases t.len() - i,
{
    if i < 0 || i >= t.len() {
        t.len() as int
    } else if !place_le(t[i], x) {
        i
    } else {
        insert_pos(t, x, i + 1)
    }
}

/// `s` ordered by place, each element inserted in turn after every element at the same place:
/// bindings at the same place keep their order in `s`.
pub open spec fn sorted_by_insertion(s: Seq<PlacedView>) -> Seq<PlacedView>
    decreases s.len(),
{
    if s.len() == 0 {
        Seq::empty()
    } else {
        let t = sorted_by_insertion(s.drop_last());
        t.insert(insert_pos(t, s.last(), 0), s.last())
    }
}

/// Orders placed bindings by group, then by binding index; bindings with the same place keep
/// their order.
pub fn sort_placed(v: Vec<PlacedBinding>) -> (r: Vec<PlacedBinding>)
    ensures
        placed_views(r@) == sorted_by_insertion(placed_views(v@)),
        sorted_by_place(placed_views(r@)),
        placed_views(r@).to_multiset() == placed_views(v@).to_multiset(),
{
    let ghost all = placed_views(v@);
    let mut rest = v;
    let mut sorted: Vec<PlacedBinding> = Vec::new();
    let ghost mut k: int = 0;
    assert(all.take(0) =~= Seq::<PlacedView>::empty());
    assert(placed_views(sorted@) =~= Seq::<PlacedView>::empty());
    while rest.len() > 0
        invariant
            0 <= k <= all.len(),
            placed_views(rest@) == all.skip(k),
            placed_views(sorted@).to_multiset() == all.take(k).to_multiset(),
            placed_views(sorted@) == sorted_by_insertion(all.take(k)),
            sorted_by_place(placed_views(sorted@)),
        decreases rest@.len(),
    {
        let ghost r0 = rest@;
        let e = rest.remove(0);
        proof {
            assert(placed_views(r0)[0] == e@);
            assert(placed_views(rest@) =~= placed_views(r0).drop_first());
        }
        let mut p: usize = 0;
        while p < sorted.len() && place_le_exec(&sorted[p], &e)
            invariant
                p <= sorted@.len(),
                forall|q: int| 0 <= q < p ==> place_le(#[trigger] sorted@[q]@, e@),
                insert_pos(placed_views(sorted@), e@, 0) == insert_pos(
                    placed_views(sorted@),
                    e@,
                    p as int,
                ),
            decreases sorted@.len() - p,
        {
            p += 1;
        }
        let ghost s0 = sorted@;
        sorted.insert(p, e);
        proof {
            let sv0 = placed_views(s0);
            assert(placed_views(sorted@) =~= sv0.insert(p as int, e@));
            assert(insert_pos(sv0, e@, 0) == p);
            assert(all.take(k + 1).drop_last() =~= all.take(k));
            assert(all.take(k + 1).last() == e@);
            assert(forall|q: int| 0 <= q < p ==> place_le(#[trigger] sv0[q], e@));
            let sv1 = sv0.insert(p as int, e@);
            assert forall|i: int, j: int| 0 <= i < j < sv1.len() implies place_le(
                #[trigger] sv1[i],
                #[trigger] sv1[j],
            ) by {
                if j < p {
                    assert(place_le(sv0[i], sv0[j]));
                } else if j == p {
                    assert(place_le(sv0[i], e@));
                } else if i < p {
                    assert(place_le(sv0[i], sv0[j - 1]));
                } else if i == p {
                    assert(!place_le(sv0[p as int], e@));
                    if p < j - 1 {
                        assert(place_le(sv0[p as int], sv0[j - 1]));
                    }
                } else {
                    assert(place_le(sv0[i - 1], sv0[j - 1]));
                }
            }
            to_multiset_insert(sv0, p as int, e@);
            assert(all.take(k + 1) =~= all.take(k).push(e@));
            to_multiset_build(all.take(k), e@);
            assert(all.skip(k + 1) =~= all.skip(k).drop_first());
            k = k + 1;
        }
    }
    assert(all.take(k) =~= all);
    sorted
}

/// The bindings of a group, each with the group's index.
pub open spec fn group_views(g: BindGroupDescriptor) -> Seq<PlacedView> {
    g.bindings@.map_values(
        |b: BindingDescriptor| (g.index, b.name@, b.index, b.bind_type, b.shader_stage),
    )
}

/// Every binding of a list of bind groups with its place, group after group.
pub open spec fn flat_layout(gs: Seq<BindGroupDescriptor>) -> Seq<PlacedView>
    decreases gs.len(),
{
    if gs.len() == 0 {
        Seq::empty()
    } else {
        flat_layout(gs.drop_last()) + group_views(gs.last())
    }
}

/// Bind group indices strictly ascend.
pub open spec fn groups_ascending(gs: Seq<BindGroupDescriptor>) -> bool {
    forall|i: int, j: int| 0 <= i < j < gs.len() ==> (#[trigger] gs[i]).index < (#[trigger] gs[j]).index
}

/// Each group holds bindings, in ascending order of binding index.
pub open spec fn bindings_ascending(gs: Seq<BindGroupDescriptor>) -> bool {
    forall|k: int|
        0 <= k < gs.len() ==> {
            &&& (#[trigger] gs[k]).bindings@.len() > 0
            &&& forall|i: int, j: int|
                0 <= i < j < gs[k].bindings@.len() ==> (#[trigger] gs[k].bindings@[i]).index
                    <= (#[trigger] gs[k].bindings@[j]).index
        }
}

/// Gathers bindings sorted by place into bind groups.
pub fn group_placed(v: Vec<PlacedBinding>) -> (r: Vec<BindGroupDescriptor>)
    requires
        sorted_by_place(placed_views(v@)),
    ensures
        flat_layout(r@) == placed_views(v@),
        groups_ascending(r@),
        bindings_ascending(r@),
{
    let ghost all = placed_views(v@);
    let mut rest = v;
    let mut groups: Vec<BindGroupDescriptor> = Vec::new();
    assert(flat_layout(groups@) + placed_views(rest@) =~= all);
    while rest.len() > 0
        invariant
            sorted_by_place(all),
            flat_layout(groups@) + placed_views(rest@) == all,
            groups_ascending(groups@),
            bindings_ascending(groups@),
        decreases rest@.len(),
    {
        let ghost r0 = rest@;
        let ghost g0 = groups@;
        let ghost f0 = flat_layout(g0);
        let e = rest.remove(0);
        proof {
            assert(placed_views(r0)[0] == e@);
            assert(placed_views(rest@) =~= placed_views(r0).drop_first());
            assert(all[f0.len() as int] == e@);
            if g0.len() > 0 {
                assert(f0 == flat_layout(g0.drop_last()) + group_views(g0.last()));
                assert(f0.last() == group_views(g0.last()).last());
                assert(all[f0.len() - 1] == f0.last());
                assert(place_le(all[f0.len() - 1], all[f0.len() as int]));
            }
        }
        let n = groups.len();
        if n > 0 && groups[n - 1].index == e.group {
            let last = groups.pop();
            match last {
                Some(mut g) => {
                    let ghost gb = g.bindings@;
                    g.bindings.push(e.binding);
                    proof {
                        assert(group_views(g) =~= group_views(g0.last()).push(e@));
                        assert(gb.last().index == group_views(g0.last()).last().2);
                    }
                    groups.push(g);
                    proof {
                        assert(groups@.drop_last() =~= g0.drop_last());
                        assert(flat_layout(groups@) =~= f0.push(e@));
                        assert(groups_ascending(groups@)) by {
                            assert forall|i: int, j: int|
                                0 <= i < j < groups@.len() implies (#[trigger] groups@[i]).index
                                < (#[trigger] groups@[j]).index by {
                                assert(g0[i].index < g0[j].index);
                            }
                        }
                        assert(bindings_ascending(groups@)) by {
                            assert forall|k: int| 0 <= k < groups@.len() implies {
                                &&& (#[trigger] groups@[k]).bindings@.len() > 0
                                &&& forall|i: int, j: int|
                                    0 <= i < j < groups@[k].bindings@.len() ==> (
                                    #[trigger] groups@[k].bindings@[i]).index
                                        <= (#[trigger] groups@[k].bindings@[j]).index
                            } by {
                                if k < n - 1 {
                                    assert(groups@[k] == g0[k]);
                                } else {
                                    assert(g0[k] == g0.last());
                                    assert forall|i: int, j: int|
                                        0 <= i < j < groups@[k].bindings@.len() implies (
                                        #[trigger] groups@[k].bindings@[i]).index
                                            <= (#[trigger] groups@[k].bindings@[j]).index by {
                                        if j == gb.len() {
                                            assert(gb[i].index <= gb.last().index);
                                        } else {
                                            assert(gb[i].index <= gb[j].index);
                                        }
                                    }
                                }
                            }
                        }
                    }
                },
                None => {},
            }
        } else {
            let g = BindGroupDescriptor { index: e.group, bindings: vec![e.binding] };
            groups.push(g);
            proof {
                assert(groups@.drop_last() =~= g0);
                assert(group_views(g) =~= seq![e@]);
                assert(flat_layout(groups@) =~= f0.push(e@));
                if n > 0 {
                    assert(g0.last().index < e.group);
                }
                assert(groups_ascending(groups@)) by {
                    assert forall|i: int, j: int|
                        0 <= i < j < groups@.len() implies (#[trigger] groups@[i]).index
                        < (#[trigger] groups@[j]).index by {
                        if j < n {
                            assert(g0[i].index < g0[j].index);
                        } else if i < n - 1 {
                            assert(g0[i].index < g0[n - 1].index);
                        }
                    }
                }
                assert(bindings_ascending(groups@)) by {
                    assert forall|k: int| 0 <= k < groups@.len() implies {
                        &&& (#[trigger] groups@[k]).bindings@.len() > 0
                        &&& forall|i: int, j: int|
                            0 <= i < j < groups@[k].bindings@.len() ==> (
                            #[trigger] groups@[k].bindings@[i]).index
                                <= (#[trigger] groups@[k].bindings@[j]).index
                    } by {
                        if k < n {
                            assert(groups@[k] == g0[k]);
                        }
                    }
                }
            }
        }
    }
    groups
}

/// The attributes set by the driver itself, which reflection skips.
pub open spec fn is_builtin_attribute(n: Seq<char>) -> bool {
    n == "gl_VertexID"@ || n == "gl_InstanceID"@
}

/// The attributes that get a vertex buffer, in order, as `(name, native type)`.
pub open spec fn vertex_inputs(attrs: Seq<ActiveInfo>) -> Seq<(Seq<char>, u32)>
    decreases attrs.len(),
{
    if attrs.len() == 0 {
        Seq::empty()
    } else {
        let r = vertex_inputs(attrs.drop_last());
        if is_builtin_attribute(attrs.last().name@) {
            r
        } else {
            r.push((attrs.last().name@, attrs.last().type_))
        }
    }
}

/// A vertex buffer of one attribute `name` of format `format` at shader location `location`,
/// with stride and offset 0, stepped per vertex.
pub open spec fn describes_attribute(
    vb: VertexBufferLayout,
    name: Seq<char>,
    format: VertexFormat,
    location: u32,
) -> bool {
    &&& vb.name@ == name
    &&& vb.stride == 0
    &&& vb.step_mode == InputStepMode::Vertex
    &&& vb.attributes@.len() == 1
    &&& vb.attributes@[0].name@ == name
    &&& vb.attributes@[0].offset == 0
    &&& vb.attributes@[0].format == format
    &&& vb.attributes@[0].shader_location == location
}

/// Every non-builtin attribute has a type that reflection recognises.
pub open spec fn attributes_recognised(attrs: Seq<ActiveInfo>) -> bool {
    forall|i: int|
        0 <= i < vertex_inputs(attrs).len() ==> (#[trigger] attribute_format_of(
            vertex_inputs(attrs)[i].1,
        )).is_some()
}

/// One vertex buffer layout per non-builtin active attribute, at consecutive shader locations.
pub fn reflect_vertex_buffers(attrs: &Vec<ActiveInfo>) -> (r: Vec<VertexBufferLayout>)
    requires
        attributes_recognised(attrs@),
        attrs@.len() <= u32::MAX,
    ensures
        r@.len() == vertex_inputs(attrs@).len(),
        forall|i: int|
            0 <= i < r@.len() ==> describes_attribute(
                #[trigger] r@[i],
                vertex_inputs(attrs@)[i].0,
                attribute_format_of(vertex_inputs(attrs@)[i].1).unwrap(),
                i as u32,
            ),
{
    let mut r: Vec<VertexBufferLayout> = Vec::new();
    let mut location: u32 = 0;
    let mut i: usize = 0;
    while i < attrs.len()
        invariant
            i <= attrs@.len() <= u32::MAX,
            attributes_recognised(attrs@),
            location as int == r@.len(),
            r@.len() == vertex_inputs(attrs@.take(i as int)).len(),
            r@.len() <= i,
            vertex_inputs(attrs@.take(i as int)).len() <= vertex_inputs(attrs@).len(),
            forall|j: int| 0 <= j < r@.len() ==> vertex_inputs(attrs@.take(i as int))[j]
                == vertex_inputs(attrs@)[j],
            forall|j: int|
                0 <= j < r@.len() ==> describes_attribute(
                    #[trigger] r@[j],
                    vertex_inputs(attrs@)[j].0,
                    attribute_format_of(vertex_inputs(attrs@)[j].1).unwrap(),
                    j as u32,
                ),
        decreases attrs@.len() - i,
    {
        let a = &attrs[i];
        proof {
            assert(attrs@.take(i + 1).drop_last() =~= attrs@.take(i as int));
            assert(attrs@.take(i + 1).last() == attrs@[i as int]);
            lemma_vertex_inputs_prefix(attrs@, i + 1);
        }
        if !(name_is(&a.name, "gl_VertexID") || name_is(&a.name, "gl_InstanceID")) {
            proof {
                let vi = vertex_inputs(attrs@.take(i + 1));
                assert(vi.last() == (a.name@, a.type_));
                assert(vi[r@.len() as int] == vertex_inputs(attrs@)[r@.len() as int]);
                assert(attribute_format_of(vertex_inputs(attrs@)[r@.len() as int].1).is_some());
            }
            let format = get_vertex_format(a.type_);
            let attribute = VertexAttribute {
                name: a.name.clone(),
                offset: 0,
                format,
                shader_location: location,
            };
            let vb = VertexBufferLayout {
                name: a.name.clone(),
                stride: 0,
                step_mode: InputStepMode::Vertex,
                attributes: vec![attribute],
            };
            r.push(vb);
            location += 1;
        }
        i += 1;
    }
    assert(attrs@.take(i as int) =~= attrs@);
    r
}

proof fn lemma_vertex_inputs_prefix(attrs: Seq<ActiveInfo>, k: int)
    requires
        0 <= k <= attrs.len(),
    ensures
        vertex_inputs(attrs.take(k)).len() <= vertex_inputs(attrs).len(),
        forall|j: int|
            0 <= j < vertex_inputs(attrs.take(k)).len() ==> vertex_inputs(attrs.take(k))[j]
                == vertex_inputs(attrs)[j],
        vertex_inputs(attrs.take(k)).len() <= k,
    decreases attrs.len(),
{
    if k == attrs.len() {
        assert(attrs.take(k) =~= attrs);
        lemma_vertex_inputs_len(attrs);
    } else {
        let d = attrs.drop_last();
        assert(d.take(k) =~= attrs.take(k));
        lemma_vertex_inputs_prefix(d, k);
    }
}

proof fn lemma_vertex_inputs_len(attrs: Seq<ActiveInfo>)
    ensures
        vertex_inputs(attrs).len() <= attrs.len(),
    decreases attrs.len(),
{
    if attrs.len() > 0 {
        lemma_vertex_inputs_len(attrs.drop_last());
    }
}

/// Whether every non-builtin attribute has a type that reflection recognises.
pub fn attributes_recognised_exec(attrs: &Vec<ActiveInfo>) -> (r: bool)
    ensures
        r == attributes_recognised(attrs@),
{
    let mut i: usize = 0;
    while i < attrs.len()
        invariant
            i <= attrs@.len(),
            attributes_recognised(attrs@.take(i as int)),
        decreases attrs@.len() - i,
    {
        let a = &attrs[i];
        let ghost pre = attrs@.take(i as int);
        let ghost next = attrs@.take(i + 1);
        proof {
            assert(next.drop_last() =~= pre);
            assert(next.last() == attrs@[i as int]);
        }
        let builtin = name_is(&a.name, "gl_VertexID") || name_is(&a.name, "gl_InstanceID");
        if !builtin && !is_attribute_type(a.type_) {
            proof {
                let vi = vertex_inputs(next);
                assert(vi.last() == (a.name@, a.type_));
                lemma_vertex_inputs_prefix(attrs@, i + 1);
                assert(vertex_inputs(attrs@)[vi.len() - 1] == vi[vi.len() - 1]);
                assert(!attribute_format_of(vertex_inputs(attrs@)[vi.len() - 1].1).is_some());
                assert(!attributes_recognised(attrs@));
            }
            return false;
        }
        proof {
            let vi = vertex_inputs(next);
            assert forall|j: int| 0 <= j < vi.len() implies (#[trigger] attribute_format_of(vi[j].1)).is_some() by {
                if j < vertex_inputs(pre).len() {
                    assert(vi[j] == vertex_inputs(pre)[j]);
                }
            }
        }
        i += 1;
    }
    assert(attrs@.take(i as int) =~= attrs@);
    true
}

/// Reflects the layout of a linked program from what the driver reports of it: its active
/// attributes, its active uniform blocks and its active uniforms.
///
/// The bind groups come sorted by group index and each group's bindings by binding index
/// (bindings at the same place in the order they were placed), and they hold exactly the
/// placed bindings: the camera blocks at their reserved places, and
/// every other block and every sampler at its annotated place or else at binding 0 of the
/// least group index not yet in use.
pub fn reflect_layout(
    program: &crate::shader::GlProgram,
    attributes: &Vec<ActiveInfo>,
    blocks: &Vec<UniformBlockInfo>,
    uniforms: &Vec<ActiveInfo>,
) -> (r: PipelineLayout)
    requires
        program.bind_groups.wf(),
        attributes_recognised(attributes@),
        attributes@.len() <= u32::MAX,
    ensures
        groups_ascending(r.bind_groups@),
        bindings_ascending(r.bind_groups@),
        flat_layout(r.bind_groups@) == sorted_by_insertion(
            placements(program.bind_groups@, blocks@, uniforms@),
        ),
        flat_layout(r.bind_groups@).to_multiset() == placements(
            program.bind_groups@,
            blocks@,
            uniforms@,
        ).to_multiset(),
        r.vertex_buffer_descriptors@.len() == vertex_inputs(attributes@).len(),
        forall|i: int|
            0 <= i < r.vertex_buffer_descriptors@.len() ==> describes_attribute(
                #[trigger] r.vertex_buffer_descriptors@[i],
                vertex_inputs(attributes@)[i].0,
                attribute_format_of(vertex_inputs(attributes@)[i].1).unwrap(),
                i as u32,
            ),
{
    let vertex_buffer_descriptors = reflect_vertex_buffers(attributes);
    let placed = place_bindings(&program.bind_groups, blocks, uniforms);
    let sorted = sort_placed(placed);
    let bind_groups = group_placed(sorted);
    PipelineLayout { bind_groups, vertex_buffer_descriptors }
}

/// The layout has a group of index `g` holding a binding named `n` at binding index `b`.
pub open spec fn layout_places(gs: Seq<BindGroupDescriptor>, g: u32, n: Seq<char>, b: u32) -> bool {
    exists|i: int, j: int|
        0 <= i < gs.len() && 0 <= j < gs[i].bindings@.len() && (#[trigger] gs[i]).index == g
            && (#[trigger] gs[i].bindings@[j]).name@ == n && gs[i].bindings@[j].index == b
}

proof fn lemma_flat_contains(gs: Seq<BindGroupDescriptor>, x: PlacedView)
    requires
        flat_layout(gs).contains(x),
    ensures
        layout_places(gs, x.0, x.1, x.2),
    decreases gs.len(),
{
    let d = gs.drop_last();
    let gv = group_views(gs.last());
    assert(flat_layout(gs) == flat_layout(d) + gv);
    let q = choose|q: int| 0 <= q < flat_layout(gs).len() && flat_layout(gs)[q] == x;
    if q < flat_layout(d).len() {
        assert(flat_layout(d)[q] == x);
        lemma_flat_contains(d, x);
        let (i, j) = choose|i: int, j: int|
            0 <= i < d.len() && 0 <= j < d[i].bindings@.len() && (#[trigger] d[i]).index == x.0
                && (#[trigger] d[i].bindings@[j]).name@ == x.1 && d[i].bindings@[j].index == x.2;
        assert(gs[i] == d[i]);
    } else {
        let j = q - flat_layout(d).len();
        assert(gv[j] == x);
        assert(gs[gs.len() - 1] == gs.last());
        assert(gs[gs.len() - 1].bindings@[j].name@ == x.1);
    }
}

proof fn lemma_place_all_len(ann: Map<Seq<char>, (u32, u32)>, used: Set<u32>, items: Seq<ItemView>)
    ensures
        place_all(ann, used, items).0.len() == items.len(),
    decreases items.len(),
{
    if items.len() > 0 {
        lemma_place_all_len(ann, used, items.drop_last());
    }
}

proof fn lemma_place_all_annotated(
    ann: Map<Seq<char>, (u32, u32)>,
    used: Set<u32>,
    items: Seq<ItemView>,
    k: int,
)
    requires
        0 <= k < items.len(),
        ann.contains_key(items[k].0),
    ensures
        place_all(ann, used, items).0[k] == (
            ann[items[k].0].0,
            items[k].0,
            ann[items[k].0].1,
            items[k].1,
            items[k].2,
        ),
    decreases items.len(),
{
    lemma_place_all_len(ann, used, items.drop_last());
    if k < items.len() - 1 {
        lemma_place_all_annotated(ann, used, items.drop_last(), k);
    }
}

proof fn lemma_block_items_has(blocks: Seq<UniformBlockInfo>, k: int)
    requires
        0 <= k < blocks.len(),
        !is_camera_name(blocks[k].name@),
    ensures
        block_items(blocks).contains(
            (
                blocks[k].name@,
                BindType::Uniform(UniformProperty::UIntArray((blocks[k].data_size / 4) as usize)),
                vertex_and_fragment(),
            ),
        ),
    decreases blocks.len(),
{
    let d = blocks.drop_last();
    if k < blocks.len() - 1 {
        assert(d[k] == blocks[k]);
        lemma_block_items_has(d, k);
        let x = choose|x: int| 0 <= x < block_items(d).len() && block_items(d)[x] == (
            blocks[k].name@,
            BindType::Uniform(UniformProperty::UIntArray((blocks[k].data_size / 4) as usize)),
            vertex_and_fragment(),
        );
        assert(block_items(blocks)[x] == block_items(d)[x]);
    } else {
        assert(block_items(blocks).last() == (
            blocks[k].name@,
            BindType::Uniform(UniformProperty::UIntArray((blocks[k].data_size / 4) as usize)),
            vertex_and_fragment(),
        ));
        assert(block_items(blocks)[block_items(blocks).len() - 1] == block_items(blocks).last());
    }
}

/// An annotated uniform block other than the two camera blocks is placed at exactly the
/// annotated group and binding, whatever the order of declarations: in a layout holding the
/// program's placements, the annotated group has a binding of that name at the annotated
/// binding index.
pub proof fn lemma_annotation_precedence(
    ann: Map<Seq<char>, (u32, u32)>,
    blocks: Seq<UniformBlockInfo>,
    uniforms: Seq<ActiveInfo>,
    k: int,
    gs: Seq<BindGroupDescriptor>,
)
    requires
        0 <= k < blocks.len(),
        !is_camera_name(blocks[k].name@),
        ann.contains_key(blocks[k].name@),
        flat_layout(gs).to_multiset() == placements(ann, blocks, uniforms).to_multiset(),
    ensures
        layout_places(gs, ann[blocks[k].name@].0, blocks[k].name@, ann[blocks[k].name@].1),
{
    let n = blocks[k].name@;
    let it = (
        n,
        BindType::Uniform(UniformProperty::UIntArray((blocks[k].data_size / 4) as usize)),
        vertex_and_fragment(),
    );
    let items = block_items(blocks) + sampler_items(uniforms);
    lemma_block_items_has(blocks, k);
    let x = choose|x: int| 0 <= x < block_items(blocks).len() && block_items(blocks)[x] == it;
    assert(items[x] == it);
    let used = initial_used(ann, blocks);
    lemma_place_all_annotated(ann, used, items, x);
    lemma_place_all_len(ann, used, items);
    let p = (ann[n].0, n, ann[n].1, it.1, it.2);
    let all = placements(ann, blocks, uniforms);
    let c = camera_placements(blocks);
    assert(all[c.len() + x] == p);
    assert(all.contains(p));
    to_multiset_contains(all, p);
    to_multiset_contains(flat_layout(gs), p);
    lemma_flat_contains(gs, p);
}

proof fn lemma_camera_placements_has(blocks: Seq<UniformBlockInfo>, k: int)
    requires
        0 <= k < blocks.len(),
        is_camera_name(blocks[k].name@),
    ensures
        camera_placements(blocks).contains(camera_placement(blocks[k].name@)),
    decreases blocks.len(),
{
    let d = blocks.drop_last();
    if k < blocks.len() - 1 {
        assert(d[k] == blocks[k]);
        lemma_camera_placements_has(d, k);
        let x = choose|x: int|
            0 <= x < camera_placements(d).len() && camera_placements(d)[x] == camera_placement(
                blocks[k].name@,
            );
        assert(camera_placements(blocks)[x] == camera_placements(d)[x]);
    } else {
        let c = camera_placements(blocks);
        assert(c[c.len() - 1] == camera_placement(blocks[k].name@));
    }
}

proof fn lemma_block_items_skip_cameras(blocks: Seq<UniformBlockInfo>)
    ensures
        forall|i: int|
            0 <= i < block_items(blocks).len() ==> !is_camera_name(#[trigger] block_items(blocks)[i].0),
    decreases blocks.len(),
{
    if blocks.len() > 0 {
        let d = blocks.drop_last();
        lemma_block_items_skip_cameras(d);
        assert forall|i: int| 0 <= i < block_items(blocks).len() implies !is_camera_name(
            #[trigger] block_items(blocks)[i].0,
        ) by {
            if i < block_items(d).len() {
                assert(block_items(blocks)[i] == block_items(d)[i]);
            }
        }
    }
}

proof fn lemma_camera_names_differ()
    ensures
        "CameraPosition"@ != "CameraViewProj"@,
{
    reveal_strlit("CameraPosition");
    reveal_strlit("CameraViewProj");
    assert("CameraPosition"@[6] == 'P');
    assert("CameraViewProj"@[6] == 'V');
}

/// A uniform block named `CameraViewProj` is placed at group 0, binding 0, visible in both
/// stages, whatever its annotation says; no other place is given to a block of that name.
pub proof fn lemma_camera_view_proj_reserved(
    ann: Map<Seq<char>, (u32, u32)>,
    blocks: Seq<UniformBlockInfo>,
    uniforms: Seq<ActiveInfo>,
    k: int,
    gs: Seq<BindGroupDescriptor>,
)
    requires
        0 <= k < blocks.len(),
        blocks[k].name@ == "CameraViewProj"@,
        flat_layout(gs).to_multiset() == placements(ann, blocks, uniforms).to_multiset(),
    ensures
        placements(ann, blocks, uniforms).contains(
            (
                0,
                "CameraViewProj"@,
                0,
                BindType::Uniform(UniformProperty::Mat4Struct),
                vertex_and_fragment(),
            ),
        ),
        layout_places(gs, 0, "CameraViewProj"@, 0),
        forall|i: int|
            0 <= i < block_items(blocks).len() ==> (#[trigger] block_items(blocks)[i]).0
                != "CameraViewProj"@,
{
    let n = blocks[k].name@;
    lemma_camera_names_differ();
    lemma_camera_placements_has(blocks, k);
    let c = camera_placements(blocks);
    let p = camera_placement(n);
    let all = placements(ann, blocks, uniforms);
    let x = choose|x: int| 0 <= x < c.len() && c[x] == p;
    assert(all[x] == p);
    to_multiset_contains(all, p);
    to_multiset_contains(flat_layout(gs), p);
    lemma_flat_contains(gs, p);
    lemma_block_items_skip_cameras(blocks);
}

/// The group indices below `k`.
pub open spec fn groups_below(k: nat) -> Set<u32> {
    Set::new(|g: u32| g < k)
}

proof fn lemma_free_from_below(k: nat, g: int)
    requires
        0 <= g <= k,
        k < u32::MAX,
    ensures
        free_from(groups_below(k), g) == k,
    decreases k - g,
{
    if g < k {
        assert(groups_below(k).contains(g as u32));
        lemma_free_from_below(k, g + 1);
    } else {
        assert(!groups_below(k).contains(g as u32));
    }
}

/// Each item at binding 0 of the group numbered by its position.
pub open spec fn fresh_places(items: Seq<ItemView>) -> Seq<PlacedView> {
    Seq::new(items.len(), |k: int| (k as u32, items[k].0, 0u32, items[k].1, items[k].2))
}

proof fn lemma_place_all_fresh(items: Seq<ItemView>)
    requires
        items.len() < u32::MAX,
    ensures
        place_all(Map::empty(), groups_below(0), items).0 == fresh_places(items),
        place_all(Map::empty(), groups_below(0), items).1 == groups_below(items.len()),
    decreases items.len(),
{
    if items.len() > 0 {
        let n = (items.len() - 1) as nat;
        lemma_place_all_fresh(items.drop_last());
        lemma_free_from_below(n, 0);
        assert(groups_below(n).insert(n as u32) =~= groups_below(items.len()));
        assert(fresh_places(items.drop_last()).push(
            (n as u32, items.last().0, 0u32, items.last().1, items.last().2),
        ) =~= fresh_places(items));
    } else {
        assert(place_all(Map::empty(), groups_below(0), items).0 =~= fresh_places(items));
    }
}

proof fn lemma_no_cameras(blocks: Seq<UniformBlockInfo>)
    requires
        forall|k: int| 0 <= k < blocks.len() ==> !is_camera_name(#[trigger] blocks[k].name@),
    ensures
        camera_placements(blocks).len() == 0,
        block_items(blocks).len() == blocks.len(),
        forall|k: int| 0 <= k < blocks.len() ==> (#[trigger] block_items(blocks)[k]).0 == blocks[k].name@,
    decreases blocks.len(),
{
    if blocks.len() > 0 {
        let d = blocks.drop_last();
        assert forall|k: int| 0 <= k < d.len() implies !is_camera_name(#[trigger] d[k].name@) by {
            assert(d[k] == blocks[k]);
        }
        lemma_no_cameras(d);
        assert(!is_camera_name(blocks[blocks.len() - 1].name@));
        assert forall|k: int| 0 <= k < blocks.len() implies (#[trigger] block_items(blocks)[k]).0
            == blocks[k].name@ by {
            if k < d.len() {
                assert(block_items(blocks)[k] == block_items(d)[k]);
                assert(d[k] == blocks[k]);
            }
        }
    }
}

proof fn lemma_insert_pos_end(t: Seq<PlacedView>, x: PlacedView, i: int)
    requires
        0 <= i <= t.len(),
        forall|j: int| i <= j < t.len() ==> place_le(#[trigger] t[j], x),
    ensures
        insert_pos(t, x, i) == t.len(),
    decreases t.len() - i,
{
    if i < t.len() {
        lemma_insert_pos_end(t, x, i + 1);
    }
}

proof fn lemma_sorted_fresh(items: Seq<ItemView>)
    requires
        items.len() < u32::MAX,
    ensures
        sorted_by_insertion(fresh_places(items)) == fresh_places(items),
    decreases items.len(),
{
    if items.len() > 0 {
        let f = fresh_places(items);
        let d = items.drop_last();
        assert(f.drop_last() =~= fresh_places(d));
        lemma_sorted_fresh(d);
        let t = fresh_places(d);
        lemma_insert_pos_end(t, f.last(), 0);
        assert(t.insert(t.len() as int, f.last()) =~= f);
    }
}

proof fn lemma_groups_of_fresh(gs: Seq<BindGroupDescriptor>, items: Seq<ItemView>)
    requires
        items.len() < u32::MAX,
        flat_layout(gs) == fresh_places(items),
        bindings_ascending(gs),
    ensures
        gs.len() == items.len(),
        forall|k: int|
            0 <= k < gs.len() ==> {
                &&& (#[trigger] gs[k]).index == k
                &&& gs[k].bindings@.len() == 1
                &&& gs[k].bindings@[0].index == 0
                &&& gs[k].bindings@[0].name@ == items[k].0
            },
    decreases gs.len(),
{
    if gs.len() > 0 {
        let d = gs.drop_last();
        let last = gs.last();
        let gv = group_views(last);
        let f = fresh_places(items);
        assert(gs[gs.len() - 1] == last);
        assert(last.bindings@.len() > 0);
        assert(flat_layout(gs) == flat_layout(d) + gv);
        let n = flat_layout(d).len() as int;
        if gv.len() >= 2 {
            assert(f[n] == gv[0]);
            assert(f[n + 1] == gv[1]);
        }
        assert(gv.len() == 1);
        assert(items.len() == n + 1);
        let di = items.drop_last();
        assert(flat_layout(d) =~= fresh_places(di)) by {
            assert forall|k: int| 0 <= k < n implies flat_layout(d)[k] == fresh_places(di)[k] by {
                assert(f[k] == flat_layout(d)[k]);
            }
        }
        assert forall|k: int| 0 <= k < d.len() implies {
            &&& (#[trigger] d[k]).bindings@.len() > 0
            &&& forall|i: int, j: int|
                0 <= i < j < d[k].bindings@.len() ==> (#[trigger] d[k].bindings@[i]).index
                    <= (#[trigger] d[k].bindings@[j]).index
        } by {
            assert(d[k] == gs[k]);
        }
        lemma_groups_of_fresh(d, di);
        assert(f[n] == gv[0]);
        assert forall|k: int|
            0 <= k < gs.len() implies {
                &&& (#[trigger] gs[k]).index == k
                &&& gs[k].bindings@.len() == 1
                &&& gs[k].bindings@[0].index == 0
                &&& gs[k].bindings@[0].name@ == items[k].0
            } by {
            if k < d.len() {
                assert(gs[k] == d[k]);
                assert(di[k] == items[k]);
            }
        }
    } else {
        assert(flat_layout(gs).len() == 0);
        assert(fresh_places(items).len() == items.len());
    }
}

/// With no annotations and no camera blocks, blocks and samplers each take the least free
/// group at binding 0 in turn: the layout holding the placements in order has one group per
/// block and sampler, group `k` holding the `k`-th of them (blocks first, then samplers).
pub proof fn lemma_unannotated_layout(
    blocks: Seq<UniformBlockInfo>,
    uniforms: Seq<ActiveInfo>,
    gs: Seq<BindGroupDescriptor>,
)
    requires
        forall|k: int| 0 <= k < blocks.len() ==> !is_camera_name(#[trigger] blocks[k].name@),
        block_items(blocks).len() + sampler_items(uniforms).len() < u32::MAX,
        flat_layout(gs) == sorted_by_insertion(
            placements(Map::<Seq<char>, (u32, u32)>::empty(), blocks, uniforms),
        ),
        bindings_ascending(gs),
    ensures
        gs.len() == blocks.len() + sampler_items(uniforms).len(),
        forall|k: int|
            0 <= k < gs.len() ==> {
                &&& (#[trigger] gs[k]).index == k
                &&& gs[k].bindings@.len() == 1
                &&& gs[k].bindings@[0].index == 0
                &&& gs[k].bindings@[0].name@ == (block_items(blocks) + sampler_items(uniforms))[k].0
            },
        forall|k: int| 0 <= k < blocks.len() ==> (#[trigger] gs[k]).bindings@[0].name@ == blocks[k].name@,
{
    let ann = Map::<Seq<char>, (u32, u32)>::empty();
    let items = block_items(blocks) + sampler_items(uniforms);
    lemma_no_cameras(blocks);
    assert(placed_groups(ann) =~= groups_below(0));
    assert(initial_used(ann, blocks) == groups_below(0));
    lemma_place_all_fresh(items);
    assert(placements(ann, blocks, uniforms) =~= fresh_places(items));
    lemma_sorted_fresh(items);
    lemma_groups_of_fresh(gs, items);
    assert forall|k: int| 0 <= k < blocks.len() implies (#[trigger] gs[k]).bindings@[0].name@
        == blocks[k].name@ by {
        assert(items[k] == block_items(blocks)[k]);
    }
}

proof fn lemma_push_contains(v: Seq<u32>, x: u32)
    ensures
        forall|g: u32| #[trigger] v.push(x).contains(g) <==> (v.contains(g) || g == x),
{
    assert forall|g: u32| #[trigger] v.push(x).contains(g) <==> (v.contains(g) || g == x) by {
        if v.contains(g) {
            let j = choose|j: int| 0 <= j < v.len() && v[j] == g;
            assert(v.push(x)[j] == g);
        }
        if g == x {
            assert(v.push(x)[v.len() as int] == g);
        }
        if v.push(x).contains(g) && g != x {
            let j = choose|j: int| 0 <= j < v.len() + 1 && v.push(x)[j] == g;
            assert(v[j] == g);
        }
    }
}

} // verus!
