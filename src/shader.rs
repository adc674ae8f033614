//! Compiled shaders and linked programs with their explicit placements, and the
//! specialisation of GLSL source by preprocessor definitions.
use vstd::prelude::*;
use crate::annotations::{
    harvest_annotations, harvested, numbers_fit, annotations_in, AnnotationError, DeclKind,
    GlBindGroups, CharClass, run_len, skip_exec, source_chars, text_at, text_at_exec,
};
use crate::gl;

verus! {

/// The pipeline stage a shader is written for.
#[derive(Clone, Copy, Debug, PartialEq, Eq, Structural)]
pub enum ShaderStage {
    Vertex,
    Fragment,
    Compute,
}

/// The native shader type of a stage; compute shaders have none.
pub open spec fn shader_type_of(stage: ShaderStage) -> Option<u32> {
    match stage {
        ShaderStage::Vertex => Some(gl::VERTEX_SHADER),
        ShaderStage::Fragment => Some(gl::FRAGMENT_SHADER),
        ShaderStage::Compute => None,
    }
}

/// The native shader type to create for a stage; compute shaders are not supported.
pub fn shader_type(stage: ShaderStage) -> (r: u32)
    requires
        stage != ShaderStage::Compute,
    ensures
        shader_type_of(stage) == Some(r),
{
    match stage {
        ShaderStage::Vertex => gl::VERTEX_SHADER,
        _ => gl::FRAGMENT_SHADER,
    }
}

/// Why a shader or program could not be built.
pub enum ShaderError {
    /// The driver rejected the source; its log.
    Compile(String),
    /// The driver could not link the program; its log.
    Link(String),
    /// An annotation holds a number that does not fit in 32 bits.
    AnnotationNumberTooLarge,
}

/// A compiled shader: the native shader object's number and the placements annotated in its
/// source.
pub struct GlShader {
    pub shader: u32,
    pub bind_groups: GlBindGroups,
}

impl GlShader {
    pub fn new(shader: u32, bind_groups: GlBindGroups) -> (r: GlShader)
        ensures
            r.shader == shader,
            r.bind_groups == bind_groups,
    {
        GlShader { shader, bind_groups }
    }
}

/// A linked program: the native program object's number and the placements of all its shaders.
pub struct GlProgram {
    pub program: u32,
    pub bind_groups: GlBindGroups,
}

impl GlProgram {
    pub fn new(program: u32, bind_groups: GlBindGroups) -> (r: GlProgram)
        ensures
            r.program == program,
            r.bind_groups == bind_groups,
    {
        GlProgram { program, bind_groups }
    }
}

/// Completes the compilation of `source`: `compiled` is the driver's outcome, the native
/// shader object or the driver's log. The placements annotated in the source go with the
/// shader.
pub fn compile_shader(source: &str, compiled: Result<u32, String>) -> (r: Result<
    GlShader,
    ShaderError,
>)
    ensures
        !(numbers_fit(annotations_in(source@, DeclKind::UniformBlock)) && numbers_fit(
            annotations_in(source@, DeclKind::Sampler),
        )) ==> r matches Err(ShaderError::AnnotationNumberTooLarge),
        (numbers_fit(annotations_in(source@, DeclKind::UniformBlock)) && numbers_fit(
            annotations_in(source@, DeclKind::Sampler),
        )) ==> match compiled {
            Ok(obj) => r matches Ok(s) && s.shader == obj && s.bind_groups.wf()
                && s.bind_groups@ == harvested(source@),
            Err(log) => r matches Err(ShaderError::Compile(l)) && l@ == log@,
        },
{
    let bind_groups = match harvest_annotations(source) {
        Ok(g) => g,
        Err(AnnotationError::NumberTooLarge) => {
            return Err(ShaderError::AnnotationNumberTooLarge);
        },
    };
    match compiled {
        Ok(obj) => Ok(GlShader::new(obj, bind_groups)),
        Err(log) => Err(ShaderError::Compile(log)),
    }
}

/// The placements of a program whose shaders carry the given placements: on a name placed by
/// several shaders, the first shader's placement wins.
pub open spec fn merged(s: Seq<Map<Seq<char>, (u32, u32)>>) -> Map<Seq<char>, (u32, u32)>
    decreases s.len(),
{
    if s.len() == 0 {
        Map::empty()
    } else {
        s.last().union_prefer_right(merged(s.drop_last()))
    }
}

pub open spec fn placements_of_shaders(shaders: Seq<GlShader>) -> Seq<Map<Seq<char>, (u32, u32)>> {
    shaders.map_values(|s: GlShader| s.bind_groups@)
}

/// Merges the placements of the shaders of a program.
pub fn merge_bind_groups(shaders: &Vec<GlShader>) -> (r: GlBindGroups)
    requires
        forall|i: int| 0 <= i < shaders@.len() ==> (#[trigger] shaders@[i]).bind_groups.wf(),
    ensures
        r.wf(),
        r@ == merged(placements_of_shaders(shaders@)),
{
    let mut g = GlBindGroups::new();
    let mut i: usize = 0;
    while i < shaders.len()
        invariant
            g.wf(),
            i <= shaders@.len(),
            forall|j: int| 0 <= j < shaders@.len() ==> (#[trigger] shaders@[j]).bind_groups.wf(),
            g@ == merged(placements_of_shaders(shaders@).take(i as int)),
        decreases shaders@.len() - i,
    {
        g.merge_from(&shaders[i].bind_groups);
        proof {
            let t = placements_of_shaders(shaders@).take(i + 1);
            assert(t.drop_last() =~= placements_of_shaders(shaders@).take(i as int));
        }
        i += 1;
    }
    assert(placements_of_shaders(shaders@).take(i as int) =~= placements_of_shaders(shaders@));
    g
}

/// Completes the linking of a program from its shaders: `linked` is the driver's outcome, the
/// native program object or the driver's log.
pub fn link_program(shaders: &Vec<GlShader>, linked: Result<u32, String>) -> (r: Result<
    GlProgram,
    ShaderError,
>)
    requires
        forall|i: int| 0 <= i < shaders@.len() ==> (#[trigger] shaders@[i]).bind_groups.wf(),
    ensures
        match linked {
            Ok(obj) => r matches Ok(p) && p.program == obj && p.bind_groups.wf() && p.bind_groups@
                == merged(placements_of_shaders(shaders@)),
            Err(log) => r matches Err(ShaderError::Link(l)) && l@ == log@,
        },
{
    let bind_groups = merge_bind_groups(shaders);
    match linked {
        Ok(obj) => Ok(GlProgram::new(obj, bind_groups)),
        Err(log) => Err(ShaderError::Link(log)),
    }
}

/// The position of the first `c` at or after `i`, or the length when there is none.
pub open spec fn find_char(s: Seq<char>, i: int, c: char) -> int
    decreases s.len() - i,
{
    if i < 0 || i >= s.len() {
        s.len() as int
    } else if s[i] == c {
        i
    } else {
        find_char(s, i + 1, c)
    }
}

pub open spec fn version_word() -> Seq<char> {
    seq!['#', 'v', 'e', 'r', 's', 'i', 'o', 'n']
}

/// Where the text starts after the leading ASCII whitespace.
pub open spec fn text_start(s: Seq<char>) -> int {
    run_len(s, 0, CharClass::Space) as int
}

/// The source, after its leading whitespace, opens with a `#version` directive that ends in a
/// line break.
pub open spec fn has_version_line(s: Seq<char>) -> bool {
    text_at(s, text_start(s), version_word()) && find_char(s, text_start(s), '\n') < s.len()
}

/// One `#define` line for each name, in order.
pub open spec fn define_lines(names: Seq<Seq<char>>) -> Seq<char>
    decreases names.len(),
{
    if names.len() == 0 {
        Seq::empty()
    } else {
        define_lines(names.drop_last()) + "#define "@ + names.last() + "\n"@
    }
}

pub open spec fn macro_names(macros: Option<&Vec<String>>) -> Seq<Seq<char>> {
    match macros {
        Some(v) => v@.map_values(|m: String| m@),
        None => Seq::empty(),
    }
}

/// The source with its leading whitespace dropped, and after the `#version` line one
/// `#define` per macro name and then `#define WEBGL`.
pub open spec fn specialized(s: Seq<char>, names: Seq<Seq<char>>) -> Seq<char> {
    let a = text_start(s);
    let e = find_char(s, a, '\n');
    s.subrange(a, e) + "\n"@ + define_lines(names) + "#define WEBGL\n"@ + s.subrange(e, s.len() as int)
}

/// Whether `source` opens with a `#version` line, which specialisation needs.
pub fn starts_with_version_line(source: &str) -> (r: bool)
    ensures
        r == has_version_line(source@),
{
    let chars = source_chars(source);
    let a = skip_exec(&chars, 0, CharClass::Space);
    let v = vec!['#', 'v', 'e', 'r', 's', 'i', 'o', 'n'];
    assert(v@ =~= version_word());
    if !text_at_exec(&chars, a, &v) {
        return false;
    }
    find_newline(&chars, a) < chars.len()
}

fn find_newline(s: &Vec<char>, from: usize) -> (r: usize)
    requires
        from <= s@.len(),
    ensures
        r == find_char(s@, from as int, '\n'),
        from <= r <= s@.len(),
{
    let mut j = from;
    while j < s.len() && s[j] != '\n'
        invariant
            from <= j <= s@.len(),
            find_char(s@, from as int, '\n') == find_char(s@, j as int, '\n'),
        decreases s@.len() - j,
    {
        j += 1;
    }
    j
}

/// Specialises GLSL source for a set of macro names: the `#version` line is kept first, one
/// `#define` line follows per name, then `#define WEBGL`, then the rest of the source.
pub fn specialize_source(source: &str, macros: Option<&Vec<String>>) -> (r: String)
    requires
        has_version_line(source@),
    ensures
        r@ == specialized(source@, macro_names(macros)),
{
    let chars = source_chars(source);
    let n = chars.len();
    let a = skip_exec(&chars, 0, CharClass::Space);
    let e = find_newline(&chars, a);
    let mut out = String::new();
    out.append(source.substring_char(a, e));
    out.append("\n");
    let ghost head = out@;
    match macros {
        Some(v) => {
            let mut i: usize = 0;
            assert(macro_names(macros).take(0) =~= Seq::<Seq<char>>::empty());
            while i < v.len()
                invariant
                    i <= v@.len(),
                    macros == Some(v),
                    out@ == head + define_lines(macro_names(macros).take(i as int)),
                decreases v@.len() - i,
            {
                out.append("#define ");
                out.append(v[i].as_str());
                out.append("\n");
                proof {
                    let t = macro_names(macros).take(i + 1);
                    assert(t.drop_last() =~= macro_names(macros).take(i as int));
                    assert(t.last() == v@[i as int]@);
                    assert(out@ =~= head + define_lines(t));
                }
                i += 1;
            }
            assert(macro_names(macros).take(i as int) =~= macro_names(macros));
        },
        None => {
            assert(out@ =~= head + define_lines(macro_names(macros)));
        },
    }
    out.append("#define WEBGL\n");
    out.append(source.substring_char(e, n));
    assert(out@ =~= specialized(source@, macro_names(macros)));
    out
}

/// The programs linked so far, by shader stages (vertex and fragment shader handles), a later
/// link of the same stages replacing an earlier one.
pub open spec fn programs_map(e: Seq<((u64, u64), GlProgram)>) -> Map<(u64, u64), GlProgram>
    decreases e.len(),
{
    if e.len() == 0 {
        Map::empty()
    } else {
        programs_map(e.drop_last()).insert(e.last().0, e.last().1)
    }
}

proof fn lemma_latest_program(e: Seq<((u64, u64), GlProgram)>, k: (u64, u64), t: int)
    requires
        0 <= t <= e.len(),
        forall|j: int| t <= j < e.len() ==> (#[trigger] e[j]).0 != k,
    ensures
        programs_map(e).contains_key(k) == programs_map(e.take(t)).contains_key(k),
        programs_map(e).contains_key(k) ==> programs_map(e)[k] == programs_map(e.take(t))[k],
    decreases e.len(),
{
    if t == e.len() {
        assert(e.take(t) =~= e);
    } else {
        let d = e.drop_last();
        assert(d.take(t) =~= e.take(t));
        assert forall|j: int| t <= j < d.len() implies (#[trigger] d[j]).0 != k by {
            assert(d[j] == e[j]);
        }
        lemma_latest_program(d, k, t);
        assert(e.last() == e[e.len() - 1]);
    }
}

/// Linked programs cached by the shader stages they were linked from, so that the same stages
/// are not linked twice.
pub struct ProgramCache {
    entries: Vec<((u64, u64), GlProgram)>,
}

impl ProgramCache {
    pub closed spec fn view(&self) -> Map<(u64, u64), GlProgram> {
        programs_map(self.entries@)
    }

    pub fn new() -> (r: ProgramCache)
        ensures
            r@ == Map::<(u64, u64), GlProgram>::empty(),
    {
        ProgramCache { entries: Vec::new() }
    }

    /// Caches the program linked from `stages`.
    pub fn insert(&mut self, stages: (u64, u64), program: GlProgram)
        ensures
            final(self)@ == old(self)@.insert(stages, program),
    {
        let ghost e0 = self.entries@;
        self.entries.push((stages, program));
        assert(self.entries@.drop_last() =~= e0);
    }

    /// The program linked from `stages`, if any.
    pub fn get(&self, stages: (u64, u64)) -> (r: Option<&GlProgram>)
        ensures
            match r {
                Some(p) => self@.contains_key(stages) && self@[stages] == *p,
                None => !self@.contains_key(stages),
            },
    {
        let mut i: usize = self.entries.len();
        while i > 0
            invariant
                i <= self.entries@.len(),
                forall|j: int| i <= j < self.entries@.len() ==> (#[trigger] self.entries@[j]).0 != stages,
            decreases i,
        {
            let (a, b) = self.entries[i - 1].0;
            if a == stages.0 && b == stages.1 {
                proof {
                    lemma_latest_program(self.entries@, stages, i as int);
                    assert(self.entries@.take(i as int).last() == self.entries@[i - 1]);
                }
                return Some(&self.entries[i - 1].1);
            }
            i -= 1;
        }
        proof {
            lemma_latest_program(self.entries@, stages, 0);
            assert(programs_map(self.entries@.take(0)) =~= Map::<(u64, u64), GlProgram>::empty());
        }
        None
    }
}

} // verus!
