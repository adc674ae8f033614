//! Explicit `(set, binding)` placements written in shader source as trailing comments:
//! `uniform Name { // set = N, binding = M` for uniform blocks and
//! `sampler2D name; // set = N, binding = M` for samplers.
//!
//! Whitespace is ASCII whitespace, names are ASCII letters, digits and `_`, and numbers are
//! ASCII decimal digits. Between the two numbers stand commas and spaces.
use vstd::prelude::*;

verus! {

/// The two declaration forms that may carry an annotation.
#[derive(Clone, Copy, Debug, PartialEq, Eq, Structural)]
pub enum DeclKind {
    UniformBlock,
    Sampler,
}

/// Character classes of the annotation convention.
#[derive(Clone, Copy, Debug, PartialEq, Eq, Structural)]
pub enum CharClass {
    Space,
    Word,
    Digit,
    Separator,
}

pub open spec fn in_class(c: char, cls: CharClass) -> bool {
    match cls {
        CharClass::Space => c == ' ' || c == '\t' || c == '\n' || c == '\r' || c == '\x0B' || c
            == '\x0C',
        CharClass::Word => ('a' <= c && c <= 'z') || ('A' <= c && c <= 'Z') || ('0' <= c && c
            <= '9') || c == '_',
        CharClass::Digit => '0' <= c && c <= '9',
        CharClass::Separator => c == ',' || c == ' ',
    }
}

/// The length of the longest run of characters of class `cls` starting at `i`.
pub open spec fn run_len(s: Seq<char>, i: int, cls: CharClass) -> nat
    decreases s.len() - i,
{
    if 0 <= i < s.len() && in_class(s[i], cls) {
        1 + run_len(s, i + 1, cls)
    } else {
        0
    }
}

/// The position just after the run of class `cls` that starts at `i`.
pub open spec fn skip(s: Seq<char>, i: int, cls: CharClass) -> int {
    i + run_len(s, i, cls)
}

/// `t` stands in `s` at position `i`.
pub open spec fn text_at(s: Seq<char>, i: int, t: Seq<char>) -> bool {
    0 <= i && i + t.len() <= s.len() && s.subrange(i, i + t.len()) == t
}

pub open spec fn char_at(s: Seq<char>, i: int, c: char) -> bool {
    0 <= i < s.len() && s[i] == c
}

/// The word that opens a declaration of the given kind.
pub open spec fn keyword(k: DeclKind) -> Seq<char> {
    match k {
        DeclKind::UniformBlock => seq!['u', 'n', 'i', 'f', 'o', 'r', 'm'],
        DeclKind::Sampler => seq!['s', 'a', 'm', 'p', 'l', 'e', 'r', '2', 'D'],
    }
}

/// The character that closes the declared name: `{` for a block, `;` for a sampler.
pub open spec fn terminator(k: DeclKind) -> char {
    match k {
        DeclKind::UniformBlock => '{',
        DeclKind::Sampler => ';',
    }
}

pub open spec fn slashes() -> Seq<char> {
    seq!['/', '/']
}

pub open spec fn set_word() -> Seq<char> {
    seq!['s', 'e', 't']
}

pub open spec fn binding_word() -> Seq<char> {
    seq!['b', 'i', 'n', 'd', 'i', 'n', 'g']
}

/// An annotated declaration that starts at `i`: the bounds of the name, of the set number and
/// of the binding number, as `(name_start, name_end, set_start, set_end, binding_start,
/// binding_end)`. The annotation ends at `binding_end`.
pub open spec fn annotation_at(s: Seq<char>, i: int, k: DeclKind) -> Option<
    (int, int, int, int, int, int),
> {
    let a = i + keyword(k).len();
    let b = skip(s, a, CharClass::Space);
    let c = skip(s, b, CharClass::Word);
    let d = skip(s, c, CharClass::Space);
    let e = skip(s, d + 1, CharClass::Space);
    let f = skip(s, e + 2, CharClass::Space);
    let g = skip(s, f + 3, CharClass::Space);
    let h = skip(s, g + 1, CharClass::Space);
    let h2 = skip(s, h, CharClass::Digit);
    let j = skip(s, h2, CharClass::Separator);
    let l = skip(s, j + 7, CharClass::Space);
    let m = skip(s, l + 1, CharClass::Space);
    let m2 = skip(s, m, CharClass::Digit);
    if text_at(s, i, keyword(k)) && b > a && c > b && char_at(s, d, terminator(k)) && text_at(
        s,
        e,
        slashes(),
    ) && text_at(s, f, set_word()) && char_at(s, g, '=') && h2 > h && j > h2 && text_at(
        s,
        j,
        binding_word(),
    ) && char_at(s, l, '=') && m2 > m {
        Some((b, c, h, h2, m, m2))
    } else {
        None
    }
}

/// The decimal value of a run of digits.
pub open spec fn digits_value(d: Seq<char>) -> nat
    decreases d.len(),
{
    if d.len() == 0 {
        0
    } else {
        digits_value(d.drop_last()) * 10 + ((d.last() as u32 - '0' as u32) as nat)
    }
}

/// An annotation as written: the declared name and the two numbers.
pub open spec fn annotation_of(s: Seq<char>, p: (int, int, int, int, int, int)) -> (
    Seq<char>,
    nat,
    nat,
) {
    (s.subrange(p.0, p.1), digits_value(s.subrange(p.2, p.3)), digits_value(s.subrange(p.4, p.5)))
}

/// The annotations of one kind found scanning from `i`: at each position an annotation that
/// starts there is taken and the scan resumes after it; otherwise the scan moves on by one.
pub open spec fn annotations_from(s: Seq<char>, i: int, k: DeclKind) -> Seq<(Seq<char>, nat, nat)>
    decreases s.len() - i,
{
    if i < 0 || i >= s.len() {
        Seq::empty()
    } else {
        match annotation_at(s, i, k) {
            Some(p) => if i < p.5 <= s.len() {
                seq![annotation_of(s, p)] + annotations_from(s, p.5, k)
            } else {
                Seq::empty()
            },
            None => annotations_from(s, i + 1, k),
        }
    }
}

/// An explicit placement harvested from source: the annotated name, its bind group (`set`)
/// and its binding index.
pub struct Annotation {
    pub name: String,
    pub set: u32,
    pub binding: u32,
}

impl Annotation {
    pub open spec fn view(&self) -> (Seq<char>, nat, nat) {
        (self.name@, self.set as nat, self.binding as nat)
    }
}

/// Why an annotation could not be read.
#[derive(Clone, Copy, Debug, PartialEq, Eq, Structural)]
pub enum AnnotationError {
    /// A set or binding number does not fit in 32 bits.
    NumberTooLarge,
}

/// The characters of `source`, one per entry.
pub fn source_chars(source: &str) -> (r: Vec<char>)
    ensures
        r@ == source@,
{
    let mut v: Vec<char> = Vec::new();
    for c in it: source.chars()
        invariant
            v@ == it.seq().take(it.index() as int),
    {
        v.push(c);
    }
    v
}

fn in_class_exec(c: char, cls: CharClass) -> (r: bool)
    ensures
        r == in_class(c, cls),
{
    match cls {
        CharClass::Space => c == ' ' || c == '\t' || c == '\n' || c == '\r' || c == '\x0B' || c
            == '\x0C',
        CharClass::Word => ('a' <= c && c <= 'z') || ('A' <= c && c <= 'Z') || ('0' <= c && c
            <= '9') || c == '_',
        CharClass::Digit => '0' <= c && c <= '9',
        CharClass::Separator => c == ',' || c == ' ',
    }
}

pub(crate) fn skip_exec(s: &Vec<char>, i: usize, cls: CharClass) -> (r: usize)
    requires
        i <= s@.len(),
    ensures
        r == skip(s@, i as int, cls),
        i <= r <= s@.len(),
{
    let mut j = i;
    while j < s.len() && in_class_exec(s[j], cls)
        invariant
            i <= j <= s@.len(),
            i + run_len(s@, i as int, cls) == j + run_len(s@, j as int, cls),
        decreases s@.len() - j,
    {
        j += 1;
    }
    j
}

pub(crate) fn text_at_exec(s: &Vec<char>, i: usize, t: &Vec<char>) -> (r: bool)
    ensures
        r == text_at(s@, i as int, t@),
{
    if i > s.len() || t.len() > s.len() - i {
        return false;
    }
    let n = s.len();
    let mut k: usize = 0;
    while k < t.len()
        invariant
            i + t@.len() <= s@.len(),
            s@.len() == n,
            k <= t@.len(),
            forall|q: int| 0 <= q < k ==> s@[i + q] == t@[q],
        decreases t@.len() - k,
    {
        if s[i + k] != t[k] {
            assert(s@.subrange(i as int, i + t@.len())[k as int] != t@[k as int]);
            return false;
        }
        k += 1;
    }
    assert(s@.subrange(i as int, i + t@.len()) =~= t@);
    true
}

fn char_at_exec(s: &Vec<char>, i: usize, c: char) -> (r: bool)
    ensures
        r == char_at(s@, i as int, c),
{
    i < s.len() && s[i] == c
}

fn keyword_chars(k: DeclKind) -> (r: Vec<char>)
    ensures
        r@ == keyword(k),
{
    let r = match k {
        DeclKind::UniformBlock => vec!['u', 'n', 'i', 'f', 'o', 'r', 'm'],
        DeclKind::Sampler => vec!['s', 'a', 'm', 'p', 'l', 'e', 'r', '2', 'D'],
    };
    assert(r@ =~= keyword(k));
    r
}

fn terminator_char(k: DeclKind) -> (r: char)
    ensures
        r == terminator(k),
{
    match k {
        DeclKind::UniformBlock => '{',
        DeclKind::Sampler => ';',
    }
}

/// Finds the annotated declaration of kind `k` that starts at `i`, if there is one.
fn annotation_at_exec(s: &Vec<char>, i: usize, k: DeclKind) -> (r: Option<
    (usize, usize, usize, usize, usize, usize),
>)
    requires
        i <= s@.len(),
    ensures
        match r {
            Some(p) => annotation_at(s@, i as int, k) == Some(
                (p.0 as int, p.1 as int, p.2 as int, p.3 as int, p.4 as int, p.5 as int),
            ) && i < p.5 <= s@.len(),
            None => annotation_at(s@, i as int, k) is None,
        },
{
    let n = s.len();
    let kw = keyword_chars(k);
    let sl = vec!['/', '/'];
    let set_w = vec!['s', 'e', 't'];
    let bind_w = vec!['b', 'i', 'n', 'd', 'i', 'n', 'g'];
    assert(sl@ =~= slashes());
    assert(set_w@ =~= set_word());
    assert(bind_w@ =~= binding_word());
    if !text_at_exec(s, i, &kw) {
        return None;
    }
    let a = i + kw.len();
    let b = skip_exec(s, a, CharClass::Space);
    if b == a {
        return None;
    }
    let c = skip_exec(s, b, CharClass::Word);
    if c == b {
        return None;
    }
    let d = skip_exec(s, c, CharClass::Space);
    if !char_at_exec(s, d, terminator_char(k)) {
        return None;
    }
    let e = skip_exec(s, d + 1, CharClass::Space);
    if !text_at_exec(s, e, &sl) {
        return None;
    }
    let f = skip_exec(s, e + 2, CharClass::Space);
    if !text_at_exec(s, f, &set_w) {
        return None;
    }
    let g = skip_exec(s, f + 3, CharClass::Space);
    if !char_at_exec(s, g, '=') {
        return None;
    }
    let h = skip_exec(s, g + 1, CharClass::Space);
    let h2 = skip_exec(s, h, CharClass::Digit);
    if h2 == h {
        return None;
    }
    let j = skip_exec(s, h2, CharClass::Separator);
    if j == h2 {
        return None;
    }
    if !text_at_exec(s, j, &bind_w) {
        return None;
    }
    let l = skip_exec(s, j + 7, CharClass::Space);
    if !char_at_exec(s, l, '=') {
        return None;
    }
    let m = skip_exec(s, l + 1, CharClass::Space);
    let m2 = skip_exec(s, m, CharClass::Digit);
    if m2 == m {
        return None;
    }
    Some((b, c, h, h2, m, m2))
}

proof fn lemma_digits_value_grows(d: Seq<char>, j: int)
    requires
        0 <= j <= d.len(),
        forall|q: int| 0 <= q < d.len() ==> in_class(#[trigger] d[q], CharClass::Digit),
    ensures
        digits_value(d.subrange(0, j)) <= digits_value(d),
    decreases d.len(),
{
    if j < d.len() {
        let e = d.drop_last();
        assert forall|q: int| 0 <= q < e.len() implies in_class(#[trigger] e[q], CharClass::Digit) by {
            assert(e[q] == d[q]);
        }
        lemma_digits_value_grows(e, j);
        assert(e.subrange(0, j) =~= d.subrange(0, j));
    } else {
        assert(d.subrange(0, j) =~= d);
    }
}

/// Reads the decimal number written at `from..to`.
fn parse_number(s: &Vec<char>, from: usize, to: usize) -> (r: Option<u32>)
    requires
        from <= to <= s@.len(),
        forall|q: int| from <= q < to ==> in_class(#[trigger] s@[q], CharClass::Digit),
    ensures
        r == (if digits_value(s@.subrange(from as int, to as int)) <= u32::MAX {
            Some(digits_value(s@.subrange(from as int, to as int)) as u32)
        } else {
            None
        }),
{
    let ghost d = s@.subrange(from as int, to as int);
    let mut acc: u64 = 0;
    let mut j = from;
    assert(s@.subrange(from as int, from as int) =~= Seq::<char>::empty());
    while j < to
        invariant
            from <= j <= to <= s@.len(),
            d == s@.subrange(from as int, to as int),
            forall|q: int| from <= q < to ==> in_class(#[trigger] s@[q], CharClass::Digit),
            acc <= u32::MAX,
            acc == digits_value(s@.subrange(from as int, j as int)),
        decreases to - j,
    {
        let c = s[j];
        let digit = (c as u32) - ('0' as u32);
        let next = acc * 10 + digit as u64;
        proof {
            let p = s@.subrange(from as int, j + 1);
            assert(p.drop_last() =~= s@.subrange(from as int, j as int));
            assert(p.last() == c);
        }
        if next > u32::MAX as u64 {
            proof {
                assert forall|q: int| 0 <= q < d.len() implies in_class(#[trigger] d[q], CharClass::Digit) by {
                    assert(d[q] == s@[from + q]);
                }
                lemma_digits_value_grows(d, j + 1 - from);
                assert(d.subrange(0, j + 1 - from) =~= s@.subrange(from as int, j + 1));
            }
            return None;
        }
        acc = next;
        j += 1;
    }
    Some(acc as u32)
}

proof fn lemma_run_in_class(s: Seq<char>, i: int, cls: CharClass)
    requires
        0 <= i,
    ensures
        forall|q: int| i <= q < skip(s, i, cls) ==> in_class(#[trigger] s[q], cls),
        skip(s, i, cls) <= s.len() || skip(s, i, cls) == i,
    decreases s.len() - i,
{
    if 0 <= i < s.len() && in_class(s[i], cls) {
        lemma_run_in_class(s, i + 1, cls);
    }
}

/// All numbers of a list of annotations fit in 32 bits.
pub open spec fn numbers_fit(a: Seq<(Seq<char>, nat, nat)>) -> bool {
    forall|q: int| 0 <= q < a.len() ==> #[trigger] a[q].1 <= u32::MAX && a[q].2 <= u32::MAX
}

/// The annotations of one kind in `source`, in source order.
pub open spec fn annotations_in(source: Seq<char>, k: DeclKind) -> Seq<(Seq<char>, nat, nat)> {
    annotations_from(source, 0, k)
}

pub open spec fn views_of(v: Seq<Annotation>) -> Seq<(Seq<char>, nat, nat)> {
    v.map_values(|a: Annotation| a@)
}

/// Collects the annotated declarations of kind `k` in `source`, in source order. Fails when
/// one of them holds a number that does not fit in 32 bits.
pub fn scan_annotations(source: &str, k: DeclKind) -> (r: Result<Vec<Annotation>, AnnotationError>)
    ensures
        r is Ok <==> numbers_fit(annotations_in(source@, k)),
        r matches Ok(v) ==> views_of(v@) == annotations_in(source@, k),
{
    let s = source_chars(source);
    let n = s.len();
    let mut found: Vec<Annotation> = Vec::new();
    let mut i: usize = 0;
    assert(views_of(found@) =~= Seq::<(Seq<char>, nat, nat)>::empty());
    while i < n
        invariant
            s@ == source@,
            n == s@.len(),
            i <= n,
            views_of(found@) + annotations_from(s@, i as int, k) == annotations_from(s@, 0, k),
            numbers_fit(views_of(found@)),
        decreases n - i,
    {
        match annotation_at_exec(&s, i, k) {
            Some(p) => {
                let (b, c, h, h2, m, m2) = p;
                proof {
                    lemma_run_in_class(s@, h as int, CharClass::Digit);
                    lemma_run_in_class(s@, m as int, CharClass::Digit);
                }
                let ghost a = annotation_of(s@, (b as int, c as int, h as int, h2 as int, m as int, m2 as int));
                let ghost rest = annotations_from(s@, m2 as int, k);
                assert(annotations_from(s@, i as int, k) == seq![a] + rest);
                let set = parse_number(&s, h, h2);
                let binding = parse_number(&s, m, m2);
                match (set, binding) {
                    (Some(set), Some(binding)) => {
                        let name = source.substring_char(b, c).to_owned();
                        let ann = Annotation { name, set, binding };
                        let ghost before = found@;
                        found.push(ann);
                        proof {
                            assert(ann@ == a);
                            assert(views_of(found@) =~= views_of(before).push(a));
                            assert(views_of(before) + (seq![a] + rest) =~= views_of(found@) + rest);
                        }
                        i = m2;
                    },
                    _ => {
                        proof {
                            let all = annotations_from(s@, 0, k);
                            let q = views_of(found@).len() as int;
                            assert(views_of(found@) + (seq![a] + rest) == all);
                            assert(all[q] == a);
                            assert(!(all[q].1 <= u32::MAX && all[q].2 <= u32::MAX));
                        }
                        return Err(AnnotationError::NumberTooLarge);
                    },
                }
            },
            None => {
                assert(annotations_from(s@, i as int, k) == annotations_from(s@, i + 1, k));
                i += 1;
            },
        }
    }
    assert(annotations_from(s@, i as int, k) == Seq::<(Seq<char>, nat, nat)>::empty());
    assert(views_of(found@) =~= annotations_from(s@, 0, k));
    Ok(found)
}

pub open spec fn names_unique(e: Seq<Annotation>) -> bool {
    forall|i: int, j: int|
        0 <= i < e.len() && 0 <= j < e.len() && i != j ==> #[trigger] e[i].name@ != #[trigger] e[j].name@
}

pub open spec fn has_name(e: Seq<Annotation>, n: Seq<char>) -> bool {
    exists|i: int| 0 <= i < e.len() && #[trigger] e[i].name@ == n
}

/// The placement recorded for each name in a list of annotations with distinct names.
pub open spec fn placements_of(e: Seq<Annotation>) -> Map<Seq<char>, (u32, u32)> {
    Map::new(
        |n: Seq<char>| has_name(e, n),
        |n: Seq<char>|
            {
                let i = choose|i: int| 0 <= i < e.len() && #[trigger] e[i].name@ == n;
                (e[i].set, e[i].binding)
            },
    )
}

proof fn lemma_placement_at(e: Seq<Annotation>, i: int)
    requires
        names_unique(e),
        0 <= i < e.len(),
    ensures
        placements_of(e).contains_key(e[i].name@),
        placements_of(e)[e[i].name@] == (e[i].set, e[i].binding),
{
    let n = e[i].name@;
    assert(has_name(e, n));
    let j = choose|j: int| 0 <= j < e.len() && #[trigger] e[j].name@ == n;
    assert(e[j].name@ == n);
}

/// Explicit placements by name: the annotations harvested from one shader, or merged from the
/// shaders of a program.
pub struct GlBindGroups {
    entries: Vec<Annotation>,
}

impl GlBindGroups {
    pub closed spec fn wf(&self) -> bool {
        names_unique(self.entries@)
    }

    pub closed spec fn view(&self) -> Map<Seq<char>, (u32, u32)> {
        placements_of(self.entries@)
    }

    pub fn new() -> (r: GlBindGroups)
        ensures
            r.wf(),
            r@ == Map::<Seq<char>, (u32, u32)>::empty(),
    {
        let r = GlBindGroups { entries: Vec::new() };
        assert(r@ =~= Map::<Seq<char>, (u32, u32)>::empty());
        r
    }

    /// The number of names placed.
    pub fn len(&self) -> (r: usize)
        requires
            self.wf(),
        ensures
            r == self@.len(),
    {
        proof {
            self.lemma_len();
        }
        self.entries.len()
    }

    proof fn lemma_len(&self)
        requires
            self.wf(),
        ensures
            self@.dom() == self.entries@.map_values(|a: Annotation| a.name@).to_set(),
            self@.len() == self.entries@.len(),
    {
        let e = self.entries@;
        let names = e.map_values(|a: Annotation| a.name@);
        assert forall|n: Seq<char>| self@.dom().contains(n) <==> names.to_set().contains(n) by {
            if has_name(e, n) {
                let i = choose|i: int| 0 <= i < e.len() && #[trigger] e[i].name@ == n;
                assert(names[i] == n);
            }
            if names.contains(n) {
                let i = choose|i: int| 0 <= i < names.len() && names[i] == n;
                assert(e[i].name@ == n);
            }
        }
        assert(self@.dom() =~= names.to_set());
        assert(names.no_duplicates()) by {
            assert forall|i: int, j: int| 0 <= i < j < names.len() implies names[i] != names[j] by {
                assert(names[i] == e[i].name@);
                assert(names[j] == e[j].name@);
            }
        }
        names.unique_seq_to_set();
    }

    fn find(&self, name: &String) -> (r: Option<usize>)
        requires
            self.wf(),
        ensures
            match r {
                Some(i) => i < self.entries@.len() && self.entries@[i as int].name@ == name@,
                None => !has_name(self.entries@, name@),
            },
    {
        let mut i: usize = 0;
        while i < self.entries.len()
            invariant
                i <= self.entries@.len(),
                forall|j: int| 0 <= j < i ==> #[trigger] self.entries@[j].name@ != name@,
            decreases self.entries@.len() - i,
        {
            if self.entries[i].name == *name {
                return Some(i);
            }
            i += 1;
        }
        None
    }

    /// The placement recorded for `name`.
    pub fn get(&self, name: &String) -> (r: Option<(u32, u32)>)
        requires
            self.wf(),
        ensures
            r == (if self@.contains_key(name@) {
                Some(self@[name@])
            } else {
                None
            }),
    {
        match self.find(name) {
            Some(i) => {
                proof {
                    lemma_placement_at(self.entries@, i as int);
                }
                Some((self.entries[i].set, self.entries[i].binding))
            },
            None => None,
        }
    }

    /// Records a placement, replacing any earlier one for the same name.
    pub fn insert(&mut self, a: Annotation)
        requires
            old(self).wf(),
        ensures
            final(self).wf(),
            final(self)@ == old(self)@.insert(a.name@, (a.set, a.binding)),
    {
        let ghost old_e = self.entries@;
        let ghost key = a.name@;
        match self.find(&a.name) {
            Some(i) => {
                self.entries.set(i, a);
                proof {
                    let e = self.entries@;
                    assert(e == old_e.update(i as int, a));
                    assert forall|p: int, q: int|
                        0 <= p < e.len() && 0 <= q < e.len() && p != q implies #[trigger] e[p].name@
                        != #[trigger] e[q].name@ by {
                        if p != i && q != i {
                            assert(e[p] == old_e[p] && e[q] == old_e[q]);
                        } else if p == i {
                            assert(old_e[i as int].name@ == key);
                            assert(e[q] == old_e[q]);
                        } else {
                            assert(old_e[i as int].name@ == key);
                            assert(e[p] == old_e[p]);
                        }
                    }
                    lemma_update_placements(old_e, i as int, a);
                }
            },
            None => {
                self.entries.push(a);
                proof {
                    lemma_push_placements(old_e, a);
                }
            },
        }
    }

    /// Records a placement unless `name` already has one.
    pub fn insert_if_absent(&mut self, a: Annotation)
        requires
            old(self).wf(),
        ensures
            final(self).wf(),
            final(self)@ == (if old(self)@.contains_key(a.name@) {
                old(self)@
            } else {
                old(self)@.insert(a.name@, (a.set, a.binding))
            }),
    {
        let ghost old_e = self.entries@;
        match self.find(&a.name) {
            Some(i) => {
                proof {
                    lemma_placement_at(old_e, i as int);
                }
            },
            None => {
                self.entries.push(a);
                proof {
                    lemma_push_placements(old_e, a);
                }
            },
        }
    }
}

proof fn lemma_push_placements(e: Seq<Annotation>, a: Annotation)
    requires
        names_unique(e),
        !has_name(e, a.name@),
    ensures
        names_unique(e.push(a)),
        placements_of(e.push(a)) == placements_of(e).insert(a.name@, (a.set, a.binding)),
{
    let f = e.push(a);
    assert forall|p: int, q: int|
        0 <= p < f.len() && 0 <= q < f.len() && p != q implies #[trigger] f[p].name@
        != #[trigger] f[q].name@ by {
        if p < e.len() && q < e.len() {
            assert(f[p] == e[p] && f[q] == e[q]);
        } else if p < e.len() {
            assert(f[p] == e[p]);
        } else {
            assert(f[q] == e[q]);
        }
    }
    let m1 = placements_of(f);
    let m0 = placements_of(e).insert(a.name@, (a.set, a.binding));
    assert forall|n: Seq<char>| m1.contains_key(n) <==> m0.contains_key(n) by {
        if has_name(f, n) {
            let i = choose|i: int| 0 <= i < f.len() && #[trigger] f[i].name@ == n;
            if i < e.len() {
                assert(e[i].name@ == n);
            }
        }
        if has_name(e, n) {
            let i = choose|i: int| 0 <= i < e.len() && #[trigger] e[i].name@ == n;
            assert(f[i].name@ == n);
        }
        if n == a.name@ {
            assert(f[e.len() as int].name@ == n);
        }
    }
    assert forall|n: Seq<char>| #[trigger] m1.contains_key(n) implies m1[n] == m0[n] by {
        let i = choose|i: int| 0 <= i < f.len() && #[trigger] f[i].name@ == n;
        assert(f[i].name@ == n);
        lemma_placement_at(f, i);
        if i < e.len() {
            assert(f[i] == e[i]);
            lemma_placement_at(e, i);
        }
    }
    assert(m1 =~= m0);
}

proof fn lemma_update_placements(e: Seq<Annotation>, i: int, a: Annotation)
    requires
        names_unique(e),
        names_unique(e.update(i, a)),
        0 <= i < e.len(),
        e[i].name@ == a.name@,
    ensures
        placements_of(e.update(i, a)) == placements_of(e).insert(a.name@, (a.set, a.binding)),
{
    let f = e.update(i, a);
    let m1 = placements_of(f);
    let m0 = placements_of(e).insert(a.name@, (a.set, a.binding));
    assert forall|n: Seq<char>| m1.contains_key(n) <==> m0.contains_key(n) by {
        if has_name(f, n) {
            let j = choose|j: int| 0 <= j < f.len() && #[trigger] f[j].name@ == n;
            assert(e[j].name@ == n);
        }
        if has_name(e, n) {
            let j = choose|j: int| 0 <= j < e.len() && #[trigger] e[j].name@ == n;
            assert(f[j].name@ == n);
        }
        if n == a.name@ {
            assert(f[i].name@ == n);
        }
    }
    assert forall|n: Seq<char>| #[trigger] m1.contains_key(n) implies m1[n] == m0[n] by {
        let j = choose|j: int| 0 <= j < f.len() && #[trigger] f[j].name@ == n;
        assert(f[j].name@ == n);
        lemma_placement_at(f, j);
        if j != i {
            assert(f[j] == e[j]);
            lemma_placement_at(e, j);
        }
    }
    assert(m1 =~= m0);
}

/// A map with the given annotations recorded in order, each replacing an earlier one for the
/// same name.
pub open spec fn insert_all(m: Map<Seq<char>, (u32, u32)>, a: Seq<(Seq<char>, nat, nat)>) -> Map<
    Seq<char>,
    (u32, u32),
>
    decreases a.len(),
{
    if a.len() == 0 {
        m
    } else {
        insert_all(m, a.drop_last()).insert(a.last().0, (a.last().1 as u32, a.last().2 as u32))
    }
}

proof fn lemma_insert_all_append(
    m: Map<Seq<char>, (u32, u32)>,
    a: Seq<(Seq<char>, nat, nat)>,
    b: Seq<(Seq<char>, nat, nat)>,
)
    ensures
        insert_all(m, a + b) == insert_all(insert_all(m, a), b),
    decreases b.len(),
{
    if b.len() == 0 {
        assert(a + b =~= a);
    } else {
        assert((a + b).drop_last() =~= a + b.drop_last());
        lemma_insert_all_append(m, a, b.drop_last());
    }
}

/// The placements harvested from one shader's source: its annotated uniform blocks, then its
/// annotated samplers, a later annotation of a name replacing an earlier one.
pub open spec fn harvested(source: Seq<char>) -> Map<Seq<char>, (u32, u32)> {
    insert_all(
        Map::empty(),
        annotations_in(source, DeclKind::UniformBlock) + annotations_in(source, DeclKind::Sampler),
    )
}

impl GlBindGroups {
    fn insert_each(&mut self, v: &Vec<Annotation>)
        requires
            old(self).wf(),
        ensures
            final(self).wf(),
            final(self)@ == insert_all(old(self)@, views_of(v@)),
    {
        let ghost m0 = self@;
        let mut i: usize = 0;
        assert(views_of(v@).take(0) =~= Seq::<(Seq<char>, nat, nat)>::empty());
        while i < v.len()
            invariant
                self.wf(),
                i <= v@.len(),
                self@ == insert_all(m0, views_of(v@).take(i as int)),
            decreases v@.len() - i,
        {
            let a = Annotation { name: v[i].name.clone(), set: v[i].set, binding: v[i].binding };
            self.insert(a);
            proof {
                let t = views_of(v@).take(i + 1);
                assert(t.drop_last() =~= views_of(v@).take(i as int));
                assert(t.last() == v@[i as int]@);
            }
            i += 1;
        }
        assert(views_of(v@).take(i as int) =~= views_of(v@));
    }

    /// Adds the placements of `other` for names that have none yet: on a name placed in both,
    /// the placement already here wins.
    pub fn merge_from(&mut self, other: &GlBindGroups)
        requires
            old(self).wf(),
            other.wf(),
        ensures
            final(self).wf(),
            final(self)@ == other@.union_prefer_right(old(self)@),
    {
        let ghost m0 = self@;
        let ghost e = other.entries@;
        let mut i: usize = 0;
        assert(placements_of(e.take(0)) =~= Map::<Seq<char>, (u32, u32)>::empty());
        assert(placements_of(e.take(0)).union_prefer_right(m0) =~= m0);
        while i < other.entries.len()
            invariant
                self.wf(),
                other.wf(),
                e == other.entries@,
                i <= e.len(),
                self@ == placements_of(e.take(i as int)).union_prefer_right(m0),
            decreases e.len() - i,
        {
            let a = Annotation {
                name: other.entries[i].name.clone(),
                set: other.entries[i].set,
                binding: other.entries[i].binding,
            };
            let ghost before = self@;
            self.insert_if_absent(a);
            proof {
                let t = e.take(i as int);
                assert(e.take(i + 1) =~= t.push(e[i as int]));
                assert(names_unique(t));
                assert(!has_name(t, a.name@)) by {
                    if has_name(t, a.name@) {
                        let j = choose|j: int| 0 <= j < t.len() && #[trigger] t[j].name@ == a.name@;
                        assert(e[j].name@ == e[i as int].name@);
                    }
                }
                assert(e[i as int] == a);
                lemma_push_placements(t, a);
                let p = placements_of(t);
                if m0.contains_key(a.name@) {
                    assert(p.insert(a.name@, (a.set, a.binding)).union_prefer_right(m0)
                        =~= p.union_prefer_right(m0));
                } else {
                    assert(p.insert(a.name@, (a.set, a.binding)).union_prefer_right(m0)
                        =~= p.union_prefer_right(m0).insert(a.name@, (a.set, a.binding)));
                }
            }
            i += 1;
        }
        assert(e.take(i as int) =~= e);
        proof {
            assert(placements_of(e) == other@);
        }
    }
}

/// Harvests the explicit placements written in a shader's source.
pub fn harvest_annotations(source: &str) -> (r: Result<GlBindGroups, AnnotationError>)
    ensures
        r is Ok <==> (numbers_fit(annotations_in(source@, DeclKind::UniformBlock)) && numbers_fit(
            annotations_in(source@, DeclKind::Sampler),
        )),
        r matches Ok(g) ==> g.wf() && g@ == harvested(source@),
{
    let blocks = scan_annotations(source, DeclKind::UniformBlock);
    let blocks = match blocks {
        Ok(v) => v,
        Err(e) => {
            return Err(e);
        },
    };
    let samplers = scan_annotations(source, DeclKind::Sampler);
    let samplers = match samplers {
        Ok(v) => v,
        Err(e) => {
            return Err(e);
        },
    };
    let mut g = GlBindGroups::new();
    g.insert_each(&blocks);
    g.insert_each(&samplers);
    proof {
        lemma_insert_all_append(Map::empty(), views_of(blocks@), views_of(samplers@));
    }
    Ok(g)
}

/// The bind group indices that some placement names.
pub open spec fn placed_groups(m: Map<Seq<char>, (u32, u32)>) -> Set<u32> {
    Set::new(|g: u32| exists|n: Seq<char>| m.contains_key(n) && #[trigger] m[n].0 == g)
}

impl GlBindGroups {
    /// The bind group index of every placement, one entry per placement.
    pub fn group_indices(&self) -> (r: Vec<u32>)
        requires
            self.wf(),
        ensures
            forall|g: u32| r@.contains(g) <==> placed_groups(self@).contains(g),
            r@.len() == self@.len(),
    {
        proof {
            self.lemma_len();
        }
        let mut r: Vec<u32> = Vec::new();
        let mut i: usize = 0;
        while i < self.entries.len()
            invariant
                self.wf(),
                i <= self.entries@.len(),
                r@.len() == i,
                forall|j: int| 0 <= j < i ==> #[trigger] r@[j] == self.entries@[j].set,
            decreases self.entries@.len() - i,
        {
            r.push(self.entries[i].set);
            i += 1;
        }
        proof {
            let e = self.entries@;
            assert forall|g: u32| r@.contains(g) <==> placed_groups(self@).contains(g) by {
                if r@.contains(g) {
                    let j = choose|j: int| 0 <= j < r@.len() && r@[j] == g;
                    lemma_placement_at(e, j);
                    assert(self@[e[j].name@].0 == g);
                }
                if placed_groups(self@).contains(g) {
                    let n = choose|n: Seq<char>| self@.contains_key(n) && #[trigger] self@[n].0 == g;
                    let j = choose|j: int| 0 <= j < e.len() && #[trigger] e[j].name@ == n;
                    assert(e[j].name@ == n);
                    lemma_placement_at(e, j);
                    assert(r@[j] == g);
                }
            }
        }
        r
    }
}

} // verus!
