//! One shader fragment: its discovered parameters, its shader body with the
//! shared snippet imported, and the plan of one render pass, in which the
//! declarations and the bound groups follow one order.
use vstd::prelude::*;
use crate::bindgroups::{
    ascii_lower, be_bytes, block_name, block_var, lemma_parameter_blocks, le_bytes, texture_decl, texture_layout, uniform_layout, BindGroupDesc,
    BindGroupSet, LayoutEntry, MouseUniform, ParameterPrimitive, SampleInput, DEFAULT_WEIGHT,
};
use crate::shapes::{is_default_quad, Rectangle, ShapePoints};
use crate::text::{
    chars_of, contains_char, contains_chars, decimal, free_of, has_prefix, has_sub, joined,
    lemma_line_scan_concat, lemma_line_scan_pieces, lemma_line_scan_rejoin,
    lemma_line_scan_single, line_scan, lines, push_char, push_chars, push_decimal, split_lines,
    split_tokens, starts_with, strip_cr, string_of, tokens,
};

verus! {

/// The number of parameter markers a shader can use: indices `0..8`.
pub const MARKER_COUNT: u32 = 8;

/// The marker of the parameter with index `i`.
pub open spec fn marker(i: nat) -> Seq<char> {
    "PARAMETER"@ + decimal(i)
}

/// `line` declares parameter `i`: it holds the marker and an `=`, and its
/// second whitespace-separated token is a bare name, without parentheses.
pub open spec fn declares(line: Seq<char>, i: nat) -> bool {
    &&& has_sub(line, marker(i))
    &&& line.contains('=')
    &&& tokens(line).len() > 1
    &&& !tokens(line)[1].contains('(')
    &&& !tokens(line)[1].contains(')')
}

/// The name that the first line from `from` on declaring parameter `i` gives.
pub open spec fn first_declaration(ls: Seq<Seq<char>>, i: nat, from: nat) -> Option<Seq<char>>
    decreases ls.len() - from,
{
    if from >= ls.len() {
        None
    } else if declares(ls[from as int], i) {
        Some(tokens(ls[from as int])[1])
    } else {
        first_declaration(ls, i, from + 1)
    }
}

/// The parameters declared for indices `0..n`, in index order, each with the
/// name of its first declaring line.
pub open spec fn discovered(ls: Seq<Seq<char>>, n: nat) -> Seq<(nat, Seq<char>)>
    decreases n,
{
    if n == 0 {
        seq![]
    } else {
        let prev = discovered(ls, (n - 1) as nat);
        match first_declaration(ls, (n - 1) as nat, 0) {
            Some(name) => prev.push(((n - 1) as nat, name)),
            None => prev,
        }
    }
}

/// How many of the indices `0..n` some line declares.
pub open spec fn declared_count(ls: Seq<Seq<char>>, n: nat) -> nat
    decreases n,
{
    if n == 0 {
        0
    } else {
        declared_count(ls, (n - 1) as nat) + if first_declaration(ls, (n - 1) as nat, 0) is Some {
            1nat
        } else {
            0nat
        }
    }
}

/// The index and name of a parameter.
pub open spec fn param_model(p: ParameterPrimitive) -> (nat, Seq<char>) {
    (p.index as nat, p.name@)
}

/// `ps` are the parameters that discovery finds in `code`, with default
/// weights.
pub open spec fn found_in(ps: Seq<ParameterPrimitive>, code: Seq<char>) -> bool {
    &&& ps.map_values(|p: ParameterPrimitive| param_model(p)) == discovered(lines(code), 8)
    &&& forall|j: int|
        0 <= j < ps.len() ==> (#[trigger] ps[j]).params.input@ == Seq::new(
            8,
            |i: int| DEFAULT_WEIGHT,
        ) && ps[j].row_count == 8
}

/// `l` is an import line.
pub open spec fn is_import(l: Seq<char>) -> bool {
    has_prefix(l, "#import"@)
}

/// The text that stands for the lines `ls`: each import line replaced by
/// `snippet` as it is, each other line kept with a line break after it.
pub open spec fn substitute_lines(ls: Seq<Seq<char>>, snippet: Seq<char>) -> Seq<char>
    decreases ls.len(),
{
    if ls.len() == 0 {
        seq![]
    } else {
        substitute_lines(ls.drop_last(), snippet) + if is_import(ls.last()) {
            snippet
        } else {
            ls.last().push('\n')
        }
    }
}

/// `code` with its import lines replaced by `snippet`.
pub open spec fn substituted(code: Seq<char>, snippet: Seq<char>) -> Seq<char> {
    substitute_lines(lines(code), snippet)
}

/// The position of the last `.` among the first `n` characters of `s`, or
/// -1 when there is none.
pub open spec fn last_dot(s: Seq<char>, n: int) -> int
    decreases n,
{
    if n <= 0 {
        -1
    } else if s[n - 1] == '.' {
        n - 1
    } else {
        last_dot(s, n - 1)
    }
}

/// The file name `s` without its extension, as `Path::file_stem` takes it:
/// the part before the last `.`, unless that `.` opens the name or the name
/// is `..`.
pub open spec fn stem(s: Seq<char>) -> Seq<char> {
    if s == ".."@ || last_dot(s, s.len() as int) <= 0 {
        s
    } else {
        s.subrange(0, last_dot(s, s.len() as int))
    }
}

/// A placement rectangle on screen, centre and size, as the bit patterns of
/// four 32-bit floats. Only the interface writes it; the library carries it.
#[derive(Clone, Copy, Debug, PartialEq, Eq, Structural)]
pub struct Placement {
    pub x: u32,
    pub y: u32,
    pub w: u32,
    pub h: u32,
}

/// What occupies one group of a fragment's pipeline.
#[derive(Clone, Copy, Debug, PartialEq, Eq, Structural)]
pub enum BindingSource {
    /// Texture `i` of the sample pool.
    Sample(usize),
    /// The fragment's own parameter `j`.
    Parameter(usize),
    /// The shared pointer uniform.
    Pointer,
}

/// The order of the groups for `n` sampled inputs and `k` parameters: the
/// samples, then the parameters, then the pointer uniform.
pub open spec fn binding_order(n: nat, k: nat) -> Seq<BindingSource> {
    Seq::new(
        n + k + 1,
        |i: int|
            if i < n {
                BindingSource::Sample(i as usize)
            } else if i < n + k {
                BindingSource::Parameter((i - n) as usize)
            } else {
                BindingSource::Pointer
            },
    )
}

/// One group of a render pass: its index, what it holds, and its layout and
/// uniform contents.
pub struct BindGroupPlan {
    pub group: u32,
    pub source: BindingSource,
    pub desc: BindGroupDesc,
}

/// Everything needed to record one fragment's render pass: the pipeline
/// label, the full shader text, the groups to bind in order, whether the
/// target keeps its content, and the number of indices to draw.
pub struct RenderPass {
    pub label: String,
    pub shader_source: String,
    pub groups: Vec<BindGroupPlan>,
    pub load_existing: bool,
    pub index_count: u32,
}

/// The sources of a pass's groups, in order.
pub open spec fn pass_sources(p: RenderPass) -> Seq<BindingSource> {
    p.groups@.map_values(|g: BindGroupPlan| g.source)
}

/// A shader program with its own resources.
pub struct Fragment {
    pub shape: ShapePoints,
    pub params: Vec<ParameterPrimitive>,
    pub source: String,
    pub name: String,
    pub draw_frame: Placement,
    pub width: u32,
    pub height: u32,
}

/// The text of every group's declaration, group `i` for `order[i]`.
pub open spec fn declarations(f: Fragment, order: Seq<BindingSource>, pointer: MouseUniform) -> Seq<
    char,
>
    decreases order.len(),
{
    if order.len() == 0 {
        seq![]
    } else {
        declarations(f, order.drop_last(), pointer) + f.source_decl(
            order.last(),
            (order.len() - 1) as nat,
            pointer,
        )
    }
}

/// `p` is the render pass of `f` over a pool of `n` samples, with `pointer`
/// as the shared uniform.
pub open spec fn is_render_of(f: Fragment, pointer: MouseUniform, n: nat, p: RenderPass) -> bool {
    let order = binding_order(n, f.params@.len());
    &&& p.label@ == f.name@
    &&& pass_sources(p) == order
    &&& p.shader_source@ == declarations(f, order, pointer) + f.source@
    &&& forall|i: int|
        0 <= i < p.groups@.len() ==> {
            let g = #[trigger] p.groups@[i];
            &&& g.group == i
            &&& g.desc.entries@ == f.source_layout(g.source)
            &&& (g.desc.contents@ == le_bytes(f.source_words(g.source, pointer))
                || g.desc.contents@ == be_bytes(f.source_words(g.source, pointer)))
        }
    &&& p.load_existing
    &&& p.index_count == 6
}

impl Fragment {
    /// The fragment is well formed: it draws the full-target quad, and has at
    /// most one parameter per marker index, in increasing index order.
    pub open spec fn wf(&self) -> bool {
        &&& is_default_quad(self.shape)
        &&& self.params@.len() <= 8
        &&& forall|j: int| 0 <= j < self.params@.len() ==> (#[trigger] self.params@[j]).index < 8
        &&& forall|a: int, b: int|
            0 <= a < b < self.params@.len() ==> (#[trigger] self.params@[a]).index < (
            #[trigger] self.params@[b]).index
    }

    /// The declaration of source `s` in group `g`.
    pub open spec fn source_decl(&self, s: BindingSource, g: nat, pointer: MouseUniform) -> Seq<
        char,
    > {
        match s {
            BindingSource::Sample(_) => texture_decl(g),
            BindingSource::Parameter(j) => if j < self.params@.len() {
                self.params@[j as int].declaration(g)
            } else {
                seq![]
            },
            BindingSource::Pointer => pointer.declaration(g),
        }
    }

    /// The bindings of the group that holds source `s`.
    pub open spec fn source_layout(&self, s: BindingSource) -> Seq<LayoutEntry> {
        match s {
            BindingSource::Sample(_) => texture_layout(),
            BindingSource::Parameter(j) => if j < self.params@.len() {
                self.params@[j as int].layout()
            } else {
                seq![]
            },
            BindingSource::Pointer => uniform_layout(),
        }
    }

    /// The uniform words of the group that holds source `s`.
    pub open spec fn source_words(&self, s: BindingSource, pointer: MouseUniform) -> Seq<u32> {
        match s {
            BindingSource::Sample(_) => seq![],
            BindingSource::Parameter(j) => if j < self.params@.len() {
                self.params@[j as int].words()
            } else {
                seq![]
            },
            BindingSource::Pointer => pointer.words(),
        }
    }

    /// The parameters declared in `code`: for each marker index in order, one
    /// parameter named after the first line that declares it, with default
    /// weights. An index that no line declares gives none.
    pub fn find_parameters(code: &str) -> (r: Vec<ParameterPrimitive>)
        ensures
            found_in(r@, code@),
    {
        let ls = split_lines(code);
        let ghost lsv = lines(code@);
        let mut params: Vec<ParameterPrimitive> = Vec::new();
        for i in 0..MARKER_COUNT
            invariant
                ls@.map_values(|l: Vec<char>| l@) == lsv,
                params@.map_values(|p: ParameterPrimitive| param_model(p)) == discovered(
                    lsv,
                    i as nat,
                ),
                forall|j: int|
                    0 <= j < params@.len() ==> (#[trigger] params@[j]).params.input@ == Seq::new(
                        8,
                        |i: int| DEFAULT_WEIGHT,
                    ) && params@[j].row_count == 8,
        {
            let mut function_name = String::from_str("PARAMETER");
            push_decimal(&mut function_name, i as u64);
            let m = chars_of(function_name.as_str());
            proof {
                reveal_strlit("PARAMETER");
            }
            assert(m@ =~= marker(i as nat));
            let mut found = false;
            let mut j: usize = 0;
            while j < ls.len() && !found
                invariant
                    ls@.map_values(|l: Vec<char>| l@) == lsv,
                    m@ == marker(i as nat),
                    j <= ls@.len(),
                    !found ==> first_declaration(lsv, i as nat, 0) == first_declaration(
                        lsv,
                        i as nat,
                        j as nat,
                    ),
                    found ==> params@.map_values(|p: ParameterPrimitive| param_model(p))
                        == discovered(lsv, (i + 1) as nat),
                    !found ==> params@.map_values(|p: ParameterPrimitive| param_model(p))
                        == discovered(lsv, i as nat),
                    forall|j: int|
                        0 <= j < params@.len() ==> (#[trigger] params@[j]).params.input@
                            == Seq::new(8, |i: int| DEFAULT_WEIGHT) && params@[j].row_count == 8,
                decreases ls@.len() - j,
            {
                let line = &ls[j];
                assert(line@ == lsv[j as int]);
                let mut declared = false;
                if contains_chars(line, &m) && contains_char(line, '=') {
                    let parts = split_tokens(line);
                    if parts.len() > 1 {
                        assert(parts@.map_values(|t: Vec<char>| t@)[1] == parts@[1]@);
                        let name = &parts[1];
                        if !contains_char(name, '(') && !contains_char(name, ')') {
                            let name_text = string_of(name);
                            let p = ParameterPrimitive::new(name_text.as_str(), i, 8);
                            let ghost before = params@;
                            params.push(p);
                            assert(params@.map_values(|p: ParameterPrimitive| param_model(p))
                                =~= before.map_values(|p: ParameterPrimitive| param_model(p)).push(
                                (i as nat, tokens(lsv[j as int])[1])));
                            declared = true;
                        }
                    }
                }
                assert(declared == declares(lsv[j as int], i as nat));
                if declared {
                    found = true;
                }
                j = j + 1;
            }
            assert(!found ==> first_declaration(lsv, i as nat, j as nat) is None);
        }
        params
    }

    /// `wgsl_code` with each line that begins with the import marker replaced
    /// by `snippet`, once and in place; every other line is kept, in order.
    pub fn import_wgsl_snippets(snippet: &str, wgsl_code: &str) -> (r: String)
        ensures
            r@ == substituted(wgsl_code@, snippet@),
    {
        let ls = split_lines(wgsl_code);
        let ghost lsv = lines(wgsl_code@);
        let marker = chars_of("#import");
        proof {
            reveal_strlit("#import");
        }
        let mut code = String::new();
        for i in 0..ls.len()
            invariant
                ls@.map_values(|l: Vec<char>| l@) == lsv,
                marker@ == "#import"@,
                code@ == substitute_lines(lsv.subrange(0, i as int), snippet@),
        {
            let line = &ls[i];
            assert(line@ == lsv[i as int]);
            assert(lsv.subrange(0, i + 1).drop_last() =~= lsv.subrange(0, i as int));
            if !starts_with(line, &marker) {
                push_chars(&mut code, line);
                push_char(&mut code, '\n');
            } else {
                code.append(snippet);
            }
            assert(code@ =~= substitute_lines(lsv.subrange(0, i + 1), snippet@));
        }
        assert(lsv.subrange(0, lsv.len() as int) =~= lsv);
        code
    }

    /// The display name of a shader file: its name without the extension.
    pub fn display_name(file_name: &str) -> (r: String)
        ensures
            r@ == stem(file_name@),
    {
        let s = chars_of(file_name);
        let mut n: usize = s.len();
        while n > 0 && s[n - 1] != '.'
            invariant
                n <= s@.len(),
                last_dot(s@, s@.len() as int) == last_dot(s@, n as int),
            decreases n,
        {
            n = n - 1;
        }
        let dot: usize = if n > 0 { n - 1 } else { 0 };
        assert(n > 0 ==> last_dot(s@, s@.len() as int) == dot);
        assert(n == 0 ==> last_dot(s@, s@.len() as int) == -1);
        let dots = chars_of("..");
        proof {
            reveal_strlit("..");
        }
        let whole = s.len() == 2 && s[0] == '.' && s[1] == '.';
        assert(whole == (s@ == dots@)) by {
            if s@ == dots@ {
                assert(s@[0] == '.' && s@[1] == '.');
            }
            if whole {
                assert(s@ =~= dots@);
            }
        }
        if whole || dot == 0 {
            string_of(&s)
        } else {
            let mut r = String::new();
            let mut i: usize = 0;
            while i < dot
                invariant
                    dot <= s@.len(),
                    i <= dot,
                    r@ == s@.subrange(0, i as int),
                decreases dot - i,
            {
                push_char(&mut r, s[i]);
                assert(r@ =~= s@.subrange(0, i + 1));
                i = i + 1;
            }
            r
        }
    }

    /// The fragment of the shader `shader_text` in the file `file_name`: its
    /// parameters discovered in the text as written, its body with the
    /// imports replaced by `snippet`, an output of `width` by `height`, shown
    /// at `draw_frame`.
    pub fn new(
        shader_text: &str,
        snippet: &str,
        file_name: &str,
        width: u32,
        height: u32,
        draw_frame: Placement,
    ) -> (r: Fragment)
        ensures
            r.wf(),
            found_in(r.params@, shader_text@),
            r.source@ == substituted(shader_text@, snippet@),
            r.name@ == stem(file_name@),
            r.draw_frame == draw_frame,
            r.width == width,
            r.height == height,
    {
        let params = Fragment::find_parameters(shader_text);
        proof {
            lemma_discovered_shape(lines(shader_text@), 8);
            assert forall|j: int| 0 <= j < params@.len() implies (#[trigger] params@[j]).index
                < 8 by {
                assert(params@.map_values(|p: ParameterPrimitive| param_model(p))[j]
                    == param_model(params@[j]));
            }
            let ms = params@.map_values(|p: ParameterPrimitive| param_model(p));
            assert forall|a: int, b: int| 0 <= a < b < params@.len() implies (
            #[trigger] params@[a]).index < (#[trigger] params@[b]).index by {
                assert(ms[a] == param_model(params@[a]));
                assert(ms[b] == param_model(params@[b]));
            }
        }
        let source = Fragment::import_wgsl_snippets(snippet, shader_text);
        let name = Fragment::display_name(file_name);
        Fragment { shape: Rectangle::default(), params, source, name, draw_frame, width, height }
    }

    /// The groups of a render over `sample_count` sampled inputs, in order.
    pub fn bindings(&self, sample_count: usize) -> (r: Vec<BindingSource>)
        requires
            self.wf(),
            sample_count + 9 <= usize::MAX,
        ensures
            r@ == binding_order(sample_count as nat, self.params@.len()),
    {
        let mut binds: Vec<BindingSource> = Vec::new();
        let ghost order = binding_order(sample_count as nat, self.params@.len());
        for t in 0..sample_count
            invariant
                order == binding_order(sample_count as nat, self.params@.len()),
                binds@ == order.subrange(0, t as int),
        {
            binds.push(BindingSource::Sample(t));
            assert(binds@ =~= order.subrange(0, t + 1));
        }
        for p in 0..self.params.len()
            invariant
                self.wf(),
                sample_count + 9 <= usize::MAX,
                order == binding_order(sample_count as nat, self.params@.len()),
                binds@ == order.subrange(0, sample_count + p),
        {
            binds.push(BindingSource::Parameter(p));
            assert(binds@ =~= order.subrange(0, sample_count + p + 1));
        }
        binds.push(BindingSource::Pointer);
        assert(binds@ =~= order);
        binds
    }

    /// The declaration of `source` at group `group`.
    pub fn declare(&self, source: BindingSource, group: u32, pointer: &MouseUniform) -> (r: String)
        ensures
            r@ == self.source_decl(source, group as nat, *pointer),
    {
        match source {
            BindingSource::Sample(_) => SampleInput.get_wgsl_blob(group),
            BindingSource::Parameter(j) => if j < self.params.len() {
                self.params[j].get_wgsl_blob(group)
            } else {
                String::new()
            },
            BindingSource::Pointer => pointer.get_wgsl_blob(group),
        }
    }

    /// The layout and uniform contents of the group that holds `source`.
    pub fn bind_group(&self, source: BindingSource, pointer: &MouseUniform) -> (r: BindGroupDesc)
        ensures
            r.entries@ == self.source_layout(source),
            r.contents@ == le_bytes(self.source_words(source, *pointer)) || r.contents@
                == be_bytes(self.source_words(source, *pointer)),
    {
        match source {
            BindingSource::Sample(_) => SampleInput.get_bind_group(),
            BindingSource::Parameter(j) => if j < self.params.len() {
                self.params[j].get_bind_group()
            } else {
                let r = BindGroupDesc { entries: Vec::new(), contents: Vec::new() };
                assert(r.entries@ =~= seq![]);
                assert(r.contents@ =~= le_bytes(seq![]));
                r
            },
            BindingSource::Pointer => pointer.get_bind_group(),
        }
    }

    /// The render pass of this fragment over a pool of `sample_count`
    /// textures: groups for the samples, then the own parameters, then the
    /// pointer uniform, each at the index of its place; the shader text is
    /// their declarations in that same order followed by the body; the pass
    /// draws the quad over the target's existing content.
    pub fn render(&self, mouse_uniform: &MouseUniform, sample_count: usize) -> (r: RenderPass)
        requires
            self.wf(),
            sample_count + 9 <= u32::MAX,
        ensures
            is_render_of(*self, *mouse_uniform, sample_count as nat, r),
    {
        let order = self.bindings(sample_count);
        let mut groups: Vec<BindGroupPlan> = Vec::new();
        let mut text = String::new();
        for i in 0..order.len()
            invariant
                self.wf(),
                sample_count + 9 <= u32::MAX,
                order@ == binding_order(sample_count as nat, self.params@.len()),
                text@ == declarations(*self, order@.subrange(0, i as int), *mouse_uniform),
                groups@.len() == i,
                forall|t: int|
                    0 <= t < i ==> {
                        let g = #[trigger] groups@[t];
                        &&& g.group == t
                        &&& g.source == order@[t]
                        &&& g.desc.entries@ == self.source_layout(g.source)
                        &&& (g.desc.contents@ == le_bytes(
                            self.source_words(g.source, *mouse_uniform),
                        ) || g.desc.contents@ == be_bytes(
                            self.source_words(g.source, *mouse_uniform),
                        ))
                    },
        {
            let source = order[i];
            let decl = self.declare(source, i as u32, mouse_uniform);
            assert(order@.subrange(0, i + 1).drop_last() =~= order@.subrange(0, i as int));
            text.append(decl.as_str());
            let desc = self.bind_group(source, mouse_uniform);
            groups.push(BindGroupPlan { group: i as u32, source, desc });
        }
        assert(order@.subrange(0, order@.len() as int) =~= order@);
        text.append(self.source.as_str());
        let r = RenderPass {
            label: self.name.clone(),
            shader_source: text,
            groups,
            load_existing: true,
            index_count: self.shape.indices.len() as u32,
        };
        assert(pass_sources(r) =~= order@);
        r
    }
}

/// What discovery finds for indices `0..n` is in increasing index order,
/// below `n`, each with the first declared name, and holds every declared
/// index: one entry per index that some line declares.
pub proof fn lemma_discovered_shape(ls: Seq<Seq<char>>, n: nat)
    ensures
        discovered(ls, n).len() == declared_count(ls, n),
        discovered(ls, n).len() <= n,
        forall|j: int|
            0 <= j < discovered(ls, n).len() ==> {
                let e = #[trigger] discovered(ls, n)[j];
                e.0 < n && first_declaration(ls, e.0, 0) == Some(e.1)
            },
        forall|a: int, b: int|
            0 <= a < b < discovered(ls, n).len() ==> discovered(ls, n)[a].0 < discovered(
                ls,
                n,
            )[b].0,
        forall|i: nat|
            i < n && (#[trigger] first_declaration(ls, i, 0)) is Some ==> exists|j: int|
                0 <= j < discovered(ls, n).len() && discovered(ls, n)[j].0 == i,
    decreases n,
{
    if n > 0 {
        let m = (n - 1) as nat;
        lemma_discovered_shape(ls, m);
        let prev = discovered(ls, m);
        let cur = discovered(ls, n);
        assert forall|i: nat|
            i < n && (#[trigger] first_declaration(ls, i, 0)) is Some implies exists|j: int|
                0 <= j < cur.len() && cur[j].0 == i by {
            if i < m {
                let j = choose|j: int| 0 <= j < prev.len() && prev[j].0 == i;
                assert(cur[j] == prev[j]);
            } else {
                assert(cur[prev.len() as int].0 == i);
            }
        }
    }
}

/// Discovery finds exactly one parameter for each marker index that some
/// line declares and none for the others, in increasing index order, each
/// named after the first line that declares its index.
pub proof fn lemma_discovery_exact(ps: Seq<ParameterPrimitive>, code: Seq<char>)
    requires
        found_in(ps, code),
    ensures
        ps.len() == declared_count(lines(code), 8),
        forall|j: int|
            0 <= j < ps.len() ==> (#[trigger] ps[j]).index < 8 && first_declaration(
                lines(code),
                ps[j].index as nat,
                0,
            ) == Some(ps[j].name@),
        forall|a: int, b: int| 0 <= a < b < ps.len() ==> ps[a].index < ps[b].index,
        forall|i: nat|
            i < 8 && (#[trigger] first_declaration(lines(code), i, 0)) is Some ==> exists|j: int|
                0 <= j < ps.len() && ps[j].index == i,
{
    let ls = lines(code);
    lemma_discovered_shape(ls, 8);
    let ms = ps.map_values(|p: ParameterPrimitive| param_model(p));
    assert forall|j: int| 0 <= j < ps.len() implies ms[j] == param_model(#[trigger] ps[j]) by {}
    assert forall|i: nat|
        i < 8 && (#[trigger] first_declaration(ls, i, 0)) is Some implies exists|j: int|
            0 <= j < ps.len() && ps[j].index == i by {
        let j = choose|j: int| 0 <= j < ms.len() && ms[j].0 == i;
        assert(ms[j] == param_model(ps[j]));
    }
}

/// With no import line among `ls`, substitution only rejoins them.
proof fn lemma_substitute_plain(ls: Seq<Seq<char>>, snippet: Seq<char>)
    requires
        forall|j: int| 0 <= j < ls.len() ==> !is_import(#[trigger] ls[j]),
    ensures
        substitute_lines(ls, snippet) == joined(ls),
    decreases ls.len(),
{
    if ls.len() > 0 {
        let init = ls.drop_last();
        assert forall|j: int| 0 <= j < init.len() implies !is_import(#[trigger] init[j]) by {
            assert(init[j] == ls[j]);
        }
        lemma_substitute_plain(init, snippet);
        assert(!is_import(ls[ls.len() - 1]));
    }
}

/// A text that is empty or ends on a line break leaves no line open.
proof fn lemma_closed_text(p: Seq<char>)
    requires
        p.len() == 0 || p.last() == '\n',
    ensures
        line_scan(p).1 == Seq::<char>::empty(),
        lines(p) == line_scan(p).0,
{
}

/// Substituting lines without line breaks or carriage returns, with a snippet
/// that ends on a line break and has no import line, gives a text without
/// carriage returns that ends on a line break and has no import line.
proof fn lemma_substitute_clean(ls: Seq<Seq<char>>, snippet: Seq<char>)
    requires
        forall|j: int|
            0 <= j < ls.len() ==> free_of(#[trigger] ls[j], '\n') && free_of(ls[j], '\r'),
        free_of(snippet, '\r'),
        snippet.len() == 0 || snippet.last() == '\n',
        forall|j: int| 0 <= j < lines(snippet).len() ==> !is_import(#[trigger] lines(snippet)[j]),
    ensures
        free_of(substitute_lines(ls, snippet), '\r'),
        line_scan(substitute_lines(ls, snippet)).1 == Seq::<char>::empty(),
        forall|j: int|
            0 <= j < line_scan(substitute_lines(ls, snippet)).0.len() ==> !is_import(
                #[trigger] line_scan(substitute_lines(ls, snippet)).0[j],
            ),
    decreases ls.len(),
{
    if ls.len() > 0 {
        let init = ls.drop_last();
        assert forall|j: int| 0 <= j < init.len() implies free_of(#[trigger] init[j], '\n')
            && free_of(init[j], '\r') by {
            assert(init[j] == ls[j]);
        }
        lemma_substitute_clean(init, snippet);
        let prev = substitute_lines(init, snippet);
        let l = ls.last();
        assert(free_of(l, '\n') && free_of(l, '\r'));
        let piece = if is_import(l) {
            snippet
        } else {
            l.push('\n')
        };
        let r = substitute_lines(ls, snippet);
        assert(r == prev + piece);
        lemma_line_scan_concat(prev, piece);
        if is_import(l) {
            lemma_closed_text(snippet);
        } else {
            lemma_line_scan_single(l);
            assert(piece.drop_last() =~= l);
            assert(strip_cr(l) == l);
            assert(line_scan(piece).0 =~= seq![l]);
        }
        let (d0, d1) = (line_scan(prev).0, line_scan(piece).0);
        assert forall|j: int| 0 <= j < (d0 + d1).len() implies !is_import(
            #[trigger] (d0 + d1)[j],
        ) by {
            if j >= d0.len() {
                assert((d0 + d1)[j] == d1[j - d0.len()]);
            }
        }
        assert forall|k: int| 0 <= k < r.len() implies r[k] != '\r' by {
            if k >= prev.len() {
                assert(r[k] == piece[k - prev.len()]);
            }
        }
    }
}

/// Substitution leaves a text with no import line as it is, when the text has
/// no carriage return and is empty or ends on a line break.
pub proof fn lemma_import_without_imports_is_identity(code: Seq<char>, snippet: Seq<char>)
    requires
        !code.contains('\r'),
        code.len() == 0 || code.last() == '\n',
        forall|j: int| 0 <= j < lines(code).len() ==> !is_import(#[trigger] lines(code)[j]),
    ensures
        substituted(code, snippet) == code,
{
    assert(free_of(code, '\r'));
    lemma_closed_text(code);
    lemma_substitute_plain(lines(code), snippet);
    lemma_line_scan_rejoin(code);
    assert(joined(lines(code)) + Seq::<char>::empty() =~= joined(lines(code)));
}

/// Substitution is idempotent: once the imports of a text without carriage
/// returns are replaced by a snippet that has no import line and no carriage
/// return and ends on a line break, replacing again changes nothing.
pub proof fn lemma_import_idempotent(code: Seq<char>, snippet: Seq<char>)
    requires
        !code.contains('\r'),
        !snippet.contains('\r'),
        snippet.len() == 0 || snippet.last() == '\n',
        forall|j: int| 0 <= j < lines(snippet).len() ==> !is_import(#[trigger] lines(snippet)[j]),
    ensures
        substituted(substituted(code, snippet), snippet) == substituted(code, snippet),
{
    assert(free_of(code, '\r'));
    assert(free_of(snippet, '\r'));
    lemma_line_scan_pieces(code);
    let ls = lines(code);
    assert forall|j: int| 0 <= j < ls.len() implies free_of(#[trigger] ls[j], '\n') && free_of(
        ls[j],
        '\r',
    ) by {
        if j < line_scan(code).0.len() {
            assert(ls[j] == line_scan(code).0[j]);
        }
    }
    lemma_substitute_clean(ls, snippet);
    let r = substituted(code, snippet);
    if r.len() > 0 && r.last() != '\n' {
        assert(line_scan(r).1 == line_scan(r.drop_last()).1.push(r.last()));
        assert(line_scan(r).1.len() > 0);
    }
    lemma_closed_text(r);
    assert(!r.contains('\r')) by {
        if r.contains('\r') {
            let k = choose|k: int| 0 <= k < r.len() && r[k] == '\r';
            assert(r[k] != '\r');
        }
    }
    lemma_import_without_imports_is_identity(r, snippet);
}

/// Within one fragment, two different parameters declare different weight
/// blocks, each in the variable that its own sampling function reads, so the
/// declarations of a render pass never collide.
pub proof fn lemma_fragment_blocks_distinct(f: Fragment, a: int, b: int)
    requires
        f.wf(),
        0 <= a < f.params@.len(),
        0 <= b < f.params@.len(),
        a != b,
    ensures
        f.params@[a].index != f.params@[b].index,
        block_name(f.params@[a].index as nat) != block_name(f.params@[b].index as nat),
        block_var(f.params@[a].index as nat) != block_var(f.params@[b].index as nat),
        ascii_lower(block_name(f.params@[a].index as nat)) == block_var(f.params@[a].index as nat),
{
    if a < b {
        assert(f.params@[a].index < f.params@[b].index);
    } else {
        assert(f.params@[b].index < f.params@[a].index);
    }
    lemma_parameter_blocks(f.params@[a].index as nat, f.params@[b].index as nat);
}

/// In a fragment's render pass over `n` samples, with `k` own parameters,
/// group `i` sits at index `i`; the groups are samples `0..n`, then
/// parameters `0..k`, then the pointer uniform; and the shader text declares
/// these same sources in this same order, the `i`-th for group `i`, before
/// the body.
pub proof fn lemma_binding_order(f: Fragment, pointer: MouseUniform, n: nat, p: RenderPass)
    requires
        f.wf(),
        is_render_of(f, pointer, n, p),
    ensures
        p.groups@.len() == n + f.params@.len() + 1,
        forall|i: int| 0 <= i < p.groups@.len() ==> (#[trigger] p.groups@[i]).group == i,
        forall|i: int| 0 <= i < n ==> (#[trigger] p.groups@[i]).source == BindingSource::Sample(i as usize),
        forall|i: int|
            0 <= i < f.params@.len() ==> (#[trigger] p.groups@[n + i]).source
                == BindingSource::Parameter(i as usize),
        p.groups@[(n + f.params@.len()) as int].source == BindingSource::Pointer,
        p.shader_source@ == declarations(f, pass_sources(p), pointer) + f.source@,
{
    let order = binding_order(n, f.params@.len());
    assert(pass_sources(p).len() == p.groups@.len());
    assert forall|i: int| 0 <= i < p.groups@.len() implies (#[trigger] p.groups@[i]).source
        == order[i] by {
        assert(pass_sources(p)[i] == p.groups@[i].source);
    }
    assert forall|i: int| 0 <= i < f.params@.len() implies (#[trigger] p.groups@[n + i]).source
        == BindingSource::Parameter(i as usize) by {
        assert(p.groups@[n + i].source == order[n + i]);
    }
    assert(p.groups@[(n + f.params@.len()) as int].source == order[(n + f.params@.len()) as int]);
}

} // verus!
