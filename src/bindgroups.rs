//! Resources that a fragment binds, each at one group index: a sampled input
//! texture, a parameter block, and the shared pointer uniform. Each one gives
//! the layout of its group and the shader declaration for that same group.
//!
//! Weights and pointer coordinates are 32-bit floats on the GPU. The library
//! holds them as their IEEE-754 bit patterns and never computes with them.
use vstd::prelude::*;
use crate::text::{decimal, lemma_decimal_digits, lemma_decimal_injective, push_char, push_decimal};

verus! {

/// Number of input textures that a generated sampling function reads.
pub const SAMPLER_INPUTS: u32 = 4;

/// Bit pattern of the weight 0.1 that every parameter slot starts with.
pub const DEFAULT_WEIGHT: u32 = 0x3dcc_cccd;

/// What one binding of a group holds.
#[derive(Clone, Copy, Debug, PartialEq, Eq, Structural)]
pub enum EntryKind {
    /// A filterable two-dimensional float texture.
    Texture2d,
    /// A filtering sampler: clamped edges, linear magnification, nearest
    /// minification.
    Sampler,
    /// A uniform buffer, read from offset 0.
    Uniform,
}

/// One binding of a group layout.
#[derive(Clone, Copy, Debug, PartialEq, Eq, Structural)]
pub struct LayoutEntry {
    pub binding: u32,
    pub kind: EntryKind,
}

/// The bindings of the group that holds a sampled texture.
pub open spec fn texture_layout() -> Seq<LayoutEntry> {
    seq![
        LayoutEntry { binding: 0, kind: EntryKind::Texture2d },
        LayoutEntry { binding: 1, kind: EntryKind::Sampler },
    ]
}

/// The bindings of the group that holds a uniform block.
pub open spec fn uniform_layout() -> Seq<LayoutEntry> {
    seq![LayoutEntry { binding: 0, kind: EntryKind::Uniform }]
}

/// The ASCII lower case of `c`.
pub open spec fn lower_char(c: char) -> char {
    if 'A' <= c && c <= 'Z' {
        ((c as u32) + 32) as char
    } else {
        c
    }
}

/// The ASCII lower case of `s`, letter by letter.
pub open spec fn ascii_lower(s: Seq<char>) -> Seq<char> {
    s.map_values(|c: char| lower_char(c))
}

/// The declaration of a sampled texture and its sampler in group `g`.
pub open spec fn texture_decl(g: nat) -> Seq<char> {
    "[[group("@ + decimal(g) + "), binding(0)]]\nvar tex"@ + decimal(g) + ": texture_2d<f32>;\n"@
        + "[[group("@ + decimal(g) + "), binding(1)]]\nvar tex_sampler"@ + decimal(g)
        + ": sampler;\n"@
}

/// The declaration of a uniform block type `name` with fields `fields`, and of
/// its variable, named `name` in lower case, at binding `b` of group `g`.
pub open spec fn uniform_decl(name: Seq<char>, fields: Seq<char>, g: nat, b: nat) -> Seq<char> {
    "[[block]]\nstruct "@ + name + " { \n"@ + fields + "}; \n"@ + "[[group("@ + decimal(g)
        + "), binding("@ + decimal(b) + ")]] \n var<uniform> "@ + ascii_lower(name) + ": "@ + name
        + "; \n"@
}

/// The type name of the weight block of the parameter with marker index
/// `index`; each parameter has a block of its own.
pub open spec fn block_name(index: nat) -> Seq<char> {
    "ParameterSet"@ + decimal(index)
}

/// The variable that holds the weight block of the parameter with marker
/// index `index`.
pub open spec fn block_var(index: nat) -> Seq<char> {
    "parameterset"@ + decimal(index)
}

/// The lines of the sampling function of parameter `index` that read input
/// texture `i` and add it, weighted by slot `i` of that parameter's block.
pub open spec fn sample_term(index: nat, i: nat) -> Seq<char> {
    "var sample"@ + decimal(i) + " = textureSample(tex"@ + decimal(i) + ", tex_sampler"@
        + decimal(i) + ", location); \n"@ + "sample"@ + decimal(i) + " = sample"@ + decimal(i)
        + " * "@ + block_var(index) + ".input["@ + decimal(i) + "]; \n"@
        + "param = param + sample"@ + decimal(i) + "; \n"@
}

/// The terms of parameter `index` for input textures `0..n`.
pub open spec fn sample_terms(index: nat, n: nat) -> Seq<char>
    decreases n,
{
    if n == 0 {
        seq![]
    } else {
        sample_terms(index, (n - 1) as nat) + sample_term(index, (n - 1) as nat)
    }
}

/// The sampling function of the parameter with marker index `index`: the sum
/// of input textures `0..n` at a location, each scaled by its slot.
pub open spec fn sampler_fn(index: nat, n: nat) -> Seq<char> {
    "fn PARAMETER"@ + decimal(index) + "(location: vec2<f32>) -> vec4<f32>{ \n"@
        + "var param = vec4<f32>(0.0, 0.0, 0.0, 0.0); \n"@ + sample_terms(index, n)
        + "return param; } \n"@
}

/// The bytes of `ws`, each word least significant byte first.
pub open spec fn le_bytes(ws: Seq<u32>) -> Seq<u8> {
    Seq::new(4 * ws.len(), |k: int| ((ws[k / 4] >> ((8 * (k % 4)) as u32)) & 0xff) as u8)
}

/// The bytes of `ws`, each word most significant byte first.
pub open spec fn be_bytes(ws: Seq<u32>) -> Seq<u8> {
    Seq::new(4 * ws.len(), |k: int| ((ws[k / 4] >> ((8 * (3 - k % 4)) as u32)) & 0xff) as u8)
}

/// Relies on `bytemuck::cast_slice` from `u32` to `u8`: it views the words'
/// memory as bytes, four per word, in the machine's byte order.
#[verifier::external_body]
fn words_as_bytes(words: &[u32]) -> (r: Vec<u8>)
    ensures
        r@ == le_bytes(words@) || r@ == be_bytes(words@),
{
    bytemuck::cast_slice::<u32, u8>(words).to_vec()
}

/// Appends the ASCII lower case of `s` to `out`.
fn push_lower(out: &mut String, s: &str)
    ensures
        final(out)@ == old(out)@ + ascii_lower(s@),
{
    for c in it: s.chars()
        invariant
            it.seq() == s@,
            out@ == old(out)@ + ascii_lower(s@.subrange(0, it.index() as int)),
    {
        let l = if 'A' <= c && c <= 'Z' {
            ((c as u32) + 32) as u8 as char
        } else {
            c
        };
        push_char(out, l);
        assert(ascii_lower(s@.subrange(0, it.index() + 1)) =~= ascii_lower(
            s@.subrange(0, it.index() as int),
        ).push(lower_char(c)));
    }
    assert(s@.subrange(0, s@.len() as int) =~= s@);
}

/// The declaration of a uniform block: type `struct_name` with the fields
/// `field_names`, and its variable at binding `binding` of group `group`.
pub fn uniform_wgsl(struct_name: &str, field_names: &str, group: u32, binding: u32) -> (r: String)
    ensures
        r@ == uniform_decl(struct_name@, field_names@, group as nat, binding as nat),
{
    let mut wgsl = String::new();
    wgsl.append("[[block]]\nstruct ");
    wgsl.append(struct_name);
    wgsl.append(" { \n");
    wgsl.append(field_names);
    wgsl.append("}; \n");
    wgsl.append("[[group(");
    push_decimal(&mut wgsl, group as u64);
    wgsl.append("), binding(");
    push_decimal(&mut wgsl, binding as u64);
    wgsl.append(")]] \n var<uniform> ");
    push_lower(&mut wgsl, struct_name);
    wgsl.append(": ");
    wgsl.append(struct_name);
    wgsl.append("; \n");
    assert(wgsl@ =~= uniform_decl(struct_name@, field_names@, group as nat, binding as nat));
    wgsl
}

/// Appends the term of the sampling function for input texture `i`.
fn push_sample_term(out: &mut String, index: u32, i: u32)
    ensures
        final(out)@ == old(out)@ + sample_term(index as nat, i as nat),
{
    out.append("var sample");
    push_decimal(out, i as u64);
    out.append(" = textureSample(tex");
    push_decimal(out, i as u64);
    out.append(", tex_sampler");
    push_decimal(out, i as u64);
    out.append(", location); \n");
    out.append("sample");
    push_decimal(out, i as u64);
    out.append(" = sample");
    push_decimal(out, i as u64);
    out.append(" * ");
    out.append("parameterset");
    push_decimal(out, index as u64);
    out.append(".input[");
    push_decimal(out, i as u64);
    out.append("]; \n");
    out.append("param = param + sample");
    push_decimal(out, i as u64);
    out.append("; \n");
    assert(out@ =~= old(out)@ + sample_term(index as nat, i as nat));
}

/// A bind group to create: the layout of its bindings, and the bytes of its
/// uniform block (empty for a texture group, whose texture comes from the
/// sample pool).
pub struct BindGroupDesc {
    pub entries: Vec<LayoutEntry>,
    pub contents: Vec<u8>,
}

/// A resource that occupies one group of a pipeline.
pub trait BindGroupSet {
    /// The shader declaration of this resource in group `group`.
    spec fn declaration(&self, group: nat) -> Seq<char>;

    /// The bindings of its group.
    spec fn layout(&self) -> Seq<LayoutEntry>;

    /// The words that its group's uniform buffer holds, if it has one.
    spec fn words(&self) -> Seq<u32>;

    /// The layout and the uniform contents of this resource's group: the
    /// bytes of its words in the machine's byte order.
    fn get_bind_group(&self) -> (r: BindGroupDesc)
        ensures
            r.entries@ == self.layout(),
            r.contents@ == le_bytes(self.words()) || r.contents@ == be_bytes(self.words()),
    ;

    /// The declaration of this resource, placed at group `group_number`.
    fn get_wgsl_blob(&self, group_number: u32) -> (r: String)
        ensures
            r@ == self.declaration(group_number as nat),
    ;
}

/// An input texture sampled by a fragment: one texture of the sample pool.
#[derive(Clone, Copy, Debug, PartialEq, Eq, Structural)]
pub struct SampleInput;

impl BindGroupSet for SampleInput {
    open spec fn declaration(&self, group: nat) -> Seq<char> {
        texture_decl(group)
    }

    open spec fn layout(&self) -> Seq<LayoutEntry> {
        texture_layout()
    }

    open spec fn words(&self) -> Seq<u32> {
        seq![]
    }

    fn get_bind_group(&self) -> (r: BindGroupDesc) {
        let entries = vec![
            LayoutEntry { binding: 0, kind: EntryKind::Texture2d },
            LayoutEntry { binding: 1, kind: EntryKind::Sampler },
        ];
        assert(entries@ =~= texture_layout());
        let contents: Vec<u8> = Vec::new();
        assert(contents@ =~= le_bytes(seq![]));
        BindGroupDesc { entries, contents }
    }

    fn get_wgsl_blob(&self, group_number: u32) -> (r: String) {
        let mut wgsl = String::new();
        wgsl.append("[[group(");
        push_decimal(&mut wgsl, group_number as u64);
        wgsl.append("), binding(0)]]\nvar tex");
        push_decimal(&mut wgsl, group_number as u64);
        wgsl.append(": texture_2d<f32>;\n");
        wgsl.append("[[group(");
        push_decimal(&mut wgsl, group_number as u64);
        wgsl.append("), binding(1)]]\nvar tex_sampler");
        push_decimal(&mut wgsl, group_number as u64);
        wgsl.append(": sampler;\n");
        assert(wgsl@ =~= texture_decl(group_number as nat));
        wgsl
    }
}

/// Eight weights, one per input texture slot, as the bit patterns of 32-bit
/// floats.
#[derive(Clone, Copy, Debug)]
pub struct ParameterSet {
    pub input: [u32; 8],
}

impl ParameterSet {
    /// Every slot set to `default`.
    pub fn new(default: u32) -> (r: ParameterSet)
        ensures
            r.input@ == Seq::new(8, |i: int| default),
    {
        let r = ParameterSet { input: [default; 8] };
        assert(r.input@ =~= Seq::new(8, |i: int| default));
        r
    }

    /// The name of the block's type in shader text.
    pub fn struct_name() -> (r: &'static str)
        ensures
            r@ == "ParameterSet"@,
    {
        "ParameterSet"
    }

    /// The fields of the block's type in shader text.
    pub fn field_names() -> (r: &'static str)
        ensures
            r@ == "input: array<f32, 8>;"@,
    {
        "input: array<f32, 8>;"
    }
}

/// A controllable parameter found in shader text: eight weights, the marker
/// index it answers to, and the name declared beside the marker.
pub struct ParameterPrimitive {
    pub params: ParameterSet,
    pub name: String,
    pub index: u32,
    pub row_count: u32,
}

impl ParameterPrimitive {
    /// A parameter named `name` for marker `index`, every weight at the
    /// default.
    pub fn new(name: &str, index: u32, row_count: u32) -> (r: ParameterPrimitive)
        ensures
            r.params.input@ == Seq::new(8, |i: int| DEFAULT_WEIGHT),
            r.name@ == name@,
            r.index == index,
            r.row_count == row_count,
    {
        ParameterPrimitive {
            params: ParameterSet::new(DEFAULT_WEIGHT),
            name: String::from_str(name),
            index,
            row_count,
        }
    }

    /// The weights, for a writer outside the library to change in place.
    pub fn get_mut_val(&mut self) -> (r: &mut [u32; 8])
        ensures
            *r == old(self).params.input,
            final(self).params.input == *final(r),
            final(self).name == old(self).name,
            final(self).index == old(self).index,
            final(self).row_count == old(self).row_count,
    {
        &mut self.params.input
    }

    /// A copy of the weights.
    pub fn get_val(&self) -> (r: Vec<u32>)
        ensures
            r@ == self.params.input@,
    {
        let mut x: Vec<u32> = Vec::new();
        for i in 0..8
            invariant
                x@ == self.params.input@.subrange(0, i as int),
        {
            x.push(self.params.input[i]);
            assert(x@ =~= self.params.input@.subrange(0, i + 1));
        }
        assert(x@ =~= self.params.input@);
        x
    }

    /// Overwrites all eight weights with freshly drawn ones.
    pub fn update(&mut self, fresh: [u32; 8])
        ensures
            final(self).params.input == fresh,
            final(self).name == old(self).name,
            final(self).index == old(self).index,
            final(self).row_count == old(self).row_count,
    {
        self.params.input = fresh;
    }

    /// The type name of this parameter's weight block.
    pub fn block_name(&self) -> (r: String)
        ensures
            r@ == block_name(self.index as nat),
    {
        let mut name = String::from_str("ParameterSet");
        push_decimal(&mut name, self.index as u64);
        name
    }

    /// The sampling function of this parameter over `input_count` input
    /// textures.
    pub fn create_parameter_sampler(&self, input_count: u32) -> (r: String)
        ensures
            r@ == sampler_fn(self.index as nat, input_count as nat),
    {
        let mut string = String::new();
        string.append("fn PARAMETER");
        push_decimal(&mut string, self.index as u64);
        string.append("(location: vec2<f32>) -> vec4<f32>{ \n");
        string.append("var param = vec4<f32>(0.0, 0.0, 0.0, 0.0); \n");
        let ghost head = string@;
        for i in 0..input_count
            invariant
                string@ == head + sample_terms(self.index as nat, i as nat),
        {
            push_sample_term(&mut string, self.index, i);
            assert(sample_terms(self.index as nat, (i + 1) as nat) == sample_terms(
                self.index as nat,
                i as nat,
            ) + sample_term(self.index as nat, i as nat));
            assert(string@ =~= head + sample_terms(self.index as nat, (i + 1) as nat));
        }
        string.append("return param; } \n");
        assert(string@ =~= sampler_fn(self.index as nat, input_count as nat));
        string
    }
}

impl BindGroupSet for ParameterPrimitive {
    open spec fn declaration(&self, group: nat) -> Seq<char> {
        uniform_decl(block_name(self.index as nat), "input: array<f32, 8>;"@, group, 0) + sampler_fn(
            self.index as nat,
            SAMPLER_INPUTS as nat,
        )
    }

    open spec fn layout(&self) -> Seq<LayoutEntry> {
        uniform_layout()
    }

    open spec fn words(&self) -> Seq<u32> {
        self.params.input@
    }

    fn get_bind_group(&self) -> (r: BindGroupDesc) {
        let entries = vec![LayoutEntry { binding: 0, kind: EntryKind::Uniform }];
        assert(entries@ =~= uniform_layout());
        BindGroupDesc { entries, contents: words_as_bytes(self.params.input.as_slice()) }
    }

    fn get_wgsl_blob(&self, group_number: u32) -> (r: String) {
        let name = self.block_name();
        let mut string = uniform_wgsl(name.as_str(), ParameterSet::field_names(), group_number, 0);
        let sampler = self.create_parameter_sampler(SAMPLER_INPUTS);
        string.append(sampler.as_str());
        string
    }
}

/// The block a parameter declares is held in the variable its sampling
/// function reads, and parameters with different marker indices declare
/// different block types and different variables.
pub proof fn lemma_parameter_blocks(a: nat, b: nat)
    ensures
        ascii_lower(block_name(a)) == block_var(a),
        a != b ==> block_name(a) != block_name(b) && block_var(a) != block_var(b),
{
    reveal_strlit("ParameterSet");
    reveal_strlit("parameterset");
    lemma_decimal_digits(a);
    let name = block_name(a);
    assert(ascii_lower(name) =~= block_var(a)) by {
        assert forall|k: int| 0 <= k < name.len() implies lower_char(name[k]) == block_var(a)[k] by {
            if k >= 12 {
                assert(name[k] == decimal(a)[k - 12]);
                assert(block_var(a)[k] == decimal(a)[k - 12]);
            }
        }
    }
    if a != b {
        lemma_decimal_injective(a, b);
        if block_name(a) == block_name(b) {
            assert(block_name(a).subrange(12, block_name(a).len() as int) =~= decimal(a));
            assert(block_name(b).subrange(12, block_name(b).len() as int) =~= decimal(b));
        }
        if block_var(a) == block_var(b) {
            assert(block_var(a).subrange(12, block_var(a).len() as int) =~= decimal(a));
            assert(block_var(b).subrange(12, block_var(b).len() as int) =~= decimal(b));
        }
    }
}

/// The pointer position shared by every fragment, in normalised
/// coordinates, as the bit patterns of two 32-bit floats.
#[derive(Clone, Copy, Debug, PartialEq, Eq, Structural)]
pub struct MouseUniform {
    pub x: u32,
    pub y: u32,
}

impl MouseUniform {
    /// The pointer at `(x, y)`.
    pub fn new(x: u32, y: u32) -> (r: MouseUniform)
        ensures
            r.x == x,
            r.y == y,
    {
        MouseUniform { x, y }
    }

    /// Moves the pointer to `(x, y)`.
    pub fn update_mouse(&mut self, x: u32, y: u32)
        ensures
            final(self).x == x,
            final(self).y == y,
    {
        self.x = x;
        self.y = y;
    }

    /// The name of the block's type in shader text.
    pub fn struct_name() -> (r: &'static str)
        ensures
            r@ == "MouseUniform"@,
    {
        "MouseUniform"
    }

    /// The fields of the block's type in shader text.
    pub fn field_names() -> (r: &'static str)
        ensures
            r@ == "x: f32; y: f32;"@,
    {
        "x: f32; y: f32;"
    }
}

impl BindGroupSet for MouseUniform {
    open spec fn declaration(&self, group: nat) -> Seq<char> {
        uniform_decl("MouseUniform"@, "x: f32; y: f32;"@, group, 0)
    }

    open spec fn layout(&self) -> Seq<LayoutEntry> {
        uniform_layout()
    }

    open spec fn words(&self) -> Seq<u32> {
        seq![self.x, self.y]
    }

    fn get_bind_group(&self) -> (r: BindGroupDesc) {
        let entries = vec![LayoutEntry { binding: 0, kind: EntryKind::Uniform }];
        assert(entries@ =~= uniform_layout());
        let words: [u32; 2] = [self.x, self.y];
        assert(words@ =~= seq![self.x, self.y]);
        BindGroupDesc { entries, contents: words_as_bytes(words.as_slice()) }
    }

    fn get_wgsl_blob(&self, group_number: u32) -> (r: String) {
        uniform_wgsl(MouseUniform::struct_name(), MouseUniform::field_names(), group_number, 0)
    }
}

} // verus!
