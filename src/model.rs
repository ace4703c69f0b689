//! The shader model: every fragment, built once from the shader files, and
//! the per-frame plan in which each fragment samples the previous output of
//! every fragment, its own included.
use vstd::prelude::*;
use crate::bindgroups::{MouseUniform, ParameterPrimitive};
use crate::fragment::{
    binding_order, found_in, is_render_of, pass_sources, stem, substituted, BindingSource,
    Fragment, Placement, RenderPass,
};

verus! {

/// Width and height of every fragment's output texture.
pub const OUTPUT_SIZE: u32 = 512;

/// A shader file: its name and its text.
pub struct ShaderFile {
    pub file_name: String,
    pub text: String,
}

/// All fragments, and the names of the outputs captured by the last update,
/// or `None` before the first update.
pub struct ShaderModel {
    pub shader_fragments: Vec<Fragment>,
    pub outputs: Option<Vec<String>>,
}

/// `passes` is what drawing `m` with `pointer` plans: nothing before the
/// first update; afterwards one pass per fragment, in order, each over a pool
/// that holds every fragment's output.
pub open spec fn is_draw_of(m: ShaderModel, pointer: MouseUniform, passes: Seq<RenderPass>) -> bool {
    match m.outputs {
        Some(_) => {
            &&& passes.len() == m.shader_fragments@.len()
            &&& forall|i: int|
                0 <= i < passes.len() ==> is_render_of(
                    m.shader_fragments@[i],
                    pointer,
                    m.shader_fragments@.len(),
                    #[trigger] passes[i],
                )
        },
        None => passes.len() == 0,
    }
}

impl ShaderModel {
    /// Every fragment is well formed, the group indices of a pass fit in
    /// `u32`, and the captured outputs are one per fragment.
    pub open spec fn wf(&self) -> bool {
        &&& forall|i: int|
            0 <= i < self.shader_fragments@.len() ==> (#[trigger] self.shader_fragments@[i]).wf()
        &&& self.shader_fragments@.len() + 9 <= u32::MAX
        &&& match self.outputs {
            Some(o) => o@.len() == self.shader_fragments@.len(),
            None => true,
        }
    }

    /// One fragment per shader file, in the given order, each with an output
    /// of `OUTPUT_SIZE` squared, all shown at `draw_frame`. Nothing is
    /// rendered yet.
    pub fn new(shaders: &Vec<ShaderFile>, snippet: &str, draw_frame: Placement) -> (r: ShaderModel)
        requires
            shaders@.len() + 9 <= u32::MAX,
        ensures
            r.wf(),
            r.outputs is None,
            r.shader_fragments@.len() == shaders@.len(),
            forall|i: int|
                0 <= i < shaders@.len() ==> {
                    let f = #[trigger] r.shader_fragments@[i];
                    &&& found_in(f.params@, shaders@[i].text@)
                    &&& f.source@ == substituted(shaders@[i].text@, snippet@)
                    &&& f.name@ == stem(shaders@[i].file_name@)
                    &&& f.draw_frame == draw_frame
                    &&& f.width == OUTPUT_SIZE
                    &&& f.height == OUTPUT_SIZE
                },
    {
        let mut fragments: Vec<Fragment> = Vec::new();
        for i in 0..shaders.len()
            invariant
                fragments@.len() == i,
                forall|j: int|
                    0 <= j < i ==> {
                        let f = #[trigger] fragments@[j];
                        &&& f.wf()
                        &&& found_in(f.params@, shaders@[j].text@)
                        &&& f.source@ == substituted(shaders@[j].text@, snippet@)
                        &&& f.name@ == stem(shaders@[j].file_name@)
                        &&& f.draw_frame == draw_frame
                        &&& f.width == OUTPUT_SIZE
                        &&& f.height == OUTPUT_SIZE
                    },
        {
            let shader = &shaders[i];
            let f = Fragment::new(
                shader.text.as_str(),
                snippet,
                shader.file_name.as_str(),
                OUTPUT_SIZE,
                OUTPUT_SIZE,
                draw_frame,
            );
            fragments.push(f);
        }
        ShaderModel { shader_fragments: fragments, outputs: None }
    }

    /// Whether an update has captured the outputs, so that drawing renders.
    pub fn is_rendering(&self) -> (r: bool)
        ensures
            r == self.outputs is Some,
    {
        self.outputs.is_some()
    }

    /// Captures every fragment's current output for the next frame; from then
    /// on the model renders.
    pub fn update(&mut self)
        requires
            old(self).wf(),
        ensures
            final(self).wf(),
            final(self).shader_fragments == old(self).shader_fragments,
            final(self).outputs is Some,
            final(self).outputs->0@.map_values(|s: String| s@) == old(self).shader_fragments@.map_values(|f: Fragment| f.name@),
    {
        let outputs = self.get_textures();
        self.outputs = Some(outputs);
    }

    /// The name of each fragment's output, in fragment order.
    pub fn get_textures(&self) -> (r: Vec<String>)
        ensures
            r@.len() == self.shader_fragments@.len(),
            r@.map_values(|s: String| s@) == self.shader_fragments@.map_values(
                |f: Fragment| f.name@,
            ),
    {
        let mut r: Vec<String> = Vec::new();
        for i in 0..self.shader_fragments.len()
            invariant
                r@.len() == i,
                forall|k: int| 0 <= k < i ==> (#[trigger] r@[k])@ == self.shader_fragments@[k].name@,
        {
            r.push(self.shader_fragments[i].name.clone());
        }
        assert(r@.map_values(|s: String| s@) =~= self.shader_fragments@.map_values(
            |f: Fragment| f.name@,
        ));
        r
    }

    /// Every fragment's parameters, fragment by fragment, each in its
    /// fragment's order.
    pub fn get_parameters(&self) -> (r: Vec<&ParameterPrimitive>)
        ensures
            r@.map_values(|p: &ParameterPrimitive| *p) == all_params(self.shader_fragments@),
    {
        let mut r: Vec<&ParameterPrimitive> = Vec::new();
        for i in 0..self.shader_fragments.len()
            invariant
                r@.map_values(|p: &ParameterPrimitive| *p) == all_params(
                    self.shader_fragments@.subrange(0, i as int),
                ),
        {
            let frag = &self.shader_fragments[i];
            let ghost before = r@.map_values(|p: &ParameterPrimitive| *p);
            let ghost start = r@.len();
            for j in 0..frag.params.len()
                invariant
                    start == before.len(),
                    r@.len() == start + j,
                    forall|k: int| 0 <= k < start ==> *(#[trigger] r@[k]) == before[k],
                    forall|k: int| 0 <= k < j ==> *(#[trigger] r@[start + k]) == frag.params@[k],
            {
                r.push(&frag.params[j]);
            }
            assert forall|k: int| 0 <= k < r@.len() implies *r@[k] == (before + frag.params@)[k] by {
                if k >= start {
                    assert(*r@[start + (k - start)] == frag.params@[k - start]);
                }
            }
            assert(r@.map_values(|p: &ParameterPrimitive| *p) =~= before + frag.params@);
            assert(self.shader_fragments@.subrange(0, i + 1).drop_last()
                =~= self.shader_fragments@.subrange(0, i as int));
        }
        assert(self.shader_fragments@.subrange(0, self.shader_fragments@.len() as int)
            =~= self.shader_fragments@);
        r
    }

    /// The placement of fragment `fragment`, for the interface to write.
    pub fn get_mut_frames(&mut self, fragment: usize) -> (r: &mut Placement)
        requires
            fragment < old(self).shader_fragments@.len(),
        ensures
            *r == old(self).shader_fragments@[fragment as int].draw_frame,
            final(self).outputs == old(self).outputs,
            final(self).shader_fragments@.len() == old(self).shader_fragments@.len(),
            forall|i: int|
                0 <= i < old(self).shader_fragments@.len() && i != fragment ==> (#[trigger] final(self).shader_fragments@[i]) == old(self).shader_fragments@[i],
            ({
                let (a, b) = (
                    final(self).shader_fragments@[fragment as int],
                    old(self).shader_fragments@[fragment as int],
                );
                &&& a.draw_frame == *final(r)
                &&& a.shape == b.shape
                &&& a.params == b.params
                &&& a.source == b.source
                &&& a.name == b.name
                &&& a.width == b.width
                &&& a.height == b.height
            }),
    {
        &mut self.shader_fragments[fragment].draw_frame
    }

    /// The weights of parameter `parameter` of fragment `fragment`, for the
    /// interface to write.
    pub fn get_mut_val(&mut self, fragment: usize, parameter: usize) -> (r: &mut [u32; 8])
        requires
            fragment < old(self).shader_fragments@.len(),
            parameter < old(self).shader_fragments@[fragment as int].params@.len(),
        ensures
            *r == old(self).shader_fragments@[fragment as int].params@[parameter as int].params.input,
            final(self).outputs == old(self).outputs,
            final(self).shader_fragments@.len() == old(self).shader_fragments@.len(),
            forall|i: int|
                0 <= i < old(self).shader_fragments@.len() && i != fragment ==> (#[trigger] final(self).shader_fragments@[i]) == old(self).shader_fragments@[i],
            ({
                let (a, b) = (
                    final(self).shader_fragments@[fragment as int],
                    old(self).shader_fragments@[fragment as int],
                );
                let (pa, pb) = (a.params@[parameter as int], b.params@[parameter as int]);
                &&& a.params@.len() == b.params@.len()
                &&& forall|j: int|
                    0 <= j < b.params@.len() && j != parameter ==> #[trigger] a.params@[j]
                        == b.params@[j]
                &&& pa.params.input == *final(r)
                &&& pa.name == pb.name
                &&& pa.index == pb.index
                &&& pa.row_count == pb.row_count
                &&& a.draw_frame == b.draw_frame
                &&& a.shape == b.shape
                &&& a.source == b.source
                &&& a.name == b.name
                &&& a.width == b.width
                &&& a.height == b.height
            }),
    {
        self.shader_fragments[fragment].params[parameter].get_mut_val()
    }

    /// The render passes of this frame: none before the first update, then
    /// one per fragment, each sampling the captured output of every fragment.
    pub fn draw(&self, mouse_uniform: &MouseUniform) -> (r: Vec<RenderPass>)
        requires
            self.wf(),
        ensures
            is_draw_of(*self, *mouse_uniform, r@),
    {
        let mut passes: Vec<RenderPass> = Vec::new();
        match &self.outputs {
            Some(s) => {
                let n = s.len();
                for i in 0..self.shader_fragments.len()
                    invariant
                        self.wf(),
                        n == self.shader_fragments@.len(),
                        passes@.len() == i,
                        forall|t: int|
                            0 <= t < i ==> is_render_of(
                                self.shader_fragments@[t],
                                *mouse_uniform,
                                n as nat,
                                #[trigger] passes@[t],
                            ),
                {
                    let p = self.shader_fragments[i].render(mouse_uniform, n);
                    passes.push(p);
                }
            },
            None => {},
        }
        passes
    }
}

/// Once the model renders, every fragment's pass samples the captured output
/// of every fragment, its own included: in each pass the first groups are
/// the samples `0..n`, for `n` fragments, and no later group is a sample.
pub proof fn lemma_every_fragment_samples_every_output(
    m: ShaderModel,
    pointer: MouseUniform,
    passes: Seq<RenderPass>,
)
    requires
        m.wf(),
        m.outputs is Some,
        is_draw_of(m, pointer, passes),
    ensures
        passes.len() == m.shader_fragments@.len(),
        forall|i: int, j: int|
            0 <= i < passes.len() && 0 <= j < m.shader_fragments@.len() ==> (
            #[trigger] passes[i].groups@[j]).source == BindingSource::Sample(j as usize),
        forall|i: int, j: int|
            0 <= i < passes.len() && m.shader_fragments@.len() <= j < passes[i].groups@.len()
                ==> !((#[trigger] passes[i].groups@[j]).source is Sample),
{
    let n = m.shader_fragments@.len();
    assert forall|i: int, j: int| 0 <= i < passes.len() && 0 <= j < passes[i].groups@.len() implies (
    #[trigger] passes[i].groups@[j]).source == binding_order(
        n,
        m.shader_fragments@[i].params@.len(),
    )[j] by {
        assert(is_render_of(m.shader_fragments@[i], pointer, n, passes[i]));
        assert(pass_sources(passes[i])[j] == passes[i].groups@[j].source);
    }
}

/// The parameters of `fs`, fragment by fragment.
pub open spec fn all_params(fs: Seq<Fragment>) -> Seq<ParameterPrimitive>
    decreases fs.len(),
{
    if fs.len() == 0 {
        seq![]
    } else {
        all_params(fs.drop_last()) + fs.last().params@
    }
}

} // verus!
