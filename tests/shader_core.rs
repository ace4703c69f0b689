use fluff::bindgroups::{
    BindGroupSet, EntryKind, LayoutEntry, MouseUniform, ParameterPrimitive, ParameterSet,
    SampleInput, DEFAULT_WEIGHT, SAMPLER_INPUTS,
};
use fluff::fragment::{BindingSource, Fragment, Placement};
use fluff::model::{ShaderFile, ShaderModel, OUTPUT_SIZE};

const SNIPPET: &str = "fn helper() -> f32 { return 1.0; }\n";

fn frame() -> Placement {
    Placement { x: 0, y: 0, w: 1.0f32.to_bits(), h: 1.0f32.to_bits() }
}

fn found(code: &str) -> Vec<(u32, String)> {
    Fragment::find_parameters(code).iter().map(|p| (p.index, p.name.clone())).collect()
}

fn word_bytes(words: &[u32]) -> Vec<u8> {
    words.iter().flat_map(|w| w.to_ne_bytes()).collect()
}

#[test]
fn discovery_finds_one_parameter_per_declared_index() {
    let code = "let a = PARAMETER2(uv);\n\
                let blur = PARAMETER2(uv) * 2.0;\n\
                var glow = PARAMETER0(uv);\n\
                PARAMETER5 is mentioned here without an assignment\n\
                let x = PARAMETER7(uv);\n";
    assert_eq!(
        found(code),
        vec![(0, "glow".to_string()), (2, "a".to_string()), (7, "x".to_string())]
    );
}

#[test]
fn discovery_takes_the_first_bare_name() {
    let code = "let f(x) = PARAMETER1(uv);\nlet warp = PARAMETER1(uv);\nlet later = PARAMETER1(uv);\n";
    assert_eq!(found(code), vec![(1, "warp".to_string())]);
}

#[test]
fn discovery_skips_called_names_and_finds_nothing_without_markers() {
    assert_eq!(found("let f(x) = PARAMETER3(uv);\n"), vec![]);
    assert_eq!(found(""), vec![]);
    assert_eq!(found("fn main() { return; }\n"), vec![]);
}

#[test]
fn discovery_finds_all_eight() {
    let mut code = String::new();
    for i in 0..8 {
        code.push_str(&format!("let p{} = PARAMETER{}(uv);\n", i, i));
    }
    let got = Fragment::find_parameters(&code);
    assert_eq!(got.len(), 8);
    for (i, p) in got.iter().enumerate() {
        assert_eq!(p.index, i as u32);
        assert_eq!(p.name, format!("p{}", i));
        assert_eq!(p.row_count, 8);
        assert!(p.get_val().iter().all(|&w| w == DEFAULT_WEIGHT));
    }
}

#[test]
fn default_weight_is_one_tenth() {
    assert_eq!(f32::from_bits(DEFAULT_WEIGHT), 0.1);
    let set = ParameterSet::new(DEFAULT_WEIGHT);
    assert_eq!(set.input, [DEFAULT_WEIGHT; 8]);
}

#[test]
fn imports_are_replaced_in_place() {
    let code = "a\n#import utils\nb\r\n#import\n";
    let out = Fragment::import_wgsl_snippets(SNIPPET, code);
    assert_eq!(out, format!("a\n{}b\n{}", SNIPPET, SNIPPET));
}

#[test]
fn imports_keep_snippet_verbatim_without_line_break() {
    let out = Fragment::import_wgsl_snippets("S", "#import\nend");
    assert_eq!(out, "Send\n");
}

#[test]
fn substitution_without_imports_is_a_no_op() {
    let code = "fn main() {\n  return;\n}\n";
    assert_eq!(Fragment::import_wgsl_snippets(SNIPPET, code), code);
}

#[test]
fn substitution_is_idempotent() {
    let code = "top\n#import\nmiddle\n#import\nbottom\n";
    let once = Fragment::import_wgsl_snippets(SNIPPET, code);
    let twice = Fragment::import_wgsl_snippets(SNIPPET, &once);
    assert_eq!(once, twice);
}

#[test]
fn display_name_drops_the_extension() {
    assert_eq!(Fragment::display_name("blur.wgsl"), "blur");
    assert_eq!(Fragment::display_name("a.b.wgsl"), "a.b");
    assert_eq!(Fragment::display_name("plain"), "plain");
    assert_eq!(Fragment::display_name(".hidden"), ".hidden");
    assert_eq!(Fragment::display_name(".."), "..");
    assert_eq!(Fragment::display_name("trail."), "trail");
}

#[test]
fn texture_declaration_text() {
    assert_eq!(
        SampleInput.get_wgsl_blob(3),
        "[[group(3), binding(0)]]\nvar tex3: texture_2d<f32>;\n\
         [[group(3), binding(1)]]\nvar tex_sampler3: sampler;\n"
    );
    let desc = SampleInput.get_bind_group();
    assert_eq!(
        desc.entries,
        vec![
            LayoutEntry { binding: 0, kind: EntryKind::Texture2d },
            LayoutEntry { binding: 1, kind: EntryKind::Sampler }
        ]
    );
    assert!(desc.contents.is_empty());
}

#[test]
fn pointer_uniform_declaration_and_bytes() {
    let mut m = MouseUniform::new(0.25f32.to_bits(), (-0.5f32).to_bits());
    assert_eq!(
        m.get_wgsl_blob(12),
        "[[block]]\nstruct MouseUniform { \nx: f32; y: f32;}; \n\
         [[group(12), binding(0)]] \n var<uniform> mouseuniform: MouseUniform; \n"
    );
    m.update_mouse(1.0f32.to_bits(), 2.0f32.to_bits());
    let desc = m.get_bind_group();
    assert_eq!(desc.entries, vec![LayoutEntry { binding: 0, kind: EntryKind::Uniform }]);
    assert_eq!(desc.contents, word_bytes(&[1.0f32.to_bits(), 2.0f32.to_bits()]));
}

#[test]
fn parameter_declaration_and_sampling_function() {
    let p = ParameterPrimitive::new("glow", 5, 8);
    let mut want = String::from(
        "[[block]]\nstruct ParameterSet5 { \ninput: array<f32, 8>;}; \n\
         [[group(1), binding(0)]] \n var<uniform> parameterset5: ParameterSet5; \n",
    );
    want.push_str("fn PARAMETER5(location: vec2<f32>) -> vec4<f32>{ \n");
    want.push_str("var param = vec4<f32>(0.0, 0.0, 0.0, 0.0); \n");
    for i in 0..SAMPLER_INPUTS {
        want.push_str(&format!(
            "var sample{i} = textureSample(tex{i}, tex_sampler{i}, location); \n\
             sample{i} = sample{i} * parameterset5.input[{i}]; \n\
             param = param + sample{i}; \n"
        ));
    }
    want.push_str("return param; } \n");
    assert_eq!(p.get_wgsl_blob(1), want);
    assert_eq!(p.create_parameter_sampler(0), "fn PARAMETER5(location: vec2<f32>) -> vec4<f32>{ \nvar param = vec4<f32>(0.0, 0.0, 0.0, 0.0); \nreturn param; } \n");
}

#[test]
fn two_parameters_declare_separate_blocks() {
    let text = "let warp = PARAMETER1(uv);\nlet glow = PARAMETER4(uv);\nbody\n";
    let frag = Fragment::new(text, SNIPPET, "two.wgsl", 8, 8, frame());
    assert_eq!(frag.params.len(), 2);
    let pass = frag.render(&MouseUniform::new(0, 0), 4);
    let src = &pass.shader_source;
    assert_eq!(src.matches("struct ParameterSet1 {").count(), 1);
    assert_eq!(src.matches("struct ParameterSet4 {").count(), 1);
    assert!(src.contains("[[group(4), binding(0)]] \n var<uniform> parameterset1: ParameterSet1; \n"));
    assert!(src.contains("[[group(5), binding(0)]] \n var<uniform> parameterset4: ParameterSet4; \n"));
    assert!(!src.contains("var<uniform> parameterset:"));
    let p1 = src.find("fn PARAMETER1(").unwrap();
    let p4 = src.find("fn PARAMETER4(").unwrap();
    assert!(src[p1..p4].contains("sample3 = sample3 * parameterset1.input[3]; \n"));
    assert!(!src[p1..p4].contains("parameterset4.input"));
    assert!(src[p4..].contains("sample0 = sample0 * parameterset4.input[0]; \n"));
    assert!(!src[p4..].contains("parameterset1.input"));
    assert_eq!(frag.params[0].block_name(), "ParameterSet1");
    assert_eq!(frag.params[1].block_name(), "ParameterSet4");
}

#[test]
fn parameter_bytes_follow_its_weights() {
    let mut p = ParameterPrimitive::new("w", 0, 8);
    let fresh: [u32; 8] = [1, 2, 3, 4, 0x0102_0304, 6, 7, 0xffff_ffff];
    p.update(fresh);
    assert_eq!(p.get_val(), fresh.to_vec());
    let desc = p.get_bind_group();
    assert_eq!(desc.contents.len(), 32);
    assert_eq!(desc.contents, word_bytes(&fresh));
    p.get_mut_val()[2] = 0.5f32.to_bits();
    assert_eq!(p.get_val()[2], 0.5f32.to_bits());
}

#[test]
fn render_binds_and_declares_in_one_order() {
    let text = "let warp = PARAMETER1(uv);\nlet glow = PARAMETER4(uv);\nbody\n";
    let frag = Fragment::new(text, SNIPPET, "warp.wgsl", 64, 32, frame());
    let mouse = MouseUniform::new(0, 0);
    let pass = frag.render(&mouse, 3);
    let sources: Vec<BindingSource> = pass.groups.iter().map(|g| g.source).collect();
    assert_eq!(
        sources,
        vec![
            BindingSource::Sample(0),
            BindingSource::Sample(1),
            BindingSource::Sample(2),
            BindingSource::Parameter(0),
            BindingSource::Parameter(1),
            BindingSource::Pointer
        ]
    );
    let groups: Vec<u32> = pass.groups.iter().map(|g| g.group).collect();
    assert_eq!(groups, vec![0, 1, 2, 3, 4, 5]);
    let mut want = String::new();
    for g in 0..3 {
        want.push_str(&SampleInput.get_wgsl_blob(g));
    }
    want.push_str(&frag.params[0].get_wgsl_blob(3));
    want.push_str(&frag.params[1].get_wgsl_blob(4));
    want.push_str(&mouse.get_wgsl_blob(5));
    want.push_str(text);
    assert_eq!(pass.shader_source, want);
    assert_eq!(pass.label, "warp");
    assert!(pass.load_existing);
    assert_eq!(pass.index_count, 6);
    assert_eq!(pass.groups[3].desc.contents, word_bytes(&[DEFAULT_WEIGHT; 8]));
}

#[test]
fn render_without_samples_or_parameters() {
    let frag = Fragment::new("body\n", SNIPPET, "plain.wgsl", 8, 8, frame());
    let pass = frag.render(&MouseUniform::new(0, 0), 0);
    assert_eq!(pass.groups.len(), 1);
    assert_eq!(pass.groups[0].source, BindingSource::Pointer);
    assert_eq!(pass.groups[0].group, 0);
}

#[test]
fn one_fragment_model_takes_external_weights() {
    let shaders = vec![ShaderFile {
        file_name: "feedback.wgsl".to_string(),
        text: "var PARAMETER0 = foo;\n#import\nfn main() {}\n".to_string(),
    }];
    let mut model = ShaderModel::new(&shaders, SNIPPET, frame());
    assert!(!model.is_rendering());
    let params = model.get_parameters();
    assert_eq!(params.len(), 1);
    assert!(params[0].get_val().iter().all(|&w| f32::from_bits(w) == 0.1));
    model.get_mut_val(0, 0)[3] = 0.75f32.to_bits();
    model.update();
    assert!(model.is_rendering());
    let vals: Vec<f32> = model.get_parameters()[0].get_val().iter().map(|&w| f32::from_bits(w)).collect();
    assert_eq!(vals, vec![0.1, 0.1, 0.1, 0.75, 0.1, 0.1, 0.1, 0.1]);
    assert_eq!(
        model.shader_fragments[0].source,
        format!("var PARAMETER0 = foo;\n{}fn main() {{}}\n", SNIPPET)
    );
}

#[test]
fn two_fragment_model_samples_every_output() {
    let shaders = vec![
        ShaderFile { file_name: "a.wgsl".to_string(), text: "let x = PARAMETER0(uv);\n".to_string() },
        ShaderFile { file_name: "b.wgsl".to_string(), text: "body\n".to_string() },
    ];
    let mut model = ShaderModel::new(&shaders, SNIPPET, frame());
    let mouse = MouseUniform::new(0, 0);
    assert!(model.draw(&mouse).is_empty());
    model.update();
    assert_eq!(model.get_textures(), vec!["a".to_string(), "b".to_string()]);
    let passes = model.draw(&mouse);
    assert_eq!(passes.len(), 2);
    for pass in &passes {
        let samples: Vec<BindingSource> = pass
            .groups
            .iter()
            .map(|g| g.source)
            .filter(|s| matches!(s, BindingSource::Sample(_)))
            .collect();
        assert_eq!(samples, vec![BindingSource::Sample(0), BindingSource::Sample(1)]);
    }
    assert_eq!(passes[0].groups.len(), 4);
    assert_eq!(passes[1].groups.len(), 3);
    assert_eq!(model.shader_fragments[0].width, OUTPUT_SIZE);
}

#[test]
fn placement_is_written_from_outside() {
    let shaders = vec![ShaderFile { file_name: "a.wgsl".to_string(), text: String::new() }];
    let mut model = ShaderModel::new(&shaders, SNIPPET, frame());
    let moved = Placement { x: 3.0f32.to_bits(), y: 4.0f32.to_bits(), w: 5, h: 6 };
    *model.get_mut_frames(0) = moved;
    assert_eq!(model.shader_fragments[0].draw_frame, moved);
    assert_eq!(model.shader_fragments[0].shape.indices.len(), 6);
}
