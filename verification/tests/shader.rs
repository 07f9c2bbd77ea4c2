use sdf_text_view::shader::{
    get_shader_funcs, parse_shader_source, preprocess_shader_source, shader_file_name,
    shader_func_by_key, source_includes, ShaderFunc, ShaderFuncSources, ShaderKind,
};

fn sources() -> ShaderFuncSources {
    ShaderFuncSources {
        color_space_convert: String::from("vec3 to_linear(vec3 c);\n"),
        vs_micros: String::from("#define VS 1\n"),
        fs_micros: String::from("#include vs_micros\n#define FS 1\n"),
        fluid_layout_and_fn: String::from("layout(set = 0) uniform Fluid;"),
    }
}

#[test]
fn shader_funcs_are_found_by_key() {
    let funcs = sources();
    assert_eq!(get_shader_funcs(&funcs, "color_space_convert"), Some("vec3 to_linear(vec3 c);\n"));
    assert_eq!(get_shader_funcs(&funcs, "vs_micros"), Some("#define VS 1\n"));
    assert_eq!(get_shader_funcs(&funcs, "fs_micros"), Some("#include vs_micros\n#define FS 1\n"));
    assert_eq!(get_shader_funcs(&funcs, "fluid_layout_and_fn"), Some("layout(set = 0) uniform Fluid;"));
    assert_eq!(get_shader_funcs(&funcs, "unknown"), None);
    assert_eq!(get_shader_funcs(&funcs, " vs_micros"), None);
    assert_eq!(shader_func_by_key("fs_micros"), Some(ShaderFunc::FsMicros));
    assert_eq!(shader_func_by_key(""), None);
}

#[test]
fn plain_lines_are_copied_with_newlines() {
    let funcs = sources();
    let mut out = String::from("head\n");
    let missing = parse_shader_source("void main() {\r\n}", &mut out, &funcs);
    assert_eq!(out, "head\nvoid main() {\n}\n");
    assert!(missing.is_empty());
}

#[test]
fn include_lines_are_expanded_recursively() {
    let funcs = sources();
    let mut out = String::new();
    let missing = parse_shader_source("#include fs_micros,color_space_convert\nvoid main() {}\n", &mut out, &funcs);
    assert_eq!(out, "#define VS 1\n#define FS 1\nvec3 to_linear(vec3 c);\nvoid main() {}\n");
    assert!(missing.is_empty());
}

#[test]
fn unknown_includes_are_reported_in_order() {
    let funcs = sources();
    let mut out = String::new();
    let missing = parse_shader_source("#include nope, vs_micros\nx\n#include other\n", &mut out, &funcs);
    assert_eq!(out, "x\n");
    assert_eq!(missing, vec![String::from("nope"), String::from(" vs_micros"), String::from("other")]);
}

#[test]
fn include_directive_needs_the_space() {
    let funcs = sources();
    let mut out = String::new();
    let missing = parse_shader_source("#includevs_micros\n", &mut out, &funcs);
    assert_eq!(out, "#includevs_micros\n");
    assert!(missing.is_empty());
}

#[test]
fn include_cycles_are_detected() {
    let funcs = sources();
    assert!(funcs.is_acyclic());
    let cyclic = ShaderFuncSources {
        color_space_convert: String::from("#include fluid_layout_and_fn\n"),
        vs_micros: String::new(),
        fs_micros: String::new(),
        fluid_layout_and_fn: String::from("#include color_space_convert\n"),
    };
    assert!(!cyclic.is_acyclic());
    let self_include = ShaderFuncSources {
        color_space_convert: String::new(),
        vs_micros: String::from("#include vs_micros"),
        fs_micros: String::new(),
        fluid_layout_and_fn: String::new(),
    };
    assert!(!self_include.is_acyclic());
}

#[test]
fn includes_are_detected_per_line() {
    assert!(source_includes("a\n#include x,fs_micros\n", ShaderFunc::FsMicros));
    assert!(!source_includes("a\n#include x,fs_micros\n", ShaderFunc::VsMicros));
    assert!(!source_includes(" #include fs_micros\n", ShaderFunc::FsMicros));
}

#[test]
fn preprocessed_source_starts_with_version() {
    let funcs = sources();
    let (text, missing) = preprocess_shader_source("#include vs_micros\nvoid main() {}", &funcs);
    assert_eq!(text, "#version 450\n#define VS 1\nvoid main() {}\n");
    assert!(missing.is_empty());
}

#[test]
fn shader_file_names_carry_the_stage_suffix() {
    assert_eq!(shader_file_name("sdf/sdf", ShaderKind::Vertex), "sdf/sdf.vs.glsl");
    assert_eq!(shader_file_name("sdf/sdf", ShaderKind::Fragment), "sdf/sdf.fs.glsl");
    assert_eq!(shader_file_name("fluid/init", ShaderKind::Compute), "fluid/init.comp.glsl");
}
