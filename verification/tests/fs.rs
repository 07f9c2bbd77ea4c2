use sdf_text_view::fs::FileSystem;

#[test]
fn bundle_url_is_kept() {
    let fs = FileSystem::new("/app/Bundle".to_string());
    assert_eq!(fs.get_bundle_url(), "/app/Bundle");
}

#[test]
fn spirv_path_flattens_name() {
    let fs = FileSystem::new("/b".to_string());
    assert_eq!(fs.get_spirv_file_path("sdf/sdf_x", "comp"), "/b/shader-gen/sdf_sdf_x_comp.spv");
    assert_eq!(fs.get_shader_path("a/b/c", "vs"), "/b/shader-gen/a_b_c_vs.spv");
    assert_eq!(fs.get_shader_path("plain", "fs"), "/b/shader-gen/plain_fs.spv");
}

#[test]
fn texture_path_is_under_assets() {
    let fs = FileSystem::new("/b".to_string());
    assert_eq!(fs.get_texture_file_path("brush/paper1.jpg"), "/b/assets/brush/paper1.jpg");
    assert_eq!(fs.get_texture_file_path(""), "/b/assets/");
}
