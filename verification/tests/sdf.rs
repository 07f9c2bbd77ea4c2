use sdf_text_view::sdf::{
    gaussian_blur_shader, gaussian_blur_uniforms, sdf_buffer_ranges, sdf_dispatch_plan,
    sdf_uniforms, threadgroup_count, Dispatch, PicInfoUniform, SdfPipeline,
};

#[test]
fn uniform_blocks_hold_extent_and_parameters() {
    let u = PicInfoUniform::for_extent(640, 480, 3, 0);
    assert_eq!(u.info, [640, 480, 3, 0]);
    assert!(u.any.iter().all(|&w| w == 0));
    let n = PicInfoUniform::new([1, 2, 3, 4]);
    assert_eq!(n.info, [1, 2, 3, 4]);
    assert_eq!(n.any, [0i32; 60]);
}

#[test]
fn distance_transform_blocks_in_buffer_order() {
    let blocks = sdf_uniforms(100, 50);
    assert_eq!(blocks.len(), 6);
    let expected = [[100, 50, 2, 0], [100, 50, 0, 0], [100, 50, 1, 0], [100, 50, 0, 1], [100, 50, 1, 1], [100, 50, 3, 0]];
    for (b, e) in blocks.iter().zip(expected.iter()) {
        assert_eq!(&b.info, e);
        assert_eq!(b.any, [0i32; 60]);
    }
}

#[test]
fn blur_blocks_and_shaders() {
    let blocks = gaussian_blur_uniforms(32, 16);
    assert_eq!(blocks.len(), 2);
    assert_eq!(blocks[0].info, [32, 16, 0, 0]);
    assert_eq!(blocks[1].info, [32, 16, 1, 0]);
    assert_eq!(gaussian_blur_shader(true), "filter/gaussian_blur_r");
    assert_eq!(gaussian_blur_shader(false), "filter/gaussian_blur_rgba");
}

#[test]
fn threadgroups_round_up() {
    assert_eq!(threadgroup_count(100, 33), (7, 3));
    assert_eq!(threadgroup_count(16, 32), (1, 2));
    assert_eq!(threadgroup_count(0, 1), (0, 1));
    assert_eq!(threadgroup_count(u32::MAX - 15, 17), (268435455, 2));
}

#[test]
fn buffer_ranges_count_four_bytes_per_pixel() {
    assert_eq!(sdf_buffer_ranges(10, 20), (800, 924));
    assert_eq!(sdf_buffer_ranges(0, 0), (0, 4));
}

#[test]
fn dispatch_plan_order_and_offsets() {
    let plan = sdf_dispatch_plan((7, 3), 256);
    let expected = vec![
        (SdfPipeline::XY, Dispatch { dynamic_offset: 0, x: 7, y: 3, z: 1 }),
        (SdfPipeline::X, Dispatch { dynamic_offset: 768, x: 7, y: 1, z: 1 }),
        (SdfPipeline::X, Dispatch { dynamic_offset: 256, x: 7, y: 1, z: 1 }),
        (SdfPipeline::Y, Dispatch { dynamic_offset: 1024, x: 1, y: 3, z: 1 }),
        (SdfPipeline::Y, Dispatch { dynamic_offset: 512, x: 1, y: 3, z: 1 }),
        (SdfPipeline::XY, Dispatch { dynamic_offset: 1280, x: 7, y: 3, z: 1 }),
    ];
    assert_eq!(plan, expected);
}

#[test]
fn every_block_is_bound_once() {
    let plan = sdf_dispatch_plan((1, 1), 256);
    let mut offsets: Vec<u32> = plan.iter().map(|p| p.1.dynamic_offset).collect();
    offsets.sort();
    assert_eq!(offsets, vec![0, 256, 512, 768, 1024, 1280]);
}
