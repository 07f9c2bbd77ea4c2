//! The compute passes of the GPU signed distance field: their uniform blocks,
//! their dispatch sizes and the order in which they run.
use vstd::prelude::*;

verus! {

/// The uniform block of one image compute pass, padded to the 256-byte
/// alignment of dynamic uniform offsets: the image width and height and two
/// pass parameters, then sixty words of padding.
#[derive(Clone, Copy)]
pub struct PicInfoUniform {
    pub info: [i32; 4],
    pub any: [i32; 60],
}

/// The block of a pass over a `width` by `height` image with parameters `a`
/// and `b`; dimensions above `i32::MAX` wrap as the shader reads them.
pub open spec fn pic_info_of(width: u32, height: u32, a: i32, b: i32) -> Seq<i32> {
    seq![width as i32, height as i32, a, b]
}

impl PicInfoUniform {
    /// The block holding `info`, with zero padding.
    pub fn new(info: [i32; 4]) -> (u: Self)
        ensures
            u.info@ == info@,
            forall|k: int| 0 <= k < 60 ==> u.any@[k] == 0,
    {
        PicInfoUniform { info, any: [0i32; 60] }
    }

    /// The block of a pass over a `width` by `height` image with parameters
    /// `a` and `b`, with zero padding.
    pub fn for_extent(width: u32, height: u32, a: i32, b: i32) -> (u: Self)
        ensures
            u.info@ == pic_info_of(width, height, a, b),
            forall|k: int| 0 <= k < 60 ==> u.any@[k] == 0,
    {
        let u = PicInfoUniform::new([width as i32, height as i32, a, b]);
        assert(u.info@ =~= pic_info_of(width, height, a, b));
        u
    }
}

/// The parameters of the six distance transform blocks, in buffer order.
pub open spec fn sdf_block_params(k: int) -> (i32, i32) {
    if k == 0 {
        (2, 0)
    } else if k == 1 {
        (0, 0)
    } else if k == 2 {
        (1, 0)
    } else if k == 3 {
        (0, 1)
    } else if k == 4 {
        (1, 1)
    } else {
        (3, 0)
    }
}

/// The six uniform blocks of the distance transform over a `width` by
/// `height` image, in buffer order.
pub fn sdf_uniforms(width: u32, height: u32) -> (blocks: Vec<PicInfoUniform>)
    ensures
        blocks@.len() == 6,
        forall|k: int|
            0 <= k < 6 ==> #[trigger] blocks@[k].info@ == pic_info_of(
                width,
                height,
                sdf_block_params(k).0,
                sdf_block_params(k).1,
            ),
        forall|k: int, m: int| 0 <= k < 6 && 0 <= m < 60 ==> #[trigger] blocks@[k].any@[m] == 0,
{
    let mut blocks: Vec<PicInfoUniform> = Vec::new();
    blocks.push(PicInfoUniform::for_extent(width, height, 2, 0));
    blocks.push(PicInfoUniform::for_extent(width, height, 0, 0));
    blocks.push(PicInfoUniform::for_extent(width, height, 1, 0));
    blocks.push(PicInfoUniform::for_extent(width, height, 0, 1));
    blocks.push(PicInfoUniform::for_extent(width, height, 1, 1));
    blocks.push(PicInfoUniform::for_extent(width, height, 3, 0));
    blocks
}

/// The two uniform blocks of the separable Gaussian blur (horizontal, then
/// vertical) over a `width` by `height` image.
pub fn gaussian_blur_uniforms(width: u32, height: u32) -> (blocks: Vec<PicInfoUniform>)
    ensures
        blocks@.len() == 2,
        blocks@[0].info@ == pic_info_of(width, height, 0, 0),
        blocks@[1].info@ == pic_info_of(width, height, 1, 0),
        forall|k: int, m: int| 0 <= k < 2 && 0 <= m < 60 ==> #[trigger] blocks@[k].any@[m] == 0,
{
    let mut blocks: Vec<PicInfoUniform> = Vec::new();
    blocks.push(PicInfoUniform::for_extent(width, height, 0, 0));
    blocks.push(PicInfoUniform::for_extent(width, height, 1, 0));
    blocks
}

/// The compute shader of the Gaussian blur: one channel or four.
pub fn gaussian_blur_shader(only_r_channel: bool) -> (name: &'static str)
    ensures
        name@ == if only_r_channel {
            "filter/gaussian_blur_r"@
        } else {
            "filter/gaussian_blur_rgba"@
        },
{
    if only_r_channel {
        "filter/gaussian_blur_r"
    } else {
        "filter/gaussian_blur_rgba"
    }
}

/// The number of 16 by 16 workgroups that cover a `width` by `height` image.
pub fn threadgroup_count(width: u32, height: u32) -> (count: (u32, u32))
    requires
        width <= u32::MAX - 15,
        height <= u32::MAX - 15,
    ensures
        count.0 == (width + 15) / 16,
        count.1 == (height + 15) / 16,
{
    ((width + 15) / 16, (height + 15) / 16)
}

/// The workgroups cover the image and no workgroup lies wholly outside it.
pub proof fn lemma_threadgroups_cover(n: u32)
    requires
        n <= u32::MAX - 15,
    ensures
        16 * ((n + 15) / 16) >= n,
        16 * ((n + 15) / 16) < n + 16,
{
    let q = (n + 15) / 16;
    assert(16 * q <= n + 15 && n + 15 < 16 * q + 16) by (nonlinear_arith)
        requires
            q == (n + 15) / 16,
    ;
}

/// The byte sizes of the distance transform's storage buffers over a
/// `width` by `height` image: one 32-bit value per pixel for the distance,
/// background and site buffers, and one per pixel of the image grown by one
/// in each direction for the parabola boundaries.
pub fn sdf_buffer_ranges(width: u32, height: u32) -> (ranges: (u64, u64))
    requires
        (width + 1) * (height + 1) * 4 <= u32::MAX,
    ensures
        ranges.0 == 4 * width * height,
        ranges.1 == 4 * (width + 1) * (height + 1),
{
    assert(width * height <= (width + 1) * (height + 1)) by (nonlinear_arith);
    assert(width + 1 <= (width + 1) * (height + 1) * 4) by (nonlinear_arith);
    assert(height + 1 <= (width + 1) * (height + 1) * 4) by (nonlinear_arith);
    assert((width + 1) * (height + 1) <= (width + 1) * (height + 1) * 4) by (nonlinear_arith);
    let img_size = (width * height) as u64;
    let sdf_range = img_size * 4;
    let z_range = ((width + 1) * (height + 1) * 4) as u64;
    assert(sdf_range == 4 * width * height) by (nonlinear_arith)
        requires
            sdf_range == img_size * 4,
            img_size == width * height,
    ;
    assert(z_range == 4 * (width + 1) * (height + 1)) by (nonlinear_arith)
        requires
            z_range == (width + 1) * (height + 1) * 4,
    ;
    (sdf_range, z_range)
}

/// The pipelines of the distance transform.
#[derive(Clone, Copy, Debug, PartialEq, Eq, Structural)]
pub enum SdfPipeline {
    /// The pass over the whole image.
    XY,
    /// The pass along rows.
    X,
    /// The pass along columns.
    Y,
}

/// One compute dispatch: the dynamic offset of its uniform block and the
/// number of workgroups in each dimension.
#[derive(Clone, Copy, Debug, PartialEq, Eq)]
pub struct Dispatch {
    pub dynamic_offset: u32,
    pub x: u32,
    pub y: u32,
    pub z: u32,
}

/// The pipeline of dispatch `i` of the distance transform.
pub open spec fn sdf_pass_pipeline(i: int) -> SdfPipeline {
    if i == 1 || i == 2 {
        SdfPipeline::X
    } else if i == 3 || i == 4 {
        SdfPipeline::Y
    } else {
        SdfPipeline::XY
    }
}

/// The uniform block bound by dispatch `i` of the distance transform.
pub open spec fn sdf_pass_block(i: int) -> int {
    if i == 0 {
        0
    } else if i == 1 {
        3
    } else if i == 2 {
        1
    } else if i == 3 {
        4
    } else if i == 4 {
        2
    } else {
        5
    }
}

/// The dispatch that binds uniform block `k` of the distance transform.
pub open spec fn sdf_block_pass(k: int) -> int {
    if k == 0 {
        0
    } else if k == 1 {
        2
    } else if k == 2 {
        4
    } else if k == 3 {
        1
    } else if k == 4 {
        3
    } else {
        5
    }
}

/// The dispatches of the distance transform, in order: a pass over the
/// whole image, two passes along rows, two along columns and a final pass
/// over the whole image, each with its uniform block.
pub fn sdf_dispatch_plan(threadgroup_count: (u32, u32), offset_stride: u32) -> (plan: Vec<
    (SdfPipeline, Dispatch),
>)
    requires
        offset_stride * 5 <= u32::MAX,
    ensures
        plan@.len() == 6,
        forall|i: int|
            0 <= i < 6 ==> (#[trigger] plan@[i]).0 == sdf_pass_pipeline(i) && plan@[i].1.dynamic_offset
                == offset_stride * sdf_pass_block(i) && plan@[i].1.z == 1 && plan@[i].1.x == (if plan@[i].0
                == SdfPipeline::Y {
                1
            } else {
                threadgroup_count.0
            }) && plan@[i].1.y == (if plan@[i].0 == SdfPipeline::X {
                1
            } else {
                threadgroup_count.1
            }),
{
    let (tx, ty) = threadgroup_count;
    let s = offset_stride;
    let mut plan: Vec<(SdfPipeline, Dispatch)> = Vec::new();
    plan.push((SdfPipeline::XY, Dispatch { dynamic_offset: 0, x: tx, y: ty, z: 1 }));
    plan.push((SdfPipeline::X, Dispatch { dynamic_offset: s * 3, x: tx, y: 1, z: 1 }));
    plan.push((SdfPipeline::X, Dispatch { dynamic_offset: s, x: tx, y: 1, z: 1 }));
    plan.push((SdfPipeline::Y, Dispatch { dynamic_offset: s * 4, x: 1, y: ty, z: 1 }));
    plan.push((SdfPipeline::Y, Dispatch { dynamic_offset: s * 2, x: 1, y: ty, z: 1 }));
    plan.push((SdfPipeline::XY, Dispatch { dynamic_offset: s * 5, x: tx, y: ty, z: 1 }));
    plan
}

/// Every one of the six uniform blocks of the distance transform is bound by
/// exactly one dispatch, and each dispatch reads the block made for its
/// direction: row passes read blocks whose first parameter is 0, column
/// passes blocks whose first parameter is 1, and the whole-image passes the
/// blocks with parameters 2 (first) and 3 (last).
pub proof fn lemma_sdf_blocks_used_once()
    ensures
        forall|i: int, j: int|
            0 <= i < 6 && 0 <= j < 6 && #[trigger] sdf_pass_block(i) == #[trigger] sdf_pass_block(j)
                ==> i == j,
        forall|k: int|
            0 <= k < 6 ==> 0 <= #[trigger] sdf_block_pass(k) < 6 && sdf_pass_block(sdf_block_pass(k))
                == k,
        forall|i: int|
            0 <= i < 6 ==> sdf_block_params(#[trigger] sdf_pass_block(i)).0 == match sdf_pass_pipeline(
                i,
            ) {
                SdfPipeline::X => 0i32,
                SdfPipeline::Y => 1i32,
                SdfPipeline::XY => if i == 0 {
                    2i32
                } else {
                    3i32
                },
            },
{
}

/// The order of the passes of the distance transform: one pass over the
/// whole image first and last, between them the two row passes and then the
/// two column passes; each pair handles the background (second parameter 1)
/// before the foreground (second parameter 0); every block holds the image
/// extent.
pub proof fn lemma_sdf_pass_order(width: u32, height: u32)
    ensures
        sdf_pass_pipeline(0) == SdfPipeline::XY && sdf_pass_pipeline(5) == SdfPipeline::XY,
        sdf_pass_pipeline(1) == SdfPipeline::X && sdf_pass_pipeline(2) == SdfPipeline::X,
        sdf_pass_pipeline(3) == SdfPipeline::Y && sdf_pass_pipeline(4) == SdfPipeline::Y,
        sdf_block_params(sdf_pass_block(1)).1 == 1 && sdf_block_params(sdf_pass_block(2)).1 == 0,
        sdf_block_params(sdf_pass_block(3)).1 == 1 && sdf_block_params(sdf_pass_block(4)).1 == 0,
        forall|k: int|
            0 <= k < 6 ==> (#[trigger] pic_info_of(
                width,
                height,
                sdf_block_params(k).0,
                sdf_block_params(k).1,
            ))[0] == width as i32 && pic_info_of(
                width,
                height,
                sdf_block_params(k).0,
                sdf_block_params(k).1,
            )[1] == height as i32,
{
}

} // verus!
