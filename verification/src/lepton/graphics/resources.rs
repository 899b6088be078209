use vstd::prelude::*;

verus! {

/// One step of a mipmap chain: halve a side, but never below one texel.
pub open spec fn halve(w: int) -> int {
    if w < 2 {
        1
    } else {
        w / 2
    }
}

/// The side length at mip level `level` of a side that is `base` at level 0.
pub open spec fn mip_extent(base: int, level: nat) -> int
    decreases level,
{
    if level == 0 {
        base
    } else {
        halve(mip_extent(base, (level - 1) as nat))
    }
}

/// One blit of the mipmap chain: level `level - 1`, of size
/// `src_width` x `src_height`, is scaled into level `level`, of size
/// `dst_width` x `dst_height`.
#[derive(PartialEq, Eq, Structural, Copy, Clone, Debug)]
pub struct MipBlit {
    pub level: u32,
    pub src_width: i32,
    pub src_height: i32,
    pub dst_width: i32,
    pub dst_height: i32,
}

/// The blits that fill a texture's mipmap chain: one per level after the
/// first, each halving the previous level's sides (never below one).
/// The texture's sides are read as `i32`, as the device's offsets are.
pub fn mip_blits(tex_width: u32, tex_height: u32, mip_levels: u32) -> (r: Vec<MipBlit>)
    requires
        mip_levels >= 1,
    ensures
        r@.len() == mip_levels - 1,
        forall|k: int|
            0 <= k < r@.len() ==> #[trigger] r@[k] == (MipBlit {
                level: (k + 1) as u32,
                src_width: mip_extent(tex_width as i32 as int, k as nat) as i32,
                src_height: mip_extent(tex_height as i32 as int, k as nat) as i32,
                dst_width: mip_extent(tex_width as i32 as int, (k + 1) as nat) as i32,
                dst_height: mip_extent(tex_height as i32 as int, (k + 1) as nat) as i32,
            }),
{
    let mut blits: Vec<MipBlit> = Vec::new();
    let mut mip_width: i32 = tex_width as i32;
    let mut mip_height: i32 = tex_height as i32;
    let mut i: u32 = 1;
    while i < mip_levels
        invariant
            1 <= i <= mip_levels,
            blits@.len() == i - 1,
            mip_width as int == mip_extent(tex_width as i32 as int, (i - 1) as nat),
            mip_height as int == mip_extent(tex_height as i32 as int, (i - 1) as nat),
            forall|k: int|
                0 <= k < blits@.len() ==> #[trigger] blits@[k] == (MipBlit {
                    level: (k + 1) as u32,
                    src_width: mip_extent(tex_width as i32 as int, k as nat) as i32,
                    src_height: mip_extent(tex_height as i32 as int, k as nat) as i32,
                    dst_width: mip_extent(tex_width as i32 as int, (k + 1) as nat) as i32,
                    dst_height: mip_extent(tex_height as i32 as int, (k + 1) as nat) as i32,
                }),
        decreases mip_levels - i,
    {
        let next_width: i32 = if mip_width < 2 { 1 } else { mip_width / 2 };
        let next_height: i32 = if mip_height < 2 { 1 } else { mip_height / 2 };
        blits.push(MipBlit {
            level: i,
            src_width: mip_width,
            src_height: mip_height,
            dst_width: next_width,
            dst_height: next_height,
        });
        mip_width = next_width;
        mip_height = next_height;
        i = i + 1;
    }
    blits
}

/// Descriptor counts for a pool serving `num_shaders` shaders over
/// `swapchain_images_size` frames with `num_inputs` uniform inputs each:
/// `(uniform buffers, image samplers, sets)`, each cut to 32 bits.
pub fn descriptor_pool_counts(swapchain_images_size: usize, num_inputs: usize, num_shaders: usize) -> (r: (u32, u32, u32))
    requires
        num_inputs * swapchain_images_size <= usize::MAX,
        num_inputs * swapchain_images_size * num_shaders <= usize::MAX,
        swapchain_images_size * num_shaders + num_inputs * swapchain_images_size * num_shaders <= usize::MAX,
    ensures
        r.0 == (num_inputs * swapchain_images_size * num_shaders) as u32,
        r.1 == (swapchain_images_size * num_shaders) as u32,
        r.2 == (swapchain_images_size * num_shaders + num_inputs * swapchain_images_size * num_shaders) as u32,
{
    proof {
        assert(0 <= swapchain_images_size * num_shaders) by (nonlinear_arith);
        assert(0 <= num_inputs * swapchain_images_size * num_shaders) by (nonlinear_arith);
        assert(swapchain_images_size * num_shaders <= usize::MAX) by (nonlinear_arith)
            requires
                swapchain_images_size * num_shaders + num_inputs * swapchain_images_size * num_shaders
                    <= usize::MAX,
                0 <= num_inputs * swapchain_images_size * num_shaders,
        ;
    }
    let num_uniforms = num_inputs * swapchain_images_size * num_shaders;
    let num_samplers = swapchain_images_size * num_shaders;
    let total = num_samplers + num_uniforms;
    (#[verifier::truncate] (num_uniforms as u32), #[verifier::truncate] (num_samplers as u32), #[verifier::truncate] (total as u32))
}

/// Where a compiled model's bytes split: vertices fill the front, then
/// `num_indices` 32-bit indices fill the back. Returns the number of whole
/// vertices of `vertex_size` bytes and the offset of the first index.
pub fn compiled_layout(byte_len: usize, num_indices: usize, vertex_size: usize) -> (r: (usize, usize))
    requires
        byte_len > 0,
        vertex_size > 0,
        num_indices > 0,
        num_indices * 4 <= byte_len,
    ensures
        r.1 == byte_len - num_indices * 4,
        r.0 == (byte_len - num_indices * 4) / (vertex_size as int),
{
    let vertex_bytes = byte_len - num_indices * 4;
    (vertex_bytes / vertex_size, vertex_bytes)
}

/// `VK_IMAGE_LAYOUT_UNDEFINED`.
pub const IMAGE_LAYOUT_UNDEFINED: i32 = 0;

/// `VK_IMAGE_LAYOUT_COLOR_ATTACHMENT_OPTIMAL`.
pub const IMAGE_LAYOUT_COLOR_ATTACHMENT_OPTIMAL: i32 = 2;

/// `VK_IMAGE_LAYOUT_SHADER_READ_ONLY_OPTIMAL`.
pub const IMAGE_LAYOUT_SHADER_READ_ONLY_OPTIMAL: i32 = 5;

/// `VK_IMAGE_LAYOUT_TRANSFER_DST_OPTIMAL`.
pub const IMAGE_LAYOUT_TRANSFER_DST_OPTIMAL: i32 = 7;

/// `VK_ACCESS_SHADER_READ_BIT`.
pub const ACCESS_SHADER_READ: u32 = 0x20;

/// `VK_ACCESS_COLOR_ATTACHMENT_READ_BIT`.
pub const ACCESS_COLOR_ATTACHMENT_READ: u32 = 0x80;

/// `VK_ACCESS_COLOR_ATTACHMENT_WRITE_BIT`.
pub const ACCESS_COLOR_ATTACHMENT_WRITE: u32 = 0x100;

/// `VK_ACCESS_TRANSFER_WRITE_BIT`.
pub const ACCESS_TRANSFER_WRITE: u32 = 0x1000;

/// `VK_PIPELINE_STAGE_TOP_OF_PIPE_BIT`.
pub const STAGE_TOP_OF_PIPE: u32 = 0x1;

/// `VK_PIPELINE_STAGE_FRAGMENT_SHADER_BIT`.
pub const STAGE_FRAGMENT_SHADER: u32 = 0x80;

/// `VK_PIPELINE_STAGE_COLOR_ATTACHMENT_OUTPUT_BIT`.
pub const STAGE_COLOR_ATTACHMENT_OUTPUT: u32 = 0x400;

/// `VK_PIPELINE_STAGE_TRANSFER_BIT`.
pub const STAGE_TRANSFER: u32 = 0x1000;

/// The synchronization of an image layout transition: which accesses
/// before it are made visible to which accesses after it, and the
/// pipeline stages that wait on each other.
#[derive(PartialEq, Eq, Structural, Copy, Clone, Debug)]
pub struct LayoutTransition {
    pub src_access_mask: u32,
    pub dst_access_mask: u32,
    pub source_stage: u32,
    pub destination_stage: u32,
}

/// The synchronization of the transitions the engine makes: an undefined
/// image made ready to be copied into, a copied image made ready for the
/// fragment shader, an undefined image made ready to be drawn into.
/// Other transitions are not supported.
pub open spec fn spec_layout_transition(old_layout: i32, new_layout: i32) -> Option<LayoutTransition> {
    if old_layout == IMAGE_LAYOUT_UNDEFINED && new_layout == IMAGE_LAYOUT_TRANSFER_DST_OPTIMAL {
        Some(LayoutTransition {
            src_access_mask: 0,
            dst_access_mask: ACCESS_TRANSFER_WRITE,
            source_stage: STAGE_TOP_OF_PIPE,
            destination_stage: STAGE_TRANSFER,
        })
    } else if old_layout == IMAGE_LAYOUT_TRANSFER_DST_OPTIMAL && new_layout == IMAGE_LAYOUT_SHADER_READ_ONLY_OPTIMAL {
        Some(LayoutTransition {
            src_access_mask: ACCESS_TRANSFER_WRITE,
            dst_access_mask: ACCESS_SHADER_READ,
            source_stage: STAGE_TRANSFER,
            destination_stage: STAGE_FRAGMENT_SHADER,
        })
    } else if old_layout == IMAGE_LAYOUT_UNDEFINED && new_layout == IMAGE_LAYOUT_COLOR_ATTACHMENT_OPTIMAL {
        Some(LayoutTransition {
            src_access_mask: 0,
            dst_access_mask: ACCESS_COLOR_ATTACHMENT_READ | ACCESS_COLOR_ATTACHMENT_WRITE,
            source_stage: STAGE_TOP_OF_PIPE,
            destination_stage: STAGE_COLOR_ATTACHMENT_OUTPUT,
        })
    } else {
        None
    }
}

/// The synchronization of a transition of an image from `old_layout` to
/// `new_layout` (raw values), or `None` for a transition the engine does
/// not make.
pub fn layout_transition(old_layout: i32, new_layout: i32) -> (r: Option<LayoutTransition>)
    ensures
        r == spec_layout_transition(old_layout, new_layout),
{
    if old_layout == IMAGE_LAYOUT_UNDEFINED && new_layout == IMAGE_LAYOUT_TRANSFER_DST_OPTIMAL {
        Some(LayoutTransition {
            src_access_mask: 0,
            dst_access_mask: ACCESS_TRANSFER_WRITE,
            source_stage: STAGE_TOP_OF_PIPE,
            destination_stage: STAGE_TRANSFER,
        })
    } else if old_layout == IMAGE_LAYOUT_TRANSFER_DST_OPTIMAL && new_layout == IMAGE_LAYOUT_SHADER_READ_ONLY_OPTIMAL {
        Some(LayoutTransition {
            src_access_mask: ACCESS_TRANSFER_WRITE,
            dst_access_mask: ACCESS_SHADER_READ,
            source_stage: STAGE_TRANSFER,
            destination_stage: STAGE_FRAGMENT_SHADER,
        })
    } else if old_layout == IMAGE_LAYOUT_UNDEFINED && new_layout == IMAGE_LAYOUT_COLOR_ATTACHMENT_OPTIMAL {
        Some(LayoutTransition {
            src_access_mask: 0,
            dst_access_mask: ACCESS_COLOR_ATTACHMENT_READ | ACCESS_COLOR_ATTACHMENT_WRITE,
            source_stage: STAGE_TOP_OF_PIPE,
            destination_stage: STAGE_COLOR_ATTACHMENT_OUTPUT,
        })
    } else {
        None
    }
}

} // verus!
