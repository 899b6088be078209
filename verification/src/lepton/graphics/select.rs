use vstd::prelude::*;

verus! {

/// `VK_FORMAT_B8G8R8A8_SRGB`.
pub const FORMAT_B8G8R8A8_SRGB: i32 = 50;

/// `VK_COLOR_SPACE_SRGB_NONLINEAR_KHR`.
pub const COLOR_SPACE_SRGB_NONLINEAR: i32 = 0;

/// `VK_PRESENT_MODE_MAILBOX_KHR`.
pub const PRESENT_MODE_MAILBOX: i32 = 1;

/// `VK_PRESENT_MODE_FIFO_KHR`.
pub const PRESENT_MODE_FIFO: i32 = 2;

/// A surface format: a pixel format and a color space, by their raw values.
#[derive(PartialEq, Eq, Structural, Copy, Clone, Debug)]
pub struct SurfaceFormat {
    pub format: i32,
    pub color_space: i32,
}

/// A width and a height in pixels.
#[derive(PartialEq, Eq, Structural, Copy, Clone, Debug)]
pub struct Extent2D {
    pub width: u32,
    pub height: u32,
}

/// What a queue family offers: how many queues, whether they draw, and
/// whether they can present to the window's surface.
#[derive(PartialEq, Eq, Structural, Copy, Clone, Debug)]
pub struct QueueFamily {
    pub queue_count: u32,
    pub graphics: bool,
    pub present: bool,
}

/// The multisample counts a sample count mask can hold beyond 1: one bit
/// each, 2 to 64.
pub open spec fn is_sample_bit(b: u32) -> bool {
    b == 2 || b == 4 || b == 8 || b == 16 || b == 32 || b == 64
}

/// The chosen sample count is the highest one a mask holds: it is 1 or a
/// sample bit set in the mask, no higher sample bit is set in the mask,
/// and it is 1 only when the mask holds none of the bits 2 to 64.
pub proof fn lemma_highest_sample_count(count: u32)
    ensures
        highest_sample_count(count) == 1 || (is_sample_bit(highest_sample_count(count)) && count
            & highest_sample_count(count) == highest_sample_count(count)),
        forall|b: u32| is_sample_bit(b) && b > highest_sample_count(count) ==> count & b != b,
        highest_sample_count(count) == 1 <==> forall|b: u32| is_sample_bit(b) ==> count & b != b,
{
    assert(is_sample_bit(2u32) && is_sample_bit(4u32) && is_sample_bit(8u32) && is_sample_bit(16u32)
        && is_sample_bit(32u32) && is_sample_bit(64u32));
}

/// The largest sample count (a single bit, 64 down to 2) that the mask
/// `count` holds, or 1.
pub open spec fn highest_sample_count(count: u32) -> u32 {
    if count & 64 == 64 {
        64
    } else if count & 32 == 32 {
        32
    } else if count & 16 == 16 {
        16
    } else if count & 8 == 8 {
        8
    } else if count & 4 == 4 {
        4
    } else if count & 2 == 2 {
        2
    } else {
        1
    }
}

/// The sample count used for multisampling: the highest one held by the
/// numerically smaller of the color and depth sample count masks.
pub fn max_usable_sample_count(color_counts: u32, depth_counts: u32) -> (r: u32)
    ensures
        r == highest_sample_count(if color_counts <= depth_counts { color_counts } else { depth_counts }),
        ({
            let count = if color_counts <= depth_counts { color_counts } else { depth_counts };
            &&& r == 1 || (is_sample_bit(r) && count & r == r)
            &&& forall|b: u32| is_sample_bit(b) && b > r ==> count & b != b
        }),
{
    proof {
        lemma_highest_sample_count(if color_counts <= depth_counts { color_counts } else { depth_counts });
    }
    let count = if color_counts <= depth_counts { color_counts } else { depth_counts };
    if count & 64 == 64 {
        64
    } else if count & 32 == 32 {
        32
    } else if count & 16 == 16 {
        16
    } else if count & 8 == 8 {
        8
    } else if count & 4 == 4 {
        4
    } else if count & 2 == 2 {
        2
    } else {
        1
    }
}

/// Whether memory type `i` is allowed by `type_filter` and has every
/// property of `required`.
pub open spec fn memory_type_fits(type_filter: u32, required: u32, property_flags: Seq<u32>, i: int) -> bool {
    &&& 0 <= i < property_flags.len()
    &&& type_filter & (1u32 << (i as u32)) != 0
    &&& property_flags[i] & required == required
}

/// The first memory type that `type_filter` allows and that has every
/// property of `required`; `property_flags` lists the properties of each
/// memory type the device offers.
pub fn find_memory_type(type_filter: u32, required: u32, property_flags: &[u32]) -> (r: Option<u32>)
    requires
        property_flags@.len() <= 32,
    ensures
        match r {
            Some(i) => memory_type_fits(type_filter, required, property_flags@, i as int)
                && forall|j: int| 0 <= j < i ==> !memory_type_fits(type_filter, required, property_flags@, j),
            None => forall|j: int| 0 <= j < property_flags@.len() ==> !memory_type_fits(type_filter, required, property_flags@, j),
        },
{
    let mut i: usize = 0;
    while i < property_flags.len()
        invariant
            i <= property_flags@.len() <= 32,
            forall|j: int| 0 <= j < i ==> !memory_type_fits(type_filter, required, property_flags@, j),
        decreases property_flags@.len() - i,
    {
        let bit: u32 = 1u32 << (i as u32);
        if type_filter & bit != 0 && property_flags[i] & required == required {
            return Some(i as u32);
        }
        i = i + 1;
    }
    None
}

/// The surface format to draw with: the first one that is
/// `B8G8R8A8_SRGB` in the sRGB non-linear color space, else the first
/// one offered.
pub fn choose_swapchain_format(available_formats: &[SurfaceFormat]) -> (r: SurfaceFormat)
    requires
        available_formats@.len() > 0,
    ensures
        exists|i: int|
            0 <= i < available_formats@.len() && r == available_formats@[i],
        (exists|i: int|
            0 <= i < available_formats@.len() && available_formats@[i] == (SurfaceFormat {
                format: FORMAT_B8G8R8A8_SRGB,
                color_space: COLOR_SPACE_SRGB_NONLINEAR,
            })) ==> r == (SurfaceFormat { format: FORMAT_B8G8R8A8_SRGB, color_space: COLOR_SPACE_SRGB_NONLINEAR }),
        (forall|i: int|
            0 <= i < available_formats@.len() ==> available_formats@[i] != (SurfaceFormat {
                format: FORMAT_B8G8R8A8_SRGB,
                color_space: COLOR_SPACE_SRGB_NONLINEAR,
            })) ==> r == available_formats@[0],
{
    let mut i: usize = 0;
    while i < available_formats.len()
        invariant
            i <= available_formats@.len(),
            forall|j: int|
                0 <= j < i ==> available_formats@[j] != (SurfaceFormat {
                    format: FORMAT_B8G8R8A8_SRGB,
                    color_space: COLOR_SPACE_SRGB_NONLINEAR,
                }),
        decreases available_formats@.len() - i,
    {
        let f = available_formats[i];
        if f.format == FORMAT_B8G8R8A8_SRGB && f.color_space == COLOR_SPACE_SRGB_NONLINEAR {
            return f;
        }
        i = i + 1;
    }
    available_formats[0]
}

/// The present mode to use: mailbox when offered, else FIFO (which every
/// device offers).
pub fn choose_swapchain_present_mode(available_present_modes: &[i32]) -> (r: i32)
    ensures
        r == (if available_present_modes@.contains(PRESENT_MODE_MAILBOX) {
            PRESENT_MODE_MAILBOX
        } else {
            PRESENT_MODE_FIFO
        }),
{
    let mut i: usize = 0;
    while i < available_present_modes.len()
        invariant
            i <= available_present_modes@.len(),
            forall|j: int| 0 <= j < i ==> available_present_modes@[j] != PRESENT_MODE_MAILBOX,
        decreases available_present_modes@.len() - i,
    {
        if available_present_modes[i] == PRESENT_MODE_MAILBOX {
            return PRESENT_MODE_MAILBOX;
        }
        i = i + 1;
    }
    PRESENT_MODE_FIFO
}

/// `input` brought into `[min, max]`.
pub open spec fn clamped(input: u32, min: u32, max: u32) -> u32 {
    if input < min {
        min
    } else if input > max {
        max
    } else {
        input
    }
}

/// Calls `num::clamp`, which returns `min` below `min`, `max` above
/// `max`, and `input` otherwise; it asserts (in debug builds) that
/// `min <= max`, so that is required.
#[verifier::external_body]
fn clamp_u32(input: u32, min: u32, max: u32) -> (r: u32)
    requires
        min <= max,
    ensures
        r == clamped(input, min, max),
{
    num::clamp(input, min, max)
}

/// The size of the swapchain images: the surface's current extent when it
/// has one (its width is not `u32::MAX`), else the window's size clamped
/// to the extents the surface allows.
pub fn choose_swapchain_extent(
    current_extent: Extent2D,
    min_image_extent: Extent2D,
    max_image_extent: Extent2D,
    window_size: Extent2D,
) -> (r: Extent2D)
    requires
        current_extent.width == u32::MAX ==> min_image_extent.width <= max_image_extent.width
            && min_image_extent.height <= max_image_extent.height,
    ensures
        r == (if current_extent.width != u32::MAX {
            current_extent
        } else {
            Extent2D {
                width: clamped(window_size.width, min_image_extent.width, max_image_extent.width),
                height: clamped(window_size.height, min_image_extent.height, max_image_extent.height),
            }
        }),
{
    if current_extent.width != u32::MAX {
        current_extent
    } else {
        Extent2D {
            width: clamp_u32(window_size.width, min_image_extent.width, max_image_extent.width),
            height: clamp_u32(window_size.height, min_image_extent.height, max_image_extent.height),
        }
    }
}

/// The families found after looking at family `index` with families
/// `found` found before.
pub open spec fn note_family(found: (Option<u32>, Option<u32>), index: int, family: QueueFamily) -> (Option<u32>, Option<u32>) {
    (
        if family.queue_count > 0 && family.graphics { Some(index as u32) } else { found.0 },
        if family.queue_count > 0 && family.present { Some(index as u32) } else { found.1 },
    )
}

/// The families found after looking at the first `n` families, stopping as
/// soon as both a drawing and a presenting family are known.
pub open spec fn scan_families(families: Seq<QueueFamily>, n: nat) -> (Option<u32>, Option<u32>)
    decreases n,
{
    if n == 0 {
        (None, None)
    } else {
        let found = scan_families(families, (n - 1) as nat);
        if found.0 is Some && found.1 is Some {
            found
        } else {
            note_family(found, n - 1, families[n - 1])
        }
    }
}

/// The queue families to draw and present with, as the device's family
/// list is scanned in order: a family with queues takes a role it offers,
/// later ones replacing earlier ones, until both roles are filled.
pub fn find_queue_family(families: &[QueueFamily]) -> (r: super::primitives::QueueFamilyIndices)
    requires
        families@.len() <= u32::MAX,
    ensures
        (r.graphics_family, r.present_family) == scan_families(families@, families@.len()),
{
    let mut indices = super::primitives::QueueFamilyIndices::new();
    let mut i: usize = 0;
    while i < families.len()
        invariant
            i <= families@.len() <= u32::MAX,
            (indices.graphics_family, indices.present_family) == scan_families(families@, i as nat),
            indices.graphics_family is Some && indices.present_family is Some ==> forall|n: nat|
                i <= n <= families@.len() ==> #[trigger] scan_families(families@, n) == scan_families(families@, i as nat),
        decreases families@.len() - i,
    {
        if indices.is_complete() {
            return indices;
        }
        let family = families[i];
        if family.queue_count > 0 && family.graphics {
            indices.graphics_family = Some(i as u32);
        }
        if family.queue_count > 0 && family.present {
            indices.present_family = Some(i as u32);
        }
        i = i + 1;
        proof {
            if indices.graphics_family is Some && indices.present_family is Some {
                assert forall|n: nat| i <= n <= families@.len() implies #[trigger] scan_families(families@, n)
                    == scan_families(families@, i as nat) by {
                    lemma_scan_stays(families@, i as nat, n);
                }
            }
        }
    }
    indices
}

proof fn lemma_scan_stays(families: Seq<QueueFamily>, i: nat, n: nat)
    requires
        i <= n,
        scan_families(families, i).0 is Some,
        scan_families(families, i).1 is Some,
    ensures
        scan_families(families, n) == scan_families(families, i),
    decreases n - i,
{
    if n > i {
        lemma_scan_stays(families, i, (n - 1) as nat);
    }
}

/// Whether every required extension name is among the available ones.
pub open spec fn all_supported(required: Seq<Seq<u8>>, available: Seq<Seq<u8>>) -> bool {
    forall|i: int| 0 <= i < required.len() ==> #[trigger] available.contains(required[i])
}

fn bytes_equal(a: &[u8], b: &[u8]) -> (r: bool)
    ensures
        r == (a@ == b@),
{
    if a.len() != b.len() {
        return false;
    }
    let mut i: usize = 0;
    while i < a.len()
        invariant
            a@.len() == b@.len(),
            i <= a@.len(),
            forall|j: int| 0 <= j < i ==> a@[j] == b@[j],
        decreases a@.len() - i,
    {
        if a[i] != b[i] {
            return false;
        }
        i = i + 1;
    }
    assert(a@ =~= b@);
    true
}

fn contains_name(names: &Vec<Vec<u8>>, name: &Vec<u8>) -> (r: bool)
    ensures
        r == names@.map_values(|v: Vec<u8>| v@).contains(name@),
{
    let ghost views = names@.map_values(|v: Vec<u8>| v@);
    let mut i: usize = 0;
    while i < names.len()
        invariant
            i <= names@.len(),
            views == names@.map_values(|v: Vec<u8>| v@),
            forall|j: int| 0 <= j < i ==> views[j] != name@,
        decreases names@.len() - i,
    {
        if bytes_equal(names[i].as_slice(), name.as_slice()) {
            assert(views[i as int] == name@);
            return true;
        }
        i = i + 1;
    }
    false
}

/// Whether the device offers every required extension; names are compared
/// byte for byte.
pub fn check_device_extension_support(required: &Vec<Vec<u8>>, available: &Vec<Vec<u8>>) -> (r: bool)
    ensures
        r == all_supported(
            required@.map_values(|v: Vec<u8>| v@),
            available@.map_values(|v: Vec<u8>| v@),
        ),
{
    let ghost req = required@.map_values(|v: Vec<u8>| v@);
    let ghost avail = available@.map_values(|v: Vec<u8>| v@);
    let mut i: usize = 0;
    while i < required.len()
        invariant
            i <= required@.len(),
            req == required@.map_values(|v: Vec<u8>| v@),
            avail == available@.map_values(|v: Vec<u8>| v@),
            forall|j: int| 0 <= j < i ==> #[trigger] avail.contains(req[j]),
        decreases required@.len() - i,
    {
        if !contains_name(available, &required[i]) {
            assert(!avail.contains(req[i as int]));
            return false;
        }
        i = i + 1;
    }
    true
}

/// Whether a device can run the engine: it has drawing and presenting
/// queue families, every required extension, at least one surface format
/// and present mode (asked only when the extensions are there), and
/// sampler anisotropy.
pub fn is_physical_device_suitable(
    indices: &super::primitives::QueueFamilyIndices,
    extensions_supported: bool,
    format_count: usize,
    present_mode_count: usize,
    sampler_anisotropy: u32,
) -> (r: bool)
    ensures
        r == (indices.graphics_family is Some && indices.present_family is Some && extensions_supported
            && format_count > 0 && present_mode_count > 0 && sampler_anisotropy == 1),
{
    let is_queue_family_supported = indices.is_complete();
    let is_swapchain_supported = if extensions_supported {
        format_count != 0 && present_mode_count != 0
    } else {
        false
    };
    is_queue_family_supported && extensions_supported && is_swapchain_supported && sampler_anisotropy == 1
}

/// `VK_IMAGE_TILING_OPTIMAL`.
pub const IMAGE_TILING_OPTIMAL: i32 = 0;

/// `VK_IMAGE_TILING_LINEAR`.
pub const IMAGE_TILING_LINEAR: i32 = 1;

/// The features a format offers with linear and with optimal tiling, as
/// raw `VkFormatFeatureFlags`.
#[derive(PartialEq, Eq, Structural, Copy, Clone, Debug)]
pub struct FormatFeatures {
    pub linear_tiling_features: u32,
    pub optimal_tiling_features: u32,
}

/// Whether a format with properties `p` offers every feature of `features`
/// with tiling `tiling` (any other tiling offers nothing).
pub open spec fn format_supports(p: FormatFeatures, tiling: i32, features: u32) -> bool {
    (tiling == IMAGE_TILING_LINEAR && p.linear_tiling_features & features == features)
        || (tiling == IMAGE_TILING_OPTIMAL && p.optimal_tiling_features & features == features)
}

/// The first of the candidate formats (given by their properties, in order
/// of preference) that offers `features` with `tiling`, by position.
pub fn find_supported_format(candidates: &[FormatFeatures], tiling: i32, features: u32) -> (r: Option<usize>)
    ensures
        match r {
            Some(i) => i < candidates@.len() && format_supports(candidates@[i as int], tiling, features)
                && forall|j: int| 0 <= j < i ==> !format_supports(candidates@[j], tiling, features),
            None => forall|j: int| 0 <= j < candidates@.len() ==> !format_supports(candidates@[j], tiling, features),
        },
{
    let mut i: usize = 0;
    while i < candidates.len()
        invariant
            i <= candidates@.len(),
            forall|j: int| 0 <= j < i ==> !format_supports(candidates@[j], tiling, features),
        decreases candidates@.len() - i,
    {
        let p = candidates[i];
        if (tiling == IMAGE_TILING_LINEAR && p.linear_tiling_features & features == features)
            || (tiling == IMAGE_TILING_OPTIMAL && p.optimal_tiling_features & features == features) {
            return Some(i);
        }
        i = i + 1;
    }
    None
}

} // verus!
