//! Device and swapchain selection policy: which GPU, queue family, surface
//! format, extent, image count, depth format and MSAA level the renderer
//! uses, decided from the capabilities the driver reports.
use vstd::prelude::*;

verus! {

/// `VK_API_VERSION_1_2`.
pub const API_VERSION_1_2: u32 = 0x0040_2000;
/// `VK_API_VERSION_1_3`.
pub const API_VERSION_1_3: u32 = 0x0040_3000;
/// `VK_FORMAT_B8G8R8A8_SRGB`.
pub const FORMAT_B8G8R8A8_SRGB: i32 = 50;
/// `VK_FORMAT_D32_SFLOAT`.
pub const FORMAT_D32_SFLOAT: i32 = 126;
/// `VK_FORMAT_D24_UNORM_S8_UINT`.
pub const FORMAT_D24_UNORM_S8_UINT: i32 = 129;
/// `VK_FORMAT_D32_SFLOAT_S8_UINT`.
pub const FORMAT_D32_SFLOAT_S8_UINT: i32 = 130;
/// `VK_COLOR_SPACE_SRGB_NONLINEAR_KHR`.
pub const COLOR_SPACE_SRGB_NONLINEAR: i32 = 0;
/// `VK_IMAGE_ASPECT_DEPTH_BIT`.
pub const ASPECT_DEPTH: u32 = 0x2;
/// `VK_IMAGE_ASPECT_STENCIL_BIT`.
pub const ASPECT_STENCIL: u32 = 0x4;

/// What the selection needs to know about one physical device.
#[derive(Debug, Clone, Copy)]
pub struct DeviceCandidate {
    /// `VkPhysicalDeviceProperties::apiVersion`.
    pub api_version: u32,
    /// `VK_KHR_swapchain` is available.
    pub has_swapchain: bool,
    /// `VK_KHR_dynamic_rendering` is available.
    pub has_dynamic_rendering: bool,
    /// First queue family with graphics and present support, if any.
    pub queue_family: Option<u32>,
    /// The device is a discrete GPU.
    pub is_discrete: bool,
}

/// The chosen device.
#[derive(Debug, Clone, Copy, PartialEq, Eq, Structural)]
pub struct DeviceChoice {
    /// Index of the device in the enumeration.
    pub index: usize,
    pub queue_family_index: u32,
    /// The device supports Vulkan 1.3 (dynamic rendering is core).
    pub supports_vulkan_13: bool,
}

/// A device is usable: Vulkan 1.2 or later, swapchain support, dynamic
/// rendering (core in 1.3 or by extension), and a graphics+present queue.
pub open spec fn suitable(c: DeviceCandidate) -> bool {
    &&& c.api_version >= API_VERSION_1_2
    &&& c.has_swapchain
    &&& (c.api_version >= API_VERSION_1_3 || c.has_dynamic_rendering)
    &&& c.queue_family is Some
}

/// The choice made for device `i`.
pub open spec fn choice_for(cands: Seq<DeviceCandidate>, i: int) -> DeviceChoice {
    DeviceChoice {
        index: i as usize,
        queue_family_index: cands[i].queue_family->Some_0,
        supports_vulkan_13: cands[i].api_version >= API_VERSION_1_3,
    }
}

/// Index of the first device of `cands[..n]` satisfying `p`.
pub open spec fn first_with(cands: Seq<DeviceCandidate>, n: int, discrete_only: bool) -> Option<int>
    decreases n,
{
    if n <= 0 {
        None
    } else {
        match first_with(cands, n - 1, discrete_only) {
            Some(i) => Some(i),
            None => if suitable(cands[n - 1]) && (!discrete_only || cands[n - 1].is_discrete) {
                Some(n - 1)
            } else {
                None
            },
        }
    }
}

/// The device policy: the first suitable discrete GPU, or else the first
/// suitable device of any kind.
pub open spec fn spec_select_device(cands: Seq<DeviceCandidate>) -> Option<DeviceChoice> {
    match first_with(cands, cands.len() as int, true) {
        Some(i) => Some(choice_for(cands, i)),
        None => match first_with(cands, cands.len() as int, false) {
            Some(i) => Some(choice_for(cands, i)),
            None => None,
        },
    }
}

proof fn lemma_first_with_range(cands: Seq<DeviceCandidate>, n: int, d: bool)
    requires
        n <= cands.len(),
    ensures
        first_with(cands, n, d) matches Some(i) ==> 0 <= i < n && suitable(cands[i]) && (!d
            || cands[i].is_discrete),
    decreases n,
{
    if n > 0 {
        lemma_first_with_range(cands, n - 1, d);
    }
}

/// Pick the GPU to render with: the first suitable discrete GPU, otherwise
/// the first suitable device; `None` when no device is suitable.
pub fn select_physical_device(cands: &Vec<DeviceCandidate>) -> (r: Option<DeviceChoice>)
    ensures
        r == spec_select_device(cands@),
{
    let mut best: Option<DeviceChoice> = None;
    let mut best_is_discrete = false;
    let mut i: usize = 0;
    while i < cands.len()
        invariant
            i <= cands@.len(),
            match first_with(cands@, i as int, true) {
                Some(k) => best == Some(choice_for(cands@, k)) && best_is_discrete,
                None => !best_is_discrete && match first_with(cands@, i as int, false) {
                    Some(k) => best == Some(choice_for(cands@, k)),
                    None => best is None,
                },
            },
        decreases cands@.len() - i,
    {
        let c = cands[i];
        proof {
            lemma_first_with_range(cands@, i as int, true);
            lemma_first_with_range(cands@, i as int, false);
        }
        if c.api_version >= API_VERSION_1_2 && c.has_swapchain {
            let supports_13 = c.api_version >= API_VERSION_1_3;
            if supports_13 || c.has_dynamic_rendering {
                match c.queue_family {
                    Some(qf) => {
                        if best.is_none() || (c.is_discrete && !best_is_discrete) {
                            best = Some(
                                DeviceChoice {
                                    index: i,
                                    queue_family_index: qf,
                                    supports_vulkan_13: supports_13,
                                },
                            );
                            best_is_discrete = c.is_discrete;
                        }
                    },
                    None => {},
                }
            }
        }
        i = i + 1;
    }
    best
}

/// Index of the first queue family with both graphics and present support.
pub fn find_queue_family(families: &Vec<(bool, bool)>) -> (r: Option<u32>)
    requires
        families@.len() <= u32::MAX,
    ensures
        r matches Some(k) ==> k < families@.len() && families@[k as int].0 && families@[k as int].1
            && forall|j: int| 0 <= j < k ==> !(#[trigger] families@[j].0 && families@[j].1),
        r is None ==> forall|j: int|
            0 <= j < families@.len() ==> !(#[trigger] families@[j].0 && families@[j].1),
{
    let mut i: usize = 0;
    while i < families.len()
        invariant
            i <= families@.len(),
            families@.len() <= u32::MAX,
            forall|j: int| 0 <= j < i ==> !(#[trigger] families@[j].0 && families@[j].1),
        decreases families@.len() - i,
    {
        let (graphics, present) = families[i];
        if graphics && present {
            return Some(i as u32);
        }
        i = i + 1;
    }
    None
}

/// Pick the surface format: the first B8G8R8A8_SRGB + SRGB_NONLINEAR pair,
/// otherwise the first one; `None` when the surface reports no format.
pub fn choose_surface_format(formats: &Vec<(i32, i32)>) -> (r: Option<usize>)
    ensures
        formats@.len() == 0 ==> r is None,
        (exists|j: int|
            0 <= j < formats@.len() && #[trigger] formats@[j] == (
            FORMAT_B8G8R8A8_SRGB,
            COLOR_SPACE_SRGB_NONLINEAR,
        )) ==> (r matches Some(k) && formats@[k as int] == (
            FORMAT_B8G8R8A8_SRGB,
            COLOR_SPACE_SRGB_NONLINEAR,
        ) && forall|j: int| 0 <= j < k ==> #[trigger] formats@[j] != (
            FORMAT_B8G8R8A8_SRGB,
            COLOR_SPACE_SRGB_NONLINEAR,
        )),
        formats@.len() > 0 && !(exists|j: int|
            0 <= j < formats@.len() && #[trigger] formats@[j] == (
            FORMAT_B8G8R8A8_SRGB,
            COLOR_SPACE_SRGB_NONLINEAR,
        )) ==> r == Some(0usize),
{
    let mut i: usize = 0;
    while i < formats.len()
        invariant
            i <= formats@.len(),
            forall|j: int| 0 <= j < i ==> #[trigger] formats@[j] != (
                FORMAT_B8G8R8A8_SRGB,
                COLOR_SPACE_SRGB_NONLINEAR,
            ),
        decreases formats@.len() - i,
    {
        let (f, cs) = formats[i];
        if f == FORMAT_B8G8R8A8_SRGB && cs == COLOR_SPACE_SRGB_NONLINEAR {
            return Some(i);
        }
        i = i + 1;
    }
    if formats.len() > 0 {
        Some(0)
    } else {
        None
    }
}

/// Clamp a value into `[lo, hi]` (`u32::clamp`).
pub open spec fn clamp(v: u32, lo: u32, hi: u32) -> u32 {
    if v < lo {
        lo
    } else if v > hi {
        hi
    } else {
        v
    }
}

/// Swapchain extent: the surface's current extent when it is defined,
/// otherwise the window size clamped into the supported range.
pub fn choose_extent(
    current: (u32, u32),
    window: (u32, u32),
    min: (u32, u32),
    max: (u32, u32),
) -> (r: (u32, u32))
    requires
        current.0 == u32::MAX ==> min.0 <= max.0 && min.1 <= max.1,
    ensures
        current.0 != u32::MAX ==> r == current,
        current.0 == u32::MAX ==> r == (clamp(window.0, min.0, max.0), clamp(window.1, min.1, max.1)),
{
    if current.0 != u32::MAX {
        current
    } else {
        let w = if window.0 < min.0 {
            min.0
        } else if window.0 > max.0 {
            max.0
        } else {
            window.0
        };
        let h = if window.1 < min.1 {
            min.1
        } else if window.1 > max.1 {
            max.1
        } else {
            window.1
        };
        (w, h)
    }
}

/// Swapchain image count: one more than the minimum (triple buffering),
/// capped at the maximum when the surface has one (0 = unlimited).
pub fn choose_image_count(min_count: u32, max_count: u32) -> (r: u32)
    requires
        min_count < u32::MAX,
    ensures
        r == if max_count > 0 && min_count + 1 > max_count {
            max_count as int
        } else {
            min_count + 1
        },
{
    let mut image_count = min_count + 1;
    if max_count > 0 && image_count > max_count {
        image_count = max_count;
    }
    image_count
}

/// The depth formats tried, in order of preference.
pub open spec fn depth_candidates() -> Seq<i32> {
    seq![FORMAT_D32_SFLOAT, FORMAT_D32_SFLOAT_S8_UINT, FORMAT_D24_UNORM_S8_UINT]
}

/// The best supported depth format: the first of D32_SFLOAT,
/// D32_SFLOAT_S8_UINT, D24_UNORM_S8_UINT whose optimal tiling supports
/// depth/stencil attachments (`supported[i]` for candidate `i`).
pub fn find_depth_format(supported: [bool; 3]) -> (r: i32)
    requires
        supported@[0] || supported@[1] || supported@[2],
    ensures
        exists|i: int|
            0 <= i < 3 && supported@[i] && r == depth_candidates()[i] && forall|j: int|
                0 <= j < i ==> !#[trigger] supported@[j],
{
    if supported[0] {
        assert(r_is(FORMAT_D32_SFLOAT, 0, supported@));
        FORMAT_D32_SFLOAT
    } else if supported[1] {
        assert(r_is(FORMAT_D32_SFLOAT_S8_UINT, 1, supported@));
        FORMAT_D32_SFLOAT_S8_UINT
    } else {
        assert(r_is(FORMAT_D24_UNORM_S8_UINT, 2, supported@));
        FORMAT_D24_UNORM_S8_UINT
    }
}

spec fn r_is(r: i32, i: int, supported: Seq<bool>) -> bool {
    0 <= i < 3 && supported[i] && r == depth_candidates()[i] && forall|j: int|
        0 <= j < i ==> !#[trigger] supported[j]
}

/// Aspect bits of a depth format: depth only for D32_SFLOAT, depth and
/// stencil for the formats that carry stencil.
pub fn depth_aspect(format: i32) -> (r: u32)
    ensures
        r == if format == FORMAT_D32_SFLOAT {
            ASPECT_DEPTH
        } else {
            ASPECT_DEPTH | ASPECT_STENCIL
        },
{
    if format == FORMAT_D32_SFLOAT {
        ASPECT_DEPTH
    } else {
        ASPECT_DEPTH | ASPECT_STENCIL
    }
}

/// The highest MSAA sample count (8, 4 or 2) supported for both color and
/// depth attachments, or 1.  Arguments and result are sample-count bits.
pub fn max_msaa_samples(color_counts: u32, depth_counts: u32) -> (r: u32)
    ensures
        r == if (color_counts & depth_counts) & 8 == 8 {
            8
        } else if (color_counts & depth_counts) & 4 == 4 {
            4
        } else if (color_counts & depth_counts) & 2 == 2 {
            2u32
        } else {
            1u32
        },
{
    let both = color_counts & depth_counts;
    if both & 8 == 8 {
        8
    } else if both & 4 == 4 {
        4
    } else if both & 2 == 2 {
        2
    } else {
        1
    }
}


/// Memory type `i` is allowed by the resource's `type_bits` and has every
/// property bit of `required`.
pub open spec fn memory_type_fits(type_bits: u32, flags: Seq<u32>, i: int, required: u32) -> bool {
    ((type_bits >> (i as u32)) & 1u32) == 1u32 && (flags[i] & required) == required
}

/// The first memory type that the resource may live in and that has all the
/// `required` property bits (`flags[i]` are the property bits of type `i`).
pub fn find_memory_type(type_bits: u32, flags: &Vec<u32>, required: u32) -> (r: Option<u32>)
    requires
        flags@.len() <= 32,
    ensures
        r matches Some(i) ==> i < flags@.len() && memory_type_fits(type_bits, flags@, i as int, required)
            && forall|j: int| 0 <= j < i ==> !#[trigger] memory_type_fits(type_bits, flags@, j, required),
        r is None ==> forall|j: int|
            0 <= j < flags@.len() ==> !#[trigger] memory_type_fits(type_bits, flags@, j, required),
{
    let mut i: usize = 0;
    while i < flags.len()
        invariant
            i <= flags@.len() <= 32,
            forall|j: int| 0 <= j < i ==> !#[trigger] memory_type_fits(type_bits, flags@, j, required),
        decreases flags@.len() - i,
    {
        let k = i as u32;
        if (type_bits >> k) & 1 == 1 && (flags[i] & required) == required {
            return Some(k);
        }
        i = i + 1;
    }
    None
}

} // verus!
