use ralk::device::{
    choose_extent, choose_image_count, find_memory_type, choose_surface_format, depth_aspect, find_depth_format,
    find_queue_family, max_msaa_samples, select_physical_device, DeviceCandidate, DeviceChoice,
    API_VERSION_1_2, API_VERSION_1_3, ASPECT_DEPTH, ASPECT_STENCIL, COLOR_SPACE_SRGB_NONLINEAR,
    FORMAT_B8G8R8A8_SRGB, FORMAT_D24_UNORM_S8_UINT, FORMAT_D32_SFLOAT, FORMAT_D32_SFLOAT_S8_UINT,
};
use ralk::profiler::{FrameReset, PipelineStats, QueryTracker, MAX_TS_QUERIES};

fn cand(api: u32, swap: bool, dynr: bool, qf: Option<u32>, discrete: bool) -> DeviceCandidate {
    DeviceCandidate {
        api_version: api,
        has_swapchain: swap,
        has_dynamic_rendering: dynr,
        queue_family: qf,
        is_discrete: discrete,
    }
}

#[test]
fn prefers_first_suitable_discrete_gpu() {
    let cands = vec![
        cand(API_VERSION_1_3, true, false, Some(0), false),
        cand(API_VERSION_1_2, true, true, Some(2), true),
        cand(API_VERSION_1_3, true, false, Some(1), true),
    ];
    assert_eq!(
        select_physical_device(&cands),
        Some(DeviceChoice { index: 1, queue_family_index: 2, supports_vulkan_13: false })
    );
}

#[test]
fn falls_back_to_first_suitable_device() {
    let cands = vec![
        cand(API_VERSION_1_3, false, true, Some(0), true),
        cand(API_VERSION_1_2, true, false, Some(0), true),
        cand(API_VERSION_1_3, true, false, None, true),
        cand(API_VERSION_1_3, true, false, Some(3), false),
    ];
    assert_eq!(
        select_physical_device(&cands),
        Some(DeviceChoice { index: 3, queue_family_index: 3, supports_vulkan_13: true })
    );
    assert_eq!(select_physical_device(&cands[..3].to_vec()), None);
    assert_eq!(select_physical_device(&Vec::new()), None);
    // Vulkan 1.1 is too old.
    assert_eq!(select_physical_device(&vec![cand(0x0040_1000, true, true, Some(0), true)]), None);
}

#[test]
fn queue_family_needs_graphics_and_present() {
    assert_eq!(find_queue_family(&vec![(true, false), (false, true), (true, true), (true, true)]), Some(2));
    assert_eq!(find_queue_family(&vec![(true, false)]), None);
}

#[test]
fn surface_format_choice() {
    let preferred = (FORMAT_B8G8R8A8_SRGB, COLOR_SPACE_SRGB_NONLINEAR);
    assert_eq!(choose_surface_format(&vec![(44, 0), preferred]), Some(1));
    assert_eq!(choose_surface_format(&vec![(44, 0), (FORMAT_B8G8R8A8_SRGB, 1)]), Some(0));
    assert_eq!(choose_surface_format(&Vec::new()), None);
}

#[test]
fn extent_and_image_count() {
    assert_eq!(choose_extent((800, 600), (1, 1), (0, 0), (4096, 4096)), (800, 600));
    assert_eq!(choose_extent((u32::MAX, u32::MAX), (5000, 10), (16, 16), (4096, 4096)), (4096, 16));
    assert_eq!(choose_image_count(2, 0), 3);
    assert_eq!(choose_image_count(2, 8), 3);
    assert_eq!(choose_image_count(3, 3), 3);
}

#[test]
fn depth_format_and_aspect() {
    assert_eq!(find_depth_format([true, true, true]), FORMAT_D32_SFLOAT);
    assert_eq!(find_depth_format([false, true, true]), FORMAT_D32_SFLOAT_S8_UINT);
    assert_eq!(find_depth_format([false, false, true]), FORMAT_D24_UNORM_S8_UINT);
    assert_eq!(depth_aspect(FORMAT_D32_SFLOAT), ASPECT_DEPTH);
    assert_eq!(depth_aspect(FORMAT_D24_UNORM_S8_UINT), ASPECT_DEPTH | ASPECT_STENCIL);
}

#[test]
fn msaa_sample_counts() {
    assert_eq!(max_msaa_samples(0b1111, 0b1111), 8);
    assert_eq!(max_msaa_samples(0b1111, 0b0111), 4);
    assert_eq!(max_msaa_samples(0b1011, 0b0111), 2);
    assert_eq!(max_msaa_samples(0b0001, 0b1111), 1);
}

#[test]
fn profiler_pairs_pass_timestamps() {
    let mut t = QueryTracker::new(true, true);
    assert_eq!(t.begin_frame(0), FrameReset { timestamps: true, pipeline_stats: true });
    assert_eq!(t.begin_pass(0, "Shadow"), Some(0));
    assert_eq!(t.end_pass(0), Some(1));
    assert_eq!(t.begin_pass(0, "Main"), Some(2));
    assert_eq!(t.end_pass(0), Some(3));
    assert_eq!(t.timestamps_to_read(0), Some(4));
    assert_eq!(t.timestamps_to_read(1), None);
    // The second pass has an end before its begin and is dropped.
    let pairs = t.pair_timestamps(0, &vec![100, 250, 400, 399]);
    assert_eq!(pairs, vec![("Shadow", 150)]);
    // A new frame in the slot forgets its passes.
    t.begin_frame(0);
    assert_eq!(t.timestamps_to_read(0), None);
}

#[test]
fn profiler_without_timestamps_hands_out_nothing() {
    let mut t = QueryTracker::new(false, false);
    assert_eq!(t.begin_frame(1), FrameReset { timestamps: false, pipeline_stats: false });
    assert_eq!(t.begin_pass(1, "Main"), None);
    assert_eq!(t.end_pass(1), None);
    assert!(!t.begin_stats(1));
    assert!(!t.end_stats(1));
    assert!(!t.supports_timestamps() && !t.supports_pipeline_stats());
}

#[test]
fn profiler_slot_fills_up() {
    let mut t = QueryTracker::new(true, false);
    t.begin_frame(0);
    let mut handed = 0;
    for _ in 0..MAX_TS_QUERIES {
        if t.begin_pass(0, "P").is_some() {
            handed += 1;
            t.end_pass(0);
        }
    }
    assert_eq!(handed, MAX_TS_QUERIES / 2);
    assert_eq!(t.begin_pass(0, "late"), None);
    assert_eq!(t.end_pass(0), None);
}

#[test]
fn profiler_statistics_queries() {
    let mut t = QueryTracker::new(false, true);
    assert!(!t.end_stats(0));
    assert!(t.begin_stats(0));
    assert!(t.end_stats(0));
    assert!(!t.end_stats(0));
    let s = PipelineStats::from_query([10, 20, 30]);
    assert_eq!(s.vertex_invocations, 10);
    assert_eq!(s.clipping_primitives, 20);
    assert_eq!(s.fragment_invocations, 30);
    assert_eq!(PipelineStats::default().vertex_invocations, 0);
}

#[test]
fn memory_type_selection() {
    let flags = vec![0b0001, 0b0110, 0b0111, 0b0110];
    // Type 1 is excluded by the resource's bits; type 2 has the properties.
    assert_eq!(find_memory_type(0b1101, &flags, 0b0110), Some(2));
    assert_eq!(find_memory_type(0b1111, &flags, 0b0110), Some(1));
    assert_eq!(find_memory_type(0b0001, &flags, 0b0110), None);
    assert_eq!(find_memory_type(u32::MAX, &flags, 0), Some(0));
    assert_eq!(find_memory_type(u32::MAX, &Vec::new(), 0), None);
}
