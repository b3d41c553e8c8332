use ralk::render_graph::{
    build_frame_graph, FrameImages, FrameOptions, GraphError, ImageBarrier, ImageLayout,
    RenderGraph, ResourceAccess, ACCESS_COLOR_ATTACHMENT_WRITE, ACCESS_DEPTH_STENCIL_ATTACHMENT_READ,
    ACCESS_DEPTH_STENCIL_ATTACHMENT_WRITE, ACCESS_NONE, ACCESS_SHADER_READ, ASPECT_COLOR,
    ASPECT_DEPTH, STAGE_COLOR_ATTACHMENT_OUTPUT, STAGE_EARLY_FRAGMENT_TESTS, STAGE_FRAGMENT_SHADER,
    STAGE_LATE_FRAGMENT_TESTS, STAGE_TOP_OF_PIPE, BLOOM_LEVELS,
};

#[test]
fn color_init_pass_gets_undefined_to_attachment_barrier() {
    let mut g = RenderGraph::new();
    let img = g.add_resource(10, ASPECT_COLOR, ImageLayout::Undefined);
    g.add_pass("Init", &[(img, ResourceAccess::color_init())]);
    assert!(g.compile().is_ok());
    assert_eq!(g.current_pass_name(), "Init");
    let enter = g.begin_pass();
    assert_eq!(enter.src_stage, STAGE_TOP_OF_PIPE);
    assert_eq!(enter.dst_stage, STAGE_COLOR_ATTACHMENT_OUTPUT);
    assert_eq!(
        enter.barriers,
        vec![ImageBarrier {
            src_access: ACCESS_NONE,
            dst_access: ACCESS_COLOR_ATTACHMENT_WRITE,
            old_layout: ImageLayout::Undefined,
            new_layout: ImageLayout::ColorAttachmentOptimal,
            image: 10,
            aspect: ASPECT_COLOR,
        }]
    );
    let exit = g.end_pass();
    assert!(exit.barriers.is_empty());
    assert_eq!(exit.src_stage, 0);
    assert_eq!(g.current_pass_name(), "<done>");
}

#[test]
fn no_barrier_when_already_in_required_layout() {
    let mut g = RenderGraph::new();
    let img = g.add_resource(3, ASPECT_COLOR, ImageLayout::ColorAttachmentOptimal);
    g.add_pass("Draw", &[(img, ResourceAccess::color_attachment())]);
    let enter = g.begin_pass();
    assert!(enter.barriers.is_empty());
    assert_eq!(enter.src_stage, 0);
    assert_eq!(enter.dst_stage, 0);
}

#[test]
fn shadow_write_then_read_tracks_layouts() {
    let mut g = RenderGraph::new();
    let shadow = g.add_resource(7, ASPECT_DEPTH, ImageLayout::Undefined);
    g.add_pass("Shadow", &[(shadow, ResourceAccess::shadow_write())]);
    g.add_pass("Main", &[(shadow, ResourceAccess::shader_read())]);
    assert!(g.compile().is_ok());

    let enter = g.begin_pass();
    assert_eq!(enter.barriers.len(), 1);
    assert_eq!(enter.barriers[0].old_layout, ImageLayout::Undefined);
    assert_eq!(enter.barriers[0].new_layout, ImageLayout::DepthStencilAttachmentOptimal);
    assert_eq!(enter.src_stage, STAGE_FRAGMENT_SHADER);
    assert_eq!(enter.dst_stage, STAGE_EARLY_FRAGMENT_TESTS | STAGE_LATE_FRAGMENT_TESTS);
    assert_eq!(
        enter.barriers[0].dst_access,
        ACCESS_DEPTH_STENCIL_ATTACHMENT_READ | ACCESS_DEPTH_STENCIL_ATTACHMENT_WRITE
    );

    let exit = g.end_pass();
    assert_eq!(
        exit.barriers,
        vec![ImageBarrier {
            src_access: ACCESS_DEPTH_STENCIL_ATTACHMENT_WRITE,
            dst_access: ACCESS_SHADER_READ,
            old_layout: ImageLayout::DepthStencilAttachmentOptimal,
            new_layout: ImageLayout::ShaderReadOnlyOptimal,
            image: 7,
            aspect: ASPECT_DEPTH,
        }]
    );
    assert_eq!(exit.src_stage, STAGE_EARLY_FRAGMENT_TESTS | STAGE_LATE_FRAGMENT_TESTS);
    assert_eq!(exit.dst_stage, STAGE_FRAGMENT_SHADER);

    assert_eq!(g.current_pass_name(), "Main");
    // The exit barrier already put the shadow map where the reader wants it.
    let enter = g.begin_pass();
    assert!(enter.barriers.is_empty());
    g.end_pass();
    assert_eq!(g.current_pass_name(), "<done>");
}

#[test]
fn reading_an_unproduced_image_is_rejected() {
    let mut g = RenderGraph::new();
    let a = g.add_resource(1, ASPECT_COLOR, ImageLayout::Undefined);
    let b = g.add_resource(2, ASPECT_COLOR, ImageLayout::Undefined);
    g.add_pass("Init", &[(a, ResourceAccess::color_init())]);
    g.add_pass("Use", &[(a, ResourceAccess::shader_read()), (b, ResourceAccess::shader_read())]);
    match g.compile() {
        Err(GraphError::UnproducedRead { pass, pass_name, resource }) => {
            assert_eq!(pass, 1);
            assert_eq!(pass_name, "Use");
            assert_eq!(resource, 1);
        }
        _ => panic!("expected an unproduced read"),
    }
}

#[test]
fn foreign_resource_id_is_out_of_range() {
    let mut other = RenderGraph::new();
    other.add_resource(1, ASPECT_COLOR, ImageLayout::Undefined);
    let foreign = other.add_resource(2, ASPECT_COLOR, ImageLayout::Undefined);
    let mut g = RenderGraph::new();
    g.add_resource(5, ASPECT_COLOR, ImageLayout::Undefined);
    g.add_pass("Bad", &[(foreign, ResourceAccess::color_init())]);
    match g.compile() {
        Err(GraphError::ResourceOutOfRange { pass, pass_name, resource, resource_count }) => {
            assert_eq!(pass, 0);
            assert_eq!(pass_name, "Bad");
            assert_eq!(resource, 1);
            assert_eq!(resource_count, 1);
        }
        _ => panic!("expected an out-of-range resource"),
    }
}

#[test]
fn empty_graph_compiles_and_is_done() {
    let g = RenderGraph::new();
    assert!(g.compile().is_ok());
    assert_eq!(g.current_pass_name(), "<done>");
}

fn frame_images() -> FrameImages {
    FrameImages {
        swapchain: 100,
        shadow_map: 101,
        hdr_color: 102,
        bloom: vec![110, 111, 112, 113, 114],
        msaa_color: Some(120),
        msaa_depth: Some((121, ASPECT_DEPTH)),
    }
}

fn pass_names(mut g: RenderGraph) -> Vec<&'static str> {
    let mut names = Vec::new();
    while g.current_pass_name() != "<done>" {
        names.push(g.current_pass_name());
        g.begin_pass();
        g.end_pass();
    }
    names
}

#[test]
fn frame_graph_with_everything_enabled() {
    assert_eq!(BLOOM_LEVELS, 5);
    let opts = FrameOptions { bloom_enabled: true, wireframe: true, gizmo: true, egui: true };
    let g = build_frame_graph(&frame_images(), opts);
    assert!(g.compile().is_ok());
    assert_eq!(
        pass_names(g),
        vec![
            "FrameInit", "Shadow", "Main+Skybox", "BloomDown0", "BloomDown1", "BloomDown2",
            "BloomDown3", "BloomDown4", "BloomUp3", "BloomUp2", "BloomUp1", "BloomUp0",
            "Composite", "Wireframe", "Gizmo", "Egui", "Present",
        ]
    );
}

#[test]
fn frame_graph_minimal() {
    let opts = FrameOptions { bloom_enabled: false, wireframe: false, gizmo: false, egui: false };
    let mut images = frame_images();
    images.msaa_color = None;
    images.msaa_depth = None;
    let g = build_frame_graph(&images, opts);
    assert!(g.compile().is_ok());
    assert_eq!(pass_names(g), vec!["FrameInit", "Shadow", "Main+Skybox", "Composite", "Present"]);
}

#[test]
fn frame_graph_ends_with_swapchain_presentable() {
    let opts = FrameOptions { bloom_enabled: true, wireframe: false, gizmo: false, egui: true };
    let mut g = build_frame_graph(&frame_images(), opts);
    let mut last_swapchain_layout = ImageLayout::Undefined;
    while g.current_pass_name() != "<done>" {
        for b in g.begin_pass().barriers {
            if b.image == 100 {
                last_swapchain_layout = b.new_layout;
            }
        }
        for b in g.end_pass().barriers {
            if b.image == 100 {
                last_swapchain_layout = b.new_layout;
            }
        }
    }
    assert_eq!(last_swapchain_layout, ImageLayout::PresentSrc);
}
