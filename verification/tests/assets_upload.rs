use ralk::assets::{
    builtin_cube_indices, mark_srgb_textures, merge_model_indices, to_rgba8, MaterialSlots,
    ModelIndices, PixelFormat, TextureData,
};
use ralk::render_graph::ImageLayout;
use ralk::shader::{changed_targets, log_reloads, FileEvent, FileEventKind, ShaderTarget, RELOAD_LOG_LINES};
use ralk::upload::{
    cubemap_copy_plan, mip_blits, mip_level_count, rgba8_size, texture_upload_plan, CubeCopy,
    MipBlit, UploadStep,
};

#[test]
fn mip_level_counts() {
    assert_eq!(mip_level_count(1, 1), 1);
    assert_eq!(mip_level_count(256, 128), 9);
    assert_eq!(mip_level_count(128, 256), 9);
    assert_eq!(mip_level_count(3, 5), 3);
    assert_eq!(mip_level_count(1024, 1), 11);
    assert_eq!(mip_level_count(0, 0), 1);
    assert_eq!(mip_level_count(u32::MAX, 7), 32);
}

#[test]
fn mip_blits_halve_down_to_one() {
    assert_eq!(
        mip_blits(4, 2),
        vec![
            MipBlit { src_level: 0, src_width: 4, src_height: 2, dst_width: 2, dst_height: 1 },
            MipBlit { src_level: 1, src_width: 2, src_height: 1, dst_width: 1, dst_height: 1 },
        ]
    );
    assert!(mip_blits(1, 1).is_empty());
    let b = mip_blits(5, 3);
    assert_eq!(b.len(), 2);
    assert_eq!((b[1].src_width, b[1].src_height, b[1].dst_width, b[1].dst_height), (2, 1, 1, 1));
}

/// Runs an upload plan over per-level layouts, checking every command
/// against the layouts it needs.
fn run_plan(plan: &[UploadStep], levels: usize) -> Vec<ImageLayout> {
    let mut st = vec![ImageLayout::Undefined; levels];
    for step in plan {
        match step {
            UploadStep::Barrier(b) => {
                let lo = b.base_level as usize;
                let hi = lo + b.level_count as usize;
                assert!(hi <= levels);
                for l in lo..hi {
                    assert_eq!(st[l], b.old_layout);
                    st[l] = b.new_layout;
                }
            }
            UploadStep::CopyToBase { .. } => assert_eq!(st[0], ImageLayout::TransferDstOptimal),
            UploadStep::Blit(bl) => {
                let s = bl.src_level as usize;
                assert_eq!(st[s], ImageLayout::TransferSrcOptimal);
                assert_eq!(st[s + 1], ImageLayout::TransferDstOptimal);
            }
        }
    }
    st
}

#[test]
fn texture_upload_plan_leaves_every_level_readable() {
    let plan = texture_upload_plan(4, 2);
    assert_eq!(plan.len(), 9);
    assert_eq!(plan[1], UploadStep::CopyToBase { width: 4, height: 2 });
    let st = run_plan(&plan, 3);
    assert_eq!(st, vec![ImageLayout::ShaderReadOnlyOptimal; 3]);

    let single = texture_upload_plan(1, 1);
    assert_eq!(single.len(), 3);
    assert_eq!(run_plan(&single, 1), vec![ImageLayout::ShaderReadOnlyOptimal]);

    let big = texture_upload_plan(1000, 300);
    assert_eq!(run_plan(&big, 10), vec![ImageLayout::ShaderReadOnlyOptimal; 10]);
}

#[test]
fn rgba8_sizes() {
    assert_eq!(rgba8_size(2, 3), Some(24));
    assert_eq!(rgba8_size(0, 9), Some(0));
    assert_eq!(rgba8_size(0x4000, 0x4000), Some(1 << 30));
    assert_eq!(rgba8_size(32768, 32768), None);
    assert_eq!(rgba8_size(u32::MAX, u32::MAX), None);
}

#[test]
fn cubemap_regions_point_at_their_faces() {
    let mips = vec![vec![vec![1u8, 2], vec![3]], vec![vec![4u8, 5, 6]]];
    let (staging, regions) = cubemap_copy_plan(&mips, 4);
    assert_eq!(staging, vec![1, 2, 3, 4, 5, 6]);
    assert_eq!(
        regions,
        vec![
            CubeCopy { buffer_offset: 0, mip_level: 0, layer: 0, size: 4 },
            CubeCopy { buffer_offset: 2, mip_level: 0, layer: 1, size: 4 },
            CubeCopy { buffer_offset: 3, mip_level: 1, layer: 0, size: 2 },
        ]
    );
    // Each region reads back exactly its face.
    let mut k = 0;
    for (m, faces) in mips.iter().enumerate() {
        for (f, face) in faces.iter().enumerate() {
            let r = regions[k];
            assert_eq!((r.mip_level as usize, r.layer as usize), (m, f));
            let off = r.buffer_offset as usize;
            assert_eq!(&staging[off..off + face.len()], &face[..]);
            k += 1;
        }
    }
}

#[test]
fn cubemap_small_mips_never_shrink_below_one() {
    let mips = vec![vec![vec![0u8]]; 4];
    let (_, regions) = cubemap_copy_plan(&mips, 2);
    let sizes: Vec<u32> = regions.iter().map(|r| r.size).collect();
    assert_eq!(sizes, vec![2, 1, 1, 1]);
    let (staging, regions) = cubemap_copy_plan(&Vec::new(), 16);
    assert!(staging.is_empty());
    assert!(regions.is_empty());
}

#[test]
fn rgb_gets_opaque_alpha() {
    let (px, w, h) = to_rgba8(PixelFormat::R8G8B8, &vec![1, 2, 3, 4, 5, 6], 2, 1);
    assert_eq!(px, vec![1, 2, 3, 255, 4, 5, 6, 255]);
    assert_eq!((w, h), (2, 1));
}

#[test]
fn rgba_is_kept_and_other_formats_fall_back_to_white() {
    let (px, w, h) = to_rgba8(PixelFormat::R8G8B8A8, &vec![9, 8, 7, 6], 1, 1);
    assert_eq!((px, w, h), (vec![9, 8, 7, 6], 1, 1));
    let (px, w, h) = to_rgba8(PixelFormat::R16G16B16A16, &vec![0; 32], 2, 2);
    assert_eq!((px, w, h), (vec![255, 255, 255, 255], 1, 1));
    let (px, w, h) = to_rgba8(PixelFormat::R8, &vec![5; 4], 2, 2);
    assert_eq!((px, w, h), (vec![255, 255, 255, 255], 1, 1));
}

#[test]
fn cube_indices_cover_six_quads() {
    let v = builtin_cube_indices();
    assert_eq!(v.len(), 36);
    assert_eq!(&v[0..6], &[0, 1, 2, 0, 2, 3]);
    assert_eq!(&v[30..36], &[20, 21, 22, 20, 22, 23]);
    assert!(v.iter().all(|&i| i < 24));
}

fn slots(a: Option<usize>, n: Option<usize>, mr: Option<usize>) -> MaterialSlots {
    MaterialSlots { albedo_tex: a, normal_tex: n, metallic_roughness_tex: mr }
}

#[test]
fn merging_models_offsets_their_indices() {
    let m0 = ModelIndices {
        texture_count: 2,
        materials: vec![slots(Some(1), None, Some(0))],
        mesh_materials: vec![Some(0), None],
    };
    let m1 = ModelIndices {
        texture_count: 1,
        materials: vec![slots(Some(0), Some(0), None)],
        mesh_materials: vec![Some(0)],
    };
    let merged = merge_model_indices(&vec![Some(m0), None, Some(m1)]);
    assert_eq!(merged.texture_count, 3);
    assert_eq!(
        merged.materials,
        vec![slots(Some(1), None, Some(0)), slots(Some(2), Some(2), None)]
    );
    // The built-in cube's mesh comes last, without a material.
    assert_eq!(merged.mesh_materials, vec![Some(0), None, Some(1), None]);
    // The failed model still gets an offset: the count of meshes before it.
    assert_eq!(merged.mesh_offsets, vec![0, 2, 2]);
}

#[test]
fn merging_without_meshes_falls_back_to_the_cube() {
    let empty = ModelIndices {
        texture_count: 1,
        materials: vec![slots(Some(0), None, None)],
        mesh_materials: vec![],
    };
    let merged = merge_model_indices(&vec![None, Some(empty)]);
    assert_eq!(merged.texture_count, 0);
    assert!(merged.materials.is_empty());
    assert_eq!(merged.mesh_materials, vec![None]);
    // One offset per requested model, each 0: no model brought a mesh.
    assert_eq!(merged.mesh_offsets, vec![0, 0]);
    let merged = merge_model_indices(&vec![None, None]);
    assert_eq!(merged.mesh_materials, vec![None]);
    assert_eq!(merged.mesh_offsets, vec![0, 0]);
    let merged = merge_model_indices(&Vec::new());
    assert_eq!(merged.mesh_materials, vec![None]);
    assert!(merged.mesh_offsets.is_empty());
}

fn texture(w: u32) -> TextureData {
    TextureData { pixels: vec![0; (w * 4) as usize], width: w, height: 1, is_srgb: false }
}

#[test]
fn albedo_textures_become_srgb() {
    let mut textures = vec![texture(1), texture(2), texture(3)];
    let materials = vec![slots(Some(2), Some(0), Some(1)), slots(Some(7), None, None)];
    mark_srgb_textures(&mut textures, &materials);
    let flags: Vec<bool> = textures.iter().map(|t| t.is_srgb).collect();
    assert_eq!(flags, vec![false, false, true]);
    assert_eq!(textures[2].width, 3);
    assert_eq!(textures[2].pixels.len(), 12);
}

#[test]
fn shader_changes_are_deduplicated_and_ordered() {
    let ev = |kind, name: &str| FileEvent { kind, file_name: name.to_string() };
    let events = vec![
        ev(FileEventKind::Modify, "skybox.frag"),
        ev(FileEventKind::Other, "triangle.vert"),
        ev(FileEventKind::Create, "shadow.vert"),
        ev(FileEventKind::Remove, "shadow.frag"),
        ev(FileEventKind::Modify, "notes.txt"),
    ];
    assert_eq!(changed_targets(&events), vec![ShaderTarget::Shadow, ShaderTarget::Skybox]);
    assert!(changed_targets(&Vec::new()).is_empty());
    let all = vec![
        ev(FileEventKind::Modify, "skybox.vert"),
        ev(FileEventKind::Modify, "triangle.frag"),
        ev(FileEventKind::Modify, "shadow.frag"),
    ];
    assert_eq!(
        changed_targets(&all),
        vec![ShaderTarget::Main, ShaderTarget::Shadow, ShaderTarget::Skybox]
    );
}

fn lines(v: &[&str]) -> Vec<String> {
    v.iter().map(|s| s.to_string()).collect()
}

#[test]
fn reload_log_keeps_the_newest_five_lines() {
    let mut log = lines(&["a", "b", "c"]);
    log_reloads(&mut log, lines(&["d"]));
    assert_eq!(log, lines(&["a", "b", "c", "d"]));
    log_reloads(&mut log, lines(&["e", "f", "g"]));
    assert_eq!(log, lines(&["c", "d", "e", "f", "g"]));
    assert_eq!(log.len(), RELOAD_LOG_LINES);
    log_reloads(&mut log, Vec::new());
    assert_eq!(log, lines(&["c", "d", "e", "f", "g"]));
    let mut log = Vec::new();
    log_reloads(&mut log, lines(&["1", "2", "3", "4", "5", "6", "7"]));
    assert_eq!(log, lines(&["3", "4", "5", "6", "7"]));
}
