//! CPU-side asset data: decoded textures, the built-in cube's index list,
//! and the index bookkeeping that merges several models into one scene.
use vstd::prelude::*;

verus! {

/// A decoded texture, RGBA8 row-major.
#[derive(Debug, Clone)]
pub struct TextureData {
    pub pixels: Vec<u8>,
    pub width: u32,
    pub height: u32,
    /// Upload as sRGB (albedo) rather than linear (normals, metal/rough).
    pub is_srgb: bool,
}

/// Pixel layout of an image as a model file stores it.
#[derive(Debug, Clone, Copy, PartialEq, Eq, Structural)]
pub enum PixelFormat {
    R8,
    R8G8,
    R8G8B8,
    R8G8B8A8,
    R16,
    R16G16,
    R16G16B16,
    R16G16B16A16,
    R32G32B32Float,
    R32G32B32A32Float,
}

/// RGB bytes widened to RGBA with an opaque alpha.
pub open spec fn spec_rgb_to_rgba(p: Seq<u8>) -> Seq<u8> {
    Seq::new(
        (p.len() / 3) * 4,
        |i: int|
            if i % 4 == 3 {
                255u8
            } else {
                p[(i / 4) * 3 + i % 4]
            },
    )
}

/// Pixels, width and height of an image once converted to RGBA8: RGBA8 is
/// kept, RGB gets an opaque alpha, and any other format is replaced by a
/// single white pixel.
pub open spec fn spec_to_rgba8(format: PixelFormat, pixels: Seq<u8>, width: u32, height: u32) -> (
    Seq<u8>,
    u32,
    u32,
) {
    match format {
        PixelFormat::R8G8B8A8 => (pixels, width, height),
        PixelFormat::R8G8B8 => (spec_rgb_to_rgba(pixels), width, height),
        _ => (seq![255u8, 255u8, 255u8, 255u8], 1, 1),
    }
}

/// Convert an image to RGBA8 pixels, returning them with the image size.
pub fn to_rgba8(format: PixelFormat, pixels: &Vec<u8>, width: u32, height: u32) -> (r: (
    Vec<u8>,
    u32,
    u32,
))
    requires
        format == PixelFormat::R8G8B8 ==> pixels@.len() % 3 == 0,
    ensures
        (r.0@, r.1, r.2) == spec_to_rgba8(format, pixels@, width, height),
{
    match format {
        PixelFormat::R8G8B8A8 => (pixels.clone(), width, height),
        PixelFormat::R8G8B8 => {
            let len = pixels.len();
            let n = len / 3;
            let mut out: Vec<u8> = Vec::new();
            let mut k: usize = 0;
            while k < n
                invariant
                    len == pixels@.len(),
                    n == pixels@.len() / 3,
                    pixels@.len() % 3 == 0,
                    k <= n,
                    out@.len() == 4 * k,
                    forall|i: int|
                        0 <= i < out@.len() ==> #[trigger] out@[i] == (if i % 4 == 3 {
                            255u8
                        } else {
                            pixels@[(i / 4) * 3 + i % 4]
                        }),
                decreases n - k,
            {
                assert(3 * k + 3 <= len) by (nonlinear_arith)
                    requires
                        k < n,
                        n == len / 3,
                ;
                let b = 3 * k;
                out.push(pixels[b]);
                out.push(pixels[b + 1]);
                out.push(pixels[b + 2]);
                out.push(255u8);
                k = k + 1;
                assert forall|i: int| 0 <= i < out@.len() implies #[trigger] out@[i] == (if i % 4
                    == 3 {
                    255u8
                } else {
                    pixels@[(i / 4) * 3 + i % 4]
                }) by {
                    if i >= 4 * (k - 1) {
                        assert(i / 4 == k - 1);
                    }
                }
            }
            assert(out@ =~= spec_rgb_to_rgba(pixels@));
            (out, width, height)
        },
        _ => (vec![255u8, 255u8, 255u8, 255u8], 1, 1),
    }
}

/// Offset, within its face's four vertices, of the `k`-th index of a face's
/// two triangles (0, 1, 2) and (0, 2, 3).
pub open spec fn quad_corner(k: int) -> int {
    if k == 0 {
        0
    } else if k == 1 {
        1
    } else if k == 2 {
        2
    } else if k == 3 {
        0
    } else if k == 4 {
        2
    } else {
        3
    }
}

/// Index `i` of the built-in cube: face `i / 6` owns vertices `4f .. 4f + 4`.
pub open spec fn cube_index_at(i: int) -> int {
    4 * (i / 6) + quad_corner(i % 6)
}

/// Index list of the built-in unit cube: six faces of four vertices, each
/// split into two triangles.  Every index names one of the 24 vertices.
pub fn builtin_cube_indices() -> (v: Vec<u32>)
    ensures
        v@.len() == 36,
        forall|i: int| 0 <= i < 36 ==> #[trigger] v@[i] == cube_index_at(i),
        forall|i: int| 0 <= i < 36 ==> #[trigger] v@[i] < 24,
{
    let mut v: Vec<u32> = Vec::new();
    let mut face: u32 = 0;
    while face < 6
        invariant
            face <= 6,
            v@.len() == 6 * face,
            forall|i: int| 0 <= i < v@.len() ==> #[trigger] v@[i] == cube_index_at(i),
        decreases 6 - face,
    {
        let base = face * 4;
        v.push(base);
        v.push(base + 1);
        v.push(base + 2);
        v.push(base);
        v.push(base + 2);
        v.push(base + 3);
        face = face + 1;
        assert forall|i: int| 0 <= i < v@.len() implies #[trigger] v@[i] == cube_index_at(i) by {
            if i >= 6 * (face - 1) {
                assert(i / 6 == face - 1);
            }
        }
    }
    assert forall|i: int| 0 <= i < 36 implies #[trigger] v@[i] < 24 by {
        assert(v@[i] == cube_index_at(i));
    }
    v
}

/// Texture references of a material, as indices into the scene's textures.
#[derive(Debug, Clone, Copy, PartialEq, Eq, Structural)]
pub struct MaterialSlots {
    pub albedo_tex: Option<usize>,
    pub normal_tex: Option<usize>,
    pub metallic_roughness_tex: Option<usize>,
}

/// The index data of one loaded model: how many textures it brings, its
/// materials' texture references, and each mesh's material reference.
#[derive(Debug, Clone)]
pub struct ModelIndices {
    pub texture_count: usize,
    pub materials: Vec<MaterialSlots>,
    pub mesh_materials: Vec<Option<usize>>,
}

/// The index data of several models merged into one scene.
#[derive(Debug, Clone)]
pub struct MergedIndices {
    pub texture_count: usize,
    pub materials: Vec<MaterialSlots>,
    pub mesh_materials: Vec<Option<usize>>,
    /// Index of the first mesh each requested model contributed.
    pub mesh_offsets: Vec<usize>,
}

/// An optional index moved up by `d`.
pub open spec fn shift_ref(o: Option<usize>, d: int) -> Option<usize> {
    match o {
        Some(i) => Some((i + d) as usize),
        None => None,
    }
}

/// A material's texture references moved up by `d`.
pub open spec fn shift_slots(s: MaterialSlots, d: int) -> MaterialSlots {
    MaterialSlots {
        albedo_tex: shift_ref(s.albedo_tex, d),
        normal_tex: shift_ref(s.normal_tex, d),
        metallic_roughness_tex: shift_ref(s.metallic_roughness_tex, d),
    }
}

/// The optional index is absent or below `n`.
pub open spec fn ref_below(o: Option<usize>, n: int) -> bool {
    match o {
        Some(i) => i < n,
        None => true,
    }
}

/// Every texture reference of the material is below `n`.
pub open spec fn slots_below(s: MaterialSlots, n: int) -> bool {
    ref_below(s.albedo_tex, n) && ref_below(s.normal_tex, n) && ref_below(
        s.metallic_roughness_tex,
        n,
    )
}

/// The model's references all point inside its own arrays.
pub open spec fn model_refs_valid(m: ModelIndices) -> bool {
    &&& forall|j: int| 0 <= j < m.materials@.len() ==> #[trigger] slots_below(m.materials@[j], m.texture_count as int)
    &&& forall|j: int| 0 <= j < m.mesh_materials@.len() ==> #[trigger] ref_below(m.mesh_materials@[j], m.materials@.len() as int)
}

/// Textures contributed by the models that loaded.
pub open spec fn loaded_textures(models: Seq<Option<ModelIndices>>) -> nat
    decreases models.len(),
{
    if models.len() == 0 {
        0
    } else {
        loaded_textures(models.drop_last()) + match models.last() {
            Some(m) => m.texture_count as nat,
            None => 0,
        }
    }
}

/// Materials of the loaded models, one model after the other, with their
/// texture references moved past the textures of the models before.
pub open spec fn merged_materials(models: Seq<Option<ModelIndices>>) -> Seq<MaterialSlots>
    decreases models.len(),
{
    if models.len() == 0 {
        Seq::empty()
    } else {
        let prev = models.drop_last();
        merged_materials(prev) + match models.last() {
            Some(m) => Seq::new(
                m.materials@.len(),
                |j: int| shift_slots(m.materials@[j], loaded_textures(prev) as int),
            ),
            None => Seq::empty(),
        }
    }
}

/// Mesh material references of the loaded models, one model after the
/// other, moved past the materials of the models before.
pub open spec fn merged_meshes(models: Seq<Option<ModelIndices>>) -> Seq<Option<usize>>
    decreases models.len(),
{
    if models.len() == 0 {
        Seq::empty()
    } else {
        let prev = models.drop_last();
        merged_meshes(prev) + match models.last() {
            Some(m) => Seq::new(
                m.mesh_materials@.len(),
                |j: int| shift_ref(m.mesh_materials@[j], merged_materials(prev).len() as int),
            ),
            None => Seq::empty(),
        }
    }
}

/// For each requested model, the number of meshes merged before it.
pub open spec fn mesh_offsets_of(models: Seq<Option<ModelIndices>>) -> Seq<usize>
    decreases models.len(),
{
    if models.len() == 0 {
        Seq::empty()
    } else {
        let prev = models.drop_last();
        mesh_offsets_of(prev).push(merged_meshes(prev).len() as usize)
    }
}

/// Model of a merge result.
pub struct MergedView {
    pub texture_count: nat,
    pub materials: Seq<MaterialSlots>,
    pub mesh_materials: Seq<Option<usize>>,
    pub mesh_offsets: Seq<usize>,
}

impl View for MergedIndices {
    type V = MergedView;

    open spec fn view(&self) -> MergedView {
        MergedView {
            texture_count: self.texture_count as nat,
            materials: self.materials@,
            mesh_materials: self.mesh_materials@,
            mesh_offsets: self.mesh_offsets@,
        }
    }
}

/// The merged scene: the loaded models' data one after the other, followed
/// by the built-in cube's mesh (which has no material).  When no model
/// brought a mesh, the scene is the built-in cube alone.  Either way there
/// is one mesh offset per requested model: the number of meshes merged
/// before it (all 0 when no model brought a mesh).
pub open spec fn spec_merge(models: Seq<Option<ModelIndices>>) -> MergedView {
    if merged_meshes(models).len() == 0 {
        MergedView {
            texture_count: 0,
            materials: Seq::empty(),
            mesh_materials: seq![None],
            mesh_offsets: mesh_offsets_of(models),
        }
    } else {
        MergedView {
            texture_count: loaded_textures(models),
            materials: merged_materials(models),
            mesh_materials: merged_meshes(models).push(None),
            mesh_offsets: mesh_offsets_of(models),
        }
    }
}

/// All loaded models reference only their own arrays.
pub open spec fn all_models_valid(models: Seq<Option<ModelIndices>>) -> bool {
    forall|k: int| 0 <= k < models.len() ==> match #[trigger] models[k] {
        Some(m) => model_refs_valid(m),
        None => true,
    }
}

proof fn lemma_loaded_prefix(models: Seq<Option<ModelIndices>>, k: int)
    requires
        0 <= k <= models.len(),
    ensures
        loaded_textures(models.take(k)) <= loaded_textures(models),
    decreases models.len() - k,
{
    if k < models.len() {
        lemma_loaded_prefix(models, k + 1);
        assert(models.take(k + 1).drop_last() =~= models.take(k));
    } else {
        assert(models.take(k) =~= models);
    }
}

/// Merge the index data of the requested models (`None` for one that
/// failed to load and is skipped): texture references are moved past the
/// textures of earlier models, mesh material references past their
/// materials, and the built-in cube's mesh is appended.
pub fn merge_model_indices(models: &Vec<Option<ModelIndices>>) -> (r: MergedIndices)
    requires
        loaded_textures(models@) <= usize::MAX,
        all_models_valid(models@),
    ensures
        r@ == spec_merge(models@),
{
    let mut tex: usize = 0;
    let mut mats: Vec<MaterialSlots> = Vec::new();
    let mut meshes: Vec<Option<usize>> = Vec::new();
    let mut offsets: Vec<usize> = Vec::new();
    let mut k: usize = 0;
    while k < models.len()
        invariant
            k <= models@.len(),
            loaded_textures(models@) <= usize::MAX,
            all_models_valid(models@),
            tex == loaded_textures(models@.take(k as int)),
            mats@ == merged_materials(models@.take(k as int)),
            meshes@ == merged_meshes(models@.take(k as int)),
            offsets@ == mesh_offsets_of(models@.take(k as int)),
        decreases models@.len() - k,
    {
        let ghost prev = models@.take(k as int);
        let ghost next = models@.take(k + 1);
        assert(next.drop_last() =~= prev);
        offsets.push(meshes.len());
        proof {
            lemma_loaded_prefix(models@, k + 1);
        }
        match &models[k] {
            Some(m) => {
                assert(models@[k as int] == Some(*m));
                assert(model_refs_valid(*m));
                let mat_off = mats.len();
                let mut j: usize = 0;
                while j < m.materials.len()
                    invariant
                        j <= m.materials@.len(),
                        model_refs_valid(*m),
                        tex + m.texture_count <= usize::MAX,
                        mats@ == merged_materials(prev) + Seq::new(
                            j as nat,
                            |i: int| shift_slots(m.materials@[i], tex as int),
                        ),
                    decreases m.materials@.len() - j,
                {
                    let s = m.materials[j];
                    assert(slots_below(m.materials@[j as int], m.texture_count as int));
                    let shifted = MaterialSlots {
                        albedo_tex: match s.albedo_tex {
                            Some(i) => Some(i + tex),
                            None => None,
                        },
                        normal_tex: match s.normal_tex {
                            Some(i) => Some(i + tex),
                            None => None,
                        },
                        metallic_roughness_tex: match s.metallic_roughness_tex {
                            Some(i) => Some(i + tex),
                            None => None,
                        },
                    };
                    mats.push(shifted);
                    j = j + 1;
                    assert(mats@ =~= merged_materials(prev) + Seq::new(
                        j as nat,
                        |i: int| shift_slots(m.materials@[i], tex as int),
                    ));
                }
                let total_mats = mats.len();
                let mut j: usize = 0;
                while j < m.mesh_materials.len()
                    invariant
                        total_mats == mats@.len(),
                        j <= m.mesh_materials@.len(),
                        model_refs_valid(*m),
                        mat_off + m.materials@.len() == mats@.len(),
                        meshes@ == merged_meshes(prev) + Seq::new(
                            j as nat,
                            |i: int| shift_ref(m.mesh_materials@[i], mat_off as int),
                        ),
                    decreases m.mesh_materials@.len() - j,
                {
                    let o = m.mesh_materials[j];
                    assert(ref_below(m.mesh_materials@[j as int], m.materials@.len() as int));
                    let shifted = match o {
                        Some(i) => Some(i + mat_off),
                        None => None,
                    };
                    meshes.push(shifted);
                    j = j + 1;
                    assert(meshes@ =~= merged_meshes(prev) + Seq::new(
                        j as nat,
                        |i: int| shift_ref(m.mesh_materials@[i], mat_off as int),
                    ));
                }
                tex = tex + m.texture_count;
                proof {
                    assert(next.last() == Some(*m));
                    assert(mats@ =~= merged_materials(next));
                    assert(meshes@ =~= merged_meshes(next));
                }
            },
            None => {
                proof {
                    assert(next.last() == None::<ModelIndices>);
                    assert(mats@ =~= merged_materials(next));
                    assert(meshes@ =~= merged_meshes(next));
                }
            },
        }
        k = k + 1;
    }
    proof {
        assert(models@.take(k as int) =~= models@);
    }
    if meshes.len() == 0 {
        let mut only: Vec<Option<usize>> = Vec::new();
        only.push(None);
        let r = MergedIndices {
            texture_count: 0,
            materials: Vec::new(),
            mesh_materials: only,
            mesh_offsets: offsets,
        };
        assert(r@.mesh_materials =~= seq![None]);
        r
    } else {
        meshes.push(None);
        MergedIndices { texture_count: tex, materials: mats, mesh_materials: meshes, mesh_offsets: offsets }
    }
}

proof fn lemma_merged_valid(models: Seq<Option<ModelIndices>>)
    requires
        all_models_valid(models),
        loaded_textures(models) <= usize::MAX,
        merged_materials(models).len() <= usize::MAX,
    ensures
        forall|j: int| 0 <= j < merged_materials(models).len() ==> #[trigger] slots_below(
            merged_materials(models)[j],
            loaded_textures(models) as int,
        ),
        forall|j: int| 0 <= j < merged_meshes(models).len() ==> #[trigger] ref_below(
            merged_meshes(models)[j],
            merged_materials(models).len() as int,
        ),
    decreases models.len(),
{
    if models.len() > 0 {
        let prev = models.drop_last();
        assert forall|k: int| 0 <= k < prev.len() implies match #[trigger] prev[k] {
            Some(m) => model_refs_valid(m),
            None => true,
        } by {
            assert(prev[k] == models[k]);
        }
        lemma_merged_valid(prev);
        assert(match models[models.len() - 1] {
            Some(m) => model_refs_valid(m),
            None => true,
        });
        let mm = merged_materials(models);
        let mp = merged_materials(prev);
        let ms = merged_meshes(models);
        let msp = merged_meshes(prev);
        assert forall|j: int| 0 <= j < mm.len() implies #[trigger] slots_below(
            mm[j],
            loaded_textures(models) as int,
        ) by {
            if j < mp.len() {
                assert(mm[j] == mp[j]);
                assert(slots_below(mp[j], loaded_textures(prev) as int));
            } else {
                match models.last() {
                    Some(m) => {
                        assert(slots_below(m.materials@[j - mp.len()], m.texture_count as int));
                        assert(mm[j] == shift_slots(m.materials@[j - mp.len()], loaded_textures(prev) as int));
                    },
                    None => {},
                }
            }
        }
        assert forall|j: int| 0 <= j < ms.len() implies #[trigger] ref_below(
            ms[j],
            mm.len() as int,
        ) by {
            if j < msp.len() {
                assert(ms[j] == msp[j]);
                assert(ref_below(msp[j], mp.len() as int));
            } else {
                match models.last() {
                    Some(m) => {
                        assert(ref_below(m.mesh_materials@[j - msp.len()], m.materials@.len() as int));
                        assert(ms[j] == shift_ref(m.mesh_materials@[j - msp.len()], mp.len() as int));
                    },
                    None => {},
                }
            }
        }
    }
}

/// Merging keeps every reference inside the merged scene: when each loaded
/// model references only its own textures and materials, every texture
/// reference of a merged material is below the merged texture count and
/// every mesh's material reference is below the merged material count.
/// (The counts are those of in-memory arrays, so they fit in `usize`.)
pub proof fn lemma_merge_references_valid(models: Seq<Option<ModelIndices>>)
    requires
        all_models_valid(models),
        loaded_textures(models) <= usize::MAX,
        merged_materials(models).len() <= usize::MAX,
    ensures
        forall|j: int| 0 <= j < spec_merge(models).materials.len() ==> #[trigger] slots_below(
            spec_merge(models).materials[j],
            spec_merge(models).texture_count as int,
        ),
        forall|j: int| 0 <= j < spec_merge(models).mesh_materials.len() ==> #[trigger] ref_below(
            spec_merge(models).mesh_materials[j],
            spec_merge(models).materials.len() as int,
        ),
{
    lemma_merged_valid(models);
    let v = spec_merge(models);
    if merged_meshes(models).len() > 0 {
        assert forall|j: int| 0 <= j < v.mesh_materials.len() implies #[trigger] ref_below(
            v.mesh_materials[j],
            v.materials.len() as int,
        ) by {
            if j < merged_meshes(models).len() {
                assert(v.mesh_materials[j] == merged_meshes(models)[j]);
            }
        }
    }
}

proof fn lemma_merge_prefix(models: Seq<Option<ModelIndices>>, k: int)
    requires
        0 <= k <= models.len(),
    ensures
        merged_materials(models.take(k)).len() <= merged_materials(models).len(),
        forall|i: int| 0 <= i < merged_materials(models.take(k)).len() ==> #[trigger] merged_materials(models)[i]
            == merged_materials(models.take(k))[i],
        merged_meshes(models.take(k)).len() <= merged_meshes(models).len(),
        forall|i: int| 0 <= i < merged_meshes(models.take(k)).len() ==> #[trigger] merged_meshes(models)[i]
            == merged_meshes(models.take(k))[i],
        mesh_offsets_of(models.take(k)).len() == k,
        mesh_offsets_of(models).len() == models.len(),
        forall|i: int| 0 <= i < k ==> #[trigger] mesh_offsets_of(models)[i] == mesh_offsets_of(models.take(k))[i],
    decreases models.len() - k,
{
    if k < models.len() {
        lemma_merge_prefix(models, k + 1);
        let a = models.take(k);
        let b = models.take(k + 1);
        assert(b.drop_last() =~= a);
        assert(mesh_offsets_of(b) == mesh_offsets_of(a).push(merged_meshes(a).len() as usize));
    } else {
        assert(models.take(k) =~= models);
        lemma_offsets_len(models);
    }
}

proof fn lemma_offsets_len(models: Seq<Option<ModelIndices>>)
    ensures
        mesh_offsets_of(models).len() == models.len(),
    decreases models.len(),
{
    if models.len() > 0 {
        lemma_offsets_len(models.drop_last());
    }
}

/// Merging gives one mesh offset per requested model, loaded or not, and
/// the offset of the `k`-th is the number of meshes that the models before
/// it contributed; so when no model brought a mesh every offset is 0.
/// (The merged mesh count is that of an in-memory array, so it fits in
/// `usize`.)
pub proof fn lemma_merge_offsets(models: Seq<Option<ModelIndices>>)
    requires
        merged_meshes(models).len() <= usize::MAX,
    ensures
        spec_merge(models).mesh_offsets.len() == models.len(),
        forall|k: int| 0 <= k < models.len() ==> #[trigger] spec_merge(models).mesh_offsets[k]
            == merged_meshes(models.take(k)).len(),
        merged_meshes(models).len() == 0 ==> forall|k: int| 0 <= k < models.len()
            ==> #[trigger] spec_merge(models).mesh_offsets[k] == 0,
{
    lemma_offsets_len(models);
    let v = spec_merge(models);
    assert forall|k: int| 0 <= k < models.len() implies #[trigger] v.mesh_offsets[k]
        == merged_meshes(models.take(k)).len() by {
        let a = models.take(k);
        let b = models.take(k + 1);
        assert(b.drop_last() =~= a);
        lemma_merge_prefix(models, k + 1);
        lemma_merge_prefix(models, k);
        assert(mesh_offsets_of(b)[k] == merged_meshes(a).len() as usize);
        assert(v.mesh_offsets[k] == mesh_offsets_of(b)[k]);
    }
    if merged_meshes(models).len() == 0 {
        assert forall|k: int| 0 <= k < models.len() implies #[trigger] v.mesh_offsets[k] == 0 by {
            lemma_merge_prefix(models, k);
            assert(v.mesh_offsets[k] == merged_meshes(models.take(k)).len());
        }
    }
}

/// Merging keeps each model's own data in place: material `j` of the `k`-th
/// requested model is found after the materials of the models before it,
/// with its texture references moved past their textures, and mesh `j` of
/// that model is found at the model's mesh offset plus `j`, with its
/// material reference moved past the earlier materials.  (This holds
/// whenever some model brought a mesh; otherwise the scene is the built-in
/// cube alone.)  The merged counts are those of in-memory arrays, so they
/// fit in `usize`.
pub proof fn lemma_merge_keeps_model_data(models: Seq<Option<ModelIndices>>, k: int, j: int)
    requires
        0 <= k < models.len(),
        models[k] is Some,
        merged_meshes(models).len() > 0,
        merged_meshes(models).len() <= usize::MAX,
    ensures
        ({
            let m = models[k]->0;
            let v = spec_merge(models);
            let mat_base = merged_materials(models.take(k)).len() as int;
            &&& 0 <= j < m.materials@.len() ==> v.materials[mat_base + j] == shift_slots(
                m.materials@[j],
                loaded_textures(models.take(k)) as int,
            )
            &&& 0 <= j < m.mesh_materials@.len() ==> v.mesh_materials[v.mesh_offsets[k] + j]
                == shift_ref(m.mesh_materials@[j], mat_base)
        }),
{
    let m = models[k]->0;
    let a = models.take(k);
    let b = models.take(k + 1);
    assert(b.drop_last() =~= a);
    assert(b.last() == models[k]);
    lemma_merge_prefix(models, k + 1);
    lemma_merge_prefix(models, k);
    let v = spec_merge(models);
    assert(mesh_offsets_of(b)[k] == merged_meshes(a).len() as usize);
    assert(v.mesh_offsets[k] == mesh_offsets_of(b)[k]);
    if 0 <= j < m.materials@.len() {
        let idx = merged_materials(a).len() + j;
        assert(merged_materials(b)[idx] == shift_slots(m.materials@[j], loaded_textures(a) as int));
        assert(v.materials[idx] == merged_materials(b)[idx]);
    }
    if 0 <= j < m.mesh_materials@.len() {
        let idx = merged_meshes(a).len() + j;
        assert(merged_meshes(b)[idx] == shift_ref(
            m.mesh_materials@[j],
            merged_materials(a).len() as int,
        ));
        assert(v.mesh_materials[idx] == merged_meshes(models)[idx]);
    }
}

/// Some material uses texture `t` as its albedo (colour) map.
pub open spec fn used_as_albedo(materials: Seq<MaterialSlots>, t: int) -> bool {
    exists|j: int| 0 <= j < materials.len() && #[trigger] materials[j].albedo_tex == Some(t as usize)
}

/// Mark every texture that some material uses as its albedo map as sRGB
/// (references past the texture list are ignored); nothing else changes.
pub fn mark_srgb_textures(textures: &mut Vec<TextureData>, materials: &Vec<MaterialSlots>)
    ensures
        final(textures)@.len() == old(textures)@.len(),
        forall|t: int|
            0 <= t < final(textures)@.len() ==> {
                &&& (#[trigger] final(textures)@[t]).is_srgb == (old(textures)@[t].is_srgb
                    || used_as_albedo(materials@, t))
                &&& final(textures)@[t].pixels@ == old(textures)@[t].pixels@
                &&& final(textures)@[t].width == old(textures)@[t].width
                &&& final(textures)@[t].height == old(textures)@[t].height
            },
{
    let mut j: usize = 0;
    while j < materials.len()
        invariant
            j <= materials@.len(),
            textures@.len() == old(textures)@.len(),
            forall|t: int|
                0 <= t < textures@.len() ==> {
                    &&& (#[trigger] textures@[t]).is_srgb == (old(textures)@[t].is_srgb
                        || used_as_albedo(materials@.take(j as int), t))
                    &&& textures@[t].pixels@ == old(textures)@[t].pixels@
                    &&& textures@[t].width == old(textures)@[t].width
                    &&& textures@[t].height == old(textures)@[t].height
                },
        decreases materials@.len() - j,
    {
        let ghost prefix = materials@.take(j as int);
        let ghost next = materials@.take(j + 1);
        assert forall|t: int| used_as_albedo(next, t) == (used_as_albedo(prefix, t) || materials@[j as int].albedo_tex == Some(t as usize)) by {
            if used_as_albedo(prefix, t) {
                let w = choose|w: int| 0 <= w < prefix.len() && #[trigger] prefix[w].albedo_tex == Some(t as usize);
                assert(next[w] == prefix[w]);
            }
            if used_as_albedo(next, t) {
                let w = choose|w: int| 0 <= w < next.len() && #[trigger] next[w].albedo_tex == Some(t as usize);
                if w < j {
                    assert(prefix[w] == next[w]);
                }
            }
            if materials@[j as int].albedo_tex == Some(t as usize) {
                assert(next[j as int] == materials@[j as int]);
            }
        }
        if let Some(idx) = materials[j].albedo_tex {
            if idx < textures.len() {
                textures[idx].is_srgb = true;
            }
        }
        j = j + 1;
    }
    assert(materials@.take(j as int) =~= materials@);
}

} // verus!
