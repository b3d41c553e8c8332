//! Texture and cubemap upload planning: the mip chain of a 2D texture, the
//! command sequence that fills it, and the staging layout of a cubemap.
use vstd::prelude::*;
use vstd::arithmetic::power2::{pow2, lemma_pow2_unfold, lemma2_to64};
use crate::render_graph::{
    ImageLayout, STAGE_TOP_OF_PIPE, STAGE_TRANSFER, STAGE_FRAGMENT_SHADER, ACCESS_NONE,
    ACCESS_TRANSFER_WRITE, ACCESS_TRANSFER_READ, ACCESS_SHADER_READ,
};

verus! {

/// Number of binary digits of `n` (0 for 0).
pub open spec fn bit_len(n: nat) -> nat
    decreases n,
{
    if n == 0 {
        0
    } else {
        1 + bit_len(n / 2)
    }
}

/// Mip levels of a `width`×`height` texture: floor(log2(max(w, h))) + 1,
/// and a single level for an empty image.
pub open spec fn spec_mip_levels(width: u32, height: u32) -> nat {
    let m = if width < height { height } else { width };
    if m == 0 {
        1
    } else {
        bit_len(m as nat)
    }
}

proof fn lemma_bit_len_bound(n: nat, k: nat)
    requires
        n < pow2(k),
    ensures
        bit_len(n) <= k,
    decreases k,
{
    if n > 0 {
        if k == 0 {
            lemma2_to64();
        } else {
            lemma_pow2_unfold(k);
            lemma_bit_len_bound(n / 2, (k - 1) as nat);
        }
    }
}

/// Number of mip levels to allocate for a `width`×`height` texture.
pub fn mip_level_count(width: u32, height: u32) -> (n: u32)
    ensures
        n == spec_mip_levels(width, height),
        1 <= n <= 32,
{
    let top = if width < height { height } else { width };
    proof {
        lemma2_to64();
        lemma_bit_len_bound(top as nat, 32);
    }
    let mut m = top;
    let mut n: u32 = 0;
    while m > 0
        invariant
            n + bit_len(m as nat) == bit_len(top as nat),
            bit_len(top as nat) <= 32,
        decreases m,
    {
        m = m / 2;
        n = n + 1;
    }
    if n == 0 {
        1
    } else {
        n
    }
}

/// Side length of mip `level` of an image whose level 0 has side `x`: each
/// level halves the previous one, never going below 1.
pub open spec fn mip_extent(x: nat, level: nat) -> nat
    decreases level,
{
    if level == 0 {
        x
    } else {
        let p = mip_extent(x, (level - 1) as nat);
        if p / 2 == 0 {
            1
        } else {
            p / 2
        }
    }
}

proof fn lemma_mip_extent_bound(x: nat, level: nat)
    ensures
        mip_extent(x, level) <= if x == 0 { 1 } else { x },
    decreases level,
{
    if level > 0 {
        lemma_mip_extent_bound(x, (level - 1) as nat);
    }
}

/// One step of mip generation: level `src_level` (of the given size) is
/// filtered down into level `src_level + 1` (of the destination size).
#[derive(Debug, Clone, Copy, PartialEq, Eq, Structural)]
pub struct MipBlit {
    pub src_level: u32,
    pub src_width: u32,
    pub src_height: u32,
    pub dst_width: u32,
    pub dst_height: u32,
}

/// The blit that fills level `i + 1` of a `width`×`height` texture.
pub open spec fn spec_mip_blit(width: u32, height: u32, i: nat) -> MipBlit {
    MipBlit {
        src_level: i as u32,
        src_width: mip_extent(width as nat, i) as u32,
        src_height: mip_extent(height as nat, i) as u32,
        dst_width: mip_extent(width as nat, i + 1) as u32,
        dst_height: mip_extent(height as nat, i + 1) as u32,
    }
}

/// The blits that generate levels 1.. of a `width`×`height` texture from
/// level 0, in order.
pub fn mip_blits(width: u32, height: u32) -> (v: Vec<MipBlit>)
    ensures
        v@.len() + 1 == spec_mip_levels(width, height),
        forall|i: int| 0 <= i < v@.len() ==> #[trigger] v@[i] == spec_mip_blit(width, height, i as nat),
{
    let levels = mip_level_count(width, height);
    let mut v: Vec<MipBlit> = Vec::new();
    let mut mip_w = width;
    let mut mip_h = height;
    let mut i: u32 = 1;
    while i < levels
        invariant
            1 <= i <= levels,
            levels <= 32,
            levels == spec_mip_levels(width, height),
            v@.len() + 1 == i,
            mip_w == mip_extent(width as nat, (i - 1) as nat),
            mip_h == mip_extent(height as nat, (i - 1) as nat),
            forall|k: int| 0 <= k < v@.len() ==> #[trigger] v@[k] == spec_mip_blit(width, height, k as nat),
        decreases levels - i,
    {
        let next_w = if mip_w / 2 == 0 { 1 } else { mip_w / 2 };
        let next_h = if mip_h / 2 == 0 { 1 } else { mip_h / 2 };
        proof {
            lemma_mip_extent_bound(width as nat, i as nat);
            lemma_mip_extent_bound(height as nat, i as nat);
            lemma_mip_extent_bound(width as nat, (i - 1) as nat);
            lemma_mip_extent_bound(height as nat, (i - 1) as nat);
        }
        v.push(MipBlit {
            src_level: i - 1,
            src_width: mip_w,
            src_height: mip_h,
            dst_width: next_w,
            dst_height: next_h,
        });
        mip_w = next_w;
        mip_h = next_h;
        i = i + 1;
    }
    v
}

/// Bytes of a `width`×`height` RGBA8 image, when that count fits in 32 bits.
pub fn rgba8_size(width: u32, height: u32) -> (r: Option<u32>)
    ensures
        r is Some <==> width * height * 4 <= u32::MAX,
        r matches Some(n) ==> n == width * height * 4,
{
    assert(width as u64 * height as u64 <= 0xFFFF_FFFF * 0xFFFF_FFFF) by (nonlinear_arith)
        requires
            width <= 0xFFFF_FFFFu32,
            height <= 0xFFFF_FFFFu32,
    ;
    let wh = width as u64 * height as u64;
    if wh <= 0x3FFF_FFFF {
        Some((wh * 4) as u32)
    } else {
        None
    }
}

/// A layout transition of the mip levels `base_level .. base_level + level_count`.
#[derive(Debug, Clone, Copy, PartialEq, Eq, Structural)]
pub struct MipBarrier {
    pub base_level: u32,
    pub level_count: u32,
    pub old_layout: ImageLayout,
    pub new_layout: ImageLayout,
    pub src_stage: u32,
    pub dst_stage: u32,
    pub src_access: u32,
    pub dst_access: u32,
}

/// One command of a texture upload.
#[derive(Debug, Clone, Copy, PartialEq, Eq, Structural)]
pub enum UploadStep {
    /// Record a pipeline barrier.
    Barrier(MipBarrier),
    /// Copy the staging buffer into level 0, a `width`×`height` region.
    CopyToBase { width: u32, height: u32 },
    /// Blit one level into the next.
    Blit(MipBlit),
}

/// Every level: UNDEFINED → TRANSFER_DST before the copy.
pub open spec fn barrier_all_to_dst(levels: nat) -> MipBarrier {
    MipBarrier {
        base_level: 0,
        level_count: levels as u32,
        old_layout: ImageLayout::Undefined,
        new_layout: ImageLayout::TransferDstOptimal,
        src_stage: STAGE_TOP_OF_PIPE,
        dst_stage: STAGE_TRANSFER,
        src_access: ACCESS_NONE,
        dst_access: ACCESS_TRANSFER_WRITE,
    }
}

/// Level `i`: TRANSFER_DST → TRANSFER_SRC, before it is blitted from.
pub open spec fn barrier_to_src(i: nat) -> MipBarrier {
    MipBarrier {
        base_level: i as u32,
        level_count: 1,
        old_layout: ImageLayout::TransferDstOptimal,
        new_layout: ImageLayout::TransferSrcOptimal,
        src_stage: STAGE_TRANSFER,
        dst_stage: STAGE_TRANSFER,
        src_access: ACCESS_TRANSFER_WRITE,
        dst_access: ACCESS_TRANSFER_READ,
    }
}

/// Level `i`: TRANSFER_SRC → SHADER_READ_ONLY, once it has been blitted from.
pub open spec fn barrier_src_to_read(i: nat) -> MipBarrier {
    MipBarrier {
        base_level: i as u32,
        level_count: 1,
        old_layout: ImageLayout::TransferSrcOptimal,
        new_layout: ImageLayout::ShaderReadOnlyOptimal,
        src_stage: STAGE_TRANSFER,
        dst_stage: STAGE_FRAGMENT_SHADER,
        src_access: ACCESS_TRANSFER_READ,
        dst_access: ACCESS_SHADER_READ,
    }
}

/// The last level: TRANSFER_DST → SHADER_READ_ONLY (it is never blitted from).
pub open spec fn barrier_last_to_read(levels: nat) -> MipBarrier {
    MipBarrier {
        base_level: (levels - 1) as u32,
        level_count: 1,
        old_layout: ImageLayout::TransferDstOptimal,
        new_layout: ImageLayout::ShaderReadOnlyOptimal,
        src_stage: STAGE_TRANSFER,
        dst_stage: STAGE_FRAGMENT_SHADER,
        src_access: ACCESS_TRANSFER_WRITE,
        dst_access: ACCESS_SHADER_READ,
    }
}

/// The upload commands up to and including the generation of level `k`.
pub open spec fn upload_prefix(width: u32, height: u32, k: nat) -> Seq<UploadStep>
    decreases k,
{
    if k == 0 {
        seq![
            UploadStep::Barrier(barrier_all_to_dst(spec_mip_levels(width, height))),
            UploadStep::CopyToBase { width, height },
        ]
    } else {
        let i = (k - 1) as nat;
        upload_prefix(width, height, i)
            .push(UploadStep::Barrier(barrier_to_src(i)))
            .push(UploadStep::Blit(spec_mip_blit(width, height, i)))
            .push(UploadStep::Barrier(barrier_src_to_read(i)))
    }
}

/// All commands that upload a `width`×`height` texture and build its mip
/// chain: every level to TRANSFER_DST, copy level 0, then for each further
/// level move the previous one to TRANSFER_SRC, blit, and hand the
/// previous one to shaders; finally hand the last level to shaders.
pub open spec fn spec_upload_plan(width: u32, height: u32) -> Seq<UploadStep> {
    let levels = spec_mip_levels(width, height);
    upload_prefix(width, height, (levels - 1) as nat).push(
        UploadStep::Barrier(barrier_last_to_read(levels)),
    )
}

/// The command sequence of a texture upload.
pub fn texture_upload_plan(width: u32, height: u32) -> (v: Vec<UploadStep>)
    ensures
        v@ == spec_upload_plan(width, height),
{
    let levels = mip_level_count(width, height);
    let blits = mip_blits(width, height);
    let mut v: Vec<UploadStep> = Vec::new();
    v.push(
        UploadStep::Barrier(
            MipBarrier {
                base_level: 0,
                level_count: levels,
                old_layout: ImageLayout::Undefined,
                new_layout: ImageLayout::TransferDstOptimal,
                src_stage: STAGE_TOP_OF_PIPE,
                dst_stage: STAGE_TRANSFER,
                src_access: ACCESS_NONE,
                dst_access: ACCESS_TRANSFER_WRITE,
            },
        ),
    );
    v.push(UploadStep::CopyToBase { width, height });
    assert(v@ =~= upload_prefix(width, height, 0));
    let mut i: usize = 0;
    while i < blits.len()
        invariant
            i <= blits@.len(),
            blits@.len() + 1 == levels,
            levels == spec_mip_levels(width, height),
            levels <= 32,
            forall|k: int| 0 <= k < blits@.len() ==> #[trigger] blits@[k] == spec_mip_blit(width, height, k as nat),
            v@ == upload_prefix(width, height, i as nat),
        decreases blits@.len() - i,
    {
        let lvl = i as u32;
        v.push(
            UploadStep::Barrier(
                MipBarrier {
                    base_level: lvl,
                    level_count: 1,
                    old_layout: ImageLayout::TransferDstOptimal,
                    new_layout: ImageLayout::TransferSrcOptimal,
                    src_stage: STAGE_TRANSFER,
                    dst_stage: STAGE_TRANSFER,
                    src_access: ACCESS_TRANSFER_WRITE,
                    dst_access: ACCESS_TRANSFER_READ,
                },
            ),
        );
        v.push(UploadStep::Blit(blits[i]));
        v.push(
            UploadStep::Barrier(
                MipBarrier {
                    base_level: lvl,
                    level_count: 1,
                    old_layout: ImageLayout::TransferSrcOptimal,
                    new_layout: ImageLayout::ShaderReadOnlyOptimal,
                    src_stage: STAGE_TRANSFER,
                    dst_stage: STAGE_FRAGMENT_SHADER,
                    src_access: ACCESS_TRANSFER_READ,
                    dst_access: ACCESS_SHADER_READ,
                },
            ),
        );
        i = i + 1;
    }
    v.push(
        UploadStep::Barrier(
            MipBarrier {
                base_level: levels - 1,
                level_count: 1,
                old_layout: ImageLayout::TransferDstOptimal,
                new_layout: ImageLayout::ShaderReadOnlyOptimal,
                src_stage: STAGE_TRANSFER,
                dst_stage: STAGE_FRAGMENT_SHADER,
                src_access: ACCESS_TRANSFER_WRITE,
                dst_access: ACCESS_SHADER_READ,
            },
        ),
    );
    v
}

/// Layouts of the levels after one command, or `None` when the command
/// does not fit the current layouts (a barrier whose old layout is not the
/// one its levels are in, a copy into a level that is not a transfer
/// destination, a blit between levels in the wrong layouts).
pub open spec fn upload_step(step: UploadStep, st: Seq<ImageLayout>) -> Option<Seq<ImageLayout>> {
    match step {
        UploadStep::Barrier(b) => {
            let lo = b.base_level as int;
            let hi = b.base_level + b.level_count;
            if hi <= st.len() && forall|j: int| lo <= j < hi ==> #[trigger] st[j] == b.old_layout {
                Some(
                    Seq::new(
                        st.len(),
                        |j: int|
                            if lo <= j < hi {
                                b.new_layout
                            } else {
                                st[j]
                            },
                    ),
                )
            } else {
                None
            }
        },
        UploadStep::CopyToBase { .. } => {
            if st.len() > 0 && st[0] == ImageLayout::TransferDstOptimal {
                Some(st)
            } else {
                None
            }
        },
        UploadStep::Blit(bl) => {
            let s = bl.src_level as int;
            if s + 1 < st.len() && st[s] == ImageLayout::TransferSrcOptimal && st[s + 1]
                == ImageLayout::TransferDstOptimal {
                Some(st)
            } else {
                None
            }
        },
    }
}

/// Layouts after running `steps` from `init`, or `None` if a command does
/// not fit.
pub open spec fn run_upload(steps: Seq<UploadStep>, init: Seq<ImageLayout>) -> Option<
    Seq<ImageLayout>,
>
    decreases steps.len(),
{
    if steps.len() == 0 {
        Some(init)
    } else {
        match run_upload(steps.drop_last(), init) {
            Some(st) => upload_step(steps.last(), st),
            None => None,
        }
    }
}

/// `levels` levels all in layout `l`.
pub open spec fn all_levels(levels: nat, l: ImageLayout) -> Seq<ImageLayout> {
    Seq::new(levels, |j: int| l)
}

proof fn lemma_upload_prefix(width: u32, height: u32, k: nat)
    requires
        k + 1 <= spec_mip_levels(width, height),
        spec_mip_levels(width, height) <= 32,
    ensures
        run_upload(upload_prefix(width, height, k), all_levels(spec_mip_levels(width, height), ImageLayout::Undefined))
            == Some(
            Seq::new(
                spec_mip_levels(width, height),
                |j: int|
                    if j < k {
                        ImageLayout::ShaderReadOnlyOptimal
                    } else {
                        ImageLayout::TransferDstOptimal
                    },
            ),
        ),
    decreases k,
{
    let levels = spec_mip_levels(width, height);
    let init = all_levels(levels, ImageLayout::Undefined);
    let target = Seq::new(
        levels,
        |j: int|
            if j < k {
                ImageLayout::ShaderReadOnlyOptimal
            } else {
                ImageLayout::TransferDstOptimal
            },
    );
    if k == 0 {
        let p = upload_prefix(width, height, 0);
        assert(p.drop_last().drop_last() =~= Seq::<UploadStep>::empty());
        assert(p.drop_last() =~= seq![p[0]]);
        let after_barrier = upload_step(p[0], init);
        assert(after_barrier == Some(target)) by {
            assert(after_barrier->0 =~= target);
        }
        let q = p.drop_last();
        assert(q.drop_last() =~= Seq::<UploadStep>::empty());
        assert(run_upload(q.drop_last(), init) == Some(init));
        assert(q.last() == p[0]);
        assert(run_upload(q, init) == Some(target));
        assert(target[0] == ImageLayout::TransferDstOptimal);
    } else {
        let i = (k - 1) as nat;
        lemma_upload_prefix(width, height, i);
        let prev = Seq::new(
            levels,
            |j: int|
                if j < i {
                    ImageLayout::ShaderReadOnlyOptimal
                } else {
                    ImageLayout::TransferDstOptimal
                },
        );
        let p0 = upload_prefix(width, height, i);
        let p1 = p0.push(UploadStep::Barrier(barrier_to_src(i)));
        let p2 = p1.push(UploadStep::Blit(spec_mip_blit(width, height, i)));
        let p3 = p2.push(UploadStep::Barrier(barrier_src_to_read(i)));
        assert(p1.drop_last() =~= p0);
        assert(p2.drop_last() =~= p1);
        assert(p3.drop_last() =~= p2);
        let mid = Seq::new(
            levels,
            |j: int|
                if j < i {
                    ImageLayout::ShaderReadOnlyOptimal
                } else if j == i {
                    ImageLayout::TransferSrcOptimal
                } else {
                    ImageLayout::TransferDstOptimal
                },
        );
        assert(run_upload(p1, init) == Some(mid)) by {
            assert(upload_step(UploadStep::Barrier(barrier_to_src(i)), prev)->0 =~= mid);
        }
        assert(run_upload(p2, init) == Some(mid));
        assert(run_upload(p3, init) == Some(target)) by {
            assert(upload_step(UploadStep::Barrier(barrier_src_to_read(i)), mid)->0 =~= target);
        }
        assert(upload_prefix(width, height, k) == p3);
    }
}

/// Uploading a texture is layout-correct: starting from every level
/// UNDEFINED, each barrier finds its levels in the layout it names, the
/// copy and every blit find their levels in the transfer layouts they
/// need, and at the end every mip level is ready for shaders.
pub proof fn lemma_upload_plan_sound(width: u32, height: u32)
    ensures
        run_upload(spec_upload_plan(width, height), all_levels(spec_mip_levels(width, height), ImageLayout::Undefined))
            == Some(all_levels(spec_mip_levels(width, height), ImageLayout::ShaderReadOnlyOptimal)),
{
    let levels = spec_mip_levels(width, height);
    let top = if width < height { height } else { width };
    lemma2_to64();
    lemma_bit_len_bound(top as nat, 32);
    let k = (levels - 1) as nat;
    lemma_upload_prefix(width, height, k);
    let plan = spec_upload_plan(width, height);
    assert(plan.drop_last() =~= upload_prefix(width, height, k));
    let before = Seq::new(
        levels,
        |j: int|
            if j < k {
                ImageLayout::ShaderReadOnlyOptimal
            } else {
                ImageLayout::TransferDstOptimal
            },
    );
    assert(upload_step(plan.last(), before)->0 =~= all_levels(levels, ImageLayout::ShaderReadOnlyOptimal));
}

/// One face of one mip level of a cubemap, with its bytes.
pub struct FaceRef {
    pub mip: int,
    pub face: int,
    pub bytes: Seq<u8>,
}

/// The faces of mip `m`, in face order.
pub open spec fn faces_of(mips: Seq<Seq<Seq<u8>>>, m: int) -> Seq<FaceRef> {
    Seq::new(mips[m].len(), |f: int| FaceRef { mip: m, face: f, bytes: mips[m][f] })
}

/// Every face of every mip, mip by mip and face by face.
pub open spec fn face_list(mips: Seq<Seq<Seq<u8>>>) -> Seq<FaceRef>
    decreases mips.len(),
{
    if mips.len() == 0 {
        Seq::empty()
    } else {
        face_list(mips.drop_last()) + faces_of(mips, mips.len() - 1)
    }
}

/// The bytes of the faces, one after the other.
pub open spec fn concat_bytes(faces: Seq<FaceRef>) -> Seq<u8>
    decreases faces.len(),
{
    if faces.len() == 0 {
        Seq::empty()
    } else {
        concat_bytes(faces.drop_last()) + faces.last().bytes
    }
}

/// Side length of a cubemap face at mip `mip`: the base size halved `mip`
/// times, at least 1.
pub open spec fn cube_face_extent(base: u32, mip: int) -> u32 {
    if (base >> (mip as u32)) == 0 {
        1
    } else {
        base >> (mip as u32)
    }
}

/// A copy from the staging buffer into one face of one mip level.
#[derive(Debug, Clone, Copy, PartialEq, Eq, Structural)]
pub struct CubeCopy {
    pub buffer_offset: u64,
    pub mip_level: u32,
    pub layer: u32,
    pub size: u32,
}

/// The copy for the `k`-th face of `faces`: it starts where the bytes of
/// the faces before it end.
pub open spec fn spec_cube_copy(faces: Seq<FaceRef>, k: int, base: u32) -> CubeCopy {
    CubeCopy {
        buffer_offset: concat_bytes(faces.take(k)).len() as u64,
        mip_level: faces[k].mip as u32,
        layer: faces[k].face as u32,
        size: cube_face_extent(base, faces[k].mip),
    }
}

proof fn lemma_take_push(s: Seq<FaceRef>, x: FaceRef, k: int)
    requires
        0 <= k <= s.len(),
    ensures
        s.push(x).take(k) == s.take(k),
{
    assert(s.push(x).take(k) =~= s.take(k));
}

proof fn lemma_concat_take_step(faces: Seq<FaceRef>, k: int)
    requires
        0 <= k < faces.len(),
    ensures
        concat_bytes(faces.take(k + 1)) == concat_bytes(faces.take(k)) + faces[k].bytes,
{
    assert(faces.take(k + 1).drop_last() =~= faces.take(k));
}

proof fn lemma_concat_prefix(faces: Seq<FaceRef>, k: int)
    requires
        0 <= k <= faces.len(),
    ensures
        concat_bytes(faces.take(k)).len() <= concat_bytes(faces).len(),
        concat_bytes(faces).subrange(0, concat_bytes(faces.take(k)).len() as int) == concat_bytes(
            faces.take(k),
        ),
    decreases faces.len() - k,
{
    if k == faces.len() {
        assert(faces.take(k) =~= faces);
        assert(concat_bytes(faces).subrange(0, concat_bytes(faces).len() as int) =~= concat_bytes(
            faces,
        ));
    } else {
        lemma_concat_prefix(faces, k + 1);
        lemma_concat_take_step(faces, k);
        let a = concat_bytes(faces.take(k));
        let b = concat_bytes(faces.take(k + 1));
        assert(concat_bytes(faces).subrange(0, a.len() as int) =~= b.subrange(0, a.len() as int));
        assert(b.subrange(0, a.len() as int) =~= a);
    }
}

/// Every copy region of a cubemap reads exactly its own face: the staging
/// bytes from its offset on, as many as the face has, are that face's
/// bytes.  (The staging buffer is a byte vector, so its length fits the
/// 64-bit offsets.)
pub proof fn lemma_cube_copy_reads_its_face(mips: Seq<Seq<Seq<u8>>>, base: u32, k: int)
    requires
        0 <= k < face_list(mips).len(),
        concat_bytes(face_list(mips)).len() <= u64::MAX,
    ensures
        ({
            let faces = face_list(mips);
            let off = spec_cube_copy(faces, k, base).buffer_offset as int;
            &&& off == concat_bytes(faces.take(k)).len()
            &&& off + faces[k].bytes.len() <= concat_bytes(faces).len()
            &&& concat_bytes(faces).subrange(off, off + faces[k].bytes.len()) == faces[k].bytes
        }),
{
    let faces = face_list(mips);
    lemma_concat_prefix(faces, k + 1);
    lemma_concat_take_step(faces, k);
    lemma_concat_prefix(faces, k);
    let a = concat_bytes(faces.take(k));
    let b = concat_bytes(faces.take(k + 1));
    let all = concat_bytes(faces);
    assert(a.len() <= all.len());
    assert(all.subrange(a.len() as int, b.len() as int) =~= all.subrange(0, b.len() as int).subrange(
        a.len() as int,
        b.len() as int,
    ));
    assert(b.subrange(a.len() as int, b.len() as int) =~= faces[k].bytes);
}

/// Fill the staging buffer of a cubemap and build one copy region per mip
/// and face: the faces' bytes go one after the other, mip by mip, and each
/// region names its mip, its face (as array layer), its side length and
/// the offset where its bytes start.
pub fn cubemap_copy_plan(mip_faces: &Vec<Vec<Vec<u8>>>, base_face_size: u32) -> (r: (
    Vec<u8>,
    Vec<CubeCopy>,
))
    requires
        mip_faces@.len() <= 32,
    ensures
        r.0@ == concat_bytes(face_list(mip_faces.deep_view())),
        r.1@.len() == face_list(mip_faces.deep_view()).len(),
        forall|k: int|
            0 <= k < r.1@.len() ==> #[trigger] r.1@[k] == spec_cube_copy(
                face_list(mip_faces.deep_view()),
                k,
                base_face_size,
            ),
{
    let ghost mips = mip_faces.deep_view();
    let mut staging: Vec<u8> = Vec::new();
    let mut regions: Vec<CubeCopy> = Vec::new();
    let ghost mut cur: Seq<FaceRef> = Seq::empty();
    let mut m: usize = 0;
    while m < mip_faces.len()
        invariant
            mips == mip_faces.deep_view(),
            mip_faces@.len() <= 32,
            m <= mip_faces@.len(),
            cur == face_list(mips.take(m as int)),
            staging@ == concat_bytes(cur),
            regions@.len() == cur.len(),
            forall|k: int|
                0 <= k < regions@.len() ==> #[trigger] regions@[k] == spec_cube_copy(
                    cur,
                    k,
                    base_face_size,
                ),
        decreases mip_faces@.len() - m,
    {
        let faces = &mip_faces[m];
        let shifted = base_face_size >> (m as u32);
        let size = if shifted == 0 { 1 } else { shifted };
        let mut f: usize = 0;
        while f < faces.len()
            invariant
                mips == mip_faces.deep_view(),
                m < mip_faces@.len() <= 32,
                faces == mip_faces@[m as int],
                size == cube_face_extent(base_face_size, m as int),
                f <= faces@.len(),
                cur == face_list(mips.take(m as int)) + faces_of(mips, m as int).take(f as int),
                staging@ == concat_bytes(cur),
                regions@.len() == cur.len(),
                forall|k: int|
                    0 <= k < regions@.len() ==> #[trigger] regions@[k] == spec_cube_copy(
                        cur,
                        k,
                        base_face_size,
                    ),
            decreases faces@.len() - f,
        {
            let bytes = &faces[f];
            let ghost item = FaceRef { mip: m as int, face: f as int, bytes: bytes@ };
            let offset = staging.len() as u64;
            let ghost old_staging = staging@;
            let mut j: usize = 0;
            while j < bytes.len()
                invariant
                    j <= bytes@.len(),
                    staging@ == old_staging + bytes@.take(j as int),
                decreases bytes@.len() - j,
            {
                staging.push(bytes[j]);
                j = j + 1;
                assert(staging@ =~= old_staging + bytes@.take(j as int));
            }
            assert(bytes@.take(j as int) =~= bytes@);
            regions.push(
                CubeCopy { buffer_offset: offset, mip_level: m as u32, layer: f as u32, size },
            );
            proof {
                assert(mips[m as int][f as int] == bytes@);
                let next = cur.push(item);
                assert(next.drop_last() =~= cur);
                assert forall|k: int| 0 <= k < regions@.len() implies #[trigger] regions@[k]
                    == spec_cube_copy(next, k, base_face_size) by {
                    lemma_take_push(cur, item, k);
                }
                assert(faces_of(mips, m as int).take(f + 1) =~= faces_of(mips, m as int).take(
                    f as int,
                ).push(item));
                cur = next;
            }
            f = f + 1;
        }
        proof {
            assert(faces_of(mips, m as int).take(f as int) =~= faces_of(mips, m as int));
            let t = mips.take(m + 1);
            assert(t.drop_last() =~= mips.take(m as int));
            assert(faces_of(t, m as int) =~= faces_of(mips, m as int));
        }
        m = m + 1;
    }
    proof {
        assert(mips.take(m as int) =~= mips);
    }
    (staging, regions)
}

} // verus!
