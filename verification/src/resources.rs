//! GPU resource bookkeeping: opaque generational handles, the tables that
//! map them to live resources, and the plain data laid out for the GPU.
use vstd::prelude::*;
use std::collections::HashMap;
use vstd::std_specs::iter::IteratorSpec;

verus! {

broadcast use vstd::std_specs::hash::group_hash_axioms;

/// Opaque handle to a GPU buffer.  Ids are never reused, so a stale handle
/// is detected rather than aliased.
#[derive(Debug, Clone, Copy, PartialEq, Eq, Hash, Structural)]
pub struct BufferHandle(pub u64);

/// Opaque handle to a GPU image + image view.
#[derive(Debug, Clone, Copy, PartialEq, Eq, Hash, Structural)]
pub struct ImageHandle(pub u64);

/// One LOD level of a mesh: offset + count into the mega index buffer.
#[derive(Debug, Clone, Copy, PartialEq, Eq, Structural)]
pub struct GpuMeshLod {
    pub first_index: u32,
    pub index_count: u32,
}

/// Mesh descriptor in the mega vertex/index buffers, with up to 4 LOD levels
/// (indices only; vertices are shared).
#[derive(Debug, Clone, Copy)]
pub struct GpuMesh {
    /// LOD levels in order: 0 = full detail, 1 = 50%, 2 = 25%, 3 = 12.5%.
    pub lods: [GpuMeshLod; 4],
    /// Number of valid entries in `lods` (≥ 1).
    pub lod_count: u32,
    /// Constant offset added to every index.
    pub vertex_offset: i32,
}

/// One LOD level in the GPU mesh-info buffer (8 bytes).
#[derive(Debug, Clone, Copy, PartialEq, Eq, Structural)]
pub struct GpuMeshLodInfo {
    pub first_index: u32,
    pub index_count: u32,
}

/// Static per-mesh data in the mesh-info buffer (48 bytes, std430).
#[derive(Debug, Clone, Copy)]
pub struct GpuMeshInfo {
    pub lods: [GpuMeshLodInfo; 4],
    pub vertex_offset: i32,
    pub lod_count: u32,
    pub _pad: [u32; 2],
}

/// Layout of `VkDrawIndexedIndirectCommand` (20 bytes).
#[derive(Debug, Clone, Copy, PartialEq, Eq, Structural)]
pub struct DrawIndirectCommand {
    pub index_count: u32,
    pub instance_count: u32,
    pub first_index: u32,
    pub vertex_offset: i32,
    pub first_instance: u32,
}

/// All precomputed image-based-lighting data, ready for GPU upload.
pub struct IblMaps {
    /// 6 faces, RGBA16F.
    pub skybox_faces: Vec<Vec<u8>>,
    /// 6 faces, RGBA16F.
    pub irr_faces: Vec<Vec<u8>>,
    /// `[mip][face]` bytes, RGBA16F.
    pub pre_faces: Vec<Vec<Vec<u8>>>,
    /// RG16F.
    pub brdf_lut: Vec<u8>,
}

/// A table of live resources keyed by id.  Ids are handed out in increasing
/// order starting at 1 and are never reused.
pub struct ResourceTable<V> {
    entries: HashMap<u64, V>,
    next_id: u64,
}

impl<V> ResourceTable<V> {
    /// The live resources, by id.
    pub closed spec fn entries(&self) -> Map<u64, V> {
        self.entries@
    }

    /// The id the next insertion will use.
    pub closed spec fn next_id(&self) -> u64 {
        self.next_id
    }

    /// Every live id was handed out before: `1 <= id < next_id`.
    pub closed spec fn wf(&self) -> bool {
        &&& self.next_id >= 1
        &&& forall|k: u64| #[trigger] self.entries@.contains_key(k) ==> 1 <= k < self.next_id
    }

    /// An empty table; the first id will be 1.
    pub fn new() -> (t: Self)
        ensures
            t.wf(),
            t.entries() == Map::<u64, V>::empty(),
            t.next_id() == 1,
    {
        ResourceTable { entries: HashMap::new(), next_id: 1 }
    }

    /// Whether another id can be handed out (ids are 64-bit and never reused).
    pub fn can_insert(&self) -> (r: bool)
        ensures
            r == (self.next_id() < u64::MAX),
    {
        self.next_id < u64::MAX
    }

    /// Store a resource under a fresh id and return that id.
    pub fn insert(&mut self, value: V) -> (id: u64)
        requires
            old(self).wf(),
            old(self).next_id() < u64::MAX,
        ensures
            final(self).wf(),
            id == old(self).next_id(),
            !old(self).entries().contains_key(id),
            final(self).entries() == old(self).entries().insert(id, value),
            final(self).next_id() == old(self).next_id() + 1,
    {
        let id = self.next_id;
        self.next_id = id + 1;
        self.entries.insert(id, value);
        id
    }

    /// Remove and return the resource stored under `id`, if any.
    pub fn remove(&mut self, id: u64) -> (r: Option<V>)
        requires
            old(self).wf(),
        ensures
            final(self).wf(),
            final(self).entries() == old(self).entries().remove(id),
            final(self).next_id() == old(self).next_id(),
            r == if old(self).entries().contains_key(id) {
                Some(old(self).entries()[id])
            } else {
                None::<V>
            },
    {
        self.entries.remove(&id)
    }

    /// The resource stored under `id`, if any.
    pub fn get(&self, id: u64) -> (r: Option<&V>)
        ensures
            r == if self.entries().contains_key(id) {
                Some(&self.entries()[id])
            } else {
                None::<&V>
            },
    {
        self.entries.get(&id)
    }

    /// Number of live resources.
    pub fn len(&self) -> (n: usize)
        ensures
            n == self.entries().len(),
    {
        self.entries.len()
    }

    /// The ids of all live resources, each once, in no particular order.
    pub fn ids(&self) -> (r: Vec<u64>)
        ensures
            r@.to_set() == self.entries().dom(),
            r@.no_duplicates(),
    {
        let mut out: Vec<u64> = Vec::new();
        for k in it: self.entries.keys()
            invariant
                out@ == it.seq().take(it.index() as int).map_values(|r: &u64| *r),
        {
            out.push(*k);
        }
        proof {
            let rem = vstd::std_specs::hash::spec_keys_iter(&self.entries).remaining();
            assert(out@ =~= rem.unref());
        }
        out
    }
}

/// Handles are never reused: once a live resource is removed, looking its
/// id up finds nothing, and the id the next insertion hands out differs from
/// it, so a stale handle can never reach a newer resource.
pub proof fn lemma_ids_never_reused<V>(
    t0: ResourceTable<V>,
    t1: ResourceTable<V>,
    t2: ResourceTable<V>,
    removed: u64,
    value: V,
    id: u64,
)
    requires
        t0.wf(),
        t0.entries().contains_key(removed),
        t1.entries() == t0.entries().remove(removed),
        t1.next_id() == t0.next_id(),
        id == t1.next_id(),
        t2.entries() == t1.entries().insert(id, value),
    ensures
        id != removed,
        !t2.entries().contains_key(removed),
{
}

} // verus!
