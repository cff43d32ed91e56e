//! Where meshes live in the renderer's shared vertex and index buffers.
//!
//! Each mesh is copied once, at the first frame that draws it, to the free
//! end of both buffers; later frames find it by its mesh id. Forgetting the
//! loaded meshes does not give their space back: the free ends only grow.
use std::collections::HashMap;
use vstd::prelude::*;

verus! {

broadcast use vstd::std_specs::hash::group_hash_axioms;

/// Where a loaded mesh starts: its first vertex and its first index.
#[derive(Debug, Copy, Clone, PartialEq, Eq, Structural)]
pub struct LoadedModelHandles {
    pub vertex_offset: i32,
    pub index_offset: u32,
}

/// The loaded meshes and the free ends of the vertex and index buffers, in
/// elements and in bytes.
pub struct ModelMemory {
    loaded_models: HashMap<u64, LoadedModelHandles>,
    vertex_free_byte_start: u64,
    index_free_byte_start: u64,
    vertex_free_start: i32,
    index_free_start: u32,
}

/// What a mesh load asks of the caller.
#[derive(Debug, Copy, Clone, PartialEq, Eq, Structural)]
pub enum LoadPlan {
    /// The mesh is in the buffers already; copy nothing.
    AlreadyLoaded,
    /// Copy the mesh's vertices and indices to these byte offsets.
    CopyTo { vertex_byte_start: u64, index_byte_start: u64 },
}

/// One indexed draw: how many indices and instances, and where they start.
#[derive(Debug, Copy, Clone, PartialEq, Eq, Structural)]
pub struct DrawCall {
    pub index_count: u32,
    pub instance_count: u32,
    pub first_index: u32,
    pub vertex_offset: i32,
    pub first_instance: u32,
}

/// What a draw reads of its task: the mesh id and how many indices and
/// instances it draws.
#[derive(Debug, Copy, Clone, PartialEq, Eq, Structural)]
pub struct DrawRequest {
    pub mesh_id: u64,
    pub index_count: u32,
    pub instance_count: u32,
}

/// The instances drawn by the first `n` requests.
pub open spec fn instances_before(draws: Seq<DrawRequest>, n: int) -> int
    decreases n,
{
    if n <= 0 {
        0
    } else {
        instances_before(draws, n - 1) + draws[n - 1].instance_count
    }
}

/// The loaded meshes, the free ends in elements and in bytes, and the plan,
/// after asking to load a mesh: a loaded one changes nothing; a new one
/// starts at the free ends, which move past it by its counts, taken as the
/// 32-bit integers they convert to.
pub open spec fn spec_load(
    loaded: Map<u64, LoadedModelHandles>,
    free: (i32, u32),
    free_bytes: (u64, u64),
    mesh_id: u64,
    vertex_count: usize,
    index_count: usize,
    vertex_bytes: u64,
    index_bytes: u64,
) -> (Map<u64, LoadedModelHandles>, (i32, u32), (u64, u64), LoadPlan) {
    if loaded.contains_key(mesh_id) {
        (loaded, free, free_bytes, LoadPlan::AlreadyLoaded)
    } else {
        (
            loaded.insert(mesh_id, LoadedModelHandles { vertex_offset: free.0, index_offset: free.1 }),
            ((free.0 + (vertex_count as i32)) as i32, (free.1 + (index_count as u32)) as u32),
            ((free_bytes.0 + vertex_bytes) as u64, (free_bytes.1 + index_bytes) as u64),
            LoadPlan::CopyTo { vertex_byte_start: free_bytes.0, index_byte_start: free_bytes.1 },
        )
    }
}

/// The sizes of a mesh as loading reads them.
#[derive(Debug, Copy, Clone, PartialEq, Eq, Structural)]
pub struct MeshExtent {
    pub mesh_id: u64,
    pub vertex_count: usize,
    pub index_count: usize,
    pub vertex_bytes: u64,
    pub index_bytes: u64,
}

/// Whether loading `m` keeps the free ends within their integers.
pub open spec fn load_fits(
    loaded: Map<u64, LoadedModelHandles>,
    free: (i32, u32),
    free_bytes: (u64, u64),
    m: MeshExtent,
) -> bool {
    !loaded.contains_key(m.mesh_id) ==> {
        &&& i32::MIN <= free.0 + (m.vertex_count as i32) <= i32::MAX
        &&& free.1 + (m.index_count as u32) <= u32::MAX
        &&& free_bytes.0 + m.vertex_bytes <= u64::MAX
        &&& free_bytes.1 + m.index_bytes <= u64::MAX
    }
}

/// The state and the plans after loading the meshes in order.
pub open spec fn spec_load_all(
    loaded: Map<u64, LoadedModelHandles>,
    free: (i32, u32),
    free_bytes: (u64, u64),
    meshes: Seq<MeshExtent>,
) -> (Map<u64, LoadedModelHandles>, (i32, u32), (u64, u64), Seq<LoadPlan>)
    decreases meshes.len(),
{
    if meshes.len() == 0 {
        (loaded, free, free_bytes, Seq::empty())
    } else {
        let prev = spec_load_all(loaded, free, free_bytes, meshes.drop_last());
        let m = meshes.last();
        let step = spec_load(
            prev.0,
            prev.1,
            prev.2,
            m.mesh_id,
            m.vertex_count,
            m.index_count,
            m.vertex_bytes,
            m.index_bytes,
        );
        (step.0, step.1, step.2, prev.3.push(step.3))
    }
}

/// Whether every load in the sequence keeps the free ends within their
/// integers, at the state the loads before it leave.
pub open spec fn loads_fit(
    loaded: Map<u64, LoadedModelHandles>,
    free: (i32, u32),
    free_bytes: (u64, u64),
    meshes: Seq<MeshExtent>,
) -> bool
    decreases meshes.len(),
{
    if meshes.len() == 0 {
        true
    } else {
        let prev = spec_load_all(loaded, free, free_bytes, meshes.drop_last());
        &&& loads_fit(loaded, free, free_bytes, meshes.drop_last())
        &&& load_fits(prev.0, prev.1, prev.2, meshes.last())
    }
}

proof fn lemma_loads_fit_prefix(
    loaded: Map<u64, LoadedModelHandles>,
    free: (i32, u32),
    free_bytes: (u64, u64),
    meshes: Seq<MeshExtent>,
    k: int,
)
    requires
        0 <= k <= meshes.len(),
        loads_fit(loaded, free, free_bytes, meshes),
    ensures
        loads_fit(loaded, free, free_bytes, meshes.take(k)),
    decreases meshes.len(),
{
    if k < meshes.len() {
        lemma_loads_fit_prefix(loaded, free, free_bytes, meshes.drop_last(), k);
        assert(meshes.drop_last().take(k) =~= meshes.take(k));
    } else {
        assert(meshes.take(k) =~= meshes);
    }
}

impl ModelMemory {
    /// The loaded meshes, by mesh id.
    pub closed spec fn loaded(&self) -> Map<u64, LoadedModelHandles> {
        self.loaded_models@
    }

    /// The first free vertex, and the first free index.
    pub closed spec fn free_start(&self) -> (i32, u32) {
        (self.vertex_free_start, self.index_free_start)
    }

    /// The first free byte of the vertex buffer, and of the index buffer.
    pub closed spec fn free_byte_start(&self) -> (u64, u64) {
        (self.vertex_free_byte_start, self.index_free_byte_start)
    }

    /// Nothing loaded; both buffers free from their start.
    pub fn new() -> (r: ModelMemory)
        ensures
            r.loaded() == Map::<u64, LoadedModelHandles>::empty(),
            r.free_start() == (0i32, 0u32),
            r.free_byte_start() == (0u64, 0u64),
    {
        ModelMemory {
            loaded_models: HashMap::new(),
            vertex_free_byte_start: 0,
            index_free_byte_start: 0,
            vertex_free_start: 0,
            index_free_start: 0,
        }
    }

    /// Forgets every loaded mesh, so each is copied again when next drawn;
    /// the space they took is not given back.
    pub fn invalidate_model_memory(&mut self)
        ensures
            final(self).loaded() == Map::<u64, LoadedModelHandles>::empty(),
            final(self).free_start() == old(self).free_start(),
            final(self).free_byte_start() == old(self).free_byte_start(),
    {
        self.loaded_models.clear();
    }

    /// Whether a mesh is in the buffers.
    pub fn is_loaded(&self, mesh_id: u64) -> (r: bool)
        ensures
            r == self.loaded().contains_key(mesh_id),
    {
        self.loaded_models.contains_key(&mesh_id)
    }

    /// Where a loaded mesh starts, if it is loaded.
    pub fn handles(&self, mesh_id: u64) -> (r: Option<LoadedModelHandles>)
        ensures
            r == (if self.loaded().contains_key(mesh_id) {
                Some(self.loaded()[mesh_id])
            } else {
                None::<LoadedModelHandles>
            }),
    {
        match self.loaded_models.get(&mesh_id) {
            Some(h) => Some(*h),
            None => None,
        }
    }

    /// Makes room for a mesh of `vertex_count` vertices and `index_count`
    /// indices, taking `vertex_bytes` and `index_bytes`, unless it is loaded
    /// already. A new mesh starts at the free ends, which then move past it;
    /// counts are taken as the 32-bit integers they convert to.
    pub fn load_model(
        &mut self,
        mesh_id: u64,
        vertex_count: usize,
        index_count: usize,
        vertex_bytes: u64,
        index_bytes: u64,
    ) -> (r: LoadPlan)
        requires
            !old(self).loaded().contains_key(mesh_id) ==> {
                &&& i32::MIN <= old(self).free_start().0 + (vertex_count as i32) <= i32::MAX
                &&& old(self).free_start().1 + (index_count as u32) <= u32::MAX
                &&& old(self).free_byte_start().0 + vertex_bytes <= u64::MAX
                &&& old(self).free_byte_start().1 + index_bytes <= u64::MAX
            },
        ensures
            (final(self).loaded(), final(self).free_start(), final(self).free_byte_start(), r) == spec_load(
                old(self).loaded(),
                old(self).free_start(),
                old(self).free_byte_start(),
                mesh_id,
                vertex_count,
                index_count,
                vertex_bytes,
                index_bytes,
            ),
    {
        if self.loaded_models.contains_key(&mesh_id) {
            return LoadPlan::AlreadyLoaded;
        }
        let plan = LoadPlan::CopyTo {
            vertex_byte_start: self.vertex_free_byte_start,
            index_byte_start: self.index_free_byte_start,
        };
        self.loaded_models.insert(
            mesh_id,
            LoadedModelHandles { vertex_offset: self.vertex_free_start, index_offset: self.index_free_start },
        );
        self.vertex_free_start = self.vertex_free_start + vertex_count as i32;
        self.index_free_start = self.index_free_start + index_count as u32;
        self.vertex_free_byte_start = self.vertex_free_byte_start + vertex_bytes;
        self.index_free_byte_start = self.index_free_byte_start + index_bytes;
        plan
    }

    /// Makes room, in order, for the meshes of a frame's draws, skipping those
    /// loaded already; gives for each where to copy it, if anywhere.
    pub fn load_models(&mut self, meshes: &Vec<MeshExtent>) -> (r: Vec<LoadPlan>)
        requires
            loads_fit(old(self).loaded(), old(self).free_start(), old(self).free_byte_start(), meshes@),
        ensures
            (final(self).loaded(), final(self).free_start(), final(self).free_byte_start(), r@)
                == spec_load_all(
                old(self).loaded(),
                old(self).free_start(),
                old(self).free_byte_start(),
                meshes@,
            ),
    {
        let ghost start = (self.loaded(), self.free_start(), self.free_byte_start());
        let mut plans: Vec<LoadPlan> = Vec::new();
        let mut i: usize = 0;
        while i < meshes.len()
            invariant
                i <= meshes@.len(),
                loads_fit(start.0, start.1, start.2, meshes@),
                (self.loaded(), self.free_start(), self.free_byte_start(), plans@) == spec_load_all(
                    start.0,
                    start.1,
                    start.2,
                    meshes@.take(i as int),
                ),
            decreases meshes@.len() - i,
        {
            proof {
                lemma_loads_fit_prefix(start.0, start.1, start.2, meshes@, i + 1);
                assert(meshes@.take(i + 1).drop_last() =~= meshes@.take(i as int));
            }
            let m = meshes[i];
            let plan = self.load_model(m.mesh_id, m.vertex_count, m.index_count, m.vertex_bytes, m.index_bytes);
            plans.push(plan);
            i = i + 1;
        }
        proof {
            assert(meshes@.take(i as int) =~= meshes@);
        }
        plans
    }

    /// The draw calls for a frame's draws, in order: each from its mesh's
    /// start, with its instances following those of the draws before it.
    pub fn plan_draws(&self, draws: &Vec<DrawRequest>) -> (r: Vec<DrawCall>)
        requires
            forall|i: int| 0 <= i < draws@.len() ==> self.loaded().contains_key(#[trigger] draws@[i].mesh_id),
            instances_before(draws@, draws@.len() as int) <= u32::MAX,
        ensures
            r@.len() == draws@.len(),
            forall|i: int|
                0 <= i < draws@.len() ==> #[trigger] r@[i] == (DrawCall {
                    index_count: draws@[i].index_count,
                    instance_count: draws@[i].instance_count,
                    first_index: self.loaded()[draws@[i].mesh_id].index_offset,
                    vertex_offset: self.loaded()[draws@[i].mesh_id].vertex_offset,
                    first_instance: instances_before(draws@, i) as u32,
                }),
    {
        let mut calls: Vec<DrawCall> = Vec::new();
        let mut current_instance_buffer_idx: u32 = 0;
        let mut i: usize = 0;
        while i < draws.len()
            invariant
                i <= draws@.len(),
                calls@.len() == i,
                current_instance_buffer_idx == instances_before(draws@, i as int),
                forall|k: int| 0 <= k < draws@.len() ==> self.loaded().contains_key(#[trigger] draws@[k].mesh_id),
                instances_before(draws@, draws@.len() as int) <= u32::MAX,
                forall|k: int|
                    0 <= k < i ==> #[trigger] calls@[k] == (DrawCall {
                        index_count: draws@[k].index_count,
                        instance_count: draws@[k].instance_count,
                        first_index: self.loaded()[draws@[k].mesh_id].index_offset,
                        vertex_offset: self.loaded()[draws@[k].mesh_id].vertex_offset,
                        first_instance: instances_before(draws@, k) as u32,
                    }),
            decreases draws@.len() - i,
        {
            let draw = draws[i];
            let handle = *self.loaded_models.get(&draw.mesh_id).unwrap();
            proof {
                lemma_instances_before_monotone(draws@, i as int + 1, draws@.len() as int);
            }
            calls.push(
                DrawCall {
                    index_count: draw.index_count,
                    instance_count: draw.instance_count,
                    first_index: handle.index_offset,
                    vertex_offset: handle.vertex_offset,
                    first_instance: current_instance_buffer_idx,
                },
            );
            current_instance_buffer_idx = current_instance_buffer_idx + draw.instance_count;
            i = i + 1;
        }
        calls
    }
}

proof fn lemma_instances_before_monotone(draws: Seq<DrawRequest>, m: int, n: int)
    requires
        0 <= m <= n,
    ensures
        instances_before(draws, m) <= instances_before(draws, n),
    decreases n - m,
{
    if m < n {
        lemma_instances_before_monotone(draws, m, n - 1);
    }
}

/// Asking again for a mesh just loaded changes nothing and copies nothing,
/// whatever sizes are given the second time.
pub proof fn law_second_load_copies_nothing(
    loaded: Map<u64, LoadedModelHandles>,
    free: (i32, u32),
    free_bytes: (u64, u64),
    mesh_id: u64,
    vertex_count: usize,
    index_count: usize,
    vertex_bytes: u64,
    index_bytes: u64,
    vertex_count2: usize,
    index_count2: usize,
    vertex_bytes2: u64,
    index_bytes2: u64,
)
    ensures
        ({
            let s1 = spec_load(loaded, free, free_bytes, mesh_id, vertex_count, index_count, vertex_bytes, index_bytes);
            let s2 = spec_load(s1.0, s1.1, s1.2, mesh_id, vertex_count2, index_count2, vertex_bytes2, index_bytes2);
            &&& s2.0 == s1.0
            &&& s2.1 == s1.1
            &&& s2.2 == s1.2
            &&& s2.3 == LoadPlan::AlreadyLoaded
        }),
{
}

/// Loading a frame's meshes gives one plan per mesh and keeps every mesh that
/// was loaded before where it was. A mesh loaded before the frame, or earlier
/// in the same frame, is not copied again; and at the end every mesh of the
/// frame is loaded.
pub proof fn law_frame_keeps_loaded_meshes(
    loaded: Map<u64, LoadedModelHandles>,
    free: (i32, u32),
    free_bytes: (u64, u64),
    meshes: Seq<MeshExtent>,
)
    ensures
        ({
            let r = spec_load_all(loaded, free, free_bytes, meshes);
            &&& r.3.len() == meshes.len()
            &&& forall|id: u64| #[trigger]
                loaded.contains_key(id) ==> r.0.contains_key(id) && r.0[id] == loaded[id]
            &&& forall|i: int|
                0 <= i < meshes.len() && loaded.contains_key(#[trigger] meshes[i].mesh_id)
                    ==> r.3[i] == LoadPlan::AlreadyLoaded
            &&& forall|i: int, j: int|
                0 <= i < j < meshes.len() && #[trigger] meshes[i].mesh_id == #[trigger] meshes[j].mesh_id
                    ==> r.3[j] == LoadPlan::AlreadyLoaded
            &&& forall|i: int| 0 <= i < meshes.len() ==> r.0.contains_key(#[trigger] meshes[i].mesh_id)
        }),
    decreases meshes.len(),
{
    if meshes.len() > 0 {
        let prefix = meshes.drop_last();
        law_frame_keeps_loaded_meshes(loaded, free, free_bytes, prefix);
        let prev = spec_load_all(loaded, free, free_bytes, prefix);
        let r = spec_load_all(loaded, free, free_bytes, meshes);
        let n = meshes.len() - 1;
        assert forall|i: int| 0 <= i < n implies #[trigger] meshes[i] == prefix[i] by {}
        assert forall|i: int| 0 <= i < meshes.len() implies r.0.contains_key(
            #[trigger] meshes[i].mesh_id,
        ) by {
            if i < n {
                assert(prev.0.contains_key(prefix[i].mesh_id));
            }
        }
        assert forall|i: int, j: int|
            0 <= i < j < meshes.len() && #[trigger] meshes[i].mesh_id == #[trigger] meshes[j].mesh_id
                implies r.3[j] == LoadPlan::AlreadyLoaded by {
            if j < n {
                assert(prefix[i].mesh_id == prefix[j].mesh_id);
            } else {
                assert(prev.0.contains_key(prefix[i].mesh_id));
            }
        }
        assert forall|i: int|
            0 <= i < meshes.len() && loaded.contains_key(#[trigger] meshes[i].mesh_id)
                implies r.3[i] == LoadPlan::AlreadyLoaded by {
            if i < n {
                assert(loaded.contains_key(prefix[i].mesh_id));
            }
        }
    }
}

/// Loading the same meshes on the next frame copies nothing: every plan is
/// `AlreadyLoaded`, and the loaded meshes and the free ends stay as they are.
pub proof fn law_next_frame_copies_nothing(
    loaded: Map<u64, LoadedModelHandles>,
    free: (i32, u32),
    free_bytes: (u64, u64),
    meshes: Seq<MeshExtent>,
)
    ensures
        ({
            let r1 = spec_load_all(loaded, free, free_bytes, meshes);
            let r2 = spec_load_all(r1.0, r1.1, r1.2, meshes);
            &&& r2.0 == r1.0
            &&& r2.1 == r1.1
            &&& r2.2 == r1.2
            &&& r2.3.len() == meshes.len()
            &&& forall|i: int| 0 <= i < meshes.len() ==> r2.3[i] == LoadPlan::AlreadyLoaded
        }),
{
    law_frame_keeps_loaded_meshes(loaded, free, free_bytes, meshes);
    let r1 = spec_load_all(loaded, free, free_bytes, meshes);
    lemma_all_loaded_changes_nothing(r1.0, r1.1, r1.2, meshes);
}

proof fn lemma_all_loaded_changes_nothing(
    loaded: Map<u64, LoadedModelHandles>,
    free: (i32, u32),
    free_bytes: (u64, u64),
    meshes: Seq<MeshExtent>,
)
    requires
        forall|i: int| 0 <= i < meshes.len() ==> loaded.contains_key(#[trigger] meshes[i].mesh_id),
    ensures
        ({
            let r = spec_load_all(loaded, free, free_bytes, meshes);
            &&& r.0 == loaded
            &&& r.1 == free
            &&& r.2 == free_bytes
            &&& r.3.len() == meshes.len()
            &&& forall|i: int| 0 <= i < meshes.len() ==> r.3[i] == LoadPlan::AlreadyLoaded
        }),
    decreases meshes.len(),
{
    if meshes.len() > 0 {
        let prefix = meshes.drop_last();
        assert forall|i: int| 0 <= i < prefix.len() implies loaded.contains_key(
            #[trigger] prefix[i].mesh_id,
        ) by {
            assert(prefix[i] == meshes[i]);
        }
        lemma_all_loaded_changes_nothing(loaded, free, free_bytes, prefix);
        assert(loaded.contains_key(meshes[meshes.len() - 1].mesh_id));
    }
}

/// Two new meshes loaded one after the other sit side by side: the second
/// starts where the first ends, in elements and in bytes, so their regions
/// do not overlap; and the first keeps its place.
pub proof fn law_new_meshes_are_adjacent(
    loaded: Map<u64, LoadedModelHandles>,
    free: (i32, u32),
    free_bytes: (u64, u64),
    first: u64,
    second: u64,
    vertex_count: usize,
    index_count: usize,
    vertex_bytes: u64,
    index_bytes: u64,
    vertex_count2: usize,
    index_count2: usize,
    vertex_bytes2: u64,
    index_bytes2: u64,
)
    requires
        first != second,
        !loaded.contains_key(first),
        !loaded.contains_key(second),
        vertex_count <= i32::MAX,
        0 <= free.0,
        free.0 + vertex_count <= i32::MAX,
        free.1 + index_count <= u32::MAX,
        free_bytes.0 + vertex_bytes <= u64::MAX,
        free_bytes.1 + index_bytes <= u64::MAX,
    ensures
        ({
            let s1 = spec_load(loaded, free, free_bytes, first, vertex_count, index_count, vertex_bytes, index_bytes);
            let s2 = spec_load(s1.0, s1.1, s1.2, second, vertex_count2, index_count2, vertex_bytes2, index_bytes2);
            &&& s2.0[first] == LoadedModelHandles { vertex_offset: free.0, index_offset: free.1 }
            &&& s2.0[second].vertex_offset == free.0 + vertex_count
            &&& s2.0[second].index_offset == free.1 + index_count
            &&& s1.3 == LoadPlan::CopyTo { vertex_byte_start: free_bytes.0, index_byte_start: free_bytes.1 }
            &&& s2.3 == LoadPlan::CopyTo {
                vertex_byte_start: (free_bytes.0 + vertex_bytes) as u64,
                index_byte_start: (free_bytes.1 + index_bytes) as u64,
            }
        }),
{
    assert((vertex_count as i32) == vertex_count);
    assert((index_count as u32) == index_count);
}

} // verus!
