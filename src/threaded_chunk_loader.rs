//! The asynchronous loader's state machine. It owns the resident voxel grids
//! and meshes and the pending work; the thread pool that runs generation and
//! meshing hands results back through its methods, and receives work from them.
use vstd::prelude::*;
use crate::chunk_mesher::{MeshInput, MeshJob};
use crate::pos_map::PosMap;
use crate::voxel_data::{BlockType, VoxelData};

verus! {

/// How many pending loads one dispatch step takes at most.
pub const GENERATION_BATCH: usize = 4;

/// The chunk one step (dx, dz) away from `p`, if its coordinates fit in `i32`.
pub open spec fn neighbor_of(p: (i32, i32), dx: int, dz: int) -> Option<(i32, i32)> {
    let x = p.0 + dx;
    let z = p.1 + dz;
    if i32::MIN <= x <= i32::MAX && i32::MIN <= z <= i32::MAX {
        Some((x as i32, z as i32))
    } else {
        None
    }
}

/// `s` with `p` appended unless it is already there.
pub open spec fn mark_dirty(s: Seq<(i32, i32)>, p: (i32, i32)) -> Seq<(i32, i32)> {
    if s.contains(p) {
        s
    } else {
        s.push(p)
    }
}

pub open spec fn mark_if_exists(s: Seq<(i32, i32)>, p: Option<(i32, i32)>) -> Seq<(i32, i32)> {
    match p {
        Some(q) => mark_dirty(s, q),
        None => s,
    }
}

/// The mesh-dirty list after the grid of `p` arrives: `p` and its four
/// lateral neighbors (+x, -x, +z, -z) are marked.
pub open spec fn dirty_after_arrival(s: Seq<(i32, i32)>, p: (i32, i32)) -> Seq<(i32, i32)> {
    mark_if_exists(
        mark_if_exists(
            mark_if_exists(mark_if_exists(mark_dirty(s, p), neighbor_of(p, 1, 0)), neighbor_of(p, -1, 0)),
            neighbor_of(p, 0, 1),
        ),
        neighbor_of(p, 0, -1),
    )
}

/// The coordinates of `s`, in order, whose grid is not resident in `voxels`.
pub open spec fn not_resident_among(s: Seq<(i32, i32)>, voxels: Map<(i32, i32), VoxelData>) -> Seq<
    (i32, i32),
>
    decreases s.len(),
{
    if s.len() == 0 {
        seq![]
    } else if voxels.dom().contains(s.last()) {
        not_resident_among(s.drop_last(), voxels)
    } else {
        not_resident_among(s.drop_last(), voxels).push(s.last())
    }
}

/// The coordinates of `s`, in order, whose grid is resident in `voxels`.
pub open spec fn resident_among(s: Seq<(i32, i32)>, voxels: Map<(i32, i32), VoxelData>) -> Seq<
    (i32, i32),
>
    decreases s.len(),
{
    if s.len() == 0 {
        seq![]
    } else if voxels.dom().contains(s.last()) {
        resident_among(s.drop_last(), voxels).push(s.last())
    } else {
        resident_among(s.drop_last(), voxels)
    }
}

/// The cells of the resident grid at `p`, if `p` exists and is resident.
pub open spec fn resident_cells(voxels: Map<(i32, i32), VoxelData>, p: Option<(i32, i32)>) -> Option<
    Seq<BlockType>,
> {
    match p {
        Some(q) => if voxels.dom().contains(q) {
            Some(voxels[q]@.cells)
        } else {
            None
        },
        None => None,
    }
}

/// What the meshing job for resident chunk `p` reads.
pub open spec fn job_input(voxels: Map<(i32, i32), VoxelData>, p: (i32, i32)) -> MeshInput {
    MeshInput {
        local: voxels[p]@,
        pos_x: resident_cells(voxels, neighbor_of(p, 1, 0)),
        neg_x: resident_cells(voxels, neighbor_of(p, -1, 0)),
        pos_z: resident_cells(voxels, neighbor_of(p, 0, 1)),
        neg_z: resident_cells(voxels, neighbor_of(p, 0, -1)),
    }
}

/// The mesh stored for a chunk, with the priority of the job that made it.
/// `mesh` is None for a chunk whose mesh is empty (nothing to draw).
pub struct MeshRecord<M> {
    pub mesh: Option<M>,
    pub priority: u8,
}

/// Whether a meshing result for `p` with `priority` is taken: the grid of `p`
/// is still resident, and no better-informed mesh is stored for it.
pub open spec fn accepts<M>(
    voxels: Map<(i32, i32), VoxelData>,
    meshes: Map<(i32, i32), MeshRecord<M>>,
    p: (i32, i32),
    priority: u8,
) -> bool {
    voxels.dom().contains(p) && (!meshes.dom().contains(p) || meshes[p].priority <= priority)
}

/// The stored meshes after a meshing result for `p` arrives.
pub open spec fn meshes_after<M>(
    voxels: Map<(i32, i32), VoxelData>,
    meshes: Map<(i32, i32), MeshRecord<M>>,
    p: (i32, i32),
    record: MeshRecord<M>,
) -> Map<(i32, i32), MeshRecord<M>> {
    if accepts(voxels, meshes, p, record.priority) {
        meshes.insert(p, record)
    } else {
        meshes
    }
}

/// The meshes to draw: those of the entries that hold one, in entry order.
pub open spec fn drawable<M>(s: Seq<((i32, i32), MeshRecord<M>)>) -> Seq<M>
    decreases s.len(),
{
    if s.len() == 0 {
        seq![]
    } else {
        match s.last().1.mesh {
            Some(m) => drawable(s.drop_last()).push(m),
            None => drawable(s.drop_last()),
        }
    }
}

fn contains_pos(s: &Vec<(i32, i32)>, p: (i32, i32)) -> (r: bool)
    ensures
        r == s@.contains(p),
{
    let mut i: usize = 0;
    while i < s.len()
        invariant
            i <= s@.len(),
            forall|j: int| 0 <= j < i ==> s@[j] != p,
        decreases s@.len() - i,
    {
        if s[i].0 == p.0 && s[i].1 == p.1 {
            assert(s@[i as int] == p);
            return true;
        }
        i += 1;
    }
    false
}

fn mark(s: &mut Vec<(i32, i32)>, p: (i32, i32))
    requires
        old(s)@.no_duplicates(),
    ensures
        final(s)@ == mark_dirty(old(s)@, p),
        final(s)@.no_duplicates(),
{
    if !contains_pos(s, p) {
        s.push(p);
    }
}

/// The loader's state: resident grids and meshes, pending loads, and
/// mesh-dirty coordinates.
pub struct ThreadedChunkLoader<M> {
    voxels: PosMap<VoxelData>,
    meshes: PosMap<MeshRecord<M>>,
    voxels_to_load: Vec<(i32, i32)>,
    meshes_to_load: Vec<(i32, i32)>,
}

impl<M> ThreadedChunkLoader<M> {
    /// Resident voxel grids by coordinate.
    pub closed spec fn voxel_map(&self) -> Map<(i32, i32), VoxelData> {
        self.voxels@
    }

    /// Stored meshes by coordinate.
    pub closed spec fn mesh_map(&self) -> Map<(i32, i32), MeshRecord<M>> {
        self.meshes@
    }

    /// Stored meshes in the order in which their coordinates were first meshed.
    pub closed spec fn mesh_entries(&self) -> Seq<((i32, i32), MeshRecord<M>)> {
        self.meshes.entries()
    }

    /// Coordinates waiting for generation, oldest first.
    pub closed spec fn pending(&self) -> Seq<(i32, i32)> {
        self.voxels_to_load@
    }

    /// Coordinates whose mesh must be (re)built, in marking order.
    pub closed spec fn dirty(&self) -> Seq<(i32, i32)> {
        self.meshes_to_load@
    }

    pub closed spec fn wf(&self) -> bool {
        &&& self.voxels.wf()
        &&& self.meshes.wf()
        &&& forall|p: (i32, i32)| #[trigger] self.voxels@.dom().contains(p) ==> self.voxels@[p]@.pos == p
        &&& forall|p: (i32, i32)| #[trigger] self.meshes@.dom().contains(p) ==> self.voxels@.dom().contains(p)
        &&& self.meshes@ == crate::pos_map::entries_map(self.meshes.entries())
        &&& self.voxels_to_load@.no_duplicates()
        &&& self.meshes_to_load@.no_duplicates()
    }

    /// What the loader guarantees of its state at all times: every grid is
    /// stored under its own coordinate, a mesh is only stored for a resident
    /// grid, and no coordinate waits twice.
    pub proof fn lemma_state_invariant(&self)
        requires
            self.wf(),
        ensures
            forall|p: (i32, i32)| #[trigger] self.voxel_map().dom().contains(p) ==> self.voxel_map()[p]@.pos == p,
            forall|p: (i32, i32)| #[trigger] self.mesh_map().dom().contains(p) ==> self.voxel_map().dom().contains(p),
            self.mesh_map() == crate::pos_map::entries_map(self.mesh_entries()),
            crate::pos_map::keys_distinct(self.mesh_entries()),
            self.pending().no_duplicates(),
            self.dirty().no_duplicates(),
    {
        self.meshes.lemma_view();
    }

    pub fn new() -> (r: ThreadedChunkLoader<M>)
        ensures
            r.wf(),
            r.voxel_map() == Map::<(i32, i32), VoxelData>::empty(),
            r.mesh_map() == Map::<(i32, i32), MeshRecord<M>>::empty(),
            r.mesh_entries() == Seq::<((i32, i32), MeshRecord<M>)>::empty(),
            r.pending() == Seq::<(i32, i32)>::empty(),
            r.dirty() == Seq::<(i32, i32)>::empty(),
    {
        let r = ThreadedChunkLoader {
            voxels: PosMap::new(),
            meshes: PosMap::new(),
            voxels_to_load: Vec::new(),
            meshes_to_load: Vec::new(),
        };
        proof {
            r.meshes.lemma_view();
        }
        r
    }

    pub fn is_resident(&self, pos: (i32, i32)) -> (r: bool)
        requires
            self.wf(),
        ensures
            r == self.voxel_map().dom().contains(pos),
    {
        self.voxels.contains_key(pos)
    }

    /// Requests that `pos` become resident: it joins the pending loads unless
    /// its grid is resident or it is already pending.
    pub fn queue_load_chunk(&mut self, pos: (i32, i32))
        requires
            old(self).wf(),
        ensures
            final(self).wf(),
            final(self).pending() == (if old(self).voxel_map().dom().contains(pos) || old(
                self,
            ).pending().contains(pos) {
                old(self).pending()
            } else {
                old(self).pending().push(pos)
            }),
            final(self).voxel_map() == old(self).voxel_map(),
            final(self).mesh_map() == old(self).mesh_map(),
            final(self).mesh_entries() == old(self).mesh_entries(),
            final(self).dirty() == old(self).dirty(),
    {
        if !self.voxels.contains_key(pos) {
            mark(&mut self.voxels_to_load, pos);
        }
    }

    /// Forgets `pos` at once: its grid, its mesh and its priority. Work in
    /// flight for it is not cancelled; its results are dealt with on arrival.
    pub fn queue_unload_chunk(&mut self, pos: (i32, i32))
        requires
            old(self).wf(),
        ensures
            final(self).wf(),
            final(self).voxel_map() == old(self).voxel_map().remove(pos),
            final(self).mesh_map() == old(self).mesh_map().remove(pos),
            final(self).pending() == old(self).pending(),
            final(self).dirty() == old(self).dirty(),
    {
        self.voxels.remove(pos);
        self.meshes.remove(pos);
        proof {
            self.meshes.lemma_view();
        }
    }

    /// Dispatch step: takes the oldest `GENERATION_BATCH` pending loads (or
    /// all, if fewer) off the pending list and returns, in order, those whose
    /// grid is still not resident; each is to be generated on a worker.
    pub fn take_generation_batch(&mut self) -> (r: Vec<(i32, i32)>)
        requires
            old(self).wf(),
        ensures
            final(self).wf(),
            ({
                let n = if old(self).pending().len() < GENERATION_BATCH {
                    old(self).pending().len() as int
                } else {
                    GENERATION_BATCH as int
                };
                &&& r@ == not_resident_among(old(self).pending().take(n), old(self).voxel_map())
                &&& final(self).pending() == old(self).pending().skip(n)
            }),
            final(self).voxel_map() == old(self).voxel_map(),
            final(self).mesh_map() == old(self).mesh_map(),
            final(self).mesh_entries() == old(self).mesh_entries(),
            final(self).dirty() == old(self).dirty(),
    {
        let ghost s0 = self.voxels_to_load@;
        let n: usize = if self.voxels_to_load.len() < GENERATION_BATCH {
            self.voxels_to_load.len()
        } else {
            GENERATION_BATCH
        };
        let mut batch: Vec<(i32, i32)> = Vec::new();
        let mut i: usize = 0;
        while i < n
            invariant
                self.wf(),
                self.voxels_to_load@ == s0,
                n <= s0.len(),
                i <= n,
                batch@ == not_resident_among(s0.take(i as int), self.voxels@),
            decreases n - i,
        {
            let p = self.voxels_to_load[i];
            proof {
                assert(s0.take(i + 1).drop_last() =~= s0.take(i as int));
            }
            if !self.voxels.contains_key(p) {
                batch.push(p);
            }
            i += 1;
        }
        let mut rest: Vec<(i32, i32)> = Vec::new();
        let mut j: usize = n;
        while j < self.voxels_to_load.len()
            invariant
                self.voxels_to_load@ == s0,
                n <= j <= s0.len(),
                rest@ == s0.subrange(n as int, j as int),
            decreases s0.len() - j,
        {
            rest.push(self.voxels_to_load[j]);
            j += 1;
        }
        proof {
            assert(rest@ =~= s0.skip(n as int));
            assert forall|a: int, b: int| 0 <= a < b < rest@.len() implies rest@[a] != rest@[b] by {
                assert(rest@[a] == s0[a + n]);
                assert(rest@[b] == s0[b + n]);
            }
        }
        self.voxels_to_load = rest;
        batch
    }

    /// Generation result: the grid becomes resident (replacing any earlier
    /// one) and its chunk and the four lateral neighbors become mesh-dirty.
    pub fn receive_voxels(&mut self, data: VoxelData)
        requires
            old(self).wf(),
        ensures
            final(self).wf(),
            final(self).voxel_map() == old(self).voxel_map().insert(data@.pos, data),
            final(self).dirty() == dirty_after_arrival(old(self).dirty(), data@.pos),
            final(self).mesh_map() == old(self).mesh_map(),
            final(self).mesh_entries() == old(self).mesh_entries(),
            final(self).pending() == old(self).pending(),
    {
        let (c_x, c_z) = data.pos();
        self.voxels.insert((c_x, c_z), data);
        mark(&mut self.meshes_to_load, (c_x, c_z));
        if c_x < i32::MAX {
            mark(&mut self.meshes_to_load, (c_x + 1, c_z));
        }
        if c_x > i32::MIN {
            mark(&mut self.meshes_to_load, (c_x - 1, c_z));
        }
        if c_z < i32::MAX {
            mark(&mut self.meshes_to_load, (c_x, c_z + 1));
        }
        if c_z > i32::MIN {
            mark(&mut self.meshes_to_load, (c_x, c_z - 1));
        }
    }

    /// A copy of the resident grid at `p`, if `p` exists and is resident.
    fn copy_resident(&self, p: Option<(i32, i32)>) -> (r: Option<VoxelData>)
        requires
            self.wf(),
        ensures
            crate::chunk_mesher::neighbor_cells(r) == resident_cells(self.voxels@, p),
    {
        match p {
            Some(q) => match self.voxels.get(q) {
                Some(v) => Some(v.duplicate()),
                None => None,
            },
            None => None,
        }
    }

    fn job_for(&self, p: (i32, i32), grid: &VoxelData) -> (r: MeshJob)
        requires
            self.wf(),
            self.voxels@.dom().contains(p),
            *grid == self.voxels@[p],
        ensures
            r@ == job_input(self.voxels@, p),
    {
        let local = grid.duplicate();
        let pos_x = self.copy_resident(if p.0 < i32::MAX { Some((p.0 + 1, p.1)) } else { None });
        let neg_x = self.copy_resident(if p.0 > i32::MIN { Some((p.0 - 1, p.1)) } else { None });
        let pos_z = self.copy_resident(if p.1 < i32::MAX { Some((p.0, p.1 + 1)) } else { None });
        let neg_z = self.copy_resident(if p.1 > i32::MIN { Some((p.0, p.1 - 1)) } else { None });
        MeshJob { local, pos_x, neg_x, pos_z, neg_z }
    }

    /// Dispatch step for meshing: one job for each mesh-dirty coordinate whose
    /// grid is resident, in marking order, each with copies of the resident
    /// lateral neighbors. The dirty list is emptied.
    pub fn take_mesh_jobs(&mut self) -> (r: Vec<MeshJob>)
        requires
            old(self).wf(),
        ensures
            final(self).wf(),
            r@.len() == resident_among(old(self).dirty(), old(self).voxel_map()).len(),
            forall|k: int|
                0 <= k < r@.len() ==> (#[trigger] r@[k])@ == job_input(
                    old(self).voxel_map(),
                    resident_among(old(self).dirty(), old(self).voxel_map())[k],
                ),
            final(self).dirty() == Seq::<(i32, i32)>::empty(),
            final(self).voxel_map() == old(self).voxel_map(),
            final(self).mesh_map() == old(self).mesh_map(),
            final(self).mesh_entries() == old(self).mesh_entries(),
            final(self).pending() == old(self).pending(),
    {
        let ghost d0 = self.meshes_to_load@;
        let mut jobs: Vec<MeshJob> = Vec::new();
        let mut i: usize = 0;
        while i < self.meshes_to_load.len()
            invariant
                self.wf(),
                self.meshes_to_load@ == d0,
                i <= d0.len(),
                jobs@.len() == resident_among(d0.take(i as int), self.voxels@).len(),
                forall|k: int|
                    0 <= k < jobs@.len() ==> (#[trigger] jobs@[k])@ == job_input(
                        self.voxels@,
                        resident_among(d0.take(i as int), self.voxels@)[k],
                    ),
            decreases d0.len() - i,
        {
            let p = self.meshes_to_load[i];
            proof {
                assert(d0.take(i + 1).drop_last() =~= d0.take(i as int));
            }
            match self.voxels.get(p) {
                Some(grid) => {
                    let job = self.job_for(p, grid);
                    jobs.push(job);
                },
                None => {},
            }
            i += 1;
        }
        proof {
            assert(d0.take(d0.len() as int) =~= d0);
        }
        self.meshes_to_load = Vec::new();
        jobs
    }

    /// Whether a meshing result for `pos` with `priority` would be taken.
    pub fn accepts_mesh(&self, pos: (i32, i32), priority: u8) -> (r: bool)
        requires
            self.wf(),
        ensures
            r == accepts(self.voxel_map(), self.mesh_map(), pos, priority),
    {
        if !self.voxels.contains_key(pos) {
            return false;
        }
        match self.meshes.get(pos) {
            Some(rec) => rec.priority <= priority,
            None => true,
        }
    }

    /// Meshing result: stored, replacing the previous mesh and priority, if
    /// `accepts` holds; otherwise discarded. Returns whether it was stored.
    pub fn receive_mesh(&mut self, pos: (i32, i32), mesh: Option<M>, priority: u8) -> (r: bool)
        requires
            old(self).wf(),
        ensures
            final(self).wf(),
            r == accepts(old(self).voxel_map(), old(self).mesh_map(), pos, priority),
            final(self).mesh_map() == meshes_after(
                old(self).voxel_map(),
                old(self).mesh_map(),
                pos,
                MeshRecord { mesh, priority },
            ),
            final(self).voxel_map() == old(self).voxel_map(),
            final(self).pending() == old(self).pending(),
            final(self).dirty() == old(self).dirty(),
    {
        if self.accepts_mesh(pos, priority) {
            self.meshes.insert(pos, MeshRecord { mesh, priority });
            proof {
                self.meshes.lemma_view();
            }
            true
        } else {
            false
        }
    }

    /// The meshes to draw this frame.
    pub fn get_meshes(&self) -> (r: Vec<&M>)
        requires
            self.wf(),
        ensures
            r@.len() == drawable(self.mesh_entries()).len(),
            forall|k: int| 0 <= k < r@.len() ==> *(#[trigger] r@[k]) == drawable(self.mesh_entries())[k],
    {
        let ghost s = self.meshes.entries();
        let mut r: Vec<&M> = Vec::new();
        let mut i: usize = 0;
        while i < self.meshes.len()
            invariant
                s == self.meshes.entries(),
                i <= s.len(),
                r@.len() == drawable(s.take(i as int)).len(),
                forall|k: int| 0 <= k < r@.len() ==> *(#[trigger] r@[k]) == drawable(s.take(i as int))[k],
            decreases s.len() - i,
        {
            let e = self.meshes.entry(i);
            proof {
                assert(s.take(i + 1).drop_last() =~= s.take(i as int));
            }
            match &e.1.mesh {
                Some(m) => r.push(m),
                None => {},
            }
            i += 1;
        }
        proof {
            assert(s.take(s.len() as int) =~= s);
        }
        r
    }
}


/// The stored meshes after the meshing results `results` for `p` arrive in
/// order while the grids stay `voxels`.
pub open spec fn meshes_after_all<M>(
    voxels: Map<(i32, i32), VoxelData>,
    meshes: Map<(i32, i32), MeshRecord<M>>,
    p: (i32, i32),
    results: Seq<MeshRecord<M>>,
) -> Map<(i32, i32), MeshRecord<M>>
    decreases results.len(),
{
    if results.len() == 0 {
        meshes
    } else {
        meshes_after(
            voxels,
            meshes_after_all(voxels, meshes, p, results.drop_last()),
            p,
            results.last(),
        )
    }
}

/// While a chunk stays resident, the priority of its stored mesh never drops.
pub proof fn lemma_priority_never_drops<M>(
    voxels: Map<(i32, i32), VoxelData>,
    meshes: Map<(i32, i32), MeshRecord<M>>,
    p: (i32, i32),
    record: MeshRecord<M>,
)
    requires
        meshes.dom().contains(p),
    ensures
        meshes_after(voxels, meshes, p, record).dom().contains(p),
        meshes_after(voxels, meshes, p, record)[p].priority >= meshes[p].priority,
{
}

/// Whatever order meshing results for a resident chunk arrive in, the mesh
/// that stays is one with the highest priority among them (the last such to
/// arrive): a later result of lower priority never replaces it.
pub proof fn lemma_priority_monotonic<M>(
    voxels: Map<(i32, i32), VoxelData>,
    meshes: Map<(i32, i32), MeshRecord<M>>,
    p: (i32, i32),
    results: Seq<MeshRecord<M>>,
)
    requires
        voxels.dom().contains(p),
        !meshes.dom().contains(p),
        results.len() > 0,
    ensures
        meshes_after_all(voxels, meshes, p, results).dom().contains(p),
        forall|j: int|
            0 <= j < results.len() ==> (#[trigger] results[j]).priority <= meshes_after_all(
                voxels,
                meshes,
                p,
                results,
            )[p].priority,
        exists|i: int|
            0 <= i < results.len() && results[i] == meshes_after_all(voxels, meshes, p, results)[p]
                && forall|j: int| i < j < results.len() ==> (#[trigger] results[j]).priority < results[i].priority,
    decreases results.len(),
{
    let fin = meshes_after_all(voxels, meshes, p, results);
    let n = results.len() as int;
    if n == 1 {
        assert(results.drop_last().len() == 0);
        assert(fin[p] == results[0]);
    } else {
        let init = results.drop_last();
        lemma_priority_monotonic(voxels, meshes, p, init);
        let prev = meshes_after_all(voxels, meshes, p, init);
        let i0 = choose|i: int|
            0 <= i < init.len() && init[i] == prev[p] && forall|j: int|
                i < j < init.len() ==> (#[trigger] init[j]).priority < init[i].priority;
        assert forall|j: int| 0 <= j < n - 1 implies (#[trigger] results[j]).priority <= prev[p].priority by {
            assert(results[j] == init[j]);
        }
        if prev[p].priority <= results.last().priority {
            assert(fin[p] == results[n - 1]);
        } else {
            assert(fin == prev);
            assert forall|j: int| i0 < j < n implies (#[trigger] results[j]).priority < results[i0].priority by {
                if j < n - 1 {
                    assert(results[j] == init[j]);
                }
            }
            assert(results[i0] == init[i0]);
        }
    }
}

/// A meshing result for a chunk that was unloaded before it arrived is
/// discarded: no mesh is stored for that chunk afterwards.
pub proof fn lemma_unloaded_result_discarded<M>(
    voxels: Map<(i32, i32), VoxelData>,
    meshes: Map<(i32, i32), MeshRecord<M>>,
    p: (i32, i32),
    record: MeshRecord<M>,
)
    ensures
        meshes_after(voxels.remove(p), meshes.remove(p), p, record) == meshes.remove(p),
        !meshes_after(voxels.remove(p), meshes.remove(p), p, record).dom().contains(p),
{
}

/// Whether `m` is the stored mesh of some coordinate of `meshes`.
pub open spec fn is_stored_mesh<M>(meshes: Map<(i32, i32), MeshRecord<M>>, m: M) -> bool {
    exists|q: (i32, i32)| meshes.dom().contains(q) && meshes[q].mesh == Some(m)
}

/// Every mesh handed out for drawing is the stored mesh of some coordinate.
pub proof fn lemma_drawn_meshes_are_stored<M>(s: Seq<((i32, i32), MeshRecord<M>)>)
    requires
        crate::pos_map::keys_distinct(s),
    ensures
        forall|k: int|
            0 <= k < drawable(s).len() ==> is_stored_mesh(
                crate::pos_map::entries_map(s),
                #[trigger] drawable(s)[k],
            ),
    decreases s.len(),
{
    if s.len() > 0 {
        let init = s.drop_last();
        assert(crate::pos_map::keys_distinct(init));
        lemma_drawn_meshes_are_stored(init);
        assert forall|k: int| 0 <= k < drawable(s).len() implies is_stored_mesh(
            crate::pos_map::entries_map(s),
            #[trigger] drawable(s)[k],
        ) by {
            let last = s.last();
            if k < drawable(init).len() {
                assert(drawable(s)[k] == drawable(init)[k]);
                assert(is_stored_mesh(crate::pos_map::entries_map(init), drawable(init)[k]));
                let q = choose|q: (i32, i32)|
                    crate::pos_map::entries_map(init).dom().contains(q) && crate::pos_map::entries_map(
                        init,
                    )[q].mesh == Some(drawable(init)[k]);
                assert(crate::pos_map::has_key(init, q));
                let i = choose|i: int| 0 <= i < init.len() && (#[trigger] init[i]).0 == q;
                crate::pos_map::lemma_entry_in_map(init, i);
                assert(s[i] == init[i]);
                crate::pos_map::lemma_entry_in_map(s, i);
                assert(crate::pos_map::entries_map(s).dom().contains(q) && crate::pos_map::entries_map(
                    s,
                )[q].mesh == Some(drawable(s)[k]));
            } else {
                crate::pos_map::lemma_entry_in_map(s, s.len() - 1);
                assert(last.1.mesh is Some);
                assert(drawable(s) == drawable(init).push(last.1.mesh->0));
                assert(crate::pos_map::entries_map(s).dom().contains(last.0) && crate::pos_map::entries_map(
                    s,
                )[last.0].mesh == Some(drawable(s)[k]));
            }
        }
    }
}

} // verus!
