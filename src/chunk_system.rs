//! The coordinator: keeps the square loading window around the viewer and
//! turns its movement into load and unload requests.
use vstd::prelude::*;
use crate::threaded_chunk_loader::ThreadedChunkLoader;

verus! {

/// Largest loading radius, in chunks.
pub const MAX_LOADING_RADIUS: i32 = 4096;

/// Largest distance of a loading center from the origin, in chunks: the
/// chunk of any `i32` world position is within it.
pub const MAX_CENTER: i32 = 134217728;

/// Whether chunk `p` lies in the loading window of side `2 * radius` around
/// `center`: `center - radius <= p < center + radius` on both axes.
pub open spec fn in_window(center: (i32, i32), radius: int, p: (i32, i32)) -> bool {
    center.0 - radius <= p.0 < center.0 + radius && center.1 - radius <= p.1 < center.1 + radius
}

/// The chunk coordinate along one axis of world position `p`: `p / 16`,
/// rounded toward zero.
pub open spec fn chunk_coord(p: int) -> int {
    if p >= 0 {
        p / 16
    } else {
        -((-p) / 16)
    }
}

pub open spec fn center_ok(c: (i32, i32)) -> bool {
    -MAX_CENTER <= c.0 <= MAX_CENTER && -MAX_CENTER <= c.1 <= MAX_CENTER
}

/// A sequence with `x` appended contains what it contained, and `x`.
pub proof fn lemma_push_contains<T>(s: Seq<T>, x: T)
    ensures
        forall|q: T| #[trigger] s.push(x).contains(q) <==> (s.contains(q) || q == x),
        s.push(x).to_set() == s.to_set().insert(x),
{
    assert forall|q: T| #[trigger] s.push(x).contains(q) <==> (s.contains(q) || q == x) by {
        if s.push(x).contains(q) && q != x {
            let k = choose|k: int| 0 <= k < s.push(x).len() && s.push(x)[k] == q;
            assert(s[k] == q);
        }
        if s.contains(q) {
            let k = choose|k: int| 0 <= k < s.len() && s[k] == q;
            assert(s.push(x)[k] == q);
        }
        if q == x {
            assert(s.push(x)[s.len() as int] == q);
        }
    }
    assert(s.push(x).to_set() =~= s.to_set().insert(x));
}

/// The chunk of world position (`p_x`, `p_z`).
pub fn chunk_of(p_x: i32, p_z: i32) -> (r: (i32, i32))
    ensures
        r.0 == chunk_coord(p_x as int),
        r.1 == chunk_coord(p_z as int),
        center_ok(r),
{
    let x = if p_x >= 0 {
        p_x / 16
    } else {
        (0i64 - (0i64 - p_x as i64) / 16) as i32
    };
    let z = if p_z >= 0 {
        p_z / 16
    } else {
        (0i64 - (0i64 - p_z as i64) / 16) as i32
    };
    (x, z)
}

/// The chunks of the loading window around `center`, each once.
pub fn window(center: (i32, i32), radius: i32) -> (r: Vec<(i32, i32)>)
    requires
        center_ok(center),
        0 <= radius <= MAX_LOADING_RADIUS,
    ensures
        r@.no_duplicates(),
        forall|p: (i32, i32)| r@.contains(p) <==> in_window(center, radius as int, p),
{
    let mut r: Vec<(i32, i32)> = Vec::new();
    let mut dz: i32 = -radius;
    while dz < radius
        invariant
            center_ok(center),
            0 <= radius <= MAX_LOADING_RADIUS,
            -radius <= dz <= radius,
            r@.no_duplicates(),
            forall|p: (i32, i32)|
                r@.contains(p) <==> (in_window(center, radius as int, p) && p.1 < center.1 + dz),
        decreases radius - dz,
    {
        let mut dx: i32 = -radius;
        while dx < radius
            invariant
                center_ok(center),
                0 <= radius <= MAX_LOADING_RADIUS,
                -radius <= dz < radius,
                -radius <= dx <= radius,
                r@.no_duplicates(),
                forall|p: (i32, i32)|
                    r@.contains(p) <==> (in_window(center, radius as int, p) && (p.1 < center.1 + dz
                        || (p.1 == center.1 + dz && p.0 < center.0 + dx))),
            decreases radius - dx,
        {
            let p = (center.0 + dx, center.1 + dz);
            proof {
                assert(!r@.contains(p));
                lemma_push_contains(r@, p);
            }
            r.push(p);
            dx += 1;
        }
        dz += 1;
    }
    r
}


/// The chunks of `from`'s window that are not in `to`'s window, each once.
fn window_minus(from: (i32, i32), to: (i32, i32), radius: i32) -> (r: Vec<(i32, i32)>)
    requires
        center_ok(from),
        center_ok(to),
        0 <= radius <= MAX_LOADING_RADIUS,
    ensures
        r@.no_duplicates(),
        forall|p: (i32, i32)|
            r@.contains(p) <==> (in_window(from, radius as int, p) && !in_window(to, radius as int, p)),
{
    let all = window(from, radius);
    let mut r: Vec<(i32, i32)> = Vec::new();
    let mut i: usize = 0;
    while i < all.len()
        invariant
            center_ok(from),
            center_ok(to),
            0 <= radius <= MAX_LOADING_RADIUS,
            i <= all@.len(),
            all@.no_duplicates(),
            forall|p: (i32, i32)| all@.contains(p) <==> in_window(from, radius as int, p),
            r@.no_duplicates(),
            forall|p: (i32, i32)|
                r@.contains(p) <==> (all@.subrange(0, i as int).contains(p) && !in_window(
                    to,
                    radius as int,
                    p,
                )),
        decreases all@.len() - i,
    {
        let p = all[i];
        let keep = !(to.0 - radius <= p.0 && p.0 < to.0 + radius && to.1 - radius <= p.1 && p.1
            < to.1 + radius);
        proof {
            assert(keep == !in_window(to, radius as int, p));
            let pre = all@.subrange(0, i as int);
            assert(all@.subrange(0, i + 1) =~= pre.push(p));
            assert(!pre.contains(p)) by {
                if pre.contains(p) {
                    let k = choose|k: int| 0 <= k < pre.len() && pre[k] == p;
                    assert(all@[k] == all@[i as int]);
                }
            }
            lemma_push_contains(pre, p);
            if keep {
                assert(!r@.contains(p));
                lemma_push_contains(r@, p);
            }
        }
        if keep {
            r.push(p);
        }
        i += 1;
    }
    proof {
        assert(all@.subrange(0, all@.len() as int) =~= all@);
    }
    r
}

/// The load and unload requests for moving the loading center from `from`
/// to `to`: the chunks leaving the window and the chunks entering it.
pub fn window_diff(from: (i32, i32), to: (i32, i32), radius: i32) -> (r: (
    Vec<(i32, i32)>,
    Vec<(i32, i32)>,
))
    requires
        center_ok(from),
        center_ok(to),
        0 <= radius <= MAX_LOADING_RADIUS,
    ensures
        r.0@.no_duplicates(),
        r.1@.no_duplicates(),
        forall|p: (i32, i32)|
            r.0@.contains(p) <==> (in_window(from, radius as int, p) && !in_window(to, radius as int, p)),
        forall|p: (i32, i32)|
            r.1@.contains(p) <==> (in_window(to, radius as int, p) && !in_window(from, radius as int, p)),
{
    (window_minus(from, to, radius), window_minus(to, from, radius))
}

/// No chunk is both unloaded and loaded by one move of the loading center.
pub proof fn lemma_window_diff_disjoint(from: (i32, i32), to: (i32, i32), radius: int, p: (i32, i32))
    ensures
        !((in_window(from, radius, p) && !in_window(to, radius, p)) && (in_window(to, radius, p)
            && !in_window(from, radius, p))),
{
}

/// The coordinator of chunk streaming around a moving viewer.
pub struct ChunkSystem<M> {
    chunk_loading_center: (i32, i32),
    chunk_loading_radius: i32,
    loader: ThreadedChunkLoader<M>,
}

impl<M> ChunkSystem<M> {
    pub closed spec fn center(&self) -> (i32, i32) {
        self.chunk_loading_center
    }

    pub closed spec fn radius(&self) -> int {
        self.chunk_loading_radius as int
    }

    pub closed spec fn spec_loader(&self) -> ThreadedChunkLoader<M> {
        self.loader
    }

    pub closed spec fn wf(&self) -> bool {
        &&& center_ok(self.chunk_loading_center)
        &&& 0 <= self.chunk_loading_radius <= MAX_LOADING_RADIUS
        &&& self.loader.wf()
    }

    pub proof fn lemma_wf(&self)
        requires
            self.wf(),
        ensures
            center_ok(self.center()),
            0 <= self.radius() <= MAX_LOADING_RADIUS,
            self.spec_loader().wf(),
    {
    }

    pub fn loader(&self) -> (r: &ThreadedChunkLoader<M>)
        ensures
            *r == self.spec_loader(),
    {
        &self.loader
    }

    /// Unload requests for each of `chunks`.
    pub fn unload_chunks(&mut self, chunks: &Vec<(i32, i32)>)
        requires
            old(self).wf(),
        ensures
            final(self).wf(),
            final(self).center() == old(self).center(),
            final(self).radius() == old(self).radius(),
            final(self).spec_loader().voxel_map() == old(self).spec_loader().voxel_map().remove_keys(
                chunks@.to_set(),
            ),
            final(self).spec_loader().mesh_map() == old(self).spec_loader().mesh_map().remove_keys(
                chunks@.to_set(),
            ),
            final(self).spec_loader().pending() == old(self).spec_loader().pending(),
            final(self).spec_loader().dirty() == old(self).spec_loader().dirty(),
    {
        let ghost v0 = self.loader.voxel_map();
        let ghost m0 = self.loader.mesh_map();
        let mut i: usize = 0;
        while i < chunks.len()
            invariant
                self.wf(),
                self.chunk_loading_center == old(self).chunk_loading_center,
                self.chunk_loading_radius == old(self).chunk_loading_radius,
                i <= chunks@.len(),
                self.loader.voxel_map() == v0.remove_keys(chunks@.subrange(0, i as int).to_set()),
                self.loader.mesh_map() == m0.remove_keys(chunks@.subrange(0, i as int).to_set()),
                self.loader.pending() == old(self).loader.pending(),
                self.loader.dirty() == old(self).loader.dirty(),
            decreases chunks@.len() - i,
        {
            let p = chunks[i];
            self.loader.queue_unload_chunk(p);
            proof {
                let pre = chunks@.subrange(0, i as int);
                assert(chunks@.subrange(0, i + 1) =~= pre.push(p));
                lemma_push_contains(pre, p);
                assert(v0.remove_keys(pre.to_set()).remove(p) =~= v0.remove_keys(pre.to_set().insert(p)));
                assert(m0.remove_keys(pre.to_set()).remove(p) =~= m0.remove_keys(pre.to_set().insert(p)));
            }
            i += 1;
        }
        proof {
            assert(chunks@.subrange(0, chunks@.len() as int) =~= chunks@);
        }
    }

    /// Load requests for each of `chunks`, in order.
    pub fn load_chunks(&mut self, chunks: &Vec<(i32, i32)>)
        requires
            old(self).wf(),
        ensures
            final(self).wf(),
            final(self).center() == old(self).center(),
            final(self).radius() == old(self).radius(),
            final(self).spec_loader().voxel_map() == old(self).spec_loader().voxel_map(),
            final(self).spec_loader().mesh_map() == old(self).spec_loader().mesh_map(),
            final(self).spec_loader().dirty() == old(self).spec_loader().dirty(),
            old(self).spec_loader().pending().is_prefix_of(final(self).spec_loader().pending()),
            forall|p: (i32, i32)|
                final(self).spec_loader().pending().contains(p) <==> (old(self).spec_loader().pending().contains(
                    p,
                ) || (chunks@.contains(p) && !old(self).spec_loader().voxel_map().dom().contains(p))),
    {
        let ghost v0 = self.loader.voxel_map();
        let ghost q0 = self.loader.pending();
        let mut i: usize = 0;
        while i < chunks.len()
            invariant
                self.wf(),
                self.chunk_loading_center == old(self).chunk_loading_center,
                self.chunk_loading_radius == old(self).chunk_loading_radius,
                i <= chunks@.len(),
                self.loader.voxel_map() == v0,
                self.loader.mesh_map() == old(self).loader.mesh_map(),
                self.loader.dirty() == old(self).loader.dirty(),
                q0.is_prefix_of(self.loader.pending()),
                forall|p: (i32, i32)|
                    self.loader.pending().contains(p) <==> (q0.contains(p) || (chunks@.subrange(
                        0,
                        i as int,
                    ).contains(p) && !v0.dom().contains(p))),
            decreases chunks@.len() - i,
        {
            let p = chunks[i];
            let ghost before = self.loader.pending();
            self.loader.queue_load_chunk(p);
            proof {
                let pre = chunks@.subrange(0, i as int);
                assert(chunks@.subrange(0, i + 1) =~= pre.push(p));
                lemma_push_contains(pre, p);
                lemma_push_contains(before, p);
                assert(q0.is_prefix_of(before.push(p))) by {
                    assert forall|k: int| 0 <= k < q0.len() implies before.push(p)[k] == q0[k] by {
                        assert(before[k] == q0[k]);
                    }
                }
            }
            i += 1;
        }
        proof {
            assert(chunks@.subrange(0, chunks@.len() as int) =~= chunks@);
        }
    }

    /// A coordinator with loading radius `radius` centered on chunk (0, 0),
    /// which requests the whole window around it from `loader`.
    pub fn new(loader: ThreadedChunkLoader<M>, radius: i32) -> (r: ChunkSystem<M>)
        requires
            loader.wf(),
            0 <= radius <= MAX_LOADING_RADIUS,
        ensures
            r.wf(),
            r.center() == (0i32, 0i32),
            r.radius() == radius,
            r.spec_loader().voxel_map() == loader.voxel_map(),
            r.spec_loader().mesh_map() == loader.mesh_map(),
            r.spec_loader().dirty() == loader.dirty(),
            loader.pending().is_prefix_of(r.spec_loader().pending()),
            forall|p: (i32, i32)|
                r.spec_loader().pending().contains(p) <==> (loader.pending().contains(p) || (in_window(
                    (0i32, 0i32),
                    radius as int,
                    p,
                ) && !loader.voxel_map().dom().contains(p))),
    {
        let mut system = ChunkSystem {
            chunk_loading_center: (0, 0),
            chunk_loading_radius: radius,
            loader,
        };
        let initial = window((0, 0), radius);
        system.load_chunks(&initial);
        system
    }

    /// Recenters the loading window on the chunk of world position
    /// (`p_x`, `p_z`). If that chunk differs from the current center, the
    /// chunks leaving the window are unloaded and then the chunks entering it
    /// are requested.
    pub fn player_moved(&mut self, p_x: i32, p_z: i32)
        requires
            old(self).wf(),
        ensures
            final(self).wf(),
            final(self).radius() == old(self).radius(),
            final(self).center() == (chunk_coord(p_x as int) as i32, chunk_coord(p_z as int) as i32),
            final(self).spec_loader().voxel_map() == old(self).spec_loader().voxel_map().remove_keys(
                Set::new(
                    |p: (i32, i32)|
                        in_window(old(self).center(), old(self).radius(), p) && !in_window(
                            final(self).center(),
                            old(self).radius(),
                            p,
                        ),
                ),
            ),
            final(self).spec_loader().mesh_map() == old(self).spec_loader().mesh_map().remove_keys(
                Set::new(
                    |p: (i32, i32)|
                        in_window(old(self).center(), old(self).radius(), p) && !in_window(
                            final(self).center(),
                            old(self).radius(),
                            p,
                        ),
                ),
            ),
            final(self).spec_loader().dirty() == old(self).spec_loader().dirty(),
            old(self).spec_loader().pending().is_prefix_of(final(self).spec_loader().pending()),
            forall|p: (i32, i32)|
                final(self).spec_loader().pending().contains(p) <==> (old(self).spec_loader().pending().contains(
                    p,
                ) || (in_window(final(self).center(), old(self).radius(), p) && !in_window(
                    old(self).center(),
                    old(self).radius(),
                    p,
                ) && !final(self).spec_loader().voxel_map().dom().contains(p))),
    {
        let new_center = chunk_of(p_x, p_z);
        let old_center = self.chunk_loading_center;
        let ghost leaving = Set::new(
            |p: (i32, i32)|
                in_window(old_center, self.chunk_loading_radius as int, p) && !in_window(
                    new_center,
                    self.chunk_loading_radius as int,
                    p,
                ),
        );
        if new_center.0 != old_center.0 || new_center.1 != old_center.1 {
            let (to_unload, to_load) = window_diff(old_center, new_center, self.chunk_loading_radius);
            assert(to_unload@.to_set() =~= leaving);
            self.unload_chunks(&to_unload);
            self.load_chunks(&to_load);
            self.chunk_loading_center = new_center;
        } else {
            assert(leaving =~= Set::<(i32, i32)>::empty());
            assert(self.loader.voxel_map().remove_keys(leaving) =~= self.loader.voxel_map());
            assert(self.loader.mesh_map().remove_keys(leaving) =~= self.loader.mesh_map());
            assert(self.loader.pending().is_prefix_of(self.loader.pending()));
        }
    }

    /// The meshes to draw this frame.
    pub fn get_chunk_meshes(&self) -> (r: Vec<&M>)
        requires
            self.wf(),
        ensures
            r@.len() == crate::threaded_chunk_loader::drawable(self.spec_loader().mesh_entries()).len(),
            forall|k: int|
                0 <= k < r@.len() ==> *(#[trigger] r@[k]) == crate::threaded_chunk_loader::drawable(
                    self.spec_loader().mesh_entries(),
                )[k],
    {
        self.loader.get_meshes()
    }

    /// The loader, for running its dispatch and result steps.
    pub fn loader_mut(&mut self) -> (r: &mut ThreadedChunkLoader<M>)
        ensures
            *r == old(self).spec_loader(),
            final(self).spec_loader() == *final(r),
            final(self).center() == old(self).center(),
            final(self).radius() == old(self).radius(),
    {
        &mut self.loader
    }
}

} // verus!
