//! Base geometry shared by all instances of one shape kind: a unit quad for
//! rectangles and sprites, and an N-gon approximation of the unit circle for
//! ovals. Vertex positions themselves (the points on the unit circle) are
//! produced at the GPU boundary; here a batch carries the vertex count and the
//! exact triangle-fan index list, which is what the draw calls are shaped by.

use vstd::prelude::*;

verus! {

/// One (vertex-list, index-list) pair shared by every instance of a
/// kind/detail combination. `vertex_count` is the number of base vertices
/// (4 for the unit quad, `detail` for an oval); `indices` triangulates them
/// as a fan anchored at vertex 0.
pub struct GeometryBatch {
    pub vertex_count: u32,
    pub indices: Vec<u32>,
}

/// The triangle-fan index list for a convex polygon with `detail` vertices:
/// triangles (0, i+1, i+2) for i in 0..detail-2, flattened.
pub open spec fn fan_indices(detail: int) -> Seq<u32> {
    Seq::new(
        (3 * (detail - 2)) as nat,
        |k: int|
            if k % 3 == 0 {
                0u32
            } else if k % 3 == 1 {
                (k / 3 + 1) as u32
            } else {
                (k / 3 + 2) as u32
            },
    )
}

impl GeometryBatch {
    /// A batch is well formed when it has at least one triangle and every
    /// index refers to an existing vertex.
    pub open spec fn wf(self) -> bool {
        &&& self.vertex_count >= 3
        &&& self.indices@.len() == 3 * (self.vertex_count - 2)
        &&& forall|k: int|
            0 <= k < self.indices@.len() ==> self.indices@[k] < self.vertex_count
    }
}

/// Every index produced by `fan_indices` refers to a vertex below `detail`.
pub proof fn lemma_fan_indices_in_range(detail: int)
    requires
        3 <= detail <= u32::MAX,
    ensures
        fan_indices(detail).len() == 3 * (detail - 2),
        forall|k: int|
            0 <= k < fan_indices(detail).len() ==> #[trigger] fan_indices(detail)[k] < detail,
{
    assert forall|k: int| 0 <= k < fan_indices(detail).len() implies #[trigger] fan_indices(
        detail,
    )[k] < detail by {
        assert(k / 3 < detail - 2) by (nonlinear_arith)
            requires
                0 <= k < 3 * (detail - 2),
        ;
    }
}

/// The constant unit quad: 4 vertices (at the corners (+-1, +-1)) and the
/// index list [0, 1, 2, 0, 2, 3].
pub fn quad() -> (g: GeometryBatch)
    ensures
        g.vertex_count == 4,
        g.indices@ == fan_indices(4),
        g.wf(),
{
    let indices: Vec<u32> = vec![0, 1, 2, 0, 2, 3];
    assert(indices@ =~= fan_indices(4));
    GeometryBatch { vertex_count: 4, indices }
}

/// The `detail`-gon approximation of the unit circle: `detail` vertices
/// (vertex i sits at angle 2*pi*i/detail) and the triangle-fan index list of
/// `3*(detail-2)` entries, every one below `detail`. Requests with
/// `detail < 3` are rejected at the builder boundary and never reach here.
pub fn polygon(detail: u32) -> (g: GeometryBatch)
    requires
        detail >= 3,
    ensures
        g.vertex_count == detail,
        g.indices@ == fan_indices(detail as int),
        g.wf(),
{
    let mut indices: Vec<u32> = Vec::new();
    let mut i: u32 = 0;
    while i < detail - 2
        invariant
            3 <= detail,
            i <= detail - 2,
            indices@.len() == 3 * i,
            forall|k: int|
                0 <= k < indices@.len() ==> indices@[k] == fan_indices(detail as int)[k],
        decreases detail - 2 - i,
    {
        indices.push(0);
        indices.push(i + 1);
        indices.push(i + 2);
        i = i + 1;
    }
    assert(indices@ =~= fan_indices(detail as int));
    proof {
        lemma_fan_indices_in_range(detail as int);
    }
    GeometryBatch { vertex_count: detail, indices }
}

/// A lazily filled cache of polygon geometry, keyed by detail level.
/// Identical detail always yields bit-identical geometry, so a cached batch
/// is indistinguishable from a freshly built one; the cache only saves the
/// rebuilding.
pub struct GeometryCache {
    pub entries: Vec<(u32, GeometryBatch)>,
}

impl GeometryCache {
    /// Every cached batch is the fan geometry of its key.
    pub open spec fn wf(self) -> bool {
        forall|i: int|
            0 <= i < self.entries@.len() ==> {
                let e = #[trigger] self.entries@[i];
                e.1.vertex_count == e.0 && e.1.indices@ == fan_indices(e.0 as int) && e.0 >= 3
            }
    }

    /// An empty cache.
    pub fn new() -> (c: GeometryCache)
        ensures
            c.wf(),
            c.entries@.len() == 0,
    {
        GeometryCache { entries: Vec::new() }
    }

    /// The `detail`-gon geometry, built on first request and reused after.
    pub fn polygon(&mut self, detail: u32) -> (g: &GeometryBatch)
        requires
            detail >= 3,
            old(self).wf(),
        ensures
            final(self).wf(),
            g.vertex_count == detail,
            g.indices@ == fan_indices(detail as int),
            g.wf(),
    {
        let mut i: usize = 0;
        while i < self.entries.len()
            invariant
                self.wf(),
                i <= self.entries@.len(),
            decreases self.entries@.len() - i,
        {
            if self.entries[i].0 == detail {
                proof {
                    lemma_fan_indices_in_range(detail as int);
                }
                return &self.entries[i].1;
            }
            i = i + 1;
        }
        self.entries.push((detail, polygon(detail)));
        let idx = self.entries.len() - 1;
        &self.entries[idx].1
    }
}

} // verus!
