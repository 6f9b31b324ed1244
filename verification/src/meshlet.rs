//! Clusters of triangles of bounded size.
//!
//! A [`MeshletBuilder`] takes the triangles of an indexed stream one by one
//! and packs them into meshlets. What depends on the geometry of a triangle
//! (whether the normal cone would grow too wide, and the cone and the bounding
//! sphere of a finished meshlet) is computed by the caller and handed in.

use crate::bounding::Sphere;
use crate::distinct::first_seen;
use crate::distinct::lemma_first_seen_push;
use vstd::prelude::*;

verus! {

/// A cluster of triangles.
///
/// `vertices` holds, for each local slot in use, an index into the vertex
/// buffer that the triangles were taken from; `triangles` holds, for each
/// triangle, the local slots of its corners. `cone` is the average normal of
/// the triangles and the spread around it, `bounding` a sphere that holds all
/// their corners; both are bit patterns of single precision values.
#[derive(Debug)]
pub struct Meshlet<const VERTEX_COUNT: usize, const TRIANGLE_COUNT: usize> {
    pub cone: (u32, u32, u32, u32),
    pub bounding: Sphere,
    pub vertices: [u32; VERTEX_COUNT],
    pub triangles: [[u8; 3]; TRIANGLE_COUNT],
    pub vertex_count: u8,
    pub triangle_count: u8,
}

impl<const VERTEX_COUNT: usize, const TRIANGLE_COUNT: usize> Meshlet<VERTEX_COUNT, TRIANGLE_COUNT> {
    /// The counts are within the capacities, and every corner of every
    /// triangle is a local slot in use.
    pub open spec fn wf(&self) -> bool {
        &&& self.vertex_count <= VERTEX_COUNT
        &&& self.triangle_count <= TRIANGLE_COUNT
        &&& forall|t: int, k: int|
            0 <= t < self.triangle_count && 0 <= k < 3 ==> (#[trigger] self.triangles[t][k])
                < self.vertex_count
    }

    /// The meshlet holds nothing: no triangle, no vertex, and zero in every
    /// place.
    pub open spec fn is_blank(&self) -> bool {
        &&& self.cone == (0u32, 0u32, 0u32, 0u32)
        &&& self.bounding == (Sphere { center: (0, 0, 0), radius: 0 })
        &&& self.vertex_count == 0
        &&& self.triangle_count == 0
        &&& forall|s: int| 0 <= s < VERTEX_COUNT ==> #[trigger] self.vertices[s] == 0
        &&& forall|t: int, k: int|
            0 <= t < TRIANGLE_COUNT && 0 <= k < 3 ==> #[trigger] self.triangles[t][k] == 0
    }

    /// The indices into the vertex buffer that have a local slot, by slot.
    pub open spec fn used(&self) -> Seq<u32> {
        self.vertices@.take(self.vertex_count as int)
    }

    /// Corner `k` of triangle `t` as an index into the vertex buffer.
    pub open spec fn source(&self, t: int, k: int) -> u32 {
        self.vertices[self.triangles[t][k] as int]
    }

    /// The triangles of the meshlet as indices into the vertex buffer.
    pub open spec fn corners(&self) -> Seq<(u32, u32, u32)> {
        Seq::new(
            self.triangle_count as nat,
            |t: int| (self.source(t, 0), self.source(t, 1), self.source(t, 2)),
        )
    }

    /// The local slots are given out in the order in which the corners of the
    /// triangles first name a vertex.
    pub open spec fn tidy(&self) -> bool {
        self.used() == first_seen(indices_of(self.corners()))
    }
}

/// The corners of a list of triangles, one after the other.
pub open spec fn indices_of(corners: Seq<(u32, u32, u32)>) -> Seq<u32> {
    Seq::new(
        3 * corners.len(),
        |i: int|
            if i % 3 == 0 {
                corners[i / 3].0
            } else if i % 3 == 1 {
                corners[i / 3].1
            } else {
                corners[i / 3].2
            },
    )
}

/// One more triangle adds its three corners.
pub proof fn lemma_indices_push(corners: Seq<(u32, u32, u32)>, triangle: (u32, u32, u32))
    ensures
        indices_of(corners.push(triangle)) == indices_of(corners).push(triangle.0).push(
            triangle.1,
        ).push(triangle.2),
{
    assert(indices_of(corners.push(triangle)) =~= indices_of(corners).push(triangle.0).push(
        triangle.1,
    ).push(triangle.2));
}

impl<const VERTEX_COUNT: usize, const TRIANGLE_COUNT: usize> Default for Meshlet<
    VERTEX_COUNT,
    TRIANGLE_COUNT,
> {
    /// A meshlet without triangles.
    fn default() -> (m: Self)
        ensures
            m.is_blank(),
    {
        Self {
            cone: (0, 0, 0, 0),
            bounding: Sphere { center: (0, 0, 0), radius: 0 },
            vertices: [0; VERTEX_COUNT],
            triangles: [[0; 3]; TRIANGLE_COUNT],
            vertex_count: 0,
            triangle_count: 0,
        }
    }
}

/// The triangles of a list of meshlets, one meshlet after the other, as
/// indices into the vertex buffer.
pub open spec fn stream<const V: usize, const T: usize>(meshlets: Seq<Meshlet<V, T>>) -> Seq<
    (u32, u32, u32),
>
    decreases meshlets.len(),
{
    if meshlets.len() == 0 {
        Seq::empty()
    } else {
        stream(meshlets.drop_last()) + meshlets.last().corners()
    }
}

/// `list` with `x` at its end, unless it holds `x` already.
pub open spec fn with_vertex(list: Seq<u32>, x: u32) -> Seq<u32> {
    if list.contains(x) {
        list
    } else {
        list.push(x)
    }
}

/// `with_vertex(list, x)` starts with `list` and holds `x` and what `list`
/// holds.
pub proof fn lemma_with_vertex(list: Seq<u32>, x: u32)
    ensures
        list.is_prefix_of(with_vertex(list, x)),
        with_vertex(list, x).len() == list.len() + (if list.contains(x) {
            0int
        } else {
            1int
        }),
        forall|y: u32| #[trigger] with_vertex(list, x).contains(y) <==> list.contains(y) || y == x,
{
    let after = with_vertex(list, x);
    assert forall|y: u32| #[trigger] after.contains(y) <==> list.contains(y) || y == x by {
        if list.contains(y) {
            let s = choose|s: int| 0 <= s < list.len() && list[s] == y;
            assert(after[s] == y);
        }
        if y == x && !list.contains(x) {
            assert(after[list.len() as int] == x);
        }
    }
}

/// The triangles of an index buffer: every three indices in a row. Indices
/// that are left over at the end belong to no triangle.
pub open spec fn triples(indices: Seq<u32>) -> Seq<(u32, u32, u32)> {
    Seq::new(indices.len() / 3, |t: int| (indices[3 * t], indices[3 * t + 1], indices[3 * t + 2]))
}

/// What the clustering has to be told about the shape of the triangles. A
/// triangle is given as three indices into the vertex buffer.
pub trait Geometry {
    /// Whether the normals of the triangles `members` and of `next` together
    /// spread wider than allowed.
    fn too_wide(&self, members: &Vec<[u32; 3]>, next: [u32; 3]) -> bool;

    /// The normal cone of the triangles `members`: the bit patterns of the
    /// average normal and of the spread around it.
    fn cone(&self, members: &Vec<[u32; 3]>) -> (u32, u32, u32, u32);

    /// A sphere that holds every corner of the triangles `members`.
    fn bounding(&self, members: &Vec<[u32; 3]>) -> Sphere;
}

/// Packs triangles into meshlets of at most `V` vertices and `T` triangles.
pub struct MeshletBuilder<const V: usize, const T: usize> {
    meshlets: Vec<Meshlet<V, T>>,
    meshlet: Meshlet<V, T>,
    contained: Vec<i32>,
}

impl<const V: usize, const T: usize> MeshletBuilder<V, T> {
    /// The meshlets that are finished.
    pub closed spec fn sealed(&self) -> Seq<Meshlet<V, T>> {
        self.meshlets@
    }

    /// The meshlet in progress.
    pub closed spec fn current(&self) -> Meshlet<V, T> {
        self.meshlet
    }

    /// The length of the vertex buffer that the triangles index into.
    pub closed spec fn vertex_total(&self) -> nat {
        self.contained@.len()
    }

    /// Whether vertex `i` has a local slot in the meshlet in progress.
    pub open spec fn holds(&self, i: u32) -> bool {
        self.current().used().contains(i)
    }

    /// The state is consistent: the capacities are in range, every finished
    /// meshlet is well formed and holds a triangle, the meshlet in progress is
    /// well formed and holds no vertex without a triangle, and the slot table
    /// is the inverse of its vertex list.
    pub closed spec fn wf(&self) -> bool {
        &&& self.consistent()
        &&& self.meshlet.triangle_count == 0 ==> self.meshlet.vertex_count == 0
        &&& self.meshlet.tidy()
    }

    /// What holds of the state also while a triangle is being added.
    closed spec fn consistent(&self) -> bool {
        &&& 3 <= V <= 255
        &&& 1 <= T <= 255
        &&& self.meshlet.wf()
        &&& forall|m: int|
            0 <= m < self.meshlets.len() ==> (#[trigger] self.meshlets[m]).wf()
                && self.meshlets[m].triangle_count >= 1 && self.meshlets[m].tidy()
        &&& forall|i: int|
            0 <= i < self.contained.len() ==> (#[trigger] self.contained[i]) == -1 || (0
                <= self.contained[i] < self.meshlet.vertex_count
                && self.meshlet.vertices[self.contained[i] as int] == i)
        &&& forall|s: int|
            0 <= s < self.meshlet.vertex_count ==> (#[trigger] self.meshlet.vertices[s])
                < self.contained.len() && self.contained[self.meshlet.vertices[s] as int] == s
    }

    /// The slot table says of a vertex that it has a slot exactly if the
    /// vertex list holds it.
    proof fn lemma_table(&self, i: u32)
        requires
            self.consistent(),
            i < self.contained.len(),
        ensures
            self.contained[i as int] != -1 <==> self.holds(i),
            self.meshlet.used().no_duplicates(),
    {
        let used = self.meshlet.used();
        if self.contained[i as int] != -1 {
            assert(used[self.contained[i as int] as int] == i);
        }
        if used.contains(i) {
            let s = choose|s: int| 0 <= s < used.len() && used[s] == i;
            assert(self.meshlet.vertices[s] == i);
        }
        assert forall|a: int, b: int| 0 <= a < used.len() && 0 <= b < used.len() && a != b implies used[a] != used[b] by {
            assert(self.meshlet.vertices[a] == used[a]);
            assert(self.meshlet.vertices[b] == used[b]);
        }
    }

    /// The triangles taken in so far, in order: those of the finished
    /// meshlets and then those of the meshlet in progress.
    pub open spec fn taken(&self) -> Seq<(u32, u32, u32)> {
        stream(self.sealed()) + self.current().corners()
    }

    /// How many corners of `triangle` have no local slot yet. A vertex that
    /// the triangle names twice counts twice.
    pub open spec fn additional(&self, triangle: [u32; 3]) -> int {
        (if self.holds(triangle[0]) {
            0int
        } else {
            1int
        }) + (if self.holds(triangle[1]) {
            0int
        } else {
            1int
        }) + (if self.holds(triangle[2]) {
            0int
        } else {
            1int
        })
    }

    /// Whether `triangle` has room in the meshlet in progress.
    pub open spec fn fits(&self, triangle: [u32; 3]) -> bool {
        &&& self.current().triangle_count < T
        &&& self.current().vertex_count + self.additional(triangle) <= V
    }

    /// Whether the meshlet in progress is to be finished before `triangle` is
    /// added: it holds a triangle, and the new one has no room in it or would
    /// make its normal cone too wide.
    pub open spec fn flushes(&self, triangle: [u32; 3], too_wide: bool) -> bool {
        self.current().triangle_count > 0 && (!self.fits(triangle) || too_wide)
    }

    /// Whether every corner of `triangle` is an index into the vertex buffer.
    pub open spec fn admits(&self, triangle: [u32; 3]) -> bool {
        triangle[0] < self.vertex_total() && triangle[1] < self.vertex_total() && triangle[2]
            < self.vertex_total()
    }

    /// A builder for triangles that index into a vertex buffer of
    /// `vertex_total` items.
    pub fn new(vertex_total: usize) -> (builder: Self)
        requires
            3 <= V <= 255,
            1 <= T <= 255,
        ensures
            builder.wf(),
            builder.vertex_total() == vertex_total,
            builder.sealed() == Seq::<Meshlet<V, T>>::empty(),
            builder.current().is_blank(),
            builder.taken() == Seq::<(u32, u32, u32)>::empty(),
    {
        let mut contained: Vec<i32> = Vec::with_capacity(vertex_total);
        let mut i: usize = 0;
        while i < vertex_total
            invariant
                i <= vertex_total,
                contained.len() == i,
                forall|j: int| 0 <= j < i ==> (#[trigger] contained[j]) == -1,
            decreases vertex_total - i,
        {
            contained.push(-1);
            i += 1;
        }
        let builder = MeshletBuilder { meshlets: Vec::new(), meshlet: Meshlet::default(), contained };
        assert(builder.taken() =~= Seq::<(u32, u32, u32)>::empty());
        assert(indices_of(builder.meshlet.corners()) =~= Seq::<u32>::empty());
        assert(builder.meshlet.used() =~= Seq::<u32>::empty());
        builder
    }

    /// The number of triangles of the meshlet in progress.
    pub fn triangle_count(&self) -> (n: u8)
        ensures
            n == self.current().triangle_count,
    {
        self.meshlet.triangle_count
    }

    /// The number of vertices of the meshlet in progress.
    pub fn vertex_count(&self) -> (n: u8)
        ensures
            n == self.current().vertex_count,
    {
        self.meshlet.vertex_count
    }

    /// Counts the corners of `triangle` that have no local slot yet.
    pub fn additional_vertices(&self, triangle: [u32; 3]) -> (n: u8)
        requires
            self.wf(),
            self.admits(triangle),
        ensures
            n == self.additional(triangle),
    {
        proof {
            self.lemma_table(triangle[0]);
            self.lemma_table(triangle[1]);
            self.lemma_table(triangle[2]);
        }
        let a: u8 = if self.contained[triangle[0] as usize] == -1 {
            1
        } else {
            0
        };
        let b: u8 = if self.contained[triangle[1] as usize] == -1 {
            1
        } else {
            0
        };
        let c: u8 = if self.contained[triangle[2] as usize] == -1 {
            1
        } else {
            0
        };
        a + b + c
    }

    /// Decides whether the meshlet in progress is to be finished before
    /// `triangle` is added. `too_wide` tells whether the triangle would make
    /// the normal cone of the meshlet wider than the threshold allows.
    pub fn must_flush(&self, triangle: [u32; 3], too_wide: bool) -> (flush: bool)
        requires
            self.wf(),
            self.admits(triangle),
        ensures
            flush == self.flushes(triangle, too_wide),
            !flush ==> self.fits(triangle),
    {
        let additional = self.additional_vertices(triangle);
        let indices_full = self.meshlet.triangle_count as usize == T;
        let verts_full = self.meshlet.vertex_count as usize + additional as usize > V;
        self.meshlet.triangle_count > 0 && (indices_full || verts_full || too_wide)
    }

    /// Finishes the meshlet in progress, with the cone and the bounding sphere
    /// of its triangles, and starts an empty one. Where the meshlet in
    /// progress holds no triangle, nothing happens.
    pub fn flush(&mut self, cone: (u32, u32, u32, u32), bounding: Sphere)
        requires
            old(self).wf(),
        ensures
            final(self).wf(),
            final(self).vertex_total() == old(self).vertex_total(),
            old(self).current().triangle_count == 0 ==> final(self).current() == old(self).current(),
            old(self).current().triangle_count > 0 ==> final(self).current().is_blank(),
            final(self).current().triangle_count == 0,
            final(self).current().vertex_count == 0,
            final(self).taken() == old(self).taken(),
            old(self).current().triangle_count == 0 ==> final(self).sealed() == old(self).sealed(),
            old(self).current().triangle_count > 0 ==> final(self).sealed() == old(self).sealed().push(
                Meshlet { cone: cone, bounding: bounding, ..old(self).current() },
            ),
    {
        if self.meshlet.triangle_count == 0 {
            return ;
        }
        proof {
            let sealed = Meshlet { cone: cone, bounding: bounding, ..self.meshlet };
            assert(self.meshlets@.push(sealed).drop_last() =~= self.meshlets@);
            assert(sealed.corners() =~= self.meshlet.corners());
            assert(sealed.used() =~= self.meshlet.used());
        }
        self.meshlet.cone = cone;
        self.meshlet.bounding = bounding;
        let mut finished: Meshlet<V, T> = Meshlet::default();
        core::mem::swap(&mut self.meshlet, &mut finished);
        self.meshlets.push(finished);
        proof {
            assert(indices_of(self.meshlet.corners()) =~= Seq::<u32>::empty());
            assert(self.meshlet.used() =~= Seq::<u32>::empty());
        }
        let mut i: usize = 0;
        while i < self.contained.len()
            invariant
                i <= self.contained.len(),
                self.contained.len() == old(self).contained.len(),
                self.meshlets@ == old(self).meshlets@.push(finished),
                self.meshlet.is_blank(),
                self.meshlet.tidy(),
                forall|j: int| 0 <= j < i ==> (#[trigger] self.contained[j]) == -1,
            decreases self.contained.len() - i,
        {
            self.contained[i] = -1;
            i += 1;
        }
    }

    /// The local slot of vertex `index`, which gets the next free one if it
    /// has none.
    fn slot_of(&mut self, index: u32) -> (slot: u8)
        requires
            old(self).consistent(),
            index < old(self).vertex_total(),
            old(self).holds(index) || old(self).current().vertex_count < V,
        ensures
            final(self).consistent(),
            final(self).meshlets == old(self).meshlets,
            final(self).contained.len() == old(self).contained.len(),
            final(self).meshlet.triangles == old(self).meshlet.triangles,
            final(self).meshlet.triangle_count == old(self).meshlet.triangle_count,
            final(self).meshlet.cone == old(self).meshlet.cone,
            final(self).meshlet.bounding == old(self).meshlet.bounding,
            final(self).meshlet.used() == with_vertex(old(self).meshlet.used(), index),
            forall|s: int|
                final(self).meshlet.vertex_count <= s < V ==> final(self).meshlet.vertices[s]
                    == old(self).meshlet.vertices[s],
            slot < final(self).meshlet.vertex_count,
            final(self).meshlet.vertices[slot as int] == index,
    {
        let i = index as usize;
        proof {
            self.lemma_table(index);
        }
        if self.contained[i] == -1 {
            let slot = self.meshlet.vertex_count;
            self.contained[i] = slot as i32;
            self.meshlet.vertices[slot as usize] = index;
            self.meshlet.vertex_count += 1;
            assert(self.meshlet.used() =~= old(self).meshlet.used().push(index));
            slot
        } else {
            self.contained[i] as u8
        }
    }

    /// Adds `triangle` to the meshlet in progress: corners that have no local
    /// slot yet get the next free ones, in their order.
    pub fn add_triangle(&mut self, triangle: [u32; 3])
        requires
            old(self).wf(),
            old(self).admits(triangle),
            old(self).fits(triangle),
        ensures
            final(self).wf(),
            final(self).vertex_total() == old(self).vertex_total(),
            final(self).sealed() == old(self).sealed(),
            final(self).current().corners() == old(self).current().corners().push(
                (triangle[0], triangle[1], triangle[2]),
            ),
            final(self).taken() == old(self).taken().push((triangle[0], triangle[1], triangle[2])),
            final(self).current().triangle_count == old(self).current().triangle_count + 1,
            final(self).current().used() == with_vertex(
                with_vertex(with_vertex(old(self).current().used(), triangle[0]), triangle[1]),
                triangle[2],
            ),
            final(self).current().used().no_duplicates(),
            final(self).current().tidy(),
            final(self).current().cone == old(self).current().cone,
            final(self).current().bounding == old(self).current().bounding,
            forall|s: int|
                final(self).current().vertex_count <= s < V ==> final(self).current().vertices[s]
                    == old(self).current().vertices[s],
            forall|t: int|
                0 <= t < T && t != old(self).current().triangle_count ==> final(self).current().triangles[t] == old(self).current().triangles[t],
    {
        proof {
            self.lemma_table(triangle[0]);
            self.lemma_table(triangle[1]);
            self.lemma_table(triangle[2]);
        }
        let ghost u0 = self.meshlet.used();
        let a = self.slot_of(triangle[0]);
        let ghost u1 = self.meshlet.used();
        proof {
            lemma_with_vertex(u0, triangle[0]);
            assert(u1.len() == self.meshlet.vertex_count);
        }
        let b = self.slot_of(triangle[1]);
        let ghost u2 = self.meshlet.used();
        proof {
            lemma_with_vertex(u1, triangle[1]);
            assert(u2.len() == self.meshlet.vertex_count);
        }
        let c = self.slot_of(triangle[2]);
        proof {
            lemma_with_vertex(u2, triangle[2]);
            self.lemma_table(triangle[0]);
        }
        let t = self.meshlet.triangle_count;
        let ghost before = self.meshlet;
        self.meshlet.triangles[t as usize] = [a, b, c];
        self.meshlet.triangle_count += 1;
        proof {
            assert forall|s: int, k: int|
                0 <= s < self.meshlet.triangle_count && 0 <= k < 3 implies (
            #[trigger] self.meshlet.triangles[s][k]) < self.meshlet.vertex_count by {
                if s < t {
                    assert(self.meshlet.triangles[s] == before.triangles[s]);
                    assert(before.triangles[s][k] < old(self).meshlet.vertex_count);
                }
            }
            let was = old(self).meshlet.corners();
            let now = self.meshlet.corners();
            let first = old(self).meshlet.used();
            let last = self.meshlet.used();
            assert(first.is_prefix_of(last));
            assert forall|s: int| 0 <= s < was.len() implies now[s] == was[s] by {
                assert(self.meshlet.triangles[s] == old(self).meshlet.triangles[s]);
                assert forall|k: int| 0 <= k < 3 implies self.meshlet.source(s, k) == old(self).meshlet.source(s, k) by {
                    let slot = old(self).meshlet.triangles[s][k] as int;
                    assert(slot < old(self).meshlet.vertex_count);
                    assert(last[slot] == first[slot]);
                }
            }
            assert(last[a as int] == triangle[0]);
            assert(last[b as int] == triangle[1]);
            assert(last[c as int] == triangle[2]);
            assert(now =~= was.push((triangle[0], triangle[1], triangle[2])));
            assert(self.taken() =~= old(self).taken().push((triangle[0], triangle[1], triangle[2])));
            let flat = indices_of(was);
            lemma_indices_push(was, (triangle[0], triangle[1], triangle[2]));
            lemma_first_seen_push(flat, triangle[0]);
            lemma_first_seen_push(flat.push(triangle[0]), triangle[1]);
            lemma_first_seen_push(flat.push(triangle[0]).push(triangle[1]), triangle[2]);
        }
    }

    /// Whether the meshlet in progress holds a triangle.
    pub fn pending(&self) -> (b: bool)
        ensures
            b == (self.current().triangle_count > 0),
    {
        self.meshlet.triangle_count != 0
    }

    /// Hands over the finished meshlets. Each is well formed and holds at
    /// least one triangle. Triangles of the meshlet in progress are left out:
    /// flush first.
    pub fn finish(self) -> (out: Vec<Meshlet<V, T>>)
        requires
            self.wf(),
        ensures
            out@ == self.sealed(),
            forall|m: int|
                0 <= m < out.len() ==> (#[trigger] out[m]).wf() && out[m].triangle_count >= 1
                    && out[m].tidy(),
            self.current().triangle_count == 0 ==> stream(out@) == self.taken(),
    {
        assert(self.meshlet.triangle_count == 0 ==> self.taken() =~= stream(self.meshlets@));
        self.meshlets
    }
}

/// Packs the triangles of an index buffer into meshlets, in their order.
///
/// A meshlet is finished before the next triangle is added where that
/// triangle has no room in it, or where `geometry` says that it would make the
/// normal cone too wide; `geometry` is asked with the triangles that the
/// meshlet in progress holds, and gives the cone and the bounding sphere of
/// every meshlet that is finished. Whatever it answers, every meshlet is well
/// formed and holds a triangle, gives out its local slots in the order in
/// which its triangles first name a vertex, and the meshlets together hold the
/// triangles of the index buffer, each once and in order.
pub fn build_meshlets<const V: usize, const T: usize, G: Geometry>(
    indices: &[u32],
    vertex_total: usize,
    geometry: &G,
) -> (out: Vec<Meshlet<V, T>>)
    requires
        3 <= V <= 255,
        1 <= T <= 255,
        forall|i: int|
            0 <= i < 3 * (indices.len() / 3) ==> (#[trigger] indices[i]) < vertex_total,
    ensures
        forall|m: int|
            0 <= m < out.len() ==> (#[trigger] out[m]).wf() && out[m].triangle_count >= 1
                && out[m].tidy(),
        stream(out@) == triples(indices@),
{
    let mut builder = MeshletBuilder::<V, T>::new(vertex_total);
    let mut members: Vec<[u32; 3]> = Vec::new();
    let count = indices.len() / 3;
    let mut t: usize = 0;
    assert(triples(indices@).take(0) =~= Seq::<(u32, u32, u32)>::empty());
    while t < count
        invariant
            t <= count,
            count == indices.len() / 3,
            builder.wf(),
            builder.vertex_total() == vertex_total,
            builder.taken() == triples(indices@).take(t as int),
            forall|i: int|
                0 <= i < 3 * (indices.len() / 3) ==> (#[trigger] indices[i]) < vertex_total,
        decreases count - t,
    {
        let triangle = [indices[3 * t], indices[3 * t + 1], indices[3 * t + 2]];
        let too_wide = geometry.too_wide(&members, triangle);
        if builder.must_flush(triangle, too_wide) {
            let cone = geometry.cone(&members);
            let bounding = geometry.bounding(&members);
            builder.flush(cone, bounding);
            members.clear();
            assert(builder.current().used() =~= Seq::<u32>::empty());
        }
        builder.add_triangle(triangle);
        members.push(triangle);
        assert(triples(indices@).take(t + 1) =~= triples(indices@).take(t as int).push(
            (triangle[0], triangle[1], triangle[2]),
        ));
        t += 1;
    }
    if builder.pending() {
        let cone = geometry.cone(&members);
        let bounding = geometry.bounding(&members);
        builder.flush(cone, bounding);
    }
    assert(triples(indices@).take(count as int) =~= triples(indices@));
    builder.finish()
}

} // verus!
