//! Transforms of a flat vertex stream: deduplication into a vertex and an
//! index buffer, and reordering of the triangles for locality.

use crate::distinct::first_seen;
use crate::distinct::lemma_first_seen;
use crate::distinct::lemma_first_seen_push;
use crate::obj::VertexTextureData;
use rustc_hash::FxBuildHasher;
use std::collections::HashMap;
use std::collections::HashSet;
use vstd::prelude::*;
use vstd::set_lib::lemma_int_range;
use vstd::set_lib::lemma_len_subset;
use vstd::set_lib::set_int_range;

verus! {

/// The hasher of the tables below.
#[verifier::external_type_specification]
#[verifier::external_body]
pub struct ExFxBuildHasher(FxBuildHasher);

/// The canonical key of a vertex: its material index and, bit by bit, its
/// position, colour, normal and texture coordinate. Two vertices are the same
/// exactly if their keys are.
pub type VertexKey = (
    usize,
    (u32, u32, u32),
    Option<(u32, u32, u32)>,
    Option<(u32, u32, u32)>,
    Option<(u32, u32)>,
);

/// A triangle as the slots of its three corners in a vertex buffer.
pub type SlotTriangle = (usize, usize, usize);

/// A triangle as its three corners.
pub type Triangle = (VertexTextureData, VertexTextureData, VertexTextureData);

/// The key of `v`.
pub open spec fn key_of(v: VertexTextureData) -> VertexKey {
    (v.material_index, v.vertex.position, v.vertex.color, v.vertex.normal, v.vertex.texture_coord)
}

/// A table without entries.
pub open spec fn no_slots() -> Map<VertexKey, usize> {
    Map::empty()
}

/// A set without triangles.
pub open spec fn no_triangles() -> Set<SlotTriangle> {
    Set::empty()
}

/// `HashMap::with_capacity_and_hasher` with `rustc_hash::FxBuildHasher`: the
/// new table holds nothing.
#[verifier::external_body]
fn new_vertex_table(capacity: usize) -> (table: HashMap<VertexKey, usize, FxBuildHasher>)
    ensures
        table@ == no_slots(),
{
    HashMap::with_capacity_and_hasher(capacity, FxBuildHasher)
}

/// `HashMap::get` on a table hashed by `rustc_hash::FxBuildHasher`: the slot
/// stored under `key`, if there is one.
#[verifier::external_body]
fn vertex_table_get(table: &HashMap<VertexKey, usize, FxBuildHasher>, key: &VertexKey) -> (slot:
    Option<usize>)
    ensures
        slot == (if table@.contains_key(*key) {
            Some(table@[*key])
        } else {
            None
        }),
{
    table.get(key).copied()
}

/// `HashMap::insert` on a table hashed by `rustc_hash::FxBuildHasher`:
/// afterwards `key` leads to `slot` and every other key to what it led to.
#[verifier::external_body]
fn vertex_table_insert(table: &mut HashMap<VertexKey, usize, FxBuildHasher>, key: VertexKey, slot: usize)
    ensures
        final(table)@ == old(table)@.insert(key, slot),
{
    table.insert(key, slot);
}

/// `HashSet::with_capacity_and_hasher` with `rustc_hash::FxBuildHasher`: the
/// new set holds nothing.
#[verifier::external_body]
fn new_triangle_set(capacity: usize) -> (set: HashSet<SlotTriangle, FxBuildHasher>)
    ensures
        set@ == no_triangles(),
{
    HashSet::with_capacity_and_hasher(capacity, FxBuildHasher)
}

/// `HashSet::insert` on a set hashed by `rustc_hash::FxBuildHasher`:
/// afterwards the set holds `triangle` too; the result tells whether it was
/// new.
#[verifier::external_body]
fn triangle_set_insert(set: &mut HashSet<SlotTriangle, FxBuildHasher>, triangle: SlotTriangle) -> (fresh:
    bool)
    ensures
        final(set)@ == old(set)@.insert(triangle),
        fresh == !old(set)@.contains(triangle),
{
    set.insert(triangle)
}

/// Whether `ids` and `unique` are an index and a vertex buffer of `vertices`:
/// no vertex occurs twice in `unique`, and every item of `vertices` is found
/// in `unique` at the slot that `ids` gives for it.
pub open spec fn indexes(ids: Seq<usize>, unique: Seq<VertexTextureData>, vertices: Seq<VertexTextureData>) -> bool {
    &&& unique.no_duplicates()
    &&& ids.len() == vertices.len()
    &&& forall|i: int|
        0 <= i < vertices.len() ==> (#[trigger] ids[i]) < unique.len() && unique[ids[i] as int]
            == vertices[i]
}

/// The vertex stream that an index buffer and a vertex buffer stand for.
pub open spec fn replay(ids: Seq<usize>, unique: Seq<VertexTextureData>) -> Seq<VertexTextureData> {
    Seq::new(ids.len(), |i: int| unique[ids[i] as int])
}

/// Replaying the index buffer of a vertex stream against its vertex buffer
/// gives back the stream, item by item.
pub proof fn lemma_replay(
    ids: Seq<usize>,
    unique: Seq<VertexTextureData>,
    vertices: Seq<VertexTextureData>,
)
    requires
        indexes(ids, unique, vertices),
    ensures
        replay(ids, unique) == vertices,
{
    assert(replay(ids, unique) =~= vertices);
}

/// The canonical key of `v`.
fn vertex_key(v: &VertexTextureData) -> (key: VertexKey)
    ensures
        key == key_of(*v),
{
    (v.material_index, v.vertex.position, v.vertex.color, v.vertex.normal, v.vertex.texture_coord)
}

/// Deduplicates a vertex stream.
///
/// Returns the index buffer and the vertex buffer. The vertex buffer holds
/// every distinct vertex of the stream once, in the order of first
/// occurrence; the index buffer holds, for every item of the stream, the slot
/// of that vertex in the vertex buffer.
pub fn indexed_vertices(vertices: &[VertexTextureData]) -> (r: (Vec<usize>, Vec<VertexTextureData>))
    ensures
        r.1@ == first_seen(vertices@),
        indexes(r.0@, r.1@, vertices@),
{
    let mut indicies: Vec<usize> = Vec::with_capacity(vertices.len());
    let mut unique: Vec<VertexTextureData> = Vec::new();
    let mut table = new_vertex_table(vertices.len());
    let mut i: usize = 0;
    assert(vertices@.take(0) =~= Seq::<VertexTextureData>::empty());
    while i < vertices.len()
        invariant
            i <= vertices.len(),
            unique@ == first_seen(vertices@.take(i as int)),
            indicies.len() == i,
            forall|j: int|
                0 <= j < i ==> (#[trigger] indicies[j]) < unique.len() && unique[indicies[j] as int]
                    == vertices[j],
            forall|k: VertexKey| #[trigger]
                table@.contains_key(k) ==> table@[k] < unique.len() && key_of(
                    unique[table@[k] as int],
                ) == k,
            forall|j: int|
                0 <= j < unique.len() ==> table@.contains_key(key_of(#[trigger] unique[j])),
        decreases vertices.len() - i,
    {
        let v = vertices[i];
        let key = vertex_key(&v);
        proof {
            assert(vertices@.take(i + 1) =~= vertices@.take(i as int).push(v));
            lemma_first_seen_push(vertices@.take(i as int), v);
        }
        match vertex_table_get(&table, &key) {
            Some(slot) => {
                assert(unique[slot as int] == v);
                assert(unique@.contains(v));
                indicies.push(slot);
            },
            None => {
                proof {
                    if unique@.contains(v) {
                        let j = choose|j: int| 0 <= j < unique.len() && unique[j] == v;
                        assert(table@.contains_key(key_of(unique[j])));
                    }
                }
                let slot = unique.len();
                vertex_table_insert(&mut table, key, slot);
                unique.push(v);
                indicies.push(slot);
            },
        }
        i += 1;
    }
    proof {
        assert(vertices@.take(vertices.len() as int) =~= vertices@);
        lemma_first_seen(vertices@);
    }
    (indicies, unique)
}

/// The triangles of a vertex stream: every three items in a row.
pub open spec fn triangles(s: Seq<VertexTextureData>) -> Seq<Triangle> {
    Seq::new(s.len() / 3, |t: int| (s[3 * t], s[3 * t + 1], s[3 * t + 2]))
}

/// Triangle `t` of a stream as the slots of its corners.
pub open spec fn slot_triangle(ids: Seq<usize>, t: int) -> SlotTriangle {
    (ids[3 * t], ids[3 * t + 1], ids[3 * t + 2])
}

/// Two triangles of a stream have the same corners exactly if they have the
/// same slots.
proof fn lemma_same_triangle(
    ids: Seq<usize>,
    unique: Seq<VertexTextureData>,
    vertices: Seq<VertexTextureData>,
    a: int,
    b: int,
)
    requires
        indexes(ids, unique, vertices),
        0 <= a < vertices.len() / 3,
        0 <= b < vertices.len() / 3,
    ensures
        slot_triangle(ids, a) == slot_triangle(ids, b) <==> triangles(vertices)[a] == triangles(
            vertices,
        )[b],
{
    assert(unique[ids[3 * a] as int] == vertices[3 * a]);
    assert(unique[ids[3 * a + 1] as int] == vertices[3 * a + 1]);
    assert(unique[ids[3 * a + 2] as int] == vertices[3 * a + 2]);
    assert(unique[ids[3 * b] as int] == vertices[3 * b]);
    assert(unique[ids[3 * b + 1] as int] == vertices[3 * b + 1]);
    assert(unique[ids[3 * b + 2] as int] == vertices[3 * b + 2]);
}

/// Distinct numbers below `m` are at most `m`.
proof fn lemma_distinct_bounded(s: Seq<int>, m: int)
    requires
        0 <= m,
        s.no_duplicates(),
        forall|i: int| 0 <= i < s.len() ==> 0 <= #[trigger] s[i] < m,
    ensures
        s.len() <= m,
{
    s.unique_seq_to_set();
    lemma_int_range(0, m);
    assert(s.to_set().subset_of(set_int_range(0, m))) by {
        assert forall|x: int| s.to_set().contains(x) implies set_int_range(0, m).contains(x) by {
            let i = choose|i: int| 0 <= i < s.len() && s[i] == x;
            assert(0 <= s[i] < m);
        }
    }
    lemma_len_subset(s.to_set(), set_int_range(0, m));
}

/// Two sequences without duplicates that hold the same items are equally
/// long.
proof fn lemma_same_size(a: Seq<Triangle>, b: Seq<Triangle>)
    requires
        a.no_duplicates(),
        b.no_duplicates(),
        forall|x: Triangle| a.contains(x) <==> b.contains(x),
    ensures
        a.len() == b.len(),
{
    a.unique_seq_to_set();
    b.unique_seq_to_set();
    assert(a.to_set() =~= b.to_set());
}

/// For every slot, the numbers of the triangles that have a corner there.
fn build_adjacency(ids: &Vec<usize>, slots: usize) -> (adjacency: Vec<Vec<usize>>)
    requires
        ids.len() % 3 == 0,
        forall|i: int| 0 <= i < ids.len() ==> (#[trigger] ids[i]) < slots,
    ensures
        adjacency.len() == slots,
        forall|u: int, e: int|
            0 <= u < slots && 0 <= e < adjacency[u].len() ==> (#[trigger] adjacency[u][e])
                < ids.len() / 3,
        forall|t: int, k: int|
            0 <= t < ids.len() / 3 && 0 <= k < 3 ==> adjacency[(#[trigger] ids[3 * t + k]) as int]@.contains(t as usize),
{
    let mut adjacency: Vec<Vec<usize>> = Vec::with_capacity(slots);
    let mut u: usize = 0;
    while u < slots
        invariant
            u <= slots,
            adjacency.len() == u,
            forall|w: int| 0 <= w < u ==> (#[trigger] adjacency[w]).len() == 0,
        decreases slots - u,
    {
        adjacency.push(Vec::new());
        u += 1;
    }
    let count = ids.len() / 3;
    let mut t: usize = 0;
    while t < count
        invariant
            t <= count,
            count == ids.len() / 3,
            ids.len() % 3 == 0,
            adjacency.len() == slots,
            forall|i: int| 0 <= i < ids.len() ==> (#[trigger] ids[i]) < slots,
            forall|w: int, e: int|
                0 <= w < slots && 0 <= e < adjacency[w].len() ==> (#[trigger] adjacency[w][e]) < t,
            forall|s: int, k: int|
                0 <= s < t && 0 <= k < 3 ==> adjacency[(#[trigger] ids[3 * s + k]) as int]@.contains(s as usize),
        decreases count - t,
    {
        let mut k: usize = 0;
        while k < 3
            invariant
                k <= 3,
                t < count,
                count == ids.len() / 3,
                ids.len() % 3 == 0,
                adjacency.len() == slots,
                forall|i: int| 0 <= i < ids.len() ==> (#[trigger] ids[i]) < slots,
                forall|w: int, e: int|
                    0 <= w < slots && 0 <= e < adjacency[w].len() ==> (#[trigger] adjacency[w][e])
                        <= t,
                forall|s: int, j: int|
                    0 <= s < t && 0 <= j < 3 ==> adjacency[(#[trigger] ids[3 * s + j]) as int]@.contains(s as usize),
                forall|j: int|
                    0 <= j < k ==> adjacency[(#[trigger] ids[3 * t + j]) as int]@.contains(t),
            decreases 3 - k,
        {
            let u = ids[3 * t + k];
            let ghost before = adjacency@;
            adjacency[u].push(t);
            proof {
                assert(adjacency[u as int]@ == before[u as int]@.push(t));
                assert(adjacency[u as int]@[before[u as int].len() as int] == t);
                assert forall|w: int| 0 <= w < slots && w != u implies adjacency[w] == before[w] by {}
                assert forall|s: int, j: int| 0 <= s < t && 0 <= j < 3 implies adjacency[(
                #[trigger] ids[3 * s + j]) as int]@.contains(s as usize) by {
                    let w = ids[3 * s + j] as int;
                    assert(before[w]@.contains(s as usize));
                    let e = choose|e: int| 0 <= e < before[w]@.len() && before[w]@[e] == s as usize;
                    assert(adjacency[w]@[e] == s as usize);
                }
                assert forall|j: int| 0 <= j < k + 1 implies adjacency[(
                #[trigger] ids[3 * t + j]) as int]@.contains(t) by {
                    let w = ids[3 * t + j] as int;
                    if j < k {
                        assert(before[w]@.contains(t));
                        let e = choose|e: int| 0 <= e < before[w]@.len() && before[w]@[e] == t;
                        assert(adjacency[w]@[e] == t);
                    }
                }
            }
            k += 1;
        }
        t += 1;
    }
    adjacency
}

/// Reorders the triangles of a vertex stream so that triangles that share a
/// vertex come close to one another.
///
/// Every three items of `vertices` are one triangle. The result holds every
/// distinct triangle of the input exactly once, corners in their order: a
/// triangle that occurs several times is kept once, so the result may be
/// shorter than the input.
pub fn optimize_vertex_order(vertices: Vec<VertexTextureData>) -> (out: Vec<VertexTextureData>)
    requires
        vertices.len() % 3 == 0,
    ensures
        out.len() % 3 == 0,
        out.len() <= vertices.len(),
        out.len() == 3 * first_seen(triangles(vertices@)).len(),
        triangles(out@).no_duplicates(),
        forall|x: Triangle| triangles(out@).contains(x) <==> triangles(vertices@).contains(x),
{
    let total = vertices.len();
    let count = total / 3;
    let mut out: Vec<VertexTextureData> = Vec::with_capacity(total);
    if total == 0 {
        assert(triangles(out@) =~= triangles(vertices@));
        return out;
    }
    let (ids, unique) = indexed_vertices(vertices.as_slice());
    let adjacency = build_adjacency(&ids, unique.len());
    let mut done = new_triangle_set(count);
    let mut visited: Vec<bool> = Vec::with_capacity(unique.len());
    let mut u: usize = 0;
    while u < unique.len()
        invariant
            u <= unique.len(),
            visited.len() == u,
            forall|w: int| 0 <= w < u ==> !(#[trigger] visited[w]),
        decreases unique.len() - u,
    {
        visited.push(false);
        u += 1;
    }
    let mut stack: Vec<usize> = Vec::new();
    let mut pos: usize = total - 1;
    let mut current: usize = ids[pos];
    let ghost all = triangles(vertices@);
    let ghost mut emitted: Seq<int> = Seq::empty();
    assert(triangles(out@) =~= Seq::<Triangle>::empty());
    loop
        invariant
            total == vertices.len(),
            total % 3 == 0,
            count == total / 3,
            all == triangles(vertices@),
            indexes(ids@, unique@, vertices@),
            adjacency.len() == unique.len(),
            visited.len() == unique.len(),
            forall|w: int, e: int|
                0 <= w < unique.len() && 0 <= e < adjacency[w].len() ==> (
                #[trigger] adjacency[w][e]) < count,
            forall|t: int, k: int|
                0 <= t < count && 0 <= k < 3 ==> adjacency[(#[trigger] ids[3 * t + k]) as int]@.contains(t as usize),
            pos < total,
            current < unique.len(),
            forall|e: int| 0 <= e < stack.len() ==> (#[trigger] stack[e]) < unique.len(),
            out.len() == 3 * emitted.len(),
            emitted.no_duplicates(),
            forall|q: int| 0 <= q < emitted.len() ==> 0 <= (#[trigger] emitted[q]) < count,
            forall|q: int|
                0 <= q < emitted.len() ==> #[trigger] triangles(out@)[q] == all[emitted[q]],
            forall|q: int|
                0 <= q < emitted.len() ==> done@.contains(
                    slot_triangle(ids@, #[trigger] emitted[q]),
                ),
            forall|t: int|
                0 <= t < count && done@.contains(#[trigger] slot_triangle(ids@, t))
                    ==> triangles(out@).contains(all[t]),
            triangles(out@).no_duplicates(),
            forall|w: int, e: int|
                0 <= w < unique.len() && visited[w] && 0 <= e < adjacency[w].len()
                    ==> done@.contains(slot_triangle(ids@, (#[trigger] adjacency[w][e]) as int)),
            forall|j: int|
                pos <= j < total ==> visited[(#[trigger] ids[j]) as int] || stack@.contains(ids[j])
                    || ids[j] == current,
        ensures
            stack.len() == 0,
            pos == 0,
            visited[current as int],
        decreases count - emitted.len(), stack.len() + pos,
    {
        if !visited[current] {
            let list = &adjacency[current];
            let ghost emitted_before = emitted;
            let ghost stack_at_start = stack@;
            let mut e: usize = 0;
            while e < list.len()
                invariant
                    e <= list.len(),
                    emitted.len() >= emitted_before.len(),
                    emitted.len() == emitted_before.len() ==> stack@ == stack_at_start,
                    list == adjacency[current as int],
                    total == vertices.len(),
                    total % 3 == 0,
                    count == total / 3,
                    all == triangles(vertices@),
                    indexes(ids@, unique@, vertices@),
                    adjacency.len() == unique.len(),
                    visited.len() == unique.len(),
                    forall|w: int, e: int|
                        0 <= w < unique.len() && 0 <= e < adjacency[w].len() ==> (
                        #[trigger] adjacency[w][e]) < count,
                    pos < total,
                    current < unique.len(),
                    forall|e: int| 0 <= e < stack.len() ==> (#[trigger] stack[e]) < unique.len(),
                    out.len() == 3 * emitted.len(),
                    emitted.no_duplicates(),
                    forall|q: int| 0 <= q < emitted.len() ==> 0 <= (#[trigger] emitted[q]) < count,
                    forall|q: int|
                        0 <= q < emitted.len() ==> #[trigger] triangles(out@)[q] == all[emitted[q]],
                    forall|q: int|
                        0 <= q < emitted.len() ==> done@.contains(
                            slot_triangle(ids@, #[trigger] emitted[q]),
                        ),
                    forall|t: int|
                        0 <= t < count && done@.contains(#[trigger] slot_triangle(ids@, t))
                            ==> triangles(out@).contains(all[t]),
                    triangles(out@).no_duplicates(),
                    forall|w: int, e: int|
                        0 <= w < unique.len() && visited[w] && 0 <= e < adjacency[w].len()
                            ==> done@.contains(
                            slot_triangle(ids@, (#[trigger] adjacency[w][e]) as int),
                        ),
                    forall|j: int|
                        pos <= j < total ==> visited[(#[trigger] ids[j]) as int] || stack@.contains(
                            ids[j],
                        ) || ids[j] == current,
                    forall|d: int|
                        0 <= d < e ==> done@.contains(
                            slot_triangle(ids@, (#[trigger] list[d]) as int),
                        ),
                decreases list.len() - e,
            {
                let t = list[e];
                let triangle = (ids[3 * t], ids[3 * t + 1], ids[3 * t + 2]);
                let ghost out_before = out@;
                let ghost stack_before = stack@;
                let ghost done_before = done@;
                if triangle_set_insert(&mut done, triangle) {
                    out.push(vertices[3 * t]);
                    out.push(vertices[3 * t + 1]);
                    out.push(vertices[3 * t + 2]);
                    stack.push(triangle.0);
                    stack.push(triangle.1);
                    stack.push(triangle.2);
                    proof {
                        let n = emitted.len() as int;
                        let before = triangles(out_before);
                        assert(triangles(out@) =~= before.push(all[t as int]));
                        assert forall|q: int| 0 <= q < n implies emitted[q] != t by {
                            assert(done_before.contains(slot_triangle(ids@, emitted[q])));
                        }
                        assert forall|q: int| 0 <= q < n implies before[q] != all[t as int] by {
                            lemma_same_triangle(ids@, unique@, vertices@, emitted[q], t as int);
                            assert(done_before.contains(slot_triangle(ids@, emitted[q])));
                        }
                        emitted = emitted.push(t as int);
                        assert forall|s: int|
                            0 <= s < count && done@.contains(
                                #[trigger] slot_triangle(ids@, s),
                            ) implies triangles(out@).contains(all[s]) by {
                            if done_before.contains(slot_triangle(ids@, s)) {
                                let q = choose|q: int|
                                    0 <= q < before.len() && before[q] == all[s];
                                assert(triangles(out@)[q] == all[s]);
                            } else {
                                lemma_same_triangle(ids@, unique@, vertices@, s, t as int);
                                assert(triangles(out@)[n] == all[s]);
                            }
                        }
                        assert forall|j: int| pos <= j < total implies visited[(
                        #[trigger] ids[j]) as int] || stack@.contains(ids[j]) || ids[j]
                            == current by {
                            if stack_before.contains(ids[j]) {
                                let d = choose|d: int|
                                    0 <= d < stack_before.len() && stack_before[d] == ids[j];
                                assert(stack@[d] == ids[j]);
                            }
                        }
                    }
                }
                e += 1;
            }
            visited[current] = true;
        }
        let ghost stack_before = stack@;
        proof {
            lemma_distinct_bounded(emitted, count as int);
        }
        match stack.pop() {
            Some(next) => {
                current = next;
                proof {
                    assert forall|j: int| pos <= j < total implies visited[(
                    #[trigger] ids[j]) as int] || stack@.contains(ids[j]) || ids[j]
                        == current by {
                        if stack_before.contains(ids[j]) {
                            let d = choose|d: int|
                                0 <= d < stack_before.len() && stack_before[d] == ids[j];
                            if d < stack@.len() {
                                assert(stack@[d] == ids[j]);
                            }
                        }
                    }
                }
            },
            None => {
                if pos > 0 {
                    pos -= 1;
                    current = ids[pos];
                } else {
                    break ;
                }
            },
        }
    }
    proof {
        lemma_distinct_bounded(emitted, count as int);
        lemma_first_seen(all);
        assert forall|x: Triangle| triangles(out@).contains(x) <==> all.contains(x) by {
            if triangles(out@).contains(x) {
                let q = choose|q: int| 0 <= q < triangles(out@).len() && triangles(out@)[q] == x;
                assert(all[emitted[q]] == x);
            }
            if all.contains(x) {
                let t = choose|t: int| 0 <= t < all.len() && all[t] == x;
                let w = ids[3 * t + 0] as int;
                assert(visited[w]);
                assert(adjacency[w]@.contains(t as usize));
                let e = choose|e: int| 0 <= e < adjacency[w]@.len() && adjacency[w]@[e] == t as usize;
                assert(done@.contains(slot_triangle(ids@, adjacency[w][e] as int)));
            }
        }
        lemma_same_size(triangles(out@), first_seen(all));
    }
    out
}

} // verus!
