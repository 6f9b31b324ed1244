//! The geometry store and what is derived from it: hierarchical views, the
//! flat vertex stream and the deduplicated vertex and index buffers.

use crate::distinct::first_seen;
use crate::distinct::lemma_first_seen;
use crate::distinct::lemma_first_seen_push;
use crate::distinct::lemma_slot_of;
use crate::distinct::lemma_slot_stable;
use crate::distinct::slot_of;
use crate::opt::indexed_vertices;
use crate::opt::indexes;
use crate::opt::lemma_replay;
use crate::opt::replay;
use crate::parse::FaceData;
use crate::parse::GroupingData;
use crate::parse::GroupingView;
use crate::text::same_text;
use vstd::prelude::*;

verus! {

/// A mesh description in memory.
///
/// It holds the raw attribute lists, the faces that index into them, and two
/// levels of grouping: every group covers a range of faces, every object a
/// range of groups. Every number of an attribute is the bit pattern of a
/// single precision value.
#[derive(Debug)]
pub struct ObjObject {
    pub vertices: Vec<(u32, u32, u32)>,
    pub vertex_colors: Vec<(u32, u32, u32)>,
    pub vertex_normals: Vec<(u32, u32, u32)>,
    pub texture_coords: Vec<(u32, u32)>,
    pub faces: Vec<FaceData>,
    pub groups: Vec<GroupingData>,
    pub objects: Vec<GroupingData>,
}

/// An [`ObjObject`] as sequences.
pub ghost struct ObjView {
    pub positions: Seq<(u32, u32, u32)>,
    pub colors: Seq<(u32, u32, u32)>,
    pub normals: Seq<(u32, u32, u32)>,
    pub texcoords: Seq<(u32, u32)>,
    pub faces: Seq<FaceData>,
    pub groups: Seq<GroupingView>,
    pub objects: Seq<GroupingView>,
}

/// The views of a list of segments.
pub open spec fn segments(v: Seq<GroupingData>) -> Seq<GroupingView> {
    Seq::new(v.len(), |i: int| v[i]@)
}

/// Whether the segments follow one another without gap or overlap, from 0 up
/// to `end`.
pub open spec fn chained(ranges: Seq<GroupingView>, end: int) -> bool {
    &&& forall|i: int|
        0 <= i < ranges.len() ==> 0 <= (#[trigger] ranges[i]).start <= ranges[i].finish
    &&& forall|i: int, j: int|
        #![trigger ranges[i], ranges[j]]
        0 <= i && j == i + 1 && j < ranges.len() ==> ranges[i].finish == ranges[j].start
    &&& if ranges.len() == 0 {
        end == 0
    } else {
        ranges[0].start == 0 && ranges.last().finish == end
    }
}

/// Whether every segment covers something.
pub open spec fn inhabited(ranges: Seq<GroupingView>) -> bool {
    forall|i: int| 0 <= i < ranges.len() ==> (#[trigger] ranges[i]).start < ranges[i].finish
}

impl ObjView {
    /// The groups cover the faces and the objects cover the groups, in order
    /// and without gap or overlap.
    pub open spec fn wf(self) -> bool {
        &&& chained(self.groups, self.faces.len() as int)
        &&& chained(self.objects, self.groups.len() as int)
    }

    /// Every group holds a face and every object holds a group.
    pub open spec fn packed(self) -> bool {
        inhabited(self.groups) && inhabited(self.objects)
    }
}

impl View for ObjObject {
    type V = ObjView;

    open spec fn view(&self) -> ObjView {
        ObjView {
            positions: self.vertices@,
            colors: self.vertex_colors@,
            normals: self.vertex_normals@,
            texcoords: self.texture_coords@,
            faces: self.faces@,
            groups: segments(self.groups@),
            objects: segments(self.objects@),
        }
    }
}

/// The attribute lists that faces index into. The colours are `None` where no
/// vertex of the store has one.
pub ghost struct Attributes {
    pub positions: Seq<(u32, u32, u32)>,
    pub colors: Option<Seq<(u32, u32, u32)>>,
    pub normals: Seq<(u32, u32, u32)>,
    pub texcoords: Seq<(u32, u32)>,
}

/// Component `k` of a triple of indices.
pub open spec fn pick(t: (u32, u32, u32), k: int) -> u32 {
    if k == 0 {
        t.0
    } else if k == 1 {
        t.1
    } else {
        t.2
    }
}

/// Whether the three 1-based indices point into a list of `n` items.
pub open spec fn points_into(t: (u32, u32, u32), n: int) -> bool {
    1 <= t.0 <= n && 1 <= t.1 <= n && 1 <= t.2 <= n
}

impl Attributes {
    /// Whether every index of `f` points at an item that is there.
    pub open spec fn admits(self, f: FaceData) -> bool {
        &&& points_into(f.indicies, self.positions.len() as int)
        &&& self.colors matches Some(c) ==> points_into(f.indicies, c.len() as int)
        &&& f.normal_indicies matches Some(n) ==> points_into(n, self.normals.len() as int)
        &&& f.texture_indcicies matches Some(t) ==> points_into(t, self.texcoords.len() as int)
    }

    /// Corner `k` of `f` with its attributes looked up.
    pub open spec fn corner(self, f: FaceData, k: int) -> VertexData {
        VertexData {
            position: self.positions[pick(f.indicies, k) - 1],
            color: match self.colors {
                Some(c) => Some(c[pick(f.indicies, k) - 1]),
                None => None,
            },
            normal: match f.normal_indicies {
                Some(n) => Some(self.normals[pick(n, k) - 1]),
                None => None,
            },
            texture_coord: match f.texture_indcicies {
                Some(t) => Some(self.texcoords[pick(t, k) - 1]),
                None => None,
            },
        }
    }
}

/// A [`GroupRef`] as sequences.
pub ghost struct GroupView {
    pub attributes: Attributes,
    pub name: Seq<char>,
    pub mtluse: Option<Seq<char>>,
    pub faces: Seq<FaceData>,
}

impl GroupView {
    /// Every index of every face of the group points at an item that is there.
    pub open spec fn resolved(self) -> bool {
        forall|i: int| 0 <= i < self.faces.len() ==> self.attributes.admits(#[trigger] self.faces[i])
    }
}

/// An [`ObjectRef`] as sequences.
pub ghost struct ObjectView {
    pub attributes: Attributes,
    pub faces: Seq<FaceData>,
    pub name: Seq<char>,
    pub mtllib: Option<Seq<char>>,
    pub groups: Seq<GroupingView>,
}

impl ObjectView {
    /// Every group covers a range of the faces.
    pub open spec fn wf(self) -> bool {
        forall|g: int|
            0 <= g < self.groups.len() ==> 0 <= (#[trigger] self.groups[g]).start
                <= self.groups[g].finish <= self.faces.len()
    }

    /// Every index of every face of every group points at an item that is
    /// there.
    pub open spec fn resolved(self) -> bool {
        forall|g: int| 0 <= g < self.groups.len() ==> (#[trigger] self.group_view(g)).resolved()
    }

    /// Group `g` of the object.
    pub open spec fn group_view(self, g: int) -> GroupView {
        GroupView {
            attributes: self.attributes,
            name: self.groups[g].name,
            mtluse: self.groups[g].mtl,
            faces: self.faces.subrange(self.groups[g].start, self.groups[g].finish),
        }
    }
}

impl ObjView {
    /// The attribute lists of the store.
    pub open spec fn attributes(self) -> Attributes {
        Attributes {
            positions: self.positions,
            colors: if self.colors.len() == 0 {
                None
            } else {
                Some(self.colors)
            },
            normals: self.normals,
            texcoords: self.texcoords,
        }
    }

    /// Every index of every face points at an item that is there.
    pub open spec fn resolved(self) -> bool {
        forall|i: int| 0 <= i < self.faces.len() ==> self.attributes().admits(#[trigger] self.faces[i])
    }

    /// Object `o` of the store.
    pub open spec fn object_view(self, o: int) -> ObjectView {
        ObjectView {
            attributes: self.attributes(),
            faces: self.faces,
            name: self.objects[o].name,
            mtllib: self.objects[o].mtl,
            groups: self.groups.subrange(self.objects[o].start, self.objects[o].finish),
        }
    }
}

/// In a chain of segments, a later one starts and ends no earlier than an
/// earlier one ends, and all end at or before the end of the chain.
pub proof fn lemma_chained_order(ranges: Seq<GroupingView>, end: int, i: int, j: int)
    requires
        chained(ranges, end),
        0 <= i <= j < ranges.len(),
    ensures
        ranges[i].finish <= ranges[j].finish <= end,
        i < j ==> ranges[i].finish <= ranges[j].start,
        0 <= ranges[i].start,
    decreases ranges.len() - i,
{
    if i < j {
        lemma_chained_order(ranges, end, i + 1, j);
        assert(ranges[i].finish == ranges[i + 1].start);
    } else if j < ranges.len() - 1 {
        lemma_chained_order(ranges, end, i + 1, j + 1);
        assert(ranges[i].finish == ranges[i + 1].start);
    }
}

/// The data of a single vertex: its position and, where the face gives them,
/// colour, normal and texture coordinate.
#[derive(Debug, Clone, Copy, PartialEq, Eq, Hash, Default)]
pub struct VertexData {
    pub position: (u32, u32, u32),
    pub color: Option<(u32, u32, u32)>,
    pub normal: Option<(u32, u32, u32)>,
    pub texture_coord: Option<(u32, u32)>,
}

/// A single vertex together with its material.
#[derive(Debug, Clone, Copy, PartialEq, Eq, Hash, Default)]
pub struct VertexTextureData {
    /// The place of the material in the list that came with the vertex.
    pub material_index: usize,
    pub vertex: VertexData,
}

/// Identifies a material: by the library of the object and the material use
/// of the group.
#[derive(Debug, Clone, Copy, PartialEq, Eq)]
pub struct MaterialIdent<'a> {
    pub mtllib: Option<&'a str>,
    pub mtluse: Option<&'a str>,
}

/// A [`MaterialIdent`] as character sequences.
pub type MaterialKey = (Option<Seq<char>>, Option<Seq<char>>);

impl<'a> View for MaterialIdent<'a> {
    type V = MaterialKey;

    open spec fn view(&self) -> MaterialKey {
        (
            match self.mtllib {
                Some(s) => Some(s@),
                None => None,
            },
            match self.mtluse {
                Some(s) => Some(s@),
                None => None,
            },
        )
    }
}

/// The three corners of one face, with their attributes looked up.
#[derive(Debug, Clone, Copy)]
pub struct Face {
    pub vert_positions: [(u32, u32, u32); 3],
    pub vert_colors: Option<[(u32, u32, u32); 3]>,
    pub vert_normals: Option<[(u32, u32, u32); 3]>,
    pub vert_uv_coords: Option<[(u32, u32); 3]>,
}

impl Face {
    /// Corner `k` of the face.
    pub open spec fn corner(self, k: int) -> VertexData {
        VertexData {
            position: self.vert_positions[k],
            color: match self.vert_colors {
                Some(c) => Some(c[k]),
                None => None,
            },
            normal: match self.vert_normals {
                Some(n) => Some(n[k]),
                None => None,
            },
            texture_coord: match self.vert_uv_coords {
                Some(t) => Some(t[k]),
                None => None,
            },
        }
    }

    /// The three corners of the face.
    pub fn vertices(&self) -> (r: [VertexData; 3])
        ensures
            forall|k: int| 0 <= k < 3 ==> r[k] == self.corner(k),
    {
        let p = self.vert_positions;
        let c = option_to_array(self.vert_colors);
        let n = option_to_array(self.vert_normals);
        let t = option_to_array(self.vert_uv_coords);
        [
            VertexData { position: p[0], color: c[0], normal: n[0], texture_coord: t[0] },
            VertexData { position: p[1], color: c[1], normal: n[1], texture_coord: t[1] },
            VertexData { position: p[2], color: c[2], normal: n[2], texture_coord: t[2] },
        ]
    }
}

/// The list as a slice, or `None` if it is empty.
pub fn vec_to_option<T>(vec: &Vec<T>) -> (r: Option<&[T]>)
    ensures
        match r {
            Some(slice) => vec@.len() > 0 && slice@ == vec@,
            None => vec@.len() == 0,
        },
{
    let slice = vec.as_slice();
    if slice.len() == 0 {
        None
    } else {
        Some(slice)
    }
}

/// An optional triple as a triple of options.
pub fn option_to_array<T: Copy>(opt: Option<[T; 3]>) -> (r: [Option<T>; 3])
    ensures
        forall|k: int|
            0 <= k < 3 ==> r[k] == (match opt {
                Some(a) => Some(a[k]),
                None => None,
            }),
{
    match opt {
        Some(a) => [Some(a[0]), Some(a[1]), Some(a[2])],
        None => [None, None, None],
    }
}

/// The items of `list` at three 1-based indices.
fn triple_at<T: Copy>(list: &[T], t: (u32, u32, u32)) -> (r: [T; 3])
    requires
        points_into(t, list@.len() as int),
    ensures
        forall|k: int| 0 <= k < 3 ==> r[k] == list@[pick(t, k) - 1],
{
    [list[t.0 as usize - 1], list[t.1 as usize - 1], list[t.2 as usize - 1]]
}

/// A read-only window on one group of a store: its name, its material use and
/// its faces.
#[derive(Debug, Clone, Copy)]
pub struct GroupRef<'a> {
    vertices: &'a [(u32, u32, u32)],
    vertex_colors: Option<&'a [(u32, u32, u32)]>,
    vertex_normals: &'a [(u32, u32, u32)],
    texture_coords: &'a [(u32, u32)],
    name: &'a str,
    mtluse: Option<&'a String>,
    faces: &'a [FaceData],
}

impl<'a> View for GroupRef<'a> {
    type V = GroupView;

    closed spec fn view(&self) -> GroupView {
        GroupView {
            attributes: Attributes {
                positions: self.vertices@,
                colors: match self.vertex_colors {
                    Some(c) => Some(c@),
                    None => None,
                },
                normals: self.vertex_normals@,
                texcoords: self.texture_coords@,
            },
            name: self.name@,
            mtluse: match self.mtluse {
                Some(m) => Some(m@),
                None => None,
            },
            faces: self.faces@,
        }
    }
}

impl<'a> GroupRef<'a> {
    /// The name of the group.
    pub fn name(&self) -> (r: &'a str)
        ensures
            r@ == self@.name,
    {
        self.name
    }

    /// The material that the group uses, if it names one.
    pub fn mtluse(&self) -> (r: Option<&'a str>)
        ensures
            r is Some <==> self@.mtluse is Some,
            r is Some ==> r->0@ == self@.mtluse->0,
    {
        match self.mtluse {
            Some(m) => Some(m.as_str()),
            None => None,
        }
    }

    /// The number of faces of the group.
    pub fn face_count(&self) -> (n: usize)
        ensures
            n == self@.faces.len(),
    {
        self.faces.len()
    }

    /// Face `i` of the group, with the attributes of its corners looked up.
    pub fn face(&self, i: usize) -> (face: Face)
        requires
            i < self@.faces.len(),
            self@.attributes.admits(self@.faces[i as int]),
        ensures
            forall|k: int|
                0 <= k < 3 ==> face.corner(k) == self@.attributes.corner(self@.faces[i as int], k),
    {
        let data = self.faces[i];
        Face {
            vert_positions: triple_at(self.vertices, data.indicies),
            vert_colors: match self.vertex_colors {
                Some(colors) => Some(triple_at(colors, data.indicies)),
                None => None,
            },
            vert_normals: match data.normal_indicies {
                Some(n) => Some(triple_at(self.vertex_normals, n)),
                None => None,
            },
            vert_uv_coords: match data.texture_indcicies {
                Some(t) => Some(triple_at(self.texture_coords, t)),
                None => None,
            },
        }
    }

    /// The faces of the group, in order.
    pub fn faces_iter(&self) -> (out: Vec<Face>)
        requires
            self@.resolved(),
        ensures
            out.len() == self@.faces.len(),
            forall|i: int, k: int|
                0 <= i < out.len() && 0 <= k < 3 ==> (#[trigger] out[i].corner(k))
                    == self@.attributes.corner(self@.faces[i], k),
    {
        let mut out: Vec<Face> = Vec::new();
        let mut i: usize = 0;
        while i < self.faces.len()
            invariant
                i <= self.faces.len(),
                self@.resolved(),
                out.len() == i,
                forall|j: int, k: int|
                    0 <= j < i && 0 <= k < 3 ==> (#[trigger] out[j].corner(k))
                        == self@.attributes.corner(self@.faces[j], k),
            decreases self.faces.len() - i,
        {
            let face = self.face(i);
            out.push(face);
            i += 1;
        }
        out
    }
}

/// A read-only window on one object of a store: its name, its material
/// library and its groups.
#[derive(Debug, Clone, Copy)]
pub struct ObjectRef<'a> {
    vertices: &'a [(u32, u32, u32)],
    vertex_colors: Option<&'a [(u32, u32, u32)]>,
    vertex_normals: &'a [(u32, u32, u32)],
    texture_coords: &'a [(u32, u32)],
    faces: &'a [FaceData],
    name: &'a str,
    mtllib: Option<&'a String>,
    groups: &'a [GroupingData],
}

impl<'a> View for ObjectRef<'a> {
    type V = ObjectView;

    closed spec fn view(&self) -> ObjectView {
        ObjectView {
            attributes: Attributes {
                positions: self.vertices@,
                colors: match self.vertex_colors {
                    Some(c) => Some(c@),
                    None => None,
                },
                normals: self.vertex_normals@,
                texcoords: self.texture_coords@,
            },
            faces: self.faces@,
            name: self.name@,
            mtllib: match self.mtllib {
                Some(m) => Some(m@),
                None => None,
            },
            groups: segments(self.groups@),
        }
    }
}

impl<'a> ObjectRef<'a> {
    /// The name of the object.
    pub fn name(&self) -> (r: &'a str)
        ensures
            r@ == self@.name,
    {
        self.name
    }

    /// The material library of the object, if it names one.
    pub fn mtllib(&self) -> (r: Option<&'a str>)
        ensures
            r is Some <==> self@.mtllib is Some,
            r is Some ==> r->0@ == self@.mtllib->0,
    {
        match self.mtllib {
            Some(m) => Some(m.as_str()),
            None => None,
        }
    }

    /// The number of groups of the object.
    pub fn group_count(&self) -> (n: usize)
        ensures
            n == self@.groups.len(),
    {
        self.groups.len()
    }

    /// Group `g` of the object.
    pub fn group(&self, g: usize) -> (group: GroupRef<'a>)
        requires
            self@.wf(),
            g < self@.groups.len(),
        ensures
            group@ == self@.group_view(g as int),
    {
        let data = &self.groups[g];
        assert(segments(self.groups@)[g as int] == data@);
        GroupRef {
            vertices: self.vertices,
            vertex_colors: self.vertex_colors,
            vertex_normals: self.vertex_normals,
            texture_coords: self.texture_coords,
            name: data.name.as_str(),
            mtluse: data.mtl.as_ref(),
            faces: vstd::slice::slice_subrange(self.faces, data.start, data.finish),
        }
    }

    /// The groups of the object, in order.
    pub fn group_iter(&self) -> (out: Vec<GroupRef<'a>>)
        requires
            self@.wf(),
        ensures
            out.len() == self@.groups.len(),
            forall|g: int| 0 <= g < out.len() ==> (#[trigger] out[g])@ == self@.group_view(g),
    {
        let mut out: Vec<GroupRef<'a>> = Vec::new();
        let mut g: usize = 0;
        while g < self.groups.len()
            invariant
                g <= self.groups.len(),
                self@.wf(),
                out.len() == g,
                forall|j: int| 0 <= j < g ==> (#[trigger] out[j])@ == self@.group_view(j),
            decreases self.groups.len() - g,
        {
            let group = self.group(g);
            out.push(group);
            g += 1;
        }
        out
    }

    /// The faces of the object, group by group.
    pub fn faces(&self) -> (out: Vec<&'a [FaceData]>)
        requires
            self@.wf(),
        ensures
            out.len() == self@.groups.len(),
            forall|g: int| 0 <= g < out.len() ==> (#[trigger] out[g])@ == self@.group_view(g).faces,
    {
        let mut out: Vec<&'a [FaceData]> = Vec::new();
        let mut g: usize = 0;
        while g < self.groups.len()
            invariant
                g <= self.groups.len(),
                self@.wf(),
                out.len() == g,
                forall|j: int| 0 <= j < g ==> (#[trigger] out[j])@ == self@.group_view(j).faces,
            decreases self.groups.len() - g,
        {
            let data = &self.groups[g];
            assert(segments(self.groups@)[g as int] == data@);
            out.push(vstd::slice::slice_subrange(self.faces, data.start, data.finish));
            g += 1;
        }
        out
    }
}

impl ObjObject {
    /// The number of objects of the store.
    pub fn object_count(&self) -> (n: usize)
        ensures
            n == self@.objects.len(),
    {
        self.objects.len()
    }

    /// The number of groups of the store.
    pub fn group_count(&self) -> (n: usize)
        ensures
            n == self@.groups.len(),
    {
        self.groups.len()
    }

    /// The number of faces of the store.
    pub fn face_count(&self) -> (n: usize)
        ensures
            n == self@.faces.len(),
    {
        self.faces.len()
    }

    /// Three times the number of faces: the number of vertices when none is
    /// shared.
    pub fn vert_count(&self) -> (n: usize)
        requires
            3 * self@.faces.len() <= usize::MAX,
        ensures
            n == 3 * self@.faces.len(),
    {
        self.faces.len() * 3
    }

    /// Tells whether every index of every face points at an item that is
    /// there.
    pub fn is_resolved(&self) -> (b: bool)
        ensures
            b == self@.resolved(),
    {
        let colors = vec_to_option(&self.vertex_colors);
        let mut i: usize = 0;
        while i < self.faces.len()
            invariant
                i <= self.faces.len(),
                match colors {
                    Some(c) => self@.attributes().colors == Some(c@),
                    None => self@.attributes().colors is None,
                },
                forall|j: int| 0 <= j < i ==> self@.attributes().admits(#[trigger] self@.faces[j]),
            decreases self.faces.len() - i,
        {
            let f = self.faces[i];
            let ok = within(f.indicies, self.vertices.len()) && (match colors {
                Some(c) => within(f.indicies, c.len()),
                None => true,
            }) && (match f.normal_indicies {
                Some(n) => within(n, self.vertex_normals.len()),
                None => true,
            }) && (match f.texture_indcicies {
                Some(t) => within(t, self.texture_coords.len()),
                None => true,
            });
            if !ok {
                assert(!self@.attributes().admits(self@.faces[i as int]));
                return false;
            }
            i += 1;
        }
        true
    }

    /// Object `o` of the store.
    pub fn object(&self, o: usize) -> (object: ObjectRef<'_>)
        requires
            self@.wf(),
            o < self@.objects.len(),
        ensures
            object@ == self@.object_view(o as int),
            object@.wf(),
            self@.resolved() ==> object@.resolved(),
    {
        let data = &self.objects[o];
        proof {
            assert(segments(self.objects@)[o as int] == data@);
            lemma_chained_order(self@.objects, self@.groups.len() as int, o as int, o as int);
            assert(segments(self.groups@).subrange(data.start as int, data.finish as int)
                =~= segments(self.groups@.subrange(data.start as int, data.finish as int)));
            let view = self@.object_view(o as int);
            assert forall|g: int| 0 <= g < view.groups.len() implies 0 <= (
            #[trigger] view.groups[g]).start <= view.groups[g].finish <= view.faces.len() by {
                lemma_chained_order(
                    self@.groups,
                    self@.faces.len() as int,
                    data.start + g,
                    data.start + g,
                );
            }
            if self@.resolved() {
                assert forall|g: int| 0 <= g < view.groups.len() implies (
                #[trigger] view.group_view(g)).resolved() by {
                    let group = view.group_view(g);
                    assert forall|i: int| 0 <= i < group.faces.len() implies group.attributes.admits(
                        #[trigger] group.faces[i],
                    ) by {
                        assert(group.faces[i] == self@.faces[view.groups[g].start + i]);
                    }
                }
            }
        }
        ObjectRef {
            vertices: self.vertices.as_slice(),
            vertex_colors: vec_to_option(&self.vertex_colors),
            vertex_normals: self.vertex_normals.as_slice(),
            texture_coords: self.texture_coords.as_slice(),
            faces: self.faces.as_slice(),
            name: data.name.as_str(),
            mtllib: data.mtl.as_ref(),
            groups: vstd::slice::slice_subrange(self.groups.as_slice(), data.start, data.finish),
        }
    }

    /// The objects of the store, in order.
    pub fn objects_iter(&self) -> (out: Vec<ObjectRef<'_>>)
        requires
            self@.wf(),
        ensures
            out.len() == self@.objects.len(),
            forall|o: int|
                0 <= o < out.len() ==> (#[trigger] out[o])@ == self@.object_view(o) && out[o]@.wf(),
            self@.resolved() ==> forall|o: int| 0 <= o < out.len() ==> (#[trigger] out[o])@.resolved(),
    {
        let mut out: Vec<ObjectRef<'_>> = Vec::new();
        let mut o: usize = 0;
        while o < self.objects.len()
            invariant
                o <= self.objects.len(),
                self@.wf(),
                out.len() == o,
                forall|j: int|
                    0 <= j < o ==> (#[trigger] out[j])@ == self@.object_view(j) && out[j]@.wf(),
                self@.resolved() ==> forall|j: int| 0 <= j < o ==> (#[trigger] out[j])@.resolved(),
            decreases self.objects.len() - o,
        {
            let object = self.object(o);
            out.push(object);
            o += 1;
        }
        out
    }
}

/// Tells whether the three 1-based indices point into a list of `n` items.
fn within(t: (u32, u32, u32), n: usize) -> (b: bool)
    ensures
        b == points_into(t, n as int),
{
    1 <= t.0 && t.0 as usize <= n && 1 <= t.1 && t.1 as usize <= n && 1 <= t.2 && t.2 as usize <= n
}

/// The segment that covers place `x`.
pub open spec fn holder(ranges: Seq<GroupingView>, x: int) -> int {
    choose|i: int| 0 <= i < ranges.len() && (#[trigger] ranges[i]).start <= x < ranges[i].finish
}

/// Where segment `i` starts; the end of the chain for the segment after the
/// last.
pub open spec fn start_of(ranges: Seq<GroupingView>, i: int, end: int) -> int {
    if i < ranges.len() {
        ranges[i].start
    } else {
        end
    }
}

/// In a chain, the segment that covers a place is the only one that does.
pub proof fn lemma_holder(ranges: Seq<GroupingView>, end: int, i: int, x: int)
    requires
        chained(ranges, end),
        0 <= i < ranges.len(),
        ranges[i].start <= x < ranges[i].finish,
    ensures
        holder(ranges, x) == i,
{
    let j = holder(ranges, x);
    if j < i {
        lemma_chained_order(ranges, end, j, i);
    } else if i < j {
        lemma_chained_order(ranges, end, i, j);
    }
}

/// In a chain, a segment ends where the next one starts, and the last one at
/// the end of the chain.
pub proof fn lemma_chained_next(ranges: Seq<GroupingView>, end: int, i: int)
    requires
        chained(ranges, end),
        0 <= i < ranges.len(),
    ensures
        ranges[i].finish == start_of(ranges, i + 1, end),
        start_of(ranges, 0, end) == 0,
{
    if i + 1 < ranges.len() {
        assert(ranges[i].finish == ranges[i + 1].start);
    }
}

/// The views of a list of materials.
pub open spec fn material_views(v: Seq<MaterialIdent>) -> Seq<MaterialKey> {
    Seq::new(v.len(), |i: int| v[i]@)
}

impl ObjView {
    /// The material of group `g`: the library of the object that holds the
    /// group, and the material use of the group.
    pub open spec fn material_at(self, g: int) -> MaterialKey {
        (self.objects[holder(self.objects, g)].mtl, self.groups[g].mtl)
    }

    /// The material of every group, in order.
    pub open spec fn material_sequence(self) -> Seq<MaterialKey> {
        Seq::new(self.groups.len(), |g: int| self.material_at(g))
    }

    /// The distinct materials of the store, each at the place of the first
    /// group that has it.
    pub open spec fn materials(self) -> Seq<MaterialKey> {
        first_seen(self.material_sequence())
    }

    /// Item `i` of the flat vertex stream: corner `i % 3` of face `i / 3`,
    /// with the place of the material of the group that holds the face.
    pub open spec fn flat_at(self, i: int) -> VertexTextureData {
        VertexTextureData {
            material_index: slot_of(
                self.materials(),
                self.material_at(holder(self.groups, i / 3)),
            ) as usize,
            vertex: self.attributes().corner(self.faces[i / 3], i % 3),
        }
    }

    /// The flat vertex stream: the three corners of every face, in the order
    /// of the faces.
    pub open spec fn flat(self) -> Seq<VertexTextureData> {
        Seq::new(3 * self.faces.len(), |i: int| self.flat_at(i))
    }
}

/// Tells whether two optional names are the same.
fn same_name(a: Option<&str>, b: Option<&str>) -> (r: bool)
    ensures
        r == (match (a, b) {
            (Some(x), Some(y)) => x@ == y@,
            (None, None) => true,
            _ => false,
        }),
{
    match (a, b) {
        (Some(x), Some(y)) => same_text(x, y),
        (None, None) => true,
        _ => false,
    }
}

/// The place of `t` in `materials`, where it is appended if it is not there.
fn intern_material<'a>(materials: &mut Vec<MaterialIdent<'a>>, t: MaterialIdent<'a>) -> (slot:
    usize)
    ensures
        material_views(final(materials)@) == if material_views(old(materials)@).contains(t@) {
            material_views(old(materials)@)
        } else {
            material_views(old(materials)@).push(t@)
        },
        slot < final(materials).len(),
        material_views(final(materials)@)[slot as int] == t@,
{
    let mut i: usize = 0;
    while i < materials.len()
        invariant
            i <= materials.len(),
            materials@ == old(materials)@,
            forall|j: int| 0 <= j < i ==> material_views(materials@)[j] != t@,
        decreases materials.len() - i,
    {
        let m = materials[i];
        if same_name(m.mtllib, t.mtllib) && same_name(m.mtluse, t.mtluse) {
            assert(material_views(materials@)[i as int] == t@);
            return i;
        }
        i += 1;
    }
    materials.push(t);
    assert(material_views(materials@) =~= material_views(old(materials)@).push(t@));
    materials.len() - 1
}

impl ObjObject {
    /// The flat vertex stream of the store and the list of its materials.
    ///
    /// The stream holds the three corners of every face, in the order of the
    /// faces, so a vertex that faces share occurs once for each of them. Each
    /// item carries the place of its material in the list, which holds every
    /// distinct material once, in the order in which the groups first use
    /// them.
    pub fn vertices(&self) -> (r: (Vec<VertexTextureData>, Vec<MaterialIdent<'_>>))
        requires
            self@.wf(),
            self@.resolved(),
        ensures
            r.0@ == self@.flat(),
            r.0.len() == 3 * self@.faces.len(),
            material_views(r.1@) == self@.materials(),
    {
        let mut vertices: Vec<VertexTextureData> = Vec::new();
        let mut materials: Vec<MaterialIdent<'_>> = Vec::new();
        let ghost store = self@;
        let ghost sequence = store.material_sequence();
        let ghost group_total = store.groups.len() as int;
        let ghost face_total = store.faces.len() as int;
        proof {
            if store.objects.len() > 0 {
                lemma_chained_next(store.objects, group_total, 0);
            }
            if store.groups.len() > 0 {
                lemma_chained_next(store.groups, face_total, 0);
            }
            assert(material_views(materials@) =~= first_seen(sequence.take(0)));
            assert(vertices@ =~= store.flat().take(0));
        }
        let mut o: usize = 0;
        while o < self.objects.len()
            invariant
                o <= self.objects.len(),
                store == self@,
                store.wf(),
                store.resolved(),
                sequence == store.material_sequence(),
                group_total == store.groups.len(),
                face_total == store.faces.len(),
                0 <= start_of(store.objects, o as int, group_total) <= group_total,
                0 <= start_of(
                    store.groups,
                    start_of(store.objects, o as int, group_total),
                    face_total,
                ) <= face_total,
                material_views(materials@) == first_seen(
                    sequence.take(start_of(store.objects, o as int, group_total)),
                ),
                vertices@ == store.flat().take(
                    3 * start_of(
                        store.groups,
                        start_of(store.objects, o as int, group_total),
                        face_total,
                    ),
                ),
            decreases self.objects.len() - o,
        {
            let obj = self.object(o);
            let ghost first = store.objects[o as int].start;
            proof {
                lemma_chained_order(store.objects, group_total, o as int, o as int);
                lemma_chained_next(store.objects, group_total, o as int);
            }
            let mut g: usize = 0;
            while g < obj.group_count()
                invariant
                    o < self.objects.len(),
                    g <= obj@.groups.len(),
                    store == self@,
                    store.wf(),
                    store.resolved(),
                    obj@ == store.object_view(o as int),
                    obj@.wf(),
                    obj@.resolved(),
                    sequence == store.material_sequence(),
                    group_total == store.groups.len(),
                    face_total == store.faces.len(),
                    first == store.objects[o as int].start,
                    0 <= first <= store.objects[o as int].finish <= group_total,
                    0 <= start_of(store.groups, first + g, face_total) <= face_total,
                    material_views(materials@) == first_seen(sequence.take(first + g)),
                    vertices@ == store.flat().take(
                        3 * start_of(store.groups, first + g, face_total),
                    ),
                decreases obj@.groups.len() - g,
            {
                let group = obj.group(g);
                let ghost at = first + g;
                let ghost base = store.groups[at].start;
                let t = MaterialIdent { mtllib: obj.mtllib(), mtluse: group.mtluse() };
                proof {
                    lemma_holder(store.objects, group_total, o as int, at);
                    assert(obj@.groups[g as int] == store.groups[at]);
                    assert(t@ == store.material_at(at));
                    assert(sequence.take(at + 1) =~= sequence.take(at).push(sequence[at]));
                    lemma_first_seen_push(sequence.take(at), t@);
                    lemma_chained_order(store.groups, face_total, at, at);
                    lemma_chained_next(store.groups, face_total, at);
                }
                let texture_index = intern_material(&mut materials, t);
                proof {
                    lemma_first_seen(sequence.take(at + 1));
                    lemma_slot_of(first_seen(sequence.take(at + 1)), texture_index as int);
                    assert(first_seen(sequence.take(at + 1)).contains(t@));
                    lemma_slot_stable(sequence, at + 1, t@);
                    assert(slot_of(store.materials(), t@) == texture_index);
                }
                let mut f: usize = 0;
                while f < group.face_count()
                    invariant
                        f <= group@.faces.len(),
                        store == self@,
                        store.wf(),
                        group@ == obj@.group_view(g as int),
                        group@.resolved(),
                        obj@ == store.object_view(o as int),
                        g < obj@.groups.len(),
                        obj@.groups[g as int] == store.groups[at],
                        0 <= at < store.groups.len(),
                        face_total == store.faces.len(),
                        base == store.groups[at].start,
                        0 <= base <= store.groups[at].finish <= face_total,
                        slot_of(store.materials(), store.material_at(at)) == texture_index,
                        vertices@ == store.flat().take(3 * (base + f)),
                    decreases group@.faces.len() - f,
                {
                    let face = group.face(f);
                    let corners = face.vertices();
                    let ghost before = vertices@;
                    vertices.push(VertexTextureData { material_index: texture_index, vertex: corners[0] });
                    vertices.push(VertexTextureData { material_index: texture_index, vertex: corners[1] });
                    vertices.push(VertexTextureData { material_index: texture_index, vertex: corners[2] });
                    proof {
                        let n = base + f;
                        lemma_holder(store.groups, face_total, at, n);
                        assert(group@.faces[f as int] == store.faces[n]);
                        assert(face.corner(0) == store.attributes().corner(store.faces[n], 0));
                        assert(face.corner(1) == store.attributes().corner(store.faces[n], 1));
                        assert(face.corner(2) == store.attributes().corner(store.faces[n], 2));
                        assert(store.flat_at(3 * n) == vertices@[3 * n]);
                        assert(store.flat_at(3 * n + 1) == vertices@[3 * n + 1]);
                        assert(store.flat_at(3 * n + 2) == vertices@[3 * n + 2]);
                        assert(vertices@ =~= store.flat().take(3 * (n + 1)));
                    }
                    f += 1;
                }
                g += 1;
            }
            o += 1;
        }
        proof {
            if store.objects.len() == 0 {
                assert(group_total == 0);
            }
            if store.groups.len() == 0 {
                assert(face_total == 0);
            }
            assert(sequence.take(group_total) =~= sequence);
            assert(store.flat().take(3 * face_total) =~= store.flat());
        }
        (vertices, materials)
    }
}

impl ObjObject {
    /// The index buffer, the vertex buffer and the list of materials of the
    /// store.
    ///
    /// The vertex buffer holds every distinct item of the flat vertex stream
    /// once, in the order of first occurrence; two items are the same if they
    /// agree bit by bit, material index included. The index buffer holds, for
    /// every item of the flat stream, its slot in the vertex buffer.
    pub fn vertices_indexed(&self) -> (r: (
        Vec<usize>,
        Vec<VertexTextureData>,
        Vec<MaterialIdent<'_>>,
    ))
        requires
            self@.wf(),
            self@.resolved(),
        ensures
            r.1@ == first_seen(self@.flat()),
            indexes(r.0@, r.1@, self@.flat()),
            r.0.len() == 3 * self@.faces.len(),
            replay(r.0@, r.1@) == self@.flat(),
            material_views(r.2@) == self@.materials(),
    {
        let (flat, materials) = self.vertices();
        let (indicies, unique) = indexed_vertices(flat.as_slice());
        proof {
            lemma_replay(indicies@, unique@, flat@);
        }
        (indicies, unique, materials)
    }
}

/// The flat vertex stream holds three items for every face: the corners of
/// the face, in their order.
pub proof fn lemma_flat_corners(store: ObjView, face: int, k: int)
    requires
        0 <= face < store.faces.len(),
        0 <= k < 3,
    ensures
        store.flat().len() == 3 * store.faces.len(),
        store.flat()[3 * face + k].vertex == store.attributes().corner(store.faces[face], k),
{
}

} // verus!
