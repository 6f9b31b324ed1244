use polypath::meshlet::build_meshlets;
use polypath::meshlet::Geometry;
use polypath::meshlet::Meshlet;
use polypath::meshlet::MeshletBuilder;
use polypath::bounding::Sphere;
use polypath::opt::indexed_vertices;
use polypath::opt::optimize_vertex_order;
use polypath::parse::FaceData;
use polypath::parse::GroupingData;
use polypath::parse::Parser;
use polypath::parse::SourceLine;
use polypath::Error;
use polypath::MaterialIdent;
use polypath::ObjObject;
use polypath::Vertex;
use polypath::VertexData;
use polypath::VertexTextureData;

fn source(text: &str) -> Vec<SourceLine> {
    text.split_inclusive('\n')
        .map(|line| SourceLine {
            text: String::from(line),
            decimals: ObjObject::decimal_fields(line)
                .iter()
                .map(|t| t.parse::<f32>().map(f32::to_bits))
                .collect(),
        })
        .collect()
}

fn read(text: &str) -> Result<ObjObject, Error> {
    ObjObject::parse(&source(text))
}

fn b(x: f32) -> u32 {
    x.to_bits()
}

fn p(x: f32, y: f32, z: f32) -> (u32, u32, u32) {
    (x.to_bits(), y.to_bits(), z.to_bits())
}

fn plain(index: usize, x: f32) -> VertexTextureData {
    VertexTextureData {
        material_index: index,
        vertex: VertexData { position: p(x, 0.0, 0.0), color: None, normal: None, texture_coord: None },
    }
}

const SCENE: &str = "# two objects
mtllib scene.mtl
o first
v 0 0 0
v 1 0 0
v 1 1 0
v 0 1 0
vn 0 0 1
vt 0 0
vt 1 0
vt 1 1
vt 0 1

g front
usemtl red
f 1/1/1 2/2/1 3/3/1
g back
usemtl blue
f 1/1/1 3/3/1 4/4/1
o second
g only
f -4/-4/-1 -3/-3/-1 -2/-2/-1 -1/-1/-1
";

fn segment(g: &GroupingData) -> (&str, Option<&str>, usize, usize) {
    (g.name.as_str(), g.mtl.as_deref(), g.start, g.finish)
}

#[test]
fn scene_is_read_into_objects_groups_and_faces() {
    let obj = read(SCENE).unwrap();
    assert_eq!(obj.object_count(), 2);
    assert_eq!(obj.group_count(), 3);
    assert_eq!(obj.face_count(), 4);
    assert_eq!(obj.vert_count(), 12);
    assert_eq!(obj.vertices, vec![p(0.0, 0.0, 0.0), p(1.0, 0.0, 0.0), p(1.0, 1.0, 0.0), p(0.0, 1.0, 0.0)]);
    assert!(obj.vertex_colors.is_empty());
    assert_eq!(obj.vertex_normals, vec![p(0.0, 0.0, 1.0)]);
    assert_eq!(obj.texture_coords.len(), 4);
    assert_eq!(segment(&obj.objects[0]), ("first", Some("scene.mtl"), 0, 2));
    assert_eq!(segment(&obj.objects[1]), ("second", None, 2, 3));
    assert_eq!(segment(&obj.groups[0]), ("front", Some("red"), 0, 1));
    assert_eq!(segment(&obj.groups[1]), ("back", Some("blue"), 1, 2));
    assert_eq!(segment(&obj.groups[2]), ("only", None, 2, 4));
    assert_eq!(
        obj.faces[2],
        FaceData {
            indicies: (1, 2, 3),
            texture_indcicies: Some((1, 2, 3)),
            normal_indicies: Some((1, 1, 1)),
        }
    );
    assert_eq!(
        obj.faces[3],
        FaceData {
            indicies: (1, 3, 4),
            texture_indcicies: Some((1, 3, 4)),
            normal_indicies: Some((1, 1, 1)),
        }
    );
    assert!(obj.is_resolved());
}

#[test]
fn two_groups_with_one_face_each() {
    let obj = read("v 0 0 0\nv 1 0 0\nv 0 1 0\ng a\nf 1 2 3\ng b\nf 3 2 1\n").unwrap();
    assert_eq!(obj.group_count(), 2);
    assert_eq!(segment(&obj.groups[0]), ("a", None, 0, 1));
    assert_eq!(segment(&obj.groups[1]), ("b", None, 1, 2));
    assert_eq!(obj.object_count(), 1);
    assert_eq!(segment(&obj.objects[0]), ("", None, 0, 2));
}

#[test]
fn second_material_library_of_an_object_is_refused() {
    match read("o car\nmtllib a.mtl\nv 0 0 0\nmtllib b.mtl\n") {
        Err(Error::OjectMultipleMtl(name)) => assert_eq!(name, "car"),
        other => panic!("unexpected: {:?}", other),
    }
    // a new object may name its own library
    let obj = read("o a\nmtllib a.mtl\nv 0 0 0\nf 1 1 1\no b\nmtllib b.mtl\nf 1 1 1\n").unwrap();
    assert_eq!(segment(&obj.objects[0]), ("a", Some("a.mtl"), 0, 1));
    assert_eq!(segment(&obj.objects[1]), ("b", Some("b.mtl"), 1, 2));
}

#[test]
fn second_material_use_of_a_group_is_refused() {
    match read("g wheel\nusemtl a\nusemtl b\n") {
        Err(Error::GroupMultipleMTl(name)) => assert_eq!(name, "wheel"),
        other => panic!("unexpected: {:?}", other),
    }
    let obj = read("v 0 0 0\ng a\nusemtl x\nf 1 1 1\ng b\nusemtl y\nf 1 1 1\n").unwrap();
    assert_eq!(segment(&obj.groups[0]), ("a", Some("x"), 0, 1));
    assert_eq!(segment(&obj.groups[1]), ("b", Some("y"), 1, 2));
}

#[test]
fn first_error_ends_the_parse() {
    assert!(matches!(read("v 1 2 3\nv 1 x 3\nbogus\n"), Err(Error::ParseF(_))));
    assert!(matches!(read("v 1 2 3\nbogus\nv 1 x 3\n"), Err(Error::UnkownLine(_))));
    assert!(matches!(read("v 1 2 3\nf 1 2\n"), Err(Error::UnexpectedEoL)));
    assert!(matches!(read("v 1 2 3 4\n"), Err(Error::NonUniformColors)));
    assert!(matches!(read("f 1 2 z\n"), Err(Error::ParseI(_))));
    assert!(matches!(read("usemtl\n"), Err(Error::EmptyMtl)));
    assert!(matches!(read("s off\n"), Err(Error::Unsupported(_))));
}

#[test]
fn empty_input_gives_an_empty_store() {
    let obj = read("").unwrap();
    assert_eq!(obj.object_count(), 0);
    assert_eq!(obj.group_count(), 0);
    assert_eq!(obj.face_count(), 0);
    assert!(obj.is_resolved());
    let (vertices, materials) = obj.vertices();
    assert!(vertices.is_empty());
    assert!(materials.is_empty());
    let obj = read("o a\ng b\n# nothing\n\n").unwrap();
    assert_eq!(obj.object_count(), 0);
    assert_eq!(obj.group_count(), 0);
}

#[test]
fn declarations_rename_what_is_open_and_empty() {
    let obj = read("o a\no b\ng x\ng y\nv 0 0 0\nf 1 1 1\no c\no d\nf 1 1 1\n").unwrap();
    assert_eq!(obj.object_count(), 2);
    assert_eq!(segment(&obj.objects[0]), ("b", None, 0, 1));
    assert_eq!(segment(&obj.objects[1]), ("d", None, 1, 2));
    assert_eq!(segment(&obj.groups[0]), ("y", None, 0, 1));
    assert_eq!(segment(&obj.groups[1]), ("", None, 1, 2));
}

#[test]
fn counts_are_those_of_the_line_that_names_them() {
    let obj = read("v 0 0 0\nv 1 0 0\nv 2 0 0\nf -1 -2 -3\nv 3 0 0\nf -1 -2 -3\n").unwrap();
    assert_eq!(obj.faces[0].indicies, (3, 2, 1));
    assert_eq!(obj.faces[1].indicies, (4, 3, 2));
}

#[test]
fn parser_takes_lines_one_by_one() {
    let mut parser = Parser::new();
    for line in source("v 0 0 0 1 0 0\nv 1 1 1 0 1 0\nv 2 2 2 0 0 1\nf 1 2 3\n") {
        parser.feed_line(&line.text, &line.decimals).unwrap();
    }
    assert!(matches!(parser.feed_line("nonsense", &[]), Err(Error::UnkownLine(_))));
    let obj = parser.finish();
    assert_eq!(obj.face_count(), 1);
    assert_eq!(obj.vertex_colors, vec![p(1.0, 0.0, 0.0), p(0.0, 1.0, 0.0), p(0.0, 0.0, 1.0)]);
    let (vertices, _) = obj.vertices();
    assert_eq!(vertices[1].vertex.color, Some(p(0.0, 1.0, 0.0)));
    assert_eq!(vertices[1].vertex.position, p(1.0, 1.0, 1.0));
    assert_eq!(vertices[1].position(), p(1.0, 1.0, 1.0));
}

#[test]
fn flat_stream_has_three_vertices_for_every_face() {
    let obj = read(SCENE).unwrap();
    let (vertices, materials) = obj.vertices();
    assert_eq!(obj.face_count() * 3, vertices.len());
    assert_eq!(
        materials,
        vec![
            MaterialIdent { mtllib: Some("scene.mtl"), mtluse: Some("red") },
            MaterialIdent { mtllib: Some("scene.mtl"), mtluse: Some("blue") },
            MaterialIdent { mtllib: None, mtluse: None },
        ]
    );
    let indices: Vec<usize> = vertices.iter().map(|v| v.material_index).collect();
    assert_eq!(indices, vec![0, 0, 0, 1, 1, 1, 2, 2, 2, 2, 2, 2]);
    assert_eq!(
        vertices[4],
        VertexTextureData {
            material_index: 1,
            vertex: VertexData {
                position: p(1.0, 1.0, 0.0),
                color: None,
                normal: Some(p(0.0, 0.0, 1.0)),
                texture_coord: Some((b(1.0), b(1.0))),
            },
        }
    );
    assert_eq!(vertices[11].vertex.position, p(0.0, 1.0, 0.0));
    assert_eq!(vertices[11].vertex.texture_coord, Some((b(0.0), b(1.0))));
}

#[test]
fn material_is_interned_once() {
    let obj = read("v 0 0 0\ng a\nusemtl m\nf 1 1 1\ng b\nusemtl n\nf 1 1 1\ng c\nusemtl m\nf 1 1 1\n").unwrap();
    let (vertices, materials) = obj.vertices();
    assert_eq!(materials.len(), 2);
    assert_eq!(vertices[0].material_index, 0);
    assert_eq!(vertices[3].material_index, 1);
    assert_eq!(vertices[6].material_index, 0);
}

#[test]
fn index_buffer_replays_the_flat_stream() {
    let obj = read(SCENE).unwrap();
    let (flat, flat_materials) = obj.vertices();
    let (indices, unique, materials) = obj.vertices_indexed();
    assert_eq!(indices.len(), 3 * obj.face_count());
    assert!(indices.iter().all(|&i| i < unique.len()));
    let replayed: Vec<VertexTextureData> = indices.iter().map(|&i| unique[i]).collect();
    assert_eq!(replayed, flat);
    assert_eq!(materials, flat_materials);
    assert_eq!(indices, vec![0, 1, 2, 3, 4, 5, 6, 7, 8, 6, 8, 9]);
    assert_eq!(unique.len(), 10);
}

#[test]
fn vertices_are_the_same_only_bit_by_bit() {
    let zero = plain(0, 0.0);
    let minus_zero = plain(0, -0.0);
    let nan = plain(0, f32::NAN);
    let stream = [zero, minus_zero, nan, nan, zero, plain(1, 0.0)];
    let (indices, unique) = indexed_vertices(&stream);
    assert_eq!(indices, vec![0, 1, 2, 2, 0, 3]);
    assert_eq!(unique, vec![zero, minus_zero, nan, plain(1, 0.0)]);
    let (indices, unique) = indexed_vertices(&[]);
    assert!(indices.is_empty());
    assert!(unique.is_empty());
}

#[test]
fn hierarchy_views() {
    let obj = read(SCENE).unwrap();
    let objects = obj.objects_iter();
    assert_eq!(objects.len(), 2);
    assert_eq!(objects[0].name(), "first");
    assert_eq!(objects[0].mtllib(), Some("scene.mtl"));
    assert_eq!(objects[0].group_count(), 2);
    assert_eq!(objects[1].name(), "second");
    assert_eq!(objects[1].mtllib(), None);
    let groups = objects[0].group_iter();
    assert_eq!(groups.len(), 2);
    assert_eq!(groups[1].name(), "back");
    assert_eq!(groups[1].mtluse(), Some("blue"));
    assert_eq!(groups[1].face_count(), 1);
    let faces = groups[1].faces_iter();
    assert_eq!(faces.len(), 1);
    assert_eq!(faces[0].vert_positions, [p(0.0, 0.0, 0.0), p(1.0, 1.0, 0.0), p(0.0, 1.0, 0.0)]);
    assert_eq!(faces[0].vert_colors, None);
    assert_eq!(faces[0].vert_normals, Some([p(0.0, 0.0, 1.0); 3]));
    assert_eq!(
        faces[0].vert_uv_coords,
        Some([(b(0.0), b(0.0)), (b(1.0), b(1.0)), (b(0.0), b(1.0))])
    );
    let corners = faces[0].vertices();
    assert_eq!(corners[2].position, p(0.0, 1.0, 0.0));
    assert_eq!(corners[2].normal, Some(p(0.0, 0.0, 1.0)));
    assert_eq!(corners[2].texture_coord, Some((b(0.0), b(1.0))));
    assert_eq!(corners[2].color, None);
    let second = obj.object(1);
    let only = second.group(0);
    assert_eq!(only.name(), "only");
    assert_eq!(only.face_count(), 2);
    assert_eq!(only.face(1).vert_positions[2], p(0.0, 1.0, 0.0));
    let slices = objects[0].faces();
    assert_eq!(slices.len(), 2);
    assert_eq!(slices[0], &obj.faces[0..1]);
    assert_eq!(slices[1], &obj.faces[1..2]);
}

#[test]
fn small_helpers() {
    let empty: Vec<u8> = Vec::new();
    assert_eq!(polypath::obj::vec_to_option(&empty), None);
    assert_eq!(polypath::obj::vec_to_option(&vec![1u8, 2]), Some(&[1u8, 2][..]));
    assert_eq!(polypath::obj::option_to_array(Some([1, 2, 3])), [Some(1), Some(2), Some(3)]);
    assert_eq!(polypath::obj::option_to_array::<u8>(None), [None, None, None]);
}

#[test]
fn face_that_points_past_the_lists_is_noticed() {
    assert!(!read("v 0 0 0\nf 1 2 3\n").unwrap().is_resolved());
    assert!(!read("v 0 0 0\nf 0 1 1\n").unwrap().is_resolved());
    assert!(!read("v 0 0 0\nf 1//1 1//1 1//1\n").unwrap().is_resolved());
    assert!(!read("v 0 0 0\nf 1/1 1/1 1/1\n").unwrap().is_resolved());
    // a colour on some vertices only leaves the others without one
    assert!(!read("v 0 0 0 1 1 1\nv 1 1 1\nf 1 2 1\n").unwrap().is_resolved());
    assert!(read("v 0 0 0 1 1 1\nv 1 1 1\nf 1 1 1\n").unwrap().is_resolved());
}

fn triangles_of(stream: &[VertexTextureData]) -> Vec<[VertexTextureData; 3]> {
    stream.chunks(3).map(|c| [c[0], c[1], c[2]]).collect()
}

#[test]
fn optimizer_keeps_every_distinct_triangle_once() {
    let [a, b, c, d, e, f, g] = [1.0, 2.0, 3.0, 4.0, 5.0, 6.0, 7.0].map(|x| plain(0, x));
    let input = vec![a, b, c, b, c, d, e, f, g, a, b, c, c, b, a];
    let out = optimize_vertex_order(input.clone());
    assert_eq!(out.len() % 3, 0);
    assert!(out.len() <= input.len());
    assert_eq!(out.len(), 12);
    let produced = triangles_of(&out);
    let given = triangles_of(&input);
    for t in &given {
        assert_eq!(produced.iter().filter(|x| *x == t).count(), 1);
    }
    for t in &produced {
        assert!(given.contains(t));
    }
}

#[test]
fn optimizer_on_small_inputs() {
    assert!(optimize_vertex_order(Vec::new()).is_empty());
    let t = vec![plain(0, 1.0), plain(0, 2.0), plain(0, 3.0)];
    assert_eq!(optimize_vertex_order(t.clone()), t);
    let twice = vec![plain(0, 1.0), plain(0, 2.0), plain(0, 3.0), plain(0, 1.0), plain(0, 2.0), plain(0, 3.0)];
    assert_eq!(optimize_vertex_order(twice), t);
    let degenerate = vec![plain(0, 1.0), plain(0, 1.0), plain(0, 1.0)];
    assert_eq!(optimize_vertex_order(degenerate.clone()), degenerate);
}

#[test]
fn optimizer_then_index() {
    let obj = read(SCENE).unwrap();
    let (flat, _) = obj.vertices();
    let out = optimize_vertex_order(flat.clone());
    assert_eq!(out.len(), flat.len());
    let (indices, unique) = indexed_vertices(&out);
    assert_eq!(indices.len(), 12);
    assert_eq!(unique.len(), 10);
}

fn cone(x: f32) -> (u32, u32, u32, u32) {
    (b(x), b(0.0), b(0.0), b(0.5))
}

fn sphere(r: f32) -> Sphere {
    Sphere { center: p(0.0, 0.0, 0.0), radius: b(r) }
}

fn expand<const V: usize, const T: usize>(m: &Meshlet<V, T>) -> Vec<[u32; 3]> {
    (0..m.triangle_count as usize)
        .map(|t| m.triangles[t].map(|slot| m.vertices[slot as usize]))
        .collect()
}

#[test]
fn meshlets_stay_within_their_capacities() {
    let stream: [[u32; 3]; 5] = [[0, 1, 2], [1, 2, 3], [2, 3, 4], [4, 5, 6], [6, 6, 0]];
    let mut builder = MeshletBuilder::<4, 2>::new(7);
    let mut flushes = Vec::new();
    for (n, triangle) in stream.iter().enumerate() {
        let flush = builder.must_flush(*triangle, false);
        flushes.push(flush);
        if flush {
            builder.flush(cone(n as f32), sphere(n as f32));
        }
        builder.add_triangle(*triangle);
    }
    assert_eq!(flushes, vec![false, false, true, true, false]);
    assert!(builder.pending());
    assert_eq!(builder.triangle_count(), 2);
    assert_eq!(builder.vertex_count(), 4);
    builder.flush(cone(9.0), sphere(9.0));
    assert!(!builder.pending());
    let meshlets = builder.finish();
    assert_eq!(meshlets.len(), 3);
    for m in &meshlets {
        assert!(m.triangle_count >= 1 && m.triangle_count as usize <= 2);
        assert!(m.vertex_count as usize <= 4);
        for t in 0..m.triangle_count as usize {
            assert!(m.triangles[t].iter().all(|&slot| slot < m.vertex_count));
        }
    }
    assert_eq!(&meshlets[0].vertices[..4], &[0, 1, 2, 3]);
    assert_eq!(&meshlets[0].triangles[..2], &[[0, 1, 2], [1, 2, 3]]);
    assert_eq!(meshlets[0].cone, cone(2.0));
    assert_eq!(meshlets[0].bounding, sphere(2.0));
    assert_eq!(&meshlets[1].vertices[..3], &[2, 3, 4]);
    assert_eq!(meshlets[1].bounding, sphere(3.0));
    assert_eq!(&meshlets[2].vertices[..4], &[4, 5, 6, 0]);
    assert_eq!(&meshlets[2].triangles[..2], &[[0, 1, 2], [2, 2, 3]]);
    assert_eq!(meshlets[2].cone, cone(9.0));
    let all: Vec<[u32; 3]> = meshlets.iter().flat_map(expand).collect();
    assert_eq!(all, stream.to_vec());
}

#[test]
fn wide_cone_ends_a_meshlet_that_holds_a_triangle() {
    let mut builder = MeshletBuilder::<8, 8>::new(6);
    // nothing to finish yet, however wide the first triangle is
    assert!(!builder.must_flush([0, 1, 2], true));
    builder.flush(cone(0.0), sphere(0.0));
    builder.add_triangle([0, 1, 2]);
    assert_eq!(builder.additional_vertices([2, 3, 3]), 2);
    assert!(!builder.must_flush([2, 3, 4], false));
    assert!(builder.must_flush([2, 3, 4], true));
    builder.flush(cone(1.0), sphere(1.0));
    assert_eq!(builder.additional_vertices([2, 3, 4]), 3);
    builder.add_triangle([2, 3, 4]);
    // what is not flushed is not handed over
    let meshlets = builder.finish();
    assert_eq!(meshlets.len(), 1);
    assert_eq!(expand(&meshlets[0]), vec![[0, 1, 2]]);
    let empty: Meshlet<3, 1> = Meshlet::default();
    assert_eq!(empty.triangle_count, 0);
    assert_eq!(empty.vertex_count, 0);
    assert_eq!(empty.vertices, [0, 0, 0]);
    assert_eq!(empty.cone, (0, 0, 0, 0));
}

/// Calls a triangle too wide if it shares no vertex with the one before it.
struct Strips;

impl Geometry for Strips {
    fn too_wide(&self, members: &Vec<[u32; 3]>, next: [u32; 3]) -> bool {
        match members.last() {
            Some(last) => !next.iter().any(|i| last.contains(i)),
            None => true,
        }
    }

    fn cone(&self, members: &Vec<[u32; 3]>) -> (u32, u32, u32, u32) {
        (members.len() as u32, members[0][0], 0, 0)
    }

    fn bounding(&self, members: &Vec<[u32; 3]>) -> Sphere {
        Sphere { center: (members[0][0], members[0][1], members[0][2]), radius: members.len() as u32 }
    }
}

#[test]
fn index_buffer_is_packed_into_meshlets_in_order() {
    let indices: Vec<u32> = vec![0, 1, 2, 2, 1, 3, 2, 3, 4, 5, 6, 7, 7, 6, 8, 8, 8, 8, 0, 1, 2, 9, 9];
    let meshlets = build_meshlets::<5, 3, Strips>(&indices, 10, &Strips);
    let sizes: Vec<u8> = meshlets.iter().map(|m| m.triangle_count).collect();
    assert_eq!(sizes, vec![3, 3, 1]);
    for m in &meshlets {
        assert!(m.triangle_count >= 1 && m.triangle_count as usize <= 3);
        assert!(m.vertex_count as usize <= 5);
        for t in 0..m.triangle_count as usize {
            assert!(m.triangles[t].iter().all(|&slot| slot < m.vertex_count));
        }
        assert_eq!(m.cone.0, m.triangle_count as u32);
        assert_eq!(m.bounding.radius, m.triangle_count as u32);
    }
    assert_eq!(meshlets[0].vertices, [0, 1, 2, 3, 4]);
    assert_eq!(meshlets[0].triangles, [[0, 1, 2], [2, 1, 3], [2, 3, 4]]);
    assert_eq!(meshlets[1].vertex_count, 4);
    assert_eq!(&meshlets[1].vertices[..4], &[5, 6, 7, 8]);
    assert_eq!(meshlets[1].triangles, [[0, 1, 2], [2, 1, 3], [3, 3, 3]]);
    assert_eq!(meshlets[1].bounding.center, (5, 6, 7));
    assert_eq!(meshlets[2].vertex_count, 3);
    let all: Vec<u32> = meshlets.iter().flat_map(expand).flatten().collect();
    assert_eq!(all, indices[..21].to_vec());
    assert!(build_meshlets::<3, 1, Strips>(&[], 0, &Strips).is_empty());
    assert!(build_meshlets::<3, 1, Strips>(&[0, 1], 2, &Strips).is_empty());
    let single = build_meshlets::<3, 1, Strips>(&[0, 1, 2, 2, 1, 0], 3, &Strips);
    assert_eq!(single.len(), 2);
    assert_eq!(single[1].triangles, [[0, 1, 2]]);
    assert_eq!(single[1].vertices, [2, 1, 0]);
}
