//! The line grammar: how one line of a mesh description is classified and
//! what it holds, and how a sequence of lines builds up the geometry store.

use crate::error::Error;
use crate::error::Fault;
use crate::obj::chained;
use crate::obj::inhabited;
use crate::obj::segments;
use crate::obj::ObjObject;
use crate::obj::ObjView;
use crate::text::fields;
use crate::text::i32_literal;
use crate::text::parse_i32;
use crate::text::pieces;
use crate::text::scan_word;
use crate::text::skip_word;
use crate::text::split_fields;
use crate::text::split_pieces;
use crate::text::texts;
use crate::text::to_chars;
use crate::text::trim;
use crate::text::trim_str;
use std::num::ParseFloatError;
use vstd::prelude::*;

verus! {

/// What a `v` line holds: a position and, optionally, a colour. Every number
/// is the bit pattern of a single precision value.
#[derive(Debug, Clone, Copy, PartialEq)]
pub struct VertexData {
    pub position: (u32, u32, u32),
    pub color: Option<(u32, u32, u32)>,
}

/// One triangle: three 1-based indices into the positions and, optionally,
/// three into the texture coordinates and three into the normals.
#[derive(Debug, Clone, Copy, PartialEq, Eq)]
pub struct FaceData {
    pub indicies: (u32, u32, u32),
    pub texture_indcicies: Option<(u32, u32, u32)>,
    pub normal_indicies: Option<(u32, u32, u32)>,
}

/// A named segment: a group of faces or an object of groups. It covers the
/// half-open range from `start` to `finish` of the list below it.
#[derive(Debug, Clone, Default)]
pub struct GroupingData {
    pub name: String,
    pub mtl: Option<String>,
    pub start: usize,
    pub finish: usize,
}

/// A [`GroupingData`] with its text as character sequences.
pub ghost struct GroupingView {
    pub name: Seq<char>,
    pub mtl: Option<Seq<char>>,
    pub start: int,
    pub finish: int,
}

impl View for GroupingData {
    type V = GroupingView;

    open spec fn view(&self) -> GroupingView {
        GroupingView {
            name: self.name@,
            mtl: match self.mtl {
                Some(m) => Some(m@),
                None => None,
            },
            start: self.start as int,
            finish: self.finish as int,
        }
    }
}

/// One classified line.
#[derive(Debug)]
pub enum Line {
    Empty,
    Comment,
    Vertex(VertexData),
    Normal((u32, u32, u32)),
    TextureCoord((u32, u32)),
    Face(FaceData),
    DoubleFace(FaceData, FaceData),
    MaterialLib(String),
    MaterialUse(String),
    Group(String),
    Object(String),
}

/// A [`Line`] with its text as character sequences.
pub ghost enum LineView {
    Empty,
    Comment,
    Vertex(VertexData),
    Normal((u32, u32, u32)),
    TextureCoord((u32, u32)),
    Face(FaceData),
    DoubleFace(FaceData, FaceData),
    MaterialLib(Seq<char>),
    MaterialUse(Seq<char>),
    Group(Seq<char>),
    Object(Seq<char>),
}

impl View for Line {
    type V = LineView;

    open spec fn view(&self) -> LineView {
        match *self {
            Line::Empty => LineView::Empty,
            Line::Comment => LineView::Comment,
            Line::Vertex(v) => LineView::Vertex(v),
            Line::Normal(n) => LineView::Normal(n),
            Line::TextureCoord(t) => LineView::TextureCoord(t),
            Line::Face(f) => LineView::Face(f),
            Line::DoubleFace(f1, f2) => LineView::DoubleFace(f1, f2),
            Line::MaterialLib(name) => LineView::MaterialLib(name@),
            Line::MaterialUse(name) => LineView::MaterialUse(name@),
            Line::Group(name) => LineView::Group(name@),
            Line::Object(name) => LineView::Object(name@),
        }
    }
}

/// Whether `r` is the outcome `expected`: the same value, or an error that
/// says the same.
pub open spec fn agrees<T>(r: Result<T, Error>, expected: Result<T, Fault>) -> bool {
    match expected {
        Ok(v) => r == Ok::<T, Error>(v),
        Err(f) => r is Err && r->Err_0@ == f,
    }
}

/// Whether `r` is the outcome `expected`, a line being compared by its view.
pub open spec fn agrees_line(r: Result<Line, Error>, expected: Result<LineView, Fault>) -> bool {
    match expected {
        Ok(v) => r is Ok && r->Ok_0@ == v,
        Err(f) => r is Err && r->Err_0@ == f,
    }
}

/// The index that `i` stands for when the list it points into holds `count`
/// items: itself if it is not negative, else counted back from the end, so
/// that `-1` is the last item. Below zero the result wraps around.
pub open spec fn resolve(i: i32, count: u32) -> u32 {
    if i >= 0 {
        i as u32
    } else {
        let at = count + i + 1;
        if at >= 0 {
            at as u32
        } else {
            (at + 0x1_0000_0000) as u32
        }
    }
}

/// What one corner of a face holds: the position index and, optionally, the
/// indices of a texture coordinate and of a normal.
pub type Corner = (u32, Option<u32>, Option<u32>);

/// The index that the piece `s` of a corner writes.
pub open spec fn index_of_piece(s: Seq<char>, count: u32) -> Result<u32, Fault> {
    match i32_literal(s) {
        Some(i) => Ok(resolve(i, count)),
        None => Err(Fault::ParseI),
    }
}

/// The corner that the token `s` writes: `index`, `index/texture`,
/// `index//normal` or `index/texture/normal`.
pub open spec fn corner_of(s: Seq<char>, v_count: u32, t_count: u32, n_count: u32) -> Result<
    Corner,
    Fault,
> {
    let p = pieces(s, '/');
    match index_of_piece(p[0], v_count) {
        Err(e) => Err(e),
        Ok(i) => if p.len() == 1 {
            Ok((i, None, None))
        } else {
            let texture = if p[1].len() == 0 {
                Ok(None)
            } else {
                match index_of_piece(p[1], t_count) {
                    Err(e) => Err(e),
                    Ok(t) => Ok(Some(t)),
                }
            };
            match texture {
                Err(e) => Err(e),
                Ok(t) => if p.len() == 2 {
                    Ok((i, t, None))
                } else {
                    match index_of_piece(p[2], n_count) {
                        Err(e) => Err(e),
                        Ok(n) => Ok((i, t, Some(n))),
                    }
                },
            }
        },
    }
}

/// The corner that field `i` writes; a field that is not there is a line
/// that ended too early.
pub open spec fn corner_at(
    f: Seq<Seq<char>>,
    i: int,
    v_count: u32,
    t_count: u32,
    n_count: u32,
) -> Result<Corner, Fault> {
    if i >= f.len() {
        Err(Fault::UnexpectedEol)
    } else {
        corner_of(f[i], v_count, t_count, n_count)
    }
}

/// Three optional indices as one optional triple; `None` where some are there
/// and some are not.
pub open spec fn gather(a: Option<u32>, b: Option<u32>, c: Option<u32>) -> Option<
    Option<(u32, u32, u32)>,
> {
    match (a, b, c) {
        (None, None, None) => Some(None),
        (Some(x), Some(y), Some(z)) => Some(Some((x, y, z))),
        _ => None,
    }
}

/// The attribute triple of the second triangle of a quad: the first, third and
/// fourth corner.
pub open spec fn second_triple(first: Option<(u32, u32, u32)>, fourth: Option<u32>) -> Option<
    (u32, u32, u32),
> {
    match (first, fourth) {
        (Some(t), Some(d)) => Some((t.0, t.2, d)),
        _ => None,
    }
}

/// The first three corners of a face.
pub open spec fn first_corners(
    f: Seq<Seq<char>>,
    v_count: u32,
    t_count: u32,
    n_count: u32,
) -> Result<(Corner, Corner, Corner), Fault> {
    match corner_at(f, 0, v_count, t_count, n_count) {
        Err(e) => Err(e),
        Ok(c1) => match corner_at(f, 1, v_count, t_count, n_count) {
            Err(e) => Err(e),
            Ok(c2) => match corner_at(f, 2, v_count, t_count, n_count) {
                Err(e) => Err(e),
                Ok(c3) => Ok((c1, c2, c3)),
            },
        },
    }
}

/// The triangle of three corners; `None` where the corners do not all carry
/// the same attributes.
pub open spec fn triangle_of(c1: Corner, c2: Corner, c3: Corner) -> Option<FaceData> {
    match (gather(c1.2, c2.2, c3.2), gather(c1.1, c2.1, c3.1)) {
        (Some(normal), Some(texture)) => Some(
            FaceData {
                indicies: (c1.0, c2.0, c3.0),
                texture_indcicies: texture,
                normal_indicies: normal,
            },
        ),
        _ => None,
    }
}

/// The second triangle of a quad whose first triangle is `first` and whose
/// fourth corner is `c4`: the first, third and fourth corner. `None` where the
/// fourth corner does not carry the attributes of the others.
pub open spec fn second_of(first: FaceData, c4: Corner) -> Option<FaceData> {
    if (first.normal_indicies is Some <==> c4.2 is Some) && (first.texture_indcicies is Some
        <==> c4.1 is Some) {
        Some(
            FaceData {
                indicies: (first.indicies.0, first.indicies.2, c4.0),
                texture_indcicies: second_triple(first.texture_indcicies, c4.1),
                normal_indicies: second_triple(first.normal_indicies, c4.2),
            },
        )
    } else {
        None
    }
}

/// The triangles that the data of an `f` line writes: one for three corners,
/// two for four, cut along the diagonal from the first to the third corner.
pub open spec fn face_of(data: Seq<char>, v_count: u32, t_count: u32, n_count: u32) -> Result<
    (FaceData, Option<FaceData>),
    Fault,
> {
    let f = fields(data);
    match first_corners(f, v_count, t_count, n_count) {
        Err(e) => Err(e),
        Ok((c1, c2, c3)) => match triangle_of(c1, c2, c3) {
            None => Err(Fault::Unsupported(data)),
            Some(first) => if f.len() == 3 {
                Ok((first, None))
            } else {
                match corner_of(f[3], v_count, t_count, n_count) {
                    Err(e) => Err(e),
                    Ok(c4) => match second_of(first, c4) {
                        Some(second) => if f.len() == 4 {
                            Ok((first, Some(second)))
                        } else {
                            Err(Fault::Unsupported(data))
                        },
                        None => Err(Fault::Unsupported(data)),
                    },
                }
            },
        },
    }
}

/// A decimal field as its bit pattern, or the error of its conversion.
pub type Decimal = Result<u32, ParseFloatError>;

/// The value of decimal field `i`, with `missing` where the line has no such
/// field.
pub open spec fn field_at(d: Seq<Decimal>, i: int, missing: Fault) -> Result<u32, Fault> {
    if i >= d.len() {
        Err(missing)
    } else {
        match d[i] {
            Ok(v) => Ok(v),
            Err(e) => Err(Fault::ParseF(e)),
        }
    }
}

/// The values of the decimal fields `i` and `i + 1`.
pub open spec fn pair_at(d: Seq<Decimal>, i: int, missing: Fault) -> Result<(u32, u32), Fault> {
    match field_at(d, i, missing) {
        Err(e) => Err(e),
        Ok(x) => match field_at(d, i + 1, missing) {
            Err(e) => Err(e),
            Ok(y) => Ok((x, y)),
        },
    }
}

/// The values of the decimal fields `i`, `i + 1` and `i + 2`.
pub open spec fn triple_at(d: Seq<Decimal>, i: int, missing: Fault) -> Result<
    (u32, u32, u32),
    Fault,
> {
    match pair_at(d, i, missing) {
        Err(e) => Err(e),
        Ok(xy) => match field_at(d, i + 2, missing) {
            Err(e) => Err(e),
            Ok(z) => Ok((xy.0, xy.1, z)),
        },
    }
}

/// The vertex that the decimal fields of a `v` line write: three coordinates
/// and then either nothing more or three colour components.
pub open spec fn vertex_of(d: Seq<Decimal>) -> Result<VertexData, Fault> {
    match triple_at(d, 0, Fault::UnexpectedEol) {
        Err(e) => Err(e),
        Ok(position) => if d.len() <= 3 {
            Ok(VertexData { position, color: None })
        } else {
            match triple_at(d, 3, Fault::NonUniformColors) {
                Err(e) => Err(e),
                Ok(color) => Ok(VertexData { position, color: Some(color) }),
            }
        },
    }
}

/// The normal that the decimal fields of a `vn` line write.
pub open spec fn normal_of(d: Seq<Decimal>) -> Result<(u32, u32, u32), Fault> {
    triple_at(d, 0, Fault::UnexpectedEol)
}

/// The texture coordinate that the decimal fields of a `vt` line write.
pub open spec fn texture_coord_of(d: Seq<Decimal>) -> Result<(u32, u32), Fault> {
    pair_at(d, 0, Fault::UnexpectedEol)
}

/// The name that a material directive gives; it must give one.
pub open spec fn material_of(data: Seq<char>) -> Result<Seq<char>, Fault> {
    if trim(data).len() == 0 {
        Err(Fault::EmptyMtl)
    } else {
        Ok(trim(data))
    }
}

/// The leading token of a trimmed, non-empty line.
pub open spec fn head_of(s: Seq<char>) -> Seq<char> {
    s.take(skip_word(s, 0))
}

/// What follows the leading token of a trimmed line, itself trimmed.
pub open spec fn data_of(s: Seq<char>) -> Seq<char> {
    trim(s.skip(skip_word(s, 0)))
}

/// The fields of a line that are read as decimal numbers: all that follow the
/// leading token of a `v`, `vn` or `vt` line, and none of any other line.
pub open spec fn decimal_fields_of(line: Seq<char>) -> Seq<Seq<char>> {
    let s = trim(line);
    let head = head_of(s);
    if s.len() > 0 && (head == "v"@ || head == "vn"@ || head == "vt"@) {
        fields(data_of(s))
    } else {
        Seq::empty()
    }
}

/// What a line says. `decimals` holds the conversions of its decimal fields,
/// the counts are those of the positions, texture coordinates and normals read
/// so far.
pub open spec fn line_of(
    line: Seq<char>,
    decimals: Seq<Decimal>,
    v_count: u32,
    t_count: u32,
    n_count: u32,
) -> Result<LineView, Fault> {
    let s = trim(line);
    let head = head_of(s);
    let data = data_of(s);
    if s.len() == 0 {
        Ok(LineView::Empty)
    } else if s[0] == '#' {
        Ok(LineView::Comment)
    } else if head == "v"@ {
        match vertex_of(decimals) {
            Ok(v) => Ok(LineView::Vertex(v)),
            Err(e) => Err(e),
        }
    } else if head == "vn"@ {
        match normal_of(decimals) {
            Ok(n) => Ok(LineView::Normal(n)),
            Err(e) => Err(e),
        }
    } else if head == "vt"@ {
        match texture_coord_of(decimals) {
            Ok(t) => Ok(LineView::TextureCoord(t)),
            Err(e) => Err(e),
        }
    } else if head == "f"@ {
        match face_of(data, v_count, t_count, n_count) {
            Ok((f1, None)) => Ok(LineView::Face(f1)),
            Ok((f1, Some(f2))) => Ok(LineView::DoubleFace(f1, f2)),
            Err(e) => Err(e),
        }
    } else if head == "o"@ {
        Ok(LineView::Object(trim(data)))
    } else if head == "g"@ {
        Ok(LineView::Group(trim(data)))
    } else if head == "s"@ {
        Err(Fault::Unsupported(s))
    } else if head == "mtllib"@ {
        match material_of(data) {
            Ok(name) => Ok(LineView::MaterialLib(name)),
            Err(e) => Err(e),
        }
    } else if head == "usemtl"@ {
        match material_of(data) {
            Ok(name) => Ok(LineView::MaterialUse(name)),
            Err(e) => Err(e),
        }
    } else {
        Err(Fault::UnknownLine(s))
    }
}

/// Index `i` against a list of `count` items.
pub fn resolve_index(i: i32, count: u32) -> (r: u32)
    ensures
        r == resolve(i, count),
{
    if i >= 0 {
        i as u32
    } else {
        let at: i64 = count as i64 + i as i64 + 1;
        if at >= 0 {
            at as u32
        } else {
            (at + 0x1_0000_0000) as u32
        }
    }
}

/// Reads one piece of a corner as an index.
fn parse_index(piece: &str, count: u32) -> (r: Result<u32, Error>)
    ensures
        agrees(r, index_of_piece(piece@, count)),
{
    match parse_i32(piece) {
        Ok(i) => Ok(resolve_index(i, count)),
        Err(e) => Err(Error::ParseI(e)),
    }
}

/// Reads one corner of a face.
pub fn parse_single(data: &str, v_count: u32, t_count: u32, n_count: u32) -> (r: Result<
    Corner,
    Error,
>)
    ensures
        agrees(r, corner_of(data@, v_count, t_count, n_count)),
{
    let parts = split_pieces(data, '/');
    assert(forall|k: int| 0 <= k < parts.len() ==> texts(parts@)[k] == parts[k]@);
    let i = parse_index(parts[0].as_str(), v_count)?;
    if parts.len() == 1 {
        return Ok((i, None, None));
    }
    let t = if parts[1].as_str().is_empty() {
        None
    } else {
        Some(parse_index(parts[1].as_str(), t_count)?)
    };
    if parts.len() == 2 {
        return Ok((i, t, None));
    }
    let n = parse_index(parts[2].as_str(), n_count)?;
    Ok((i, t, Some(n)))
}

impl ObjObject {

/// Splits a quad along the diagonal from its first to its third corner.
pub fn triangulate(index: [u32; 4], normals: Option<[u32; 4]>, texture: Option<[u32; 4]>) -> (r:
    [FaceData; 2])
    ensures
        r[0].indicies == (index[0], index[1], index[2]),
        r[1].indicies == (index[0], index[2], index[3]),
        r[0].normal_indicies == (match normals {
            Some(n) => Some((n[0], n[1], n[2])),
            None => None,
        }),
        r[1].normal_indicies == (match normals {
            Some(n) => Some((n[0], n[2], n[3])),
            None => None,
        }),
        r[0].texture_indcicies == (match texture {
            Some(t) => Some((t[0], t[1], t[2])),
            None => None,
        }),
        r[1].texture_indcicies == (match texture {
            Some(t) => Some((t[0], t[2], t[3])),
            None => None,
        }),
{
    let i1 = (index[0], index[1], index[2]);
    let i2 = (index[0], index[2], index[3]);
    let (n1, n2) = match normals {
        Some(normals) => (
            Some((normals[0], normals[1], normals[2])),
            Some((normals[0], normals[2], normals[3])),
        ),
        None => (None, None),
    };
    let (t1, t2) = match texture {
        Some(texture) => (
            Some((texture[0], texture[1], texture[2])),
            Some((texture[0], texture[2], texture[3])),
        ),
        None => (None, None),
    };
    [
        FaceData { indicies: i1, texture_indcicies: t1, normal_indicies: n1 },
        FaceData { indicies: i2, texture_indcicies: t2, normal_indicies: n2 },
    ]
}

} // impl ObjObject

/// Three optional indices as one optional triple, or nothing where some are
/// there and some are not.
fn gather_triple(a: Option<u32>, b: Option<u32>, c: Option<u32>) -> (r: Option<
    Option<(u32, u32, u32)>,
>)
    ensures
        r == gather(a, b, c),
{
    match (a, b, c) {
        (None, None, None) => Some(None),
        (Some(x), Some(y), Some(z)) => Some(Some((x, y, z))),
        _ => None,
    }
}

/// The three indices of a triple and a fourth as an array.
fn with_fourth(first: Option<(u32, u32, u32)>, fourth: Option<u32>) -> (r: Option<[u32; 4]>)
    ensures
        r == (match (first, fourth) {
            (Some(t), Some(d)) => Some([t.0, t.1, t.2, d]),
            _ => None,
        }),
{
    match (first, fourth) {
        (Some(t), Some(d)) => Some([t.0, t.1, t.2, d]),
        _ => None,
    }
}

impl ObjObject {

/// Reads the data of an `f` line: three or four corners.
pub fn parse_face(data: &str, v_count: u32, t_count: u32, n_count: u32) -> (r: Result<
    (FaceData, Option<FaceData>),
    Error,
>)
    ensures
        agrees(r, face_of(data@, v_count, t_count, n_count)),
{
    let tokens = split_fields(data);
    assert(forall|k: int| 0 <= k < tokens.len() ==> texts(tokens@)[k] == tokens[k]@);
    if tokens.len() < 1 {
        return Err(Error::UnexpectedEoL);
    }
    let (i1, t1, n1) = parse_single(tokens[0].as_str(), v_count, t_count, n_count)?;
    if tokens.len() < 2 {
        return Err(Error::UnexpectedEoL);
    }
    let (i2, t2, n2) = parse_single(tokens[1].as_str(), v_count, t_count, n_count)?;
    if tokens.len() < 3 {
        return Err(Error::UnexpectedEoL);
    }
    let (i3, t3, n3) = parse_single(tokens[2].as_str(), v_count, t_count, n_count)?;
    let (normal, texture) = match (gather_triple(n1, n2, n3), gather_triple(t1, t2, t3)) {
        (Some(normal), Some(texture)) => (normal, texture),
        _ => {
            return Err(Error::Unsupported(String::from_str(data)));
        },
    };
    if tokens.len() == 3 {
        return Ok(
            (FaceData { indicies: (i1, i2, i3), texture_indcicies: texture, normal_indicies: normal }, None),
        );
    }
    let (i4, t4, n4) = parse_single(tokens[3].as_str(), v_count, t_count, n_count)?;
    if tokens.len() != 4 || normal.is_some() != n4.is_some() || texture.is_some() != t4.is_some() {
        return Err(Error::Unsupported(String::from_str(data)));
    }
    let faces = Self::triangulate([i1, i2, i3, i4], with_fourth(normal, n4), with_fourth(texture, t4));
    Ok((faces[0], Some(faces[1])))
}

} // impl ObjObject

/// Takes decimal field `i`; `colour` tells which error a missing field is.
fn take_field(fields: &[Decimal], i: usize, colour: bool) -> (r: Result<u32, Error>)
    ensures
        agrees(
            r,
            field_at(
                fields@,
                i as int,
                if colour {
                    Fault::NonUniformColors
                } else {
                    Fault::UnexpectedEol
                },
            ),
        ),
{
    if i >= fields.len() {
        if colour {
            Err(Error::NonUniformColors)
        } else {
            Err(Error::UnexpectedEoL)
        }
    } else {
        match &fields[i] {
            Ok(v) => Ok(*v),
            Err(e) => Err(Error::ParseF(e.clone())),
        }
    }
}

impl ObjObject {

/// Reads the decimal fields of a `v` line.
pub fn parse_vertex(fields: &[Decimal]) -> (r: Result<VertexData, Error>)
    ensures
        agrees(r, vertex_of(fields@)),
{
    let x = take_field(fields, 0, false)?;
    let y = take_field(fields, 1, false)?;
    let z = take_field(fields, 2, false)?;
    if fields.len() <= 3 {
        return Ok(VertexData { position: (x, y, z), color: None });
    }
    let a = take_field(fields, 3, true)?;
    let b = take_field(fields, 4, true)?;
    let c = take_field(fields, 5, true)?;
    Ok(VertexData { position: (x, y, z), color: Some((a, b, c)) })
}

/// Reads the decimal fields of a `vn` line.
pub fn parse_normal(fields: &[Decimal]) -> (r: Result<(u32, u32, u32), Error>)
    ensures
        agrees(r, normal_of(fields@)),
{
    let x = take_field(fields, 0, false)?;
    let y = take_field(fields, 1, false)?;
    let z = take_field(fields, 2, false)?;
    Ok((x, y, z))
}

/// Reads the decimal fields of a `vt` line.
pub fn parse_texture_coord(fields: &[Decimal]) -> (r: Result<(u32, u32), Error>)
    ensures
        agrees(r, texture_coord_of(fields@)),
{
    let x = take_field(fields, 0, false)?;
    let y = take_field(fields, 1, false)?;
    Ok((x, y))
}

/// The name that an `o` or `g` line gives.
pub fn parse_grouping(data: &str) -> (name: String)
    ensures
        name@ == trim(data@),
{
    String::from_str(trim_str(data))
}

/// The name that a `mtllib` or `usemtl` line gives.
pub fn parse_mtl(data: &str) -> (r: Result<String, Error>)
    ensures
        match material_of(data@) {
            Ok(name) => r is Ok && r->Ok_0@ == name,
            Err(f) => r is Err && r->Err_0@ == f,
        },
{
    let name = trim_str(data);
    if name.is_empty() {
        Err(Error::EmptyMtl)
    } else {
        Ok(String::from_str(name))
    }
}

} // impl ObjObject

/// Whether the first `w` characters of `chars` spell `word`.
fn head_is(chars: &Vec<char>, w: usize, word: &str) -> (b: bool)
    requires
        w <= chars.len(),
    ensures
        b == (chars@.take(w as int) == word@),
{
    let expected = to_chars(word);
    if expected.len() != w {
        return false;
    }
    let mut i: usize = 0;
    while i < w
        invariant
            i <= w <= chars.len(),
            expected.len() == w,
            expected@ == word@,
            forall|k: int| 0 <= k < i ==> chars@[k] == expected@[k],
        decreases w - i,
    {
        if chars[i] != expected[i] {
            assert(chars@.take(w as int)[i as int] != word@[i as int]);
            return false;
        }
        i += 1;
    }
    assert(chars@.take(w as int) =~= word@);
    true
}

impl ObjObject {

/// Classifies one line and reads what it holds.
///
/// `decimals` holds the conversions of the fields that
/// [`ObjObject::decimal_fields`] names for this line; the counts are those of
/// the positions, texture coordinates and normals read before it.
pub fn parse_line(
    line: &str,
    decimals: &[Decimal],
    v_count: u32,
    t_count: u32,
    n_count: u32,
) -> (r: Result<Line, Error>)
    ensures
        agrees_line(r, line_of(line@, decimals@, v_count, t_count, n_count)),
{
    let trimmed = trim_str(line);
    let chars = to_chars(trimmed);
    if chars.len() == 0 {
        return Ok(Line::Empty);
    }
    if chars[0] == '#' {
        return Ok(Line::Comment);
    }
    let w = scan_word(&chars, 0);
    let rest = trimmed.substring_char(w, chars.len());
    assert(rest@ =~= trimmed@.skip(w as int));
    let data = trim_str(rest);
    if head_is(&chars, w, "v") {
        Ok(Line::Vertex(Self::parse_vertex(decimals)?))
    } else if head_is(&chars, w, "vn") {
        Ok(Line::Normal(Self::parse_normal(decimals)?))
    } else if head_is(&chars, w, "vt") {
        Ok(Line::TextureCoord(Self::parse_texture_coord(decimals)?))
    } else if head_is(&chars, w, "f") {
        match Self::parse_face(data, v_count, t_count, n_count)? {
            (f1, None) => Ok(Line::Face(f1)),
            (f1, Some(f2)) => Ok(Line::DoubleFace(f1, f2)),
        }
    } else if head_is(&chars, w, "o") {
        Ok(Line::Object(Self::parse_grouping(data)))
    } else if head_is(&chars, w, "g") {
        Ok(Line::Group(Self::parse_grouping(data)))
    } else if head_is(&chars, w, "s") {
        Err(Error::Unsupported(String::from_str(trimmed)))
    } else if head_is(&chars, w, "mtllib") {
        Ok(Line::MaterialLib(Self::parse_mtl(data)?))
    } else if head_is(&chars, w, "usemtl") {
        Ok(Line::MaterialUse(Self::parse_mtl(data)?))
    } else {
        Err(Error::UnkownLine(String::from_str(trimmed)))
    }
}

/// The fields of `line` that are to be converted to decimal numbers before
/// the line is parsed, in order.
pub fn decimal_fields(line: &str) -> (out: Vec<String>)
    ensures
        texts(out@) == decimal_fields_of(line@),
{
    let trimmed = trim_str(line);
    let chars = to_chars(trimmed);
    let w = scan_word(&chars, 0);
    if chars.len() > 0 && (head_is(&chars, w, "v") || head_is(&chars, w, "vn") || head_is(
        &chars,
        w,
        "vt",
    )) {
        let rest = trimmed.substring_char(w, chars.len());
        assert(rest@ =~= trimmed@.skip(w as int));
        split_fields(trim_str(rest))
    } else {
        let out: Vec<String> = Vec::new();
        assert(texts(out@) =~= Seq::<Seq<char>>::empty());
        out
    }
}

} // impl ObjObject

/// A segment that is open at `at` and holds nothing yet.
pub open spec fn fresh(name: Seq<char>, at: int) -> GroupingView {
    GroupingView { name, mtl: None, start: at, finish: at }
}

/// The number of items read so far, as the grammar counts them: modulo 2^32.
pub open spec fn running_count(n: int) -> u32 {
    (n % 0x1_0000_0000) as u32
}

/// The state of a parse between two lines: what has been read, the sealed
/// groups and objects, and the open group and object.
pub ghost struct ParserView {
    pub positions: Seq<(u32, u32, u32)>,
    pub colors: Seq<(u32, u32, u32)>,
    pub normals: Seq<(u32, u32, u32)>,
    pub texcoords: Seq<(u32, u32)>,
    pub faces: Seq<FaceData>,
    pub groups: Seq<GroupingView>,
    pub objects: Seq<GroupingView>,
    pub group: GroupingView,
    pub object: GroupingView,
}

impl ParserView {
    /// The state before the first line.
    pub open spec fn start() -> ParserView {
        ParserView {
            positions: Seq::empty(),
            colors: Seq::empty(),
            normals: Seq::empty(),
            texcoords: Seq::empty(),
            faces: Seq::empty(),
            groups: Seq::empty(),
            objects: Seq::empty(),
            group: fresh(Seq::empty(), 0),
            object: fresh(Seq::empty(), 0),
        }
    }

    /// The sealed groups cover the faces before the open group, which covers
    /// the rest; the sealed objects cover the groups before the open object,
    /// which covers the rest; and every sealed group holds a face, every
    /// sealed object a group.
    pub open spec fn wf(self) -> bool {
        &&& chained(self.groups, self.group.start)
        &&& inhabited(self.groups)
        &&& self.group.start <= self.group.finish == self.faces.len()
        &&& chained(self.objects, self.object.start)
        &&& inhabited(self.objects)
        &&& self.object.start <= self.object.finish == self.groups.len()
    }

    /// Seals the open group if it holds a face, and opens an unnamed one.
    pub open spec fn seal_group(self) -> ParserView {
        if self.group.start == self.group.finish {
            self
        } else {
            ParserView {
                groups: self.groups.push(self.group),
                group: fresh(Seq::empty(), self.faces.len() as int),
                object: GroupingView { finish: self.object.finish + 1, ..self.object },
                ..self
            }
        }
    }

    /// Seals the open object if it holds a group, and opens an unnamed one.
    pub open spec fn seal_object(self) -> ParserView {
        if self.object.start == self.object.finish {
            self
        } else {
            ParserView {
                objects: self.objects.push(self.object),
                object: fresh(Seq::empty(), self.groups.len() as int),
                ..self
            }
        }
    }

    /// The state after a line that says `line`.
    pub open spec fn apply(self, line: LineView) -> Result<ParserView, Fault> {
        match line {
            LineView::Empty | LineView::Comment => Ok(self),
            LineView::Vertex(v) => Ok(
                ParserView {
                    positions: self.positions.push(v.position),
                    colors: match v.color {
                        Some(c) => self.colors.push(c),
                        None => self.colors,
                    },
                    ..self
                },
            ),
            LineView::Normal(n) => Ok(ParserView { normals: self.normals.push(n), ..self }),
            LineView::TextureCoord(t) => Ok(
                ParserView { texcoords: self.texcoords.push(t), ..self },
            ),
            LineView::Face(f) => Ok(
                ParserView {
                    faces: self.faces.push(f),
                    group: GroupingView { finish: self.group.finish + 1, ..self.group },
                    ..self
                },
            ),
            LineView::DoubleFace(f1, f2) => Ok(
                ParserView {
                    faces: self.faces.push(f1).push(f2),
                    group: GroupingView { finish: self.group.finish + 2, ..self.group },
                    ..self
                },
            ),
            LineView::Group(name) => {
                let p = self.seal_group();
                Ok(ParserView { group: GroupingView { name, ..p.group }, ..p })
            },
            LineView::Object(name) => {
                let p = self.seal_group().seal_object();
                Ok(ParserView { object: GroupingView { name, ..p.object }, ..p })
            },
            LineView::MaterialLib(name) => if self.object.mtl is None {
                Ok(ParserView { object: GroupingView { mtl: Some(name), ..self.object }, ..self })
            } else {
                Err(Fault::ObjectMultipleMtl(self.object.name))
            },
            LineView::MaterialUse(name) => if self.group.mtl is None {
                Ok(ParserView { group: GroupingView { mtl: Some(name), ..self.group }, ..self })
            } else {
                Err(Fault::GroupMultipleMtl(self.group.name))
            },
        }
    }

    /// The state after the line `line`, whose decimal fields convert to
    /// `decimals`.
    pub open spec fn feed(self, line: Seq<char>, decimals: Seq<Decimal>) -> Result<
        ParserView,
        Fault,
    > {
        match line_of(
            line,
            decimals,
            running_count(self.positions.len() as int),
            running_count(self.texcoords.len() as int),
            running_count(self.normals.len() as int),
        ) {
            Ok(l) => self.apply(l),
            Err(e) => Err(e),
        }
    }

    /// The state after all of `lines`, or the first error among them.
    pub open spec fn feed_all(self, lines: Seq<SourceLine>) -> Result<ParserView, Fault>
        decreases lines.len(),
    {
        if lines.len() == 0 {
            Ok(self)
        } else {
            match self.feed(lines[0].text@, lines[0].decimals@) {
                Ok(next) => next.feed_all(lines.drop_first()),
                Err(e) => Err(e),
            }
        }
    }

    /// The store that the lines read so far make up.
    pub open spec fn finish(self) -> ObjView {
        let p = self.seal_group().seal_object();
        ObjView {
            positions: p.positions,
            colors: p.colors,
            normals: p.normals,
            texcoords: p.texcoords,
            faces: p.faces,
            groups: p.groups,
            objects: p.objects,
        }
    }
}

/// The store that `lines` describe, or the first error among them.
pub open spec fn document_of(lines: Seq<SourceLine>) -> Result<ObjView, Fault> {
    match ParserView::start().feed_all(lines) {
        Ok(p) => Ok(p.finish()),
        Err(e) => Err(e),
    }
}

/// Sealing the open group keeps the state well formed.
pub proof fn lemma_seal_group_wf(p: ParserView)
    requires
        p.wf(),
    ensures
        p.seal_group().wf(),
        p.seal_group().group.start == p.seal_group().group.finish,
{
}

/// Sealing the open object keeps the state well formed.
pub proof fn lemma_seal_object_wf(p: ParserView)
    requires
        p.wf(),
    ensures
        p.seal_object().wf(),
        p.seal_object().object.start == p.seal_object().object.finish,
{
}

/// Every line that is accepted keeps the state well formed: the groups go on
/// covering the faces, and the objects the groups, in order and without gap or
/// overlap.
pub proof fn lemma_apply_wf(p: ParserView, line: LineView)
    requires
        p.wf(),
        p.apply(line) is Ok,
    ensures
        p.apply(line)->Ok_0.wf(),
{
    lemma_seal_group_wf(p);
    lemma_seal_object_wf(p.seal_group());
}

/// The store that a well-formed state makes up is well formed, and none of
/// its groups and objects is empty.
pub proof fn lemma_finish_wf(p: ParserView)
    requires
        p.wf(),
    ensures
        p.finish().wf(),
        p.finish().packed(),
{
    lemma_seal_group_wf(p);
    lemma_seal_object_wf(p.seal_group());
}

/// A second material library for an object that names one is refused, with
/// the name of the object.
pub proof fn lemma_second_library_refused(p: ParserView, name: Seq<char>)
    requires
        p.object.mtl is Some,
    ensures
        p.apply(LineView::MaterialLib(name)) == Err::<ParserView, Fault>(
            Fault::ObjectMultipleMtl(p.object.name),
        ),
{
}

/// A second material use for a group that names one is refused, with the name
/// of the group.
pub proof fn lemma_second_use_refused(p: ParserView, name: Seq<char>)
    requires
        p.group.mtl is Some,
    ensures
        p.apply(LineView::MaterialUse(name)) == Err::<ParserView, Fault>(
            Fault::GroupMultipleMtl(p.group.name),
        ),
{
}

/// A negative index counts back from the end of the list: `-1` is its last
/// item, `-count` its first.
pub proof fn lemma_resolve_relative(i: i32, count: u32)
    requires
        i < 0,
        -i <= count,
    ensures
        resolve(i, count) == count + i + 1,
        1 <= resolve(i, count) <= count,
{
}

/// One line of a mesh description together with the conversions of its
/// decimal fields.
#[derive(Debug)]
pub struct SourceLine {
    /// The line as it was read; a line break at its end does not matter.
    pub text: String,
    /// For each field that [`ObjObject::decimal_fields`] names for `text`, in
    /// order: the bit pattern of the single precision value that the field
    /// writes, or the error that its conversion gave.
    pub decimals: Vec<Decimal>,
}

/// The number of items read so far, as the grammar counts them.
fn count_of(len: usize) -> (c: u32)
    ensures
        c == running_count(len as int),
{
    ((len as u64) % 0x1_0000_0000) as u32
}

/// A parse in progress: it takes a mesh description line by line.
#[derive(Debug)]
pub struct Parser {
    vertices: Vec<(u32, u32, u32)>,
    vertex_colors: Vec<(u32, u32, u32)>,
    vertex_normals: Vec<(u32, u32, u32)>,
    texture_coords: Vec<(u32, u32)>,
    faces: Vec<FaceData>,
    groups: Vec<GroupingData>,
    objects: Vec<GroupingData>,
    current_group: GroupingData,
    current_object: GroupingData,
}

impl View for Parser {
    type V = ParserView;

    closed spec fn view(&self) -> ParserView {
        ParserView {
            positions: self.vertices@,
            colors: self.vertex_colors@,
            normals: self.vertex_normals@,
            texcoords: self.texture_coords@,
            faces: self.faces@,
            groups: segments(self.groups@),
            objects: segments(self.objects@),
            group: self.current_group@,
            object: self.current_object@,
        }
    }
}

impl Parser {
    /// A parse that has read nothing yet.
    pub fn new() -> (parser: Parser)
        ensures
            parser@ == ParserView::start(),
            parser@.wf(),
    {
        let parser = Parser {
            vertices: Vec::new(),
            vertex_colors: Vec::new(),
            vertex_normals: Vec::new(),
            texture_coords: Vec::new(),
            faces: Vec::new(),
            groups: Vec::new(),
            objects: Vec::new(),
            current_group: GroupingData { name: String::new(), mtl: None, start: 0, finish: 0 },
            current_object: GroupingData { name: String::new(), mtl: None, start: 0, finish: 0 },
        };
        assert(parser@.groups =~= Seq::empty());
        assert(parser@.objects =~= Seq::empty());
        parser
    }

    /// Seals the open group if it holds a face.
    fn seal_group(&mut self)
        requires
            old(self)@.wf(),
        ensures
            final(self)@ == old(self)@.seal_group(),
    {
        if self.current_group.start != self.current_group.finish {
            let n = self.faces.len();
            let mut finished = GroupingData { name: String::new(), mtl: None, start: n, finish: n };
            core::mem::swap(&mut self.current_group, &mut finished);
            assert(self.current_object.finish == self.groups.len()) by {
                assert(old(self)@.object.finish == segments(old(self).groups@).len());
            }
            self.groups.push(finished);
            assert(self.current_object.finish + 1 == self.groups.len());
            self.current_object.finish += 1;
            assert(self@.groups =~= old(self)@.groups.push(old(self)@.group));
        }
    }

    /// Seals the open object if it holds a group.
    fn seal_object(&mut self)
        requires
            old(self)@.wf(),
        ensures
            final(self)@ == old(self)@.seal_object(),
    {
        if self.current_object.start != self.current_object.finish {
            let n = self.groups.len();
            let mut finished = GroupingData { name: String::new(), mtl: None, start: n, finish: n };
            core::mem::swap(&mut self.current_object, &mut finished);
            self.objects.push(finished);
            assert(self@.objects =~= old(self)@.objects.push(old(self)@.object));
        }
    }

    /// Takes in what one line says.
    pub fn apply(&mut self, line: Line) -> (r: Result<(), Error>)
        requires
            old(self)@.wf(),
        ensures
            match old(self)@.apply(line@) {
                Ok(next) => r is Ok && final(self)@ == next && final(self)@.wf(),
                Err(f) => r is Err && r->Err_0@ == f && final(self)@ == old(self)@,
            },
    {
        proof {
            lemma_seal_group_wf(self@);
            lemma_seal_object_wf(self@.seal_group());
            if self@.apply(line@) is Ok {
                lemma_apply_wf(self@, line@);
            }
        }
        match line {
            Line::Empty | Line::Comment => {},
            Line::Vertex(v) => {
                self.vertices.push(v.position);
                if let Some(color) = v.color {
                    self.vertex_colors.push(color);
                }
            },
            Line::Normal(n) => {
                self.vertex_normals.push(n);
            },
            Line::TextureCoord(t) => {
                self.texture_coords.push(t);
            },
            Line::Face(f) => {
                assert(self.current_group.finish == self.faces.len());
                self.faces.push(f);
                assert(self.current_group.finish + 1 == self.faces.len());
                self.current_group.finish += 1;
            },
            Line::DoubleFace(f1, f2) => {
                assert(self.current_group.finish == self.faces.len());
                self.faces.push(f1);
                self.faces.push(f2);
                assert(self.current_group.finish + 2 == self.faces.len());
                self.current_group.finish += 2;
            },
            Line::Group(name) => {
                self.seal_group();
                self.current_group.name = name;
            },
            Line::Object(name) => {
                self.seal_group();
                self.seal_object();
                self.current_object.name = name;
            },
            Line::MaterialLib(name) => {
                if self.current_object.mtl.is_none() {
                    self.current_object.mtl = Some(name);
                } else {
                    return Err(Error::OjectMultipleMtl(self.current_object.name.clone()));
                }
            },
            Line::MaterialUse(name) => {
                if self.current_group.mtl.is_none() {
                    self.current_group.mtl = Some(name);
                } else {
                    return Err(Error::GroupMultipleMTl(self.current_group.name.clone()));
                }
            },
        }
        Ok(())
    }

    /// Takes in one line. `decimals` holds the conversions of the fields that
    /// [`ObjObject::decimal_fields`] names for it. After an error the state is
    /// as it was before the line.
    pub fn feed_line(&mut self, line: &str, decimals: &[Decimal]) -> (r: Result<(), Error>)
        requires
            old(self)@.wf(),
        ensures
            match old(self)@.feed(line@, decimals@) {
                Ok(next) => r is Ok && final(self)@ == next && final(self)@.wf(),
                Err(f) => r is Err && r->Err_0@ == f && final(self)@ == old(self)@,
            },
    {
        let v_count = count_of(self.vertices.len());
        let t_count = count_of(self.texture_coords.len());
        let n_count = count_of(self.vertex_normals.len());
        let parsed = ObjObject::parse_line(line, decimals, v_count, t_count, n_count)?;
        self.apply(parsed)
    }

    /// Ends the parse: seals what is open and hands over the store.
    pub fn finish(self) -> (obj: ObjObject)
        requires
            self@.wf(),
        ensures
            obj@ == self@.finish(),
            obj@.wf(),
            obj@.packed(),
    {
        let mut parser = self;
        proof {
            lemma_seal_group_wf(parser@);
            lemma_finish_wf(parser@);
        }
        parser.seal_group();
        parser.seal_object();
        ObjObject {
            vertices: parser.vertices,
            vertex_colors: parser.vertex_colors,
            vertex_normals: parser.vertex_normals,
            texture_coords: parser.texture_coords,
            faces: parser.faces,
            groups: parser.groups,
            objects: parser.objects,
        }
    }
}

impl ObjObject {

/// Reads a mesh description that is held in memory line by line.
///
/// The result is the store that the lines describe, or the error of the first
/// line that is refused.
pub fn parse(lines: &[SourceLine]) -> (r: Result<ObjObject, Error>)
    ensures
        match document_of(lines@) {
            Ok(store) => r is Ok && r->Ok_0@ == store && store.wf() && store.packed(),
            Err(f) => r is Err && r->Err_0@ == f,
        },
{
    let mut parser = Parser::new();
    let mut i: usize = 0;
    assert(lines@.skip(0) =~= lines@);
    while i < lines.len()
        invariant
            i <= lines.len(),
            parser@.wf(),
            ParserView::start().feed_all(lines@) == parser@.feed_all(lines@.skip(i as int)),
        decreases lines.len() - i,
    {
        assert(lines@.skip(i as int).drop_first() =~= lines@.skip(i + 1));
        match parser.feed_line(lines[i].text.as_str(), lines[i].decimals.as_slice()) {
            Ok(()) => {},
            Err(e) => {
                return Err(e);
            },
        }
        i += 1;
    }
    Ok(parser.finish())
}

} // impl ObjObject

} // verus!
