use polypath::parse::FaceData;
use polypath::parse::Line;
use polypath::text::split_fields;
use polypath::Error;
use polypath::ObjObject;
use std::num::ParseFloatError;

fn decimals(data: &str) -> Vec<Result<u32, ParseFloatError>> {
    split_fields(data).iter().map(|t| t.parse::<f32>().map(f32::to_bits)).collect()
}

fn bits3(x: f32, y: f32, z: f32) -> (u32, u32, u32) {
    (x.to_bits(), y.to_bits(), z.to_bits())
}

fn line(text: &str, v: u32, t: u32, n: u32) -> Result<Line, Error> {
    let fields: Vec<Result<u32, ParseFloatError>> = ObjObject::decimal_fields(text)
        .iter()
        .map(|t| t.parse::<f32>().map(f32::to_bits))
        .collect();
    ObjObject::parse_line(text, &fields, v, t, n)
}

#[test]
fn test_vertex_no_color() {
    let line = "1.0  1.2  0.0";

    let res = ObjObject::parse_vertex(&decimals(line)).unwrap();

    assert_eq!(res.position, bits3(1.0, 1.2, 0.0));
    assert!(res.color.is_none());
}

#[test]
fn test_vertex_with_color() {
    let line = "1.0  1.2  0.0  255.0 123.0 90.0";

    let res = ObjObject::parse_vertex(&decimals(line)).unwrap();

    assert_eq!(res.position, bits3(1.0, 1.2, 0.0));
    assert_eq!(res.color, Some(bits3(255.0, 123.0, 90.0)));
}

#[test]
fn test_normal() {
    let line = "0.5 0.0 -1.0";

    let res = ObjObject::parse_normal(&decimals(line)).unwrap();

    assert_eq!(res, bits3(0.5, 0.0, -1.0));
}

#[test]
fn test_face_itn() {
    let line = "123/5445/123 456/123/1231 789/113/12";

    let (res, f2) = ObjObject::parse_face(line, 0, 0, 0).unwrap();
    assert!(f2.is_none());
    assert_eq!(
        res,
        FaceData {
            indicies: (123, 456, 789),
            texture_indcicies: Some((5445, 123, 113)),
            normal_indicies: Some((123, 1231, 12))
        }
    );
}

#[test]
fn test_face_it() {
    let line = "123/5445 456/123 789/113";

    let (res, f2) = ObjObject::parse_face(line, 0, 0, 0).unwrap();
    assert!(f2.is_none());
    assert_eq!(
        res,
        FaceData {
            indicies: (123, 456, 789),
            texture_indcicies: Some((5445, 123, 113)),
            normal_indicies: None,
        }
    );
}

#[test]
fn test_face_i() {
    let line = "123 456 789";

    let (res, f2) = ObjObject::parse_face(line, 0, 0, 0).unwrap();
    assert!(f2.is_none());
    assert_eq!(
        res,
        FaceData {
            indicies: (123, 456, 789),
            texture_indcicies: None,
            normal_indicies: None,
        }
    );
}

#[test]
fn test_face_in() {
    let line = "123//123 456//1231 789//12";

    let (res, f2) = ObjObject::parse_face(line, 0, 0, 0).unwrap();
    assert!(f2.is_none());
    assert_eq!(
        res,
        FaceData {
            indicies: (123, 456, 789),
            texture_indcicies: None,
            normal_indicies: Some((123, 1231, 12)),
        }
    );
}

#[test]
fn test_face_negativ() {
    //                 i  t  n  i  t  n  i  t  n
    let line = "-2/-3/-1 -1/-1/-1 -5/-2/-3";

    let (res, f2) = ObjObject::parse_face(line, 10, 4, 7).unwrap();
    assert!(f2.is_none());
    assert_eq!(
        res,
        FaceData {
            indicies: (9, 10, 6),
            texture_indcicies: Some((2, 4, 3)),
            normal_indicies: Some((7, 7, 5)),
        }
    );
}

#[test]
fn test_face_double() {
    let line = "123/5445/123 456/123/1231 789/113/12 509/111/576";

    let (f1, f2) = ObjObject::parse_face(line, 0, 0, 0).unwrap();
    assert_eq!(
        f1,
        FaceData {
            indicies: (123, 456, 789),
            texture_indcicies: Some((5445, 123, 113)),
            normal_indicies: Some((123, 1231, 12))
        }
    );

    assert_eq!(
        f2,
        Some(FaceData {
            indicies: (123, 789, 509),
            texture_indcicies: Some((5445, 113, 111)),
            normal_indicies: Some((123, 12, 576)),
        })
    );
}

#[test]
fn negative_indices_count_back_from_the_end() {
    let (res, f2) = ObjObject::parse_face("-1/-1/-1 -2/-2/-2 -3/-3/-3", 5, 5, 5).unwrap();
    assert!(f2.is_none());
    assert_eq!(
        res,
        FaceData {
            indicies: (5, 4, 3),
            texture_indcicies: Some((5, 4, 3)),
            normal_indicies: Some((5, 4, 3)),
        }
    );
}

#[test]
fn negative_index_below_the_first_item_wraps() {
    let (res, _) = ObjObject::parse_face("-5 1 2", 0, 0, 0).unwrap();
    assert_eq!(res.indicies, (4294967292, 1, 2));
}

#[test]
fn quad_is_cut_along_first_diagonal() {
    let (f1, f2) = ObjObject::parse_face("1 2 3 4", 4, 0, 0).unwrap();
    assert_eq!(f1.indicies, (1, 2, 3));
    assert_eq!(f2.unwrap().indicies, (1, 3, 4));
    assert_eq!(f1.normal_indicies, None);
    assert_eq!(f2.unwrap().texture_indcicies, None);
}

#[test]
fn triangulate_keeps_attributes_of_each_corner() {
    let [a, b] = ObjObject::triangulate([1, 2, 3, 4], Some([5, 6, 7, 8]), None);
    assert_eq!(a.indicies, (1, 2, 3));
    assert_eq!(b.indicies, (1, 3, 4));
    assert_eq!(a.normal_indicies, Some((5, 6, 7)));
    assert_eq!(b.normal_indicies, Some((5, 7, 8)));
    assert_eq!(a.texture_indcicies, None);
    assert_eq!(b.texture_indcicies, None);
}

#[test]
fn face_with_two_corners_ends_too_early() {
    assert!(matches!(ObjObject::parse_face("1 2", 3, 0, 0), Err(Error::UnexpectedEoL)));
    assert!(matches!(ObjObject::parse_face("", 3, 0, 0), Err(Error::UnexpectedEoL)));
}

#[test]
fn face_index_must_be_an_integer() {
    assert!(matches!(ObjObject::parse_face("1 x 3", 3, 0, 0), Err(Error::ParseI(_))));
    assert!(matches!(ObjObject::parse_face("1.5 2 3", 3, 0, 0), Err(Error::ParseI(_))));
    assert!(matches!(ObjObject::parse_face("1/2/ 2/2/2 3/3/3", 3, 3, 3), Err(Error::ParseI(_))));
    assert!(matches!(ObjObject::parse_face("99999999999 2 3", 3, 0, 0), Err(Error::ParseI(_))));
    // the second corner is looked at before a third is missed
    assert!(matches!(ObjObject::parse_face("1 x", 3, 0, 0), Err(Error::ParseI(_))));
}

#[test]
fn face_with_explicit_plus_sign() {
    let (res, _) = ObjObject::parse_face("+1 +2 +3", 3, 0, 0).unwrap();
    assert_eq!(res.indicies, (1, 2, 3));
}

#[test]
fn face_with_five_corners_is_unsupported() {
    match ObjObject::parse_face("1 2 3 4 5", 5, 0, 0) {
        Err(Error::Unsupported(data)) => assert_eq!(data, "1 2 3 4 5"),
        other => panic!("unexpected: {:?}", other),
    }
}

#[test]
fn face_with_mixed_corners_is_unsupported() {
    assert!(matches!(ObjObject::parse_face("1/1 2 3", 3, 3, 0), Err(Error::Unsupported(_))));
    assert!(matches!(ObjObject::parse_face("1//1 2//2 3", 3, 0, 3), Err(Error::Unsupported(_))));
    assert!(matches!(
        ObjObject::parse_face("1//1 2//2 3//3 4", 4, 0, 4),
        Err(Error::Unsupported(_))
    ));
    assert!(matches!(ObjObject::parse_face("1 2 3 4/4", 4, 4, 0), Err(Error::Unsupported(_))));
}

#[test]
fn single_corner_forms() {
    assert_eq!(polypath::parse::parse_single("7", 0, 0, 0).unwrap(), (7, None, None));
    assert_eq!(polypath::parse::parse_single("7/8", 0, 0, 0).unwrap(), (7, Some(8), None));
    assert_eq!(polypath::parse::parse_single("7//9", 0, 0, 0).unwrap(), (7, None, Some(9)));
    assert_eq!(polypath::parse::parse_single("7/8/9", 0, 0, 0).unwrap(), (7, Some(8), Some(9)));
    assert_eq!(polypath::parse::parse_single("-1/-1/-1", 3, 4, 5).unwrap(), (3, Some(4), Some(5)));
    assert_eq!(polypath::parse::resolve_index(-1, 10), 10);
    assert_eq!(polypath::parse::resolve_index(-10, 10), 1);
    assert_eq!(polypath::parse::resolve_index(0, 10), 0);
    assert_eq!(polypath::parse::resolve_index(3, 10), 3);
}

#[test]
fn vertex_errors() {
    assert!(matches!(ObjObject::parse_vertex(&decimals("1.0 2.0")), Err(Error::UnexpectedEoL)));
    assert!(matches!(ObjObject::parse_vertex(&decimals("")), Err(Error::UnexpectedEoL)));
    assert!(matches!(ObjObject::parse_vertex(&decimals("1.0 abc 3.0")), Err(Error::ParseF(_))));
    assert!(matches!(ObjObject::parse_vertex(&decimals("abc")), Err(Error::ParseF(_))));
    assert!(matches!(
        ObjObject::parse_vertex(&decimals("1 2 3 0.5")),
        Err(Error::NonUniformColors)
    ));
    assert!(matches!(
        ObjObject::parse_vertex(&decimals("1 2 3 0.5 0.5")),
        Err(Error::NonUniformColors)
    ));
    assert!(matches!(ObjObject::parse_vertex(&decimals("1 2 3 x")), Err(Error::ParseF(_))));
}

#[test]
fn normal_and_texture_coordinate_errors() {
    assert!(matches!(ObjObject::parse_normal(&decimals("1.0 2.0")), Err(Error::UnexpectedEoL)));
    assert!(matches!(ObjObject::parse_normal(&decimals("1.0 2.0 z")), Err(Error::ParseF(_))));
    assert!(matches!(
        ObjObject::parse_texture_coord(&decimals("1.0")),
        Err(Error::UnexpectedEoL)
    ));
    assert_eq!(
        ObjObject::parse_texture_coord(&decimals("0.25 0.75")).unwrap(),
        (0.25f32.to_bits(), 0.75f32.to_bits())
    );
}

#[test]
fn lines_are_classified_by_their_leading_token() {
    assert!(matches!(line("", 0, 0, 0), Ok(Line::Empty)));
    assert!(matches!(line("   \t \n", 0, 0, 0), Ok(Line::Empty)));
    assert!(matches!(line("# a comment", 0, 0, 0), Ok(Line::Comment)));
    assert!(matches!(line("  #x", 0, 0, 0), Ok(Line::Comment)));
    match line("v 1 2 3\n", 0, 0, 0) {
        Ok(Line::Vertex(v)) => {
            assert_eq!(v.position, bits3(1.0, 2.0, 3.0));
            assert_eq!(v.color, None);
        }
        other => panic!("unexpected: {:?}", other),
    }
    match line("vn 0 0 1", 0, 0, 0) {
        Ok(Line::Normal(n)) => assert_eq!(n, bits3(0.0, 0.0, 1.0)),
        other => panic!("unexpected: {:?}", other),
    }
    match line("vt 0.5 1", 0, 0, 0) {
        Ok(Line::TextureCoord(t)) => assert_eq!(t, (0.5f32.to_bits(), 1.0f32.to_bits())),
        other => panic!("unexpected: {:?}", other),
    }
    match line("f 1 2 3", 3, 0, 0) {
        Ok(Line::Face(f)) => assert_eq!(f.indicies, (1, 2, 3)),
        other => panic!("unexpected: {:?}", other),
    }
    match line("f 1 2 3 -1", 4, 0, 0) {
        Ok(Line::DoubleFace(a, b)) => {
            assert_eq!(a.indicies, (1, 2, 3));
            assert_eq!(b.indicies, (1, 3, 4));
        }
        other => panic!("unexpected: {:?}", other),
    }
    match line("o  my object  ", 0, 0, 0) {
        Ok(Line::Object(name)) => assert_eq!(name, "my object"),
        other => panic!("unexpected: {:?}", other),
    }
    match line("g wheel", 0, 0, 0) {
        Ok(Line::Group(name)) => assert_eq!(name, "wheel"),
        other => panic!("unexpected: {:?}", other),
    }
    match line("mtllib scene.mtl", 0, 0, 0) {
        Ok(Line::MaterialLib(name)) => assert_eq!(name, "scene.mtl"),
        other => panic!("unexpected: {:?}", other),
    }
    match line("usemtl steel", 0, 0, 0) {
        Ok(Line::MaterialUse(name)) => assert_eq!(name, "steel"),
        other => panic!("unexpected: {:?}", other),
    }
}

#[test]
fn lines_that_are_refused() {
    match line("  curv 1 2 3 ", 0, 0, 0) {
        Err(Error::UnkownLine(text)) => assert_eq!(text, "curv 1 2 3"),
        other => panic!("unexpected: {:?}", other),
    }
    match line("s 1", 0, 0, 0) {
        Err(Error::Unsupported(text)) => assert_eq!(text, "s 1"),
        other => panic!("unexpected: {:?}", other),
    }
    assert!(matches!(line("mtllib", 0, 0, 0), Err(Error::EmptyMtl)));
    assert!(matches!(line("usemtl   ", 0, 0, 0), Err(Error::EmptyMtl)));
    assert!(matches!(line("v 1 2", 0, 0, 0), Err(Error::UnexpectedEoL)));
    assert!(matches!(line("v", 0, 0, 0), Err(Error::UnexpectedEoL)));
    assert!(matches!(line("v 1 2 q", 0, 0, 0), Err(Error::ParseF(_))));
    assert!(matches!(line("f 1 2", 0, 0, 0), Err(Error::UnexpectedEoL)));
    assert!(matches!(line("vx 1 2 3", 0, 0, 0), Err(Error::UnkownLine(_))));
}

#[test]
fn decimal_fields_are_those_of_vertex_lines() {
    assert_eq!(ObjObject::decimal_fields("v 1.0  2 \t3e1\n"), vec!["1.0", "2", "3e1"]);
    assert_eq!(ObjObject::decimal_fields("vn 1 2 3"), vec!["1", "2", "3"]);
    assert_eq!(ObjObject::decimal_fields("vt 1 2"), vec!["1", "2"]);
    assert!(ObjObject::decimal_fields("f 1 2 3").is_empty());
    assert!(ObjObject::decimal_fields("# v 1 2 3").is_empty());
    assert!(ObjObject::decimal_fields("").is_empty());
    assert!(ObjObject::decimal_fields("v").is_empty());
}

#[test]
fn text_helpers() {
    assert_eq!(polypath::text::trim_str("  a b \u{3000}\n"), "a b");
    assert_eq!(polypath::text::trim_str(" \t "), "");
    assert_eq!(split_fields(" a  bc\td "), vec!["a", "bc", "d"]);
    assert!(split_fields("   ").is_empty());
    assert_eq!(polypath::text::split_pieces("a//b", '/'), vec!["a", "", "b"]);
    assert_eq!(polypath::text::split_pieces("", '/'), vec![""]);
    assert_eq!(polypath::text::split_pieces("a/", '/'), vec!["a", ""]);
    assert!(polypath::text::same_text("abc", "abc"));
    assert!(!polypath::text::same_text("abc", "abd"));
    assert!(!polypath::text::same_text("abc", "ab"));
    assert_eq!(polypath::text::to_chars("h\u{e9}"), vec!['h', '\u{e9}']);
    for c in ['\t', '\n', '\u{b}', '\u{c}', '\r', ' ', '\u{85}', '\u{a0}', '\u{1680}', '\u{2000}', '\u{200a}', '\u{2028}', '\u{2029}', '\u{202f}', '\u{205f}', '\u{3000}', 'a', '0', '\u{200b}', '\u{feff}', '\u{1c}'] {
        assert_eq!(polypath::text::char_is_space(c), c.is_whitespace());
    }
}

#[test]
fn error_messages() {
    assert_eq!(Error::UnexpectedEoL.message(), "Unexpected end-of-line\n");
    assert_eq!(Error::EmptyMtl.message(), "Empty material [lib/use]\n");
    assert_eq!(
        Error::NonUniformColors.message(),
        "Vertex colors are specified for some vertices, but not all\n"
    );
    assert_eq!(
        Error::UnkownLine(String::from("x y")).message(),
        "Encounterd a unknown line: [x y]\n"
    );
    assert_eq!(
        Error::OjectMultipleMtl(String::from("car")).message(),
        "Multiple material lib defined for object [car]\n"
    );
    assert_eq!(
        Error::GroupMultipleMTl(String::from("wheel")).message(),
        "Multiple material uses defined for group [wheel]\n"
    );
    assert_eq!(Error::Unsupported(String::from("s 1")).message(), "Unsupported line: [s 1]\n");
    let int_error = "x".parse::<i32>().unwrap_err();
    assert_eq!(Error::from(int_error.clone()).message(), format!("{}\n", int_error));
    let float_error = "x".parse::<f32>().unwrap_err();
    assert_eq!(Error::from(float_error.clone()).message(), format!("{}\n", float_error));
    let io_error = std::io::Error::new(std::io::ErrorKind::NotFound, "gone");
    assert_eq!(Error::from(io_error).message(), "gone\n");
}

#[test]
fn white_space_is_what_the_standard_library_calls_so() {
    for code in 0..=0x10FFFFu32 {
        if let Some(c) = char::from_u32(code) {
            assert_eq!(polypath::text::char_is_space(c), c.is_whitespace(), "U+{code:04X}");
        }
    }
}

#[test]
fn scanning_agrees_with_the_standard_library() {
    let samples = [
        "",
        " ",
        "v 1 2 3",
        "\u{feff}v 1 2 3",
        "  f\u{a0}1/2/3\u{2003} 4//5\t6 \r\n",
        "\u{3000}\u{3000}",
        "a\u{85}b\u{1680}c\u{2028}d\u{2029}e\u{202f}f\u{205f}g",
        "usemtl  name with  spaces  ",
        "\u{1f600} x \u{e9}\u{e9} ",
    ];
    for s in samples {
        assert_eq!(polypath::text::trim_str(s), s.trim());
        let expected: Vec<&str> = s.split_whitespace().collect();
        assert_eq!(split_fields(s), expected);
        let expected: Vec<&str> = s.split('/').collect();
        assert_eq!(polypath::text::split_pieces(s, '/'), expected);
        let expected: Vec<char> = s.chars().collect();
        assert_eq!(polypath::text::to_chars(s), expected);
    }
}

#[test]
fn integers_are_read_as_the_standard_library_reads_them() {
    let accepted = [("0", 0), ("-0", 0), ("+7", 7), ("007", 7), ("2147483647", 2147483647), ("-1", -1i64)];
    for (text, value) in accepted {
        let count = 10u32;
        let expected = if value < 0 { (count as i64 + value + 1) as u32 } else { value as u32 };
        assert_eq!(polypath::parse::parse_single(text, count, 0, 0).unwrap().0, expected);
    }
    assert_eq!(polypath::parse::parse_single("-2147483648", u32::MAX, 0, 0).unwrap().0, 2147483648);
    for text in ["", "-", "+", "1_0", " 1", "1 ", "2147483648", "-2147483649", "0x10", "1e3", "\u{661}"] {
        assert!(
            matches!(polypath::parse::parse_single(text, 10, 0, 0), Err(Error::ParseI(_))),
            "{text:?}"
        );
    }
}

#[test]
fn decimal_error_is_handed_on_as_it_came() {
    let failure = "1.2.3".parse::<f32>().unwrap_err();
    match ObjObject::parse_vertex(&[Ok(1), Err(failure.clone()), Ok(3)]) {
        Err(Error::ParseF(e)) => assert_eq!(e, failure),
        other => panic!("unexpected: {:?}", other),
    }
    let empty = "".parse::<f32>().unwrap_err();
    match ObjObject::parse_normal(&[Err(empty.clone()), Err(failure)]) {
        Err(Error::ParseF(e)) => assert_eq!(e, empty),
        other => panic!("unexpected: {:?}", other),
    }
}
