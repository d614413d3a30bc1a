//! Path resolution, number codecs, grid decoding, and the property model.

use tilemap_loader::coords::pixel_to_tile;
use tilemap_loader::digits::{encode_i64, encode_u64, parse_i64, parse_u64, parse_unsigned};
use tilemap_loader::float_text::is_float_literal;
use tilemap_loader::grid::decode_grid;
use tilemap_loader::property::{
    decode_property, encode_property, ObjectProperty, ParseError, Rgba,
};
use tilemap_loader::records::{
    get_property_value_from_object_or_default_b, get_property_value_from_object_or_default_c,
    get_property_value_from_object_or_default_i, get_property_value_from_object_or_default_s,
    NamedProperty, ObjectData,
};
use tilemap_loader::resolve;
use tilemap_loader::text::parse_bool;

#[test]
fn resolve_same_directory() {
    let r = resolve(b"sprites.tsx", b"res/maps/tutorial/0.tmx");
    assert_eq!(r, b"res/maps/tutorial/sprites.tsx".to_vec());
}

#[test]
fn resolve_parent_directories() {
    let r = resolve(b"../../sprites.tsx", b"res/maps/tutorial/0.tmx");
    assert_eq!(r, b"res/sprites.tsx".to_vec());
}

#[test]
fn resolve_directory_segment() {
    let r = resolve(b"gfx/tiles.png", b"res/maps/0.tmx");
    assert_eq!(r, b"res/maps/gfx/tiles.png".to_vec());
}

#[test]
fn resolve_past_root_is_ignored() {
    let r = resolve(b"../../../../x.png", b"a/b.tmx");
    assert_eq!(r, b"x.png".to_vec());
}

#[test]
fn resolve_treats_dotted_segments_as_file_names() {
    // A segment containing a `.` is appended verbatim, without a separator.
    let r = resolve(b"a.b/c.png", b"res/0.tmx");
    assert_eq!(r, b"res/a.bc.png".to_vec());
}

#[test]
fn grid_decodes_with_newline_and_trailing_comma() {
    let cells = decode_grid(b"1,2,0,\n3,4,0,", 3, 2).unwrap();
    assert_eq!(cells, vec![1, 2, 0, 3, 4, 0]);
}

#[test]
fn grid_decodes_without_trailing_comma() {
    let cells = decode_grid(b" 1, 2,\t0,3,4 ,0", 3, 2).unwrap();
    assert_eq!(cells, vec![1, 2, 0, 3, 4, 0]);
}

#[test]
fn grid_size_mismatch_is_fatal() {
    assert_eq!(
        decode_grid(b"1,2,0,3,4,0", 3, 3),
        Err(ParseError::ValueParseError)
    );
    assert_eq!(decode_grid(b"1,2", 0, 2), Err(ParseError::ValueParseError));
}

#[test]
fn grid_bad_tokens_are_fatal() {
    assert_eq!(decode_grid(b"1,x,0", 3, 1), Err(ParseError::ValueParseError));
    assert_eq!(decode_grid(b"1,,0", 3, 1), Err(ParseError::ValueParseError));
    assert_eq!(decode_grid(b"1,256,0", 3, 1), Err(ParseError::ValueParseError));
    assert_eq!(decode_grid(b"1,-1,0", 3, 1), Err(ParseError::ValueParseError));
}

#[test]
fn unsigned_parse_is_exact() {
    assert_eq!(parse_u64(b"007"), Some(7));
    assert_eq!(parse_u64(b"18446744073709551615"), Some(u64::MAX));
    assert_eq!(parse_u64(b"18446744073709551616"), None);
    assert_eq!(parse_u64(b""), None);
    assert_eq!(parse_u64(b"1 2"), None);
    assert_eq!(parse_unsigned(b"+42", u64::MAX), Some(42));
    assert_eq!(parse_unsigned(b"300", 255), None);
}

#[test]
fn signed_parse_is_exact() {
    assert_eq!(parse_i64(b"-5"), Some(-5));
    assert_eq!(parse_i64(b"+5"), Some(5));
    assert_eq!(parse_i64(b"-9223372036854775808"), Some(i64::MIN));
    assert_eq!(parse_i64(b"-9223372036854775809"), None);
    assert_eq!(parse_i64(b"9223372036854775807"), Some(i64::MAX));
    assert_eq!(parse_i64(b"9223372036854775808"), None);
    assert_eq!(parse_i64(b"-"), None);
    assert_eq!(parse_i64(b"--1"), None);
}

#[test]
fn decimal_encoding_reads_back() {
    assert_eq!(encode_u64(0), b"0".to_vec());
    assert_eq!(encode_u64(1090), b"1090".to_vec());
    assert_eq!(encode_i64(-5), b"-5".to_vec());
    assert_eq!(encode_i64(i64::MIN), b"-9223372036854775808".to_vec());
    assert_eq!(parse_i64(&encode_i64(i64::MIN)), Some(i64::MIN));
}

#[test]
fn boolean_literals_are_strict() {
    assert_eq!(parse_bool(b"true"), Some(true));
    assert_eq!(parse_bool(b"false"), Some(false));
    assert_eq!(parse_bool(b"True"), None);
    assert_eq!(parse_bool(b"1"), None);
}

#[test]
fn float_grammar_matches_host_parse() {
    for ok in ["2.5", "-2.5e-3", ".5", "5.", "+17", "INF", "Infinity", "nan", "1E9"] {
        assert!(is_float_literal(ok.as_bytes()), "{ok}");
        assert!(ok.parse::<f64>().is_ok(), "{ok}");
    }
    for bad in ["", "-", "1.2.3", "e5", "1e", "0x1", "no", "infinityy", "4,5"] {
        assert!(!is_float_literal(bad.as_bytes()), "{bad}");
        assert!(bad.parse::<f64>().is_err(), "{bad}");
    }
}

#[test]
fn property_decoding_per_tag() {
    assert_eq!(
        decode_property(b"bool", b"true"),
        Ok(ObjectProperty::Bool { value: true })
    );
    assert_eq!(
        decode_property(b"int", b"-5"),
        Ok(ObjectProperty::Int { value: -5 })
    );
    assert_eq!(
        decode_property(b"object", b"7"),
        Ok(ObjectProperty::Obj { value: 7 })
    );
    assert_eq!(
        decode_property(b"float", b"2.5"),
        Ok(ObjectProperty::Float { value: b"2.5".to_vec() })
    );
    assert_eq!(
        decode_property(b"string", b"hi there"),
        Ok(ObjectProperty::Str { value: b"hi there".to_vec() })
    );
    assert_eq!(
        decode_property(b"file", b"../a.png"),
        Ok(ObjectProperty::File { value: b"../a.png".to_vec() })
    );
    assert_eq!(
        decode_property(b"color", b"#ff00ff00"),
        Ok(ObjectProperty::Color { value: Rgba { r: 255, g: 255, b: 255, a: 255 } })
    );
}

#[test]
fn property_decoding_errors() {
    assert_eq!(
        decode_property(b"unknown", b"x"),
        Err(ParseError::UnsupportedPropertyType)
    );
    assert_eq!(decode_property(b"bool", b"yes"), Err(ParseError::ValueParseError));
    assert_eq!(decode_property(b"int", b"4.5"), Err(ParseError::ValueParseError));
    assert_eq!(decode_property(b"float", b"abc"), Err(ParseError::ValueParseError));
    assert_eq!(decode_property(b"object", b"-1"), Err(ParseError::ValueParseError));
    assert_eq!(
        decode_property(b"object", b"4294967296"),
        Err(ParseError::ValueParseError)
    );
}

#[test]
fn property_round_trip_per_tag() {
    let cases: Vec<(&[u8], &[u8])> = vec![
        (b"bool", b"true"),
        (b"bool", b"false"),
        (b"int", b"-5"),
        (b"object", b"7"),
        (b"float", b"2.5e-3"),
        (b"file", b"../a.png"),
        (b"string", b"hi"),
    ];
    for (tag, text) in cases {
        let p = decode_property(tag, text).unwrap();
        let encoded = encode_property(&p).unwrap();
        assert_eq!(decode_property(tag, &encoded), Ok(p));
    }
}

#[test]
fn color_properties_cannot_be_reencoded() {
    let p = decode_property(b"color", b"#01020304").unwrap();
    assert_eq!(encode_property(&p), None);
}

#[test]
fn pixel_positions_become_tile_coordinates() {
    assert_eq!(pixel_to_tile(b"48.0", 16), Some(3));
    assert_eq!(pixel_to_tile(b"32.0", 16), Some(2));
    assert_eq!(pixel_to_tile(b"47.9", 16), Some(2));
    assert_eq!(pixel_to_tile(b"48", 16), Some(3));
    assert_eq!(pixel_to_tile(b"-48.0", 16), Some(0));
    assert_eq!(pixel_to_tile(b"99999999999999999999999999", 16), Some(65535));
    assert_eq!(pixel_to_tile(b"4.5.6", 16), None);
    assert_eq!(pixel_to_tile(b"x", 16), None);
}

fn sample_object() -> ObjectData {
    ObjectData {
        id: 1,
        x: 0,
        y: 0,
        properties: vec![
            NamedProperty { name: b"hp".to_vec(), value: ObjectProperty::Int { value: 12 } },
            NamedProperty {
                name: b"tag".to_vec(),
                value: ObjectProperty::Str { value: b"Mover".to_vec() },
            },
            NamedProperty { name: b"brave".to_vec(), value: ObjectProperty::Bool { value: true } },
            NamedProperty {
                name: b"tint".to_vec(),
                value: ObjectProperty::Color { value: Rgba { r: 255, g: 255, b: 255, a: 255 } },
            },
        ],
    }
}

#[test]
fn property_getters_find_first_match() {
    let obj = sample_object();
    assert_eq!(
        get_property_value_from_object_or_default_i(&obj, b"hp", -1),
        12
    );
    assert_eq!(
        get_property_value_from_object_or_default_s(&obj, b"tag", b"none".to_vec()),
        b"Mover".to_vec()
    );
    assert!(get_property_value_from_object_or_default_b(&obj, b"brave", false));
    assert_eq!(
        get_property_value_from_object_or_default_c(
            &obj,
            b"tint",
            Rgba { r: 0, g: 0, b: 0, a: 0 }
        ),
        Rgba { r: 255, g: 255, b: 255, a: 255 }
    );
}

#[test]
fn property_getters_fall_back_to_default() {
    let obj = sample_object();
    assert_eq!(
        get_property_value_from_object_or_default_i(&obj, b"missing", -1),
        -1
    );
    // A name that exists under another type also falls back.
    assert_eq!(
        get_property_value_from_object_or_default_i(&obj, b"tag", -1),
        -1
    );
    assert_eq!(
        get_property_value_from_object_or_default_s(&obj, b"hp", b"none".to_vec()),
        b"none".to_vec()
    );
    assert!(!get_property_value_from_object_or_default_b(&obj, b"hp", false));
}
