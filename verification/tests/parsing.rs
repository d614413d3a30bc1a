//! The three parse entry points, run on whole documents.

use tilemap_loader::parser::{parse_map, parse_spritesheet, parse_template};
use tilemap_loader::property::{ObjectProperty, ParseError};

const MAP_DOC: &str = r#"<?xml version="1.0" encoding="UTF-8"?>
<map version="1.10" tilewidth="16" tileheight="16">
 <tileset firstgid="1" source="../../sprites.tsx"/>
 <layer id="1" name="floor" width="3" height="2">
  <data encoding="csv">1,2,0,
3,4,0,</data>
 </layer>
 <objectgroup id="2" name="things">
  <object id="7" template="goblin.tx" x="48.0" y="32.0">
   <properties>
    <property name="Components" type="string" value="Mover"/>
    <property name="hp" type="int" value="12"/>
   </properties>
  </object>
  <object id="9" template="chest.tx" x="16" y="0"/>
 </objectgroup>
</map>
"#;

#[test]
fn map_parses_into_typed_record() {
    let (map, requests) = parse_map(MAP_DOC, b"res/maps/tutorial/0.tmx").unwrap();
    assert_eq!(map.width, 3);
    assert_eq!(map.height, 2);
    assert_eq!(map.data, vec![1, 2, 0, 3, 4, 0]);
    assert_eq!(map.sprite_sheet, b"res/sprites.tsx".to_vec());
    assert_eq!(map.objects.len(), 2);

    let first = &map.objects[0];
    assert_eq!(first.id, 7);
    assert_eq!(first.template, b"res/maps/tutorial/goblin.tx".to_vec());
    assert_eq!((first.x, first.y), (3, 2));
    assert_eq!(first.properties.len(), 2);
    assert_eq!(first.properties[0].name, b"Components".to_vec());
    assert_eq!(
        first.properties[0].value,
        ObjectProperty::Str { value: b"Mover".to_vec() }
    );
    assert_eq!(first.properties[1].value, ObjectProperty::Int { value: 12 });

    let second = &map.objects[1];
    assert_eq!(second.id, 9);
    assert_eq!(second.template, b"res/maps/tutorial/chest.tx".to_vec());
    assert_eq!((second.x, second.y), (1, 0));
    assert!(second.properties.is_empty());

    assert_eq!(
        requests,
        vec![
            b"res/maps/tutorial/goblin.tx".to_vec(),
            b"res/maps/tutorial/chest.tx".to_vec(),
            b"res/sprites.tsx".to_vec(),
        ]
    );
}

#[test]
fn map_without_objectgroup_is_missing_element() {
    let doc = r#"<map tilewidth="16">
 <tileset source="s.tsx"/>
 <layer width="1" height="1"><data>0</data></layer>
</map>"#;
    assert_eq!(
        parse_map(doc, b"res/0.tmx"),
        Err(ParseError::MissingElement)
    );
}

#[test]
fn malformed_markup_is_document_error() {
    assert_eq!(
        parse_map("<map tilewidth='16'>", b"res/0.tmx"),
        Err(ParseError::DocumentParseError)
    );
}

#[test]
fn map_missing_tilewidth_is_missing_attribute() {
    let doc = r#"<map>
 <tileset source="s.tsx"/>
 <layer width="1" height="1"><data>0</data></layer>
 <objectgroup/>
</map>"#;
    assert_eq!(
        parse_map(doc, b"res/0.tmx"),
        Err(ParseError::MissingAttribute)
    );
}

#[test]
fn map_bad_tilewidth_is_value_error() {
    for bad in ["x", "0", "-16"] {
        let doc = format!(
            r#"<map tilewidth="{bad}">
 <tileset source="s.tsx"/>
 <layer width="1" height="1"><data>0</data></layer>
 <objectgroup/>
</map>"#
        );
        assert_eq!(
            parse_map(&doc, b"res/0.tmx"),
            Err(ParseError::ValueParseError),
            "{bad}"
        );
    }
}

#[test]
fn map_grid_size_mismatch_is_value_error() {
    let doc = r#"<map tilewidth="16">
 <tileset source="s.tsx"/>
 <layer width="2" height="2"><data>1,2,3</data></layer>
 <objectgroup/>
</map>"#;
    assert_eq!(
        parse_map(doc, b"res/0.tmx"),
        Err(ParseError::ValueParseError)
    );
}

#[test]
fn map_unknown_property_type_is_fatal() {
    let doc = r#"<map tilewidth="16">
 <tileset source="s.tsx"/>
 <layer width="1" height="1"><data>0</data></layer>
 <objectgroup>
  <object id="1" template="t.tx" x="0" y="0">
   <properties><property name="p" type="matrix" value="x"/></properties>
  </object>
 </objectgroup>
</map>"#;
    assert_eq!(
        parse_map(doc, b"res/0.tmx"),
        Err(ParseError::UnsupportedPropertyType)
    );
}

#[test]
fn spritesheet_parses_into_typed_record() {
    let doc = r#"<tileset version="1.10" tilewidth="16" columns="10" tilecount="100">
 <image source="img/sheet.png" width="160" height="160"/>
</tileset>"#;
    let (sheet, requests) = parse_spritesheet(doc, b"res/sprites.tsx").unwrap();
    assert_eq!(sheet.tile_width, 16);
    assert_eq!(sheet.columns, 10);
    assert_eq!(sheet.sprite, b"res/img/sheet.png".to_vec());
    assert_eq!(requests, vec![b"res/img/sheet.png".to_vec()]);
}

#[test]
fn spritesheet_without_image_is_missing_element() {
    let doc = r#"<tileset tilewidth="16" columns="10"/>"#;
    assert_eq!(
        parse_spritesheet(doc, b"res/sprites.tsx"),
        Err(ParseError::MissingElement)
    );
}

#[test]
fn template_parses_into_typed_record() {
    let doc = r#"<template>
 <tileset firstgid="1" source="../sprites.tsx"/>
 <object gid="5" width="16" height="16">
  <properties><property name="hp" type="int" value="12"/></properties>
 </object>
</template>"#;
    let (template, requests) = parse_template(doc, b"res/maps/goblin.tx").unwrap();
    assert_eq!(template.sprite_sheet, b"res/sprites.tsx".to_vec());
    assert_eq!(template.sprite_idx, 5);
    assert_eq!(template.properties.len(), 1);
    assert_eq!(template.properties[0].name, b"hp".to_vec());
    assert_eq!(template.properties[0].value, ObjectProperty::Int { value: 12 });
    assert_eq!(requests, vec![b"res/sprites.tsx".to_vec()]);
}

#[test]
fn template_without_gid_is_missing_attribute() {
    let doc = r#"<template>
 <tileset source="s.tsx"/>
 <object width="16"/>
</template>"#;
    assert_eq!(
        parse_template(doc, b"res/maps/goblin.tx"),
        Err(ParseError::MissingAttribute)
    );
}
