//! The three parse entry points: map, tileset, and object template.
//!
//! Each takes the file's markup text and the file's own project-rooted path,
//! and returns the typed record together with the load requests the file
//! makes: the resolved project-rooted paths of every file it references.
//! The caller is expected to hand each request to the host store before the
//! record is used, so that every handle held by a record points at a
//! requested file.
//!
//! Each entry point carries a total contract: its result equals a spec
//! function of the document's model ([`crate::xml::spec_xml_parse`]) and the
//! file's own path, which fixes on which documents it succeeds, what record
//! it builds, and which [`ParseError`] comes back otherwise. Parsing is
//! all-or-nothing per file: a malformed document, a missing required element
//! or attribute, or a value failing its typed parse aborts with that exact
//! error, never yielding a partial record.

use vstd::prelude::*;
use vstd::string::StringSliceAdditionalSpecFns;
use crate::coords::{pixel_to_tile, spec_pixel_tile, spec_valid_pixel};
use crate::digits::{parse_unsigned, spec_unsigned_ok, spec_unsigned_val};
use crate::dom::{attr, find_in, lemma_children_models, spec_attr, spec_find_in, XmlNode,
    XmlNodeView};
use crate::grid::{decode_grid, spec_grid_cells, spec_grid_valid};
use crate::path::{resolve, spec_resolve};
use crate::property::{decode_property, lemma_decode_wf, spec_decode_property, spec_prop_wf,
    ParseError};
use crate::records::{spec_obj_models, spec_props_wf, MapModel, NamedProperty, NamedPropView,
    ObjModel, ObjectReference, RawMapData, SheetModel, SpritesheetData, TemplateData,
    TemplateModel};
use crate::xml::{parse_xml_tree, spec_xml_parse};

verus! {

/// What decoding a list of property entries yields: non-elements are
/// skipped; every element needs `name`, `type` and `value` attributes, and
/// its value must decode under its type tag; the first failure aborts.
pub open spec fn spec_parse_prop_list(cs: Seq<XmlNodeView>) -> Result<
    Seq<NamedPropView>,
    ParseError,
>
    decreases cs.len(),
{
    if cs.len() == 0 {
        Ok(Seq::<NamedPropView>::empty())
    } else if !cs[0].is_element {
        spec_parse_prop_list(cs.drop_first())
    } else {
        match spec_attr(cs[0], "name".spec_bytes()) {
            None => Err(ParseError::MissingAttribute),
            Some(name) => match spec_attr(cs[0], "type".spec_bytes()) {
                None => Err(ParseError::MissingAttribute),
                Some(tag) => match spec_attr(cs[0], "value".spec_bytes()) {
                    None => Err(ParseError::MissingAttribute),
                    Some(raw) => match spec_decode_property(tag, raw) {
                        Err(e) => Err(e),
                        Ok(value) => match spec_parse_prop_list(cs.drop_first()) {
                            Err(e) => Err(e),
                            Ok(rest) => Ok(seq![NamedPropView { name, value }] + rest),
                        },
                    },
                },
            },
        }
    }
}

/// What parsing the `properties` block below a node yields: an absent block
/// is an empty list, a present one is decoded entry by entry.
pub open spec fn spec_parse_properties(n: XmlNodeView) -> Result<Seq<NamedPropView>, ParseError> {
    match spec_find_in(n, "properties".spec_bytes()) {
        None => Ok(Seq::<NamedPropView>::empty()),
        Some(pl) => spec_parse_prop_list(pl.children),
    }
}

/// Every property a list decodes to is internally well formed.
pub proof fn lemma_prop_list_wf(cs: Seq<XmlNodeView>)
    ensures
        spec_parse_prop_list(cs) matches Ok(ps) ==> spec_props_wf(ps),
    decreases cs.len(),
{
    if cs.len() > 0 {
        lemma_prop_list_wf(cs.drop_first());
        if cs[0].is_element && spec_parse_prop_list(cs) is Ok {
            let tag = spec_attr(cs[0], "type".spec_bytes())->0;
            let raw = spec_attr(cs[0], "value".spec_bytes())->0;
            lemma_decode_wf(tag, raw);
            let ps = spec_parse_prop_list(cs)->Ok_0;
            let rest = spec_parse_prop_list(cs.drop_first())->Ok_0;
            assert forall|k: int| 0 <= k < ps.len() implies spec_prop_wf(#[trigger] ps[k].value) by {
                if k > 0 {
                    assert(ps[k] == rest[k - 1]);
                    assert(spec_prop_wf(rest[k - 1].value));
                }
            }
        }
    }
}

/// Every property a parsed block yields is internally well formed.
pub proof fn lemma_parse_properties_wf(n: XmlNodeView)
    ensures
        spec_parse_properties(n) matches Ok(ps) ==> spec_props_wf(ps),
{
    match spec_find_in(n, "properties".spec_bytes()) {
        Some(pl) => lemma_prop_list_wf(pl.children),
        None => (),
    }
}

/// What parsing one placed object yields: its `id` (a decimal fitting
/// `u16`), the resolved handle of its `template` reference, tile coordinates
/// derived from its pixel `x`/`y` with the map's tile width, and its
/// properties. A coordinate must be plain decimal text — an optional sign,
/// digits, an optional fractional part; exponent or special-word forms are
/// value errors.
pub open spec fn spec_parse_object(n: XmlNodeView, tile_width: u16, own: Seq<u8>) -> Result<
    ObjModel,
    ParseError,
>
    recommends
        tile_width >= 1,
{
    match spec_attr(n, "id".spec_bytes()) {
        None => Err(ParseError::MissingAttribute),
        Some(idt) => if !spec_unsigned_ok(idt, u16::MAX as nat) {
            Err(ParseError::ValueParseError)
        } else {
            match spec_attr(n, "template".spec_bytes()) {
                None => Err(ParseError::MissingAttribute),
                Some(tpl) => match spec_attr(n, "x".spec_bytes()) {
                    None => Err(ParseError::MissingAttribute),
                    Some(xt) => if !spec_valid_pixel(xt) {
                        Err(ParseError::ValueParseError)
                    } else {
                        match spec_attr(n, "y".spec_bytes()) {
                            None => Err(ParseError::MissingAttribute),
                            Some(yt) => if !spec_valid_pixel(yt) {
                                Err(ParseError::ValueParseError)
                            } else {
                                match spec_parse_properties(n) {
                                    Err(e) => Err(e),
                                    Ok(properties) => Ok(
                                        ObjModel {
                                            id: spec_unsigned_val(idt) as u16,
                                            template: spec_resolve(tpl, own),
                                            x: spec_pixel_tile(xt, tile_width as nat),
                                            y: spec_pixel_tile(yt, tile_width as nat),
                                            properties,
                                        },
                                    ),
                                }
                            },
                        }
                    },
                },
            }
        },
    }
}

/// What parsing the element children of an object group yields, in order;
/// non-elements are skipped and the first failure aborts.
pub open spec fn spec_parse_objects(cs: Seq<XmlNodeView>, tile_width: u16, own: Seq<u8>) -> Result<
    Seq<ObjModel>,
    ParseError,
>
    recommends
        tile_width >= 1,
    decreases cs.len(),
{
    if cs.len() == 0 {
        Ok(Seq::<ObjModel>::empty())
    } else if !cs[0].is_element {
        spec_parse_objects(cs.drop_first(), tile_width, own)
    } else {
        match spec_parse_object(cs[0], tile_width, own) {
            Err(e) => Err(e),
            Ok(m) => match spec_parse_objects(cs.drop_first(), tile_width, own) {
                Err(e) => Err(e),
                Ok(rest) => Ok(seq![m] + rest),
            },
        }
    }
}

/// What parsing a map file yields, for every input: the exact record, or
/// the exact error. The checks run in document-shape order: the text must
/// parse; the `map` element must carry a `tilewidth` that is a decimal
/// `u16` of at least 1; the `layer` element must carry decimal `width` and
/// `height`; the `data` element must hold a payload that is a well-formed
/// grid of exactly `width * height` cells; the `objectgroup` element must
/// exist and each of its object children must parse; and the `tileset`
/// element must carry a `source` reference, resolved against the map's own
/// path.
pub open spec fn spec_parse_map(text: Seq<char>, own: Seq<u8>) -> Result<MapModel, ParseError> {
    match spec_xml_parse(text) {
        None => Err(ParseError::DocumentParseError),
        Some(root) => match spec_find_in(root, "map".spec_bytes()) {
            None => Err(ParseError::MissingElement),
            Some(map_el) => match spec_attr(map_el, "tilewidth".spec_bytes()) {
                None => Err(ParseError::MissingAttribute),
                Some(twt) => if !spec_unsigned_ok(twt, u16::MAX as nat) || spec_unsigned_val(twt)
                    == 0 {
                    Err(ParseError::ValueParseError)
                } else {
                    let tile_width = spec_unsigned_val(twt) as u16;
                    match spec_find_in(root, "layer".spec_bytes()) {
                        None => Err(ParseError::MissingElement),
                        Some(layer) => match spec_attr(layer, "width".spec_bytes()) {
                            None => Err(ParseError::MissingAttribute),
                            Some(wt) => if !spec_unsigned_ok(wt, usize::MAX as nat) {
                                Err(ParseError::ValueParseError)
                            } else {
                                let width = spec_unsigned_val(wt) as usize;
                                match spec_attr(layer, "height".spec_bytes()) {
                                    None => Err(ParseError::MissingAttribute),
                                    Some(ht) => if !spec_unsigned_ok(ht, usize::MAX as nat) {
                                        Err(ParseError::ValueParseError)
                                    } else {
                                        let height = spec_unsigned_val(ht) as usize;
                                        match spec_find_in(root, "data".spec_bytes()) {
                                            None => Err(ParseError::MissingElement),
                                            Some(data_el) => match data_el.text {
                                                None => Err(ParseError::MissingElement),
                                                Some(payload) => if !spec_grid_valid(
                                                    payload,
                                                    width as nat,
                                                    height as nat,
                                                ) {
                                                    Err(ParseError::ValueParseError)
                                                } else {
                                                    spec_parse_map_tail(
                                                        root,
                                                        own,
                                                        tile_width,
                                                        width,
                                                        height,
                                                        spec_grid_cells(payload),
                                                    )
                                                },
                                            },
                                        }
                                    },
                                }
                            },
                        },
                    }
                },
            },
        },
    }
}

/// The tail of [`spec_parse_map`], after the grid is decoded: the objects
/// and the map's tileset reference.
pub open spec fn spec_parse_map_tail(
    root: XmlNodeView,
    own: Seq<u8>,
    tile_width: u16,
    width: usize,
    height: usize,
    cells: Seq<u8>,
) -> Result<MapModel, ParseError> {
    match spec_find_in(root, "objectgroup".spec_bytes()) {
        None => Err(ParseError::MissingElement),
        Some(og) => match spec_parse_objects(og.children, tile_width, own) {
            Err(e) => Err(e),
            Ok(objects) => match spec_find_in(root, "tileset".spec_bytes()) {
                None => Err(ParseError::MissingElement),
                Some(ts) => match spec_attr(ts, "source".spec_bytes()) {
                    None => Err(ParseError::MissingAttribute),
                    Some(src) => Ok(
                        MapModel {
                            width,
                            height,
                            cells,
                            objects,
                            sprite_sheet: spec_resolve(src, own),
                        },
                    ),
                },
            },
        },
    }
}

/// What parsing a tileset file yields, for every input: the `tileset`
/// element must carry a decimal `tilewidth` fitting `u8` and decimal
/// `columns` fitting `u32`, and hold an `image` element whose `source` is
/// resolved against the file's own path.
pub open spec fn spec_parse_spritesheet(text: Seq<char>, own: Seq<u8>) -> Result<
    SheetModel,
    ParseError,
> {
    match spec_xml_parse(text) {
        None => Err(ParseError::DocumentParseError),
        Some(root) => match spec_find_in(root, "tileset".spec_bytes()) {
            None => Err(ParseError::MissingElement),
            Some(ts) => match spec_attr(ts, "tilewidth".spec_bytes()) {
                None => Err(ParseError::MissingAttribute),
                Some(twt) => if !spec_unsigned_ok(twt, u8::MAX as nat) {
                    Err(ParseError::ValueParseError)
                } else {
                    match spec_attr(ts, "columns".spec_bytes()) {
                        None => Err(ParseError::MissingAttribute),
                        Some(ct) => if !spec_unsigned_ok(ct, u32::MAX as nat) {
                            Err(ParseError::ValueParseError)
                        } else {
                            match spec_find_in(ts, "image".spec_bytes()) {
                                None => Err(ParseError::MissingElement),
                                Some(img) => match spec_attr(img, "source".spec_bytes()) {
                                    None => Err(ParseError::MissingAttribute),
                                    Some(src) => Ok(
                                        SheetModel {
                                            tile_width: spec_unsigned_val(twt) as u8,
                                            columns: spec_unsigned_val(ct) as u32,
                                            sprite: spec_resolve(src, own),
                                        },
                                    ),
                                },
                            }
                        },
                    }
                },
            },
        },
    }
}

/// What parsing an object-template file yields, for every input: the
/// `tileset` element must carry a `source` reference, the `object` element a
/// decimal `gid` fitting `u32`, and an optional `properties` block anywhere
/// in the document is decoded.
pub open spec fn spec_parse_template(text: Seq<char>, own: Seq<u8>) -> Result<
    TemplateModel,
    ParseError,
> {
    match spec_xml_parse(text) {
        None => Err(ParseError::DocumentParseError),
        Some(root) => match spec_find_in(root, "tileset".spec_bytes()) {
            None => Err(ParseError::MissingElement),
            Some(ts) => match spec_attr(ts, "source".spec_bytes()) {
                None => Err(ParseError::MissingAttribute),
                Some(src) => match spec_find_in(root, "object".spec_bytes()) {
                    None => Err(ParseError::MissingElement),
                    Some(obj) => match spec_attr(obj, "gid".spec_bytes()) {
                        None => Err(ParseError::MissingAttribute),
                        Some(gt) => if !spec_unsigned_ok(gt, u32::MAX as nat) {
                            Err(ParseError::ValueParseError)
                        } else {
                            match spec_parse_properties(root) {
                                Err(e) => Err(e),
                                Ok(properties) => Ok(
                                    TemplateModel {
                                        sprite_sheet: spec_resolve(src, own),
                                        sprite_idx: spec_unsigned_val(gt) as u32,
                                        properties,
                                    },
                                ),
                            }
                        },
                    },
                },
            },
        },
    }
}

/// Decodes the property entries from position `i` on.
fn parse_prop_list(entries: &Vec<XmlNode>, i: usize) -> (r: Result<Vec<NamedProperty>, ParseError>)
    requires
        i <= entries@.len(),
    ensures
        (match r {
            Ok(ps) => Ok::<Seq<NamedPropView>, ParseError>(ps.deep_view()),
            Err(e) => Err(e),
        }) == spec_parse_prop_list(entries.deep_view().skip(i as int)),
    decreases entries@.len() - i,
{
    let ghost views = entries.deep_view();
    if i >= entries.len() {
        let empty: Vec<NamedProperty> = Vec::new();
        proof {
            assert(views.skip(i as int) =~= Seq::<XmlNodeView>::empty());
            assert(empty.deep_view() =~= Seq::<NamedPropView>::empty());
        }
        return Ok(empty);
    }
    proof {
        assert(views.skip(i as int)[0] == entries@[i as int].deep_view());
        assert(views.skip(i as int).drop_first() =~= views.skip(i + 1));
    }
    let c = &entries[i];
    if !c.is_element {
        return parse_prop_list(entries, i + 1);
    }
    let name = match attr(c, "name".as_bytes()) {
        Some(v) => v,
        None => {
            return Err(ParseError::MissingAttribute);
        },
    };
    let tag = match attr(c, "type".as_bytes()) {
        Some(v) => v,
        None => {
            return Err(ParseError::MissingAttribute);
        },
    };
    let raw = match attr(c, "value".as_bytes()) {
        Some(v) => v,
        None => {
            return Err(ParseError::MissingAttribute);
        },
    };
    let value = match decode_property(tag.as_slice(), raw.as_slice()) {
        Ok(p) => p,
        Err(e) => {
            return Err(e);
        },
    };
    let mut rest = match parse_prop_list(entries, i + 1) {
        Ok(ps) => ps,
        Err(e) => {
            return Err(e);
        },
    };
    let ghost name_view = name@;
    let ghost value_view = value@;
    let ghost rest_view = rest.deep_view();
    rest.insert(0, NamedProperty { name, value });
    proof {
        assert(rest.deep_view() =~~= seq![NamedPropView { name: name_view, value: value_view }]
            + rest_view);
    }
    Ok(rest)
}

/// Parses the `properties` block below `container`, if there is one.
fn parse_properties(container: &XmlNode) -> (r: Result<Vec<NamedProperty>, ParseError>)
    ensures
        (match r {
            Ok(ps) => Ok::<Seq<NamedPropView>, ParseError>(ps.deep_view()),
            Err(e) => Err(e),
        }) == spec_parse_properties(container.deep_view()),
{
    match find_in(container, "properties".as_bytes()) {
        None => {
            let empty: Vec<NamedProperty> = Vec::new();
            proof {
                assert(empty.deep_view() =~= Seq::<NamedPropView>::empty());
            }
            Ok(empty)
        },
        Some(pl) => {
            proof {
                lemma_children_models(*pl);
                assert(pl.children.deep_view().skip(0) =~= pl.children.deep_view());
            }
            parse_prop_list(&pl.children, 0)
        },
    }
}

/// Parses one placed object. The returned request holds the same path as
/// the record's template handle.
fn parse_object(node: &XmlNode, tile_width: u16, own_path: &[u8]) -> (r: Result<
    (ObjectReference, Vec<u8>),
    ParseError,
>)
    requires
        tile_width >= 1,
    ensures
        (match r {
            Ok(p) => Ok::<ObjModel, ParseError>(p.0.model()),
            Err(e) => Err(e),
        }) == spec_parse_object(node.deep_view(), tile_width, own_path@),
        r matches Ok(p) ==> p.1@ == p.0.template@,
{
    let id_attr = match attr(node, "id".as_bytes()) {
        Some(v) => v,
        None => {
            return Err(ParseError::MissingAttribute);
        },
    };
    let id = match parse_unsigned(id_attr.as_slice(), u16::MAX as u64) {
        Some(v) => v as u16,
        None => {
            return Err(ParseError::ValueParseError);
        },
    };
    let tpl_attr = match attr(node, "template".as_bytes()) {
        Some(v) => v,
        None => {
            return Err(ParseError::MissingAttribute);
        },
    };
    let template = resolve(tpl_attr.as_slice(), own_path);
    let request = vstd::slice::slice_to_vec(template.as_slice());
    let x_attr = match attr(node, "x".as_bytes()) {
        Some(v) => v,
        None => {
            return Err(ParseError::MissingAttribute);
        },
    };
    let x = match pixel_to_tile(x_attr.as_slice(), tile_width) {
        Some(v) => v,
        None => {
            return Err(ParseError::ValueParseError);
        },
    };
    let y_attr = match attr(node, "y".as_bytes()) {
        Some(v) => v,
        None => {
            return Err(ParseError::MissingAttribute);
        },
    };
    let y = match pixel_to_tile(y_attr.as_slice(), tile_width) {
        Some(v) => v,
        None => {
            return Err(ParseError::ValueParseError);
        },
    };
    let properties = match parse_properties(node) {
        Ok(p) => p,
        Err(e) => {
            return Err(e);
        },
    };
    Ok((ObjectReference { id, template, x, y, properties }, request))
}

/// Parses the object children of the group from position `i` on. The
/// returned requests hold, in order, the template handle of each object.
fn parse_objects(children: &Vec<XmlNode>, i: usize, tile_width: u16, own_path: &[u8]) -> (r:
    Result<(Vec<ObjectReference>, Vec<Vec<u8>>), ParseError>)
    requires
        tile_width >= 1,
        i <= children@.len(),
    ensures
        (match r {
            Ok(p) => Ok::<Seq<ObjModel>, ParseError>(spec_obj_models(p.0@)),
            Err(e) => Err(e),
        }) == spec_parse_objects(children.deep_view().skip(i as int), tile_width, own_path@),
        r matches Ok(p) ==> p.1.deep_view().len() == p.0@.len() && (forall|k: int|
            0 <= k < p.0@.len() ==> p.1.deep_view()[k] == #[trigger] p.0@[k].template@),
    decreases children@.len() - i,
{
    let ghost views = children.deep_view();
    if i >= children.len() {
        let objs: Vec<ObjectReference> = Vec::new();
        let reqs: Vec<Vec<u8>> = Vec::new();
        proof {
            assert(views.skip(i as int) =~= Seq::<XmlNodeView>::empty());
            assert(spec_obj_models(objs@) =~= Seq::<ObjModel>::empty());
        }
        return Ok((objs, reqs));
    }
    proof {
        assert(views.skip(i as int)[0] == children@[i as int].deep_view());
        assert(views.skip(i as int).drop_first() =~= views.skip(i + 1));
    }
    let c = &children[i];
    if !c.is_element {
        return parse_objects(children, i + 1, tile_width, own_path);
    }
    let (obj, req) = match parse_object(c, tile_width, own_path) {
        Ok(p) => p,
        Err(e) => {
            return Err(e);
        },
    };
    let (mut objs, mut reqs) = match parse_objects(children, i + 1, tile_width, own_path) {
        Ok(p) => p,
        Err(e) => {
            return Err(e);
        },
    };
    let ghost obj_model = obj.model();
    let ghost req_view = req@;
    let ghost objs_snap = objs@;
    let ghost reqs_snap = reqs.deep_view();
    objs.insert(0, obj);
    reqs.insert(0, req);
    proof {
        assert(spec_obj_models(objs@) =~= seq![obj_model] + spec_obj_models(objs_snap));
        assert(reqs.deep_view() =~~= seq![req_view] + reqs_snap);
    }
    Ok((objs, reqs))
}

/// Parses a map file: the tile grid sized by the layer's declared width and
/// height, every placed object, and the map's tileset reference. The result
/// is exactly [`spec_parse_map`] of the text's document model.
///
/// On success the returned request list holds, in order, one entry per
/// object — the object's template handle — and, last, the map's tileset
/// handle, so every handle in the record is a request the caller will issue.
/// The grid invariant holds: one cell per tile of the declared size.
pub fn parse_map(text: &str, own_path: &[u8]) -> (r: Result<
    (RawMapData, Vec<Vec<u8>>),
    ParseError,
>)
    ensures
        (match r {
            Ok(p) => Ok::<MapModel, ParseError>(p.0.model()),
            Err(e) => Err(e),
        }) == spec_parse_map(text@, own_path@),
        r matches Ok(p) ==> {
            &&& p.0.wf()
            &&& p.1.deep_view().len() == p.0.objects@.len() + 1
            &&& (forall|k: int|
                0 <= k < p.0.objects@.len() ==> p.1.deep_view()[k] == p.0.objects@[k].template@)
            &&& p.1.deep_view().last() == p.0.sprite_sheet@
        },
{
    let tree = match parse_xml_tree(text) {
        Ok(t) => t,
        Err(_) => {
            return Err(ParseError::DocumentParseError);
        },
    };
    let map_el = match find_in(&tree, "map".as_bytes()) {
        Some(m) => m,
        None => {
            return Err(ParseError::MissingElement);
        },
    };
    let tw_attr = match attr(map_el, "tilewidth".as_bytes()) {
        Some(v) => v,
        None => {
            return Err(ParseError::MissingAttribute);
        },
    };
    let tile_width = match parse_unsigned(tw_attr.as_slice(), u16::MAX as u64) {
        Some(v) => v as u16,
        None => {
            return Err(ParseError::ValueParseError);
        },
    };
    if tile_width == 0 {
        return Err(ParseError::ValueParseError);
    }
    let layer = match find_in(&tree, "layer".as_bytes()) {
        Some(l) => l,
        None => {
            return Err(ParseError::MissingElement);
        },
    };
    let w_attr = match attr(layer, "width".as_bytes()) {
        Some(v) => v,
        None => {
            return Err(ParseError::MissingAttribute);
        },
    };
    let width = match parse_unsigned(w_attr.as_slice(), usize::MAX as u64) {
        Some(v) => v as usize,
        None => {
            return Err(ParseError::ValueParseError);
        },
    };
    let h_attr = match attr(layer, "height".as_bytes()) {
        Some(v) => v,
        None => {
            return Err(ParseError::MissingAttribute);
        },
    };
    let height = match parse_unsigned(h_attr.as_slice(), usize::MAX as u64) {
        Some(v) => v as usize,
        None => {
            return Err(ParseError::ValueParseError);
        },
    };
    let data_el = match find_in(&tree, "data".as_bytes()) {
        Some(d) => d,
        None => {
            return Err(ParseError::MissingElement);
        },
    };
    let payload = match &data_el.text {
        Some(t) => t,
        None => {
            return Err(ParseError::MissingElement);
        },
    };
    let data = match decode_grid(payload.as_slice(), width, height) {
        Ok(c) => c,
        Err(e) => {
            return Err(e);
        },
    };
    let og = match find_in(&tree, "objectgroup".as_bytes()) {
        Some(o) => o,
        None => {
            return Err(ParseError::MissingElement);
        },
    };
    proof {
        lemma_children_models(*og);
        assert(og.children.deep_view().skip(0) =~= og.children.deep_view());
    }
    let (objects, mut requests) = match parse_objects(&og.children, 0, tile_width, own_path) {
        Ok(p) => p,
        Err(e) => {
            return Err(e);
        },
    };
    let ts = match find_in(&tree, "tileset".as_bytes()) {
        Some(t) => t,
        None => {
            return Err(ParseError::MissingElement);
        },
    };
    let src = match attr(ts, "source".as_bytes()) {
        Some(v) => v,
        None => {
            return Err(ParseError::MissingAttribute);
        },
    };
    let sprite_sheet = resolve(src.as_slice(), own_path);
    let sheet_req = vstd::slice::slice_to_vec(sprite_sheet.as_slice());
    let ghost pre_requests = requests.deep_view();
    requests.push(sheet_req);
    proof {
        assert(requests.deep_view() =~~= pre_requests.push(sprite_sheet@));
    }
    let m = RawMapData { width, height, data, objects, sprite_sheet };
    Ok((m, requests))
}

/// Parses a tileset file: its tile width, its column count, and its image
/// reference. The result is exactly [`spec_parse_spritesheet`] of the
/// text's document model, and the one returned request is the resolved
/// image handle held by the record.
pub fn parse_spritesheet(text: &str, own_path: &[u8]) -> (r: Result<
    (SpritesheetData, Vec<Vec<u8>>),
    ParseError,
>)
    ensures
        (match r {
            Ok(p) => Ok::<SheetModel, ParseError>(p.0.model()),
            Err(e) => Err(e),
        }) == spec_parse_spritesheet(text@, own_path@),
        r matches Ok(p) ==> p.1.deep_view().len() == 1 && p.1.deep_view()[0] == p.0.sprite@,
{
    let tree = match parse_xml_tree(text) {
        Ok(t) => t,
        Err(_) => {
            return Err(ParseError::DocumentParseError);
        },
    };
    let ts = match find_in(&tree, "tileset".as_bytes()) {
        Some(t) => t,
        None => {
            return Err(ParseError::MissingElement);
        },
    };
    let tw_attr = match attr(ts, "tilewidth".as_bytes()) {
        Some(v) => v,
        None => {
            return Err(ParseError::MissingAttribute);
        },
    };
    let tile_width = match parse_unsigned(tw_attr.as_slice(), u8::MAX as u64) {
        Some(v) => v as u8,
        None => {
            return Err(ParseError::ValueParseError);
        },
    };
    let col_attr = match attr(ts, "columns".as_bytes()) {
        Some(v) => v,
        None => {
            return Err(ParseError::MissingAttribute);
        },
    };
    let columns = match parse_unsigned(col_attr.as_slice(), u32::MAX as u64) {
        Some(v) => v as u32,
        None => {
            return Err(ParseError::ValueParseError);
        },
    };
    let img = match find_in(ts, "image".as_bytes()) {
        Some(im) => im,
        None => {
            return Err(ParseError::MissingElement);
        },
    };
    let src = match attr(img, "source".as_bytes()) {
        Some(v) => v,
        None => {
            return Err(ParseError::MissingAttribute);
        },
    };
    let sprite = resolve(src.as_slice(), own_path);
    let req = vstd::slice::slice_to_vec(sprite.as_slice());
    let mut requests: Vec<Vec<u8>> = Vec::new();
    requests.push(req);
    proof {
        assert(requests.deep_view() =~~= seq![sprite@]);
    }
    Ok((SpritesheetData { tile_width, columns, sprite }, requests))
}

/// Parses an object-template file: the resolved handle of its tileset, the
/// sprite index named by its object's `gid`, and the prototype's
/// properties. The result is exactly [`spec_parse_template`] of the text's
/// document model, and the one returned request is the tileset handle held
/// by the record.
pub fn parse_template(text: &str, own_path: &[u8]) -> (r: Result<
    (TemplateData, Vec<Vec<u8>>),
    ParseError,
>)
    ensures
        (match r {
            Ok(p) => Ok::<TemplateModel, ParseError>(p.0.model()),
            Err(e) => Err(e),
        }) == spec_parse_template(text@, own_path@),
        r matches Ok(p) ==> p.1.deep_view().len() == 1 && p.1.deep_view()[0]
            == p.0.sprite_sheet@,
{
    let tree = match parse_xml_tree(text) {
        Ok(t) => t,
        Err(_) => {
            return Err(ParseError::DocumentParseError);
        },
    };
    let ts = match find_in(&tree, "tileset".as_bytes()) {
        Some(t) => t,
        None => {
            return Err(ParseError::MissingElement);
        },
    };
    let src = match attr(ts, "source".as_bytes()) {
        Some(v) => v,
        None => {
            return Err(ParseError::MissingAttribute);
        },
    };
    let sprite_sheet = resolve(src.as_slice(), own_path);
    let obj = match find_in(&tree, "object".as_bytes()) {
        Some(o) => o,
        None => {
            return Err(ParseError::MissingElement);
        },
    };
    let gid_attr = match attr(obj, "gid".as_bytes()) {
        Some(v) => v,
        None => {
            return Err(ParseError::MissingAttribute);
        },
    };
    let sprite_idx = match parse_unsigned(gid_attr.as_slice(), u32::MAX as u64) {
        Some(v) => v as u32,
        None => {
            return Err(ParseError::ValueParseError);
        },
    };
    let properties = match parse_properties(&tree) {
        Ok(p) => p,
        Err(e) => {
            return Err(e);
        },
    };
    let req = vstd::slice::slice_to_vec(sprite_sheet.as_slice());
    let mut requests: Vec<Vec<u8>> = Vec::new();
    requests.push(req);
    proof {
        assert(requests.deep_view() =~~= seq![sprite_sheet@]);
    }
    Ok((TemplateData { sprite_sheet, sprite_idx, properties }, requests))
}

} // verus!
