//! The typed records a parsed level is made of.
//!
//! Cross-file references are held as handles. A handle is the resolved,
//! project-rooted path of the referenced file; by construction every handle
//! stored in a record has already been issued as a load request to the host
//! store when the record is returned (the parse functions say so in their
//! contracts), so a record never points at an unrequested file.

use vstd::prelude::*;
use crate::property::{spec_prop_wf, ObjectProperty, PropView, Rgba};
use crate::text::bytes_eq;

verus! {

/// Whether every property of a list is internally well formed.
pub open spec fn spec_props_wf(props: Seq<NamedPropView>) -> bool {
    forall|k: int| 0 <= k < props.len() ==> spec_prop_wf(#[trigger] props[k].value)
}

/// A named typed property attached to an object or template.
#[derive(Clone, Debug, PartialEq, Eq)]
pub struct NamedProperty {
    pub name: Vec<u8>,
    pub value: ObjectProperty,
}

/// The mathematical value of a [`NamedProperty`].
pub struct NamedPropView {
    pub name: Seq<u8>,
    pub value: PropView,
}

impl View for NamedProperty {
    type V = NamedPropView;

    open spec fn view(&self) -> NamedPropView {
        NamedPropView { name: self.name@, value: self.value@ }
    }
}

impl DeepView for NamedProperty {
    type V = NamedPropView;

    open spec fn deep_view(&self) -> NamedPropView {
        self.view()
    }
}

/// A placed, fully hydrated object, as handed to entity construction.
#[derive(Clone, Debug, PartialEq, Eq)]
pub struct ObjectData {
    pub id: u16,
    pub x: u16,
    pub y: u16,
    pub properties: Vec<NamedProperty>,
}

/// A placed instance of a template inside a map: tile coordinates, the
/// handle of the template file, and the instance's own properties.
#[derive(Clone, Debug, PartialEq, Eq)]
pub struct ObjectReference {
    pub id: u16,
    pub template: Vec<u8>,
    pub x: u16,
    pub y: u16,
    pub properties: Vec<NamedProperty>,
}

/// One tileset's layout metadata plus the handle of its backing image.
#[derive(Clone, Debug, PartialEq, Eq)]
pub struct SpritesheetData {
    pub tile_width: u8,
    pub columns: u32,
    pub sprite: Vec<u8>,
}

/// A reusable object prototype: the handle of its tileset, the sprite index
/// inside that sheet, and the prototype's properties.
#[derive(Clone, Debug, PartialEq, Eq)]
pub struct TemplateData {
    pub sprite_sheet: Vec<u8>,
    pub sprite_idx: u32,
    pub properties: Vec<NamedProperty>,
}

/// The root record of one level: the tile grid, the placed objects, and the
/// handle of the map's own tileset.
#[derive(Clone, Debug, PartialEq, Eq)]
pub struct RawMapData {
    pub width: usize,
    pub height: usize,
    pub data: Vec<u8>,
    pub objects: Vec<ObjectReference>,
    pub sprite_sheet: Vec<u8>,
}

impl RawMapData {
    /// The grid invariant: one cell per tile of the declared size.
    pub open spec fn wf(&self) -> bool {
        self.data@.len() == self.width * self.height
    }
}

/// The mathematical value of an [`ObjectReference`].
pub struct ObjModel {
    pub id: u16,
    pub template: Seq<u8>,
    pub x: u16,
    pub y: u16,
    pub properties: Seq<NamedPropView>,
}

impl ObjectReference {
    /// The record as a mathematical value.
    pub open spec fn model(&self) -> ObjModel {
        ObjModel {
            id: self.id,
            template: self.template@,
            x: self.x,
            y: self.y,
            properties: self.properties.deep_view(),
        }
    }
}

/// The mathematical value of a [`RawMapData`].
pub struct MapModel {
    pub width: usize,
    pub height: usize,
    pub cells: Seq<u8>,
    pub objects: Seq<ObjModel>,
    pub sprite_sheet: Seq<u8>,
}

/// The models of a list of object records, in order.
pub open spec fn spec_obj_models(objs: Seq<ObjectReference>) -> Seq<ObjModel> {
    Seq::new(objs.len(), |i: int| objs[i].model())
}

impl RawMapData {
    /// The record as a mathematical value.
    pub open spec fn model(&self) -> MapModel {
        MapModel {
            width: self.width,
            height: self.height,
            cells: self.data@,
            objects: spec_obj_models(self.objects@),
            sprite_sheet: self.sprite_sheet@,
        }
    }
}

/// The mathematical value of a [`SpritesheetData`].
pub struct SheetModel {
    pub tile_width: u8,
    pub columns: u32,
    pub sprite: Seq<u8>,
}

impl SpritesheetData {
    /// The record as a mathematical value.
    pub open spec fn model(&self) -> SheetModel {
        SheetModel { tile_width: self.tile_width, columns: self.columns, sprite: self.sprite@ }
    }
}

/// The mathematical value of a [`TemplateData`].
pub struct TemplateModel {
    pub sprite_sheet: Seq<u8>,
    pub sprite_idx: u32,
    pub properties: Seq<NamedPropView>,
}

impl TemplateData {
    /// The record as a mathematical value.
    pub open spec fn model(&self) -> TemplateModel {
        TemplateModel {
            sprite_sheet: self.sprite_sheet@,
            sprite_idx: self.sprite_idx,
            properties: self.properties.deep_view(),
        }
    }
}

/// The first property of the given name, scanned in order.
pub open spec fn spec_find_property(props: Seq<NamedPropView>, name: Seq<u8>) -> Option<PropView>
    decreases props.len(),
{
    if props.len() == 0 {
        None
    } else if props[0].name == name {
        Some(props[0].value)
    } else {
        spec_find_property(props.drop_first(), name)
    }
}

/// Finds the first property of the given name, returning its position.
pub fn find_property(props: &Vec<NamedProperty>, name: &[u8]) -> (r: Option<usize>)
    ensures
        match r {
            Some(i) => i < props@.len() && spec_find_property(props.deep_view(), name@) == Some(
                props@[i as int]@.value,
            ),
            None => spec_find_property(props.deep_view(), name@) is None,
        },
{
    let ghost all = props.deep_view();
    let mut i: usize = 0;
    proof {
        assert(all.skip(0) =~= all);
    }
    while i < props.len()
        invariant
            0 <= i <= props@.len(),
            all == props.deep_view(),
            all.len() == props@.len(),
            spec_find_property(all, name@) == spec_find_property(all.skip(i as int), name@),
        decreases props@.len() - i,
    {
        proof {
            assert(all.skip(i as int)[0] == props@[i as int]@);
            assert(all.skip(i as int).drop_first() =~= all.skip(i + 1));
        }
        if bytes_eq(props[i].name.as_slice(), name) {
            return Some(i);
        }
        i = i + 1;
    }
    proof {
        assert(all.skip(i as int) =~= Seq::<NamedPropView>::empty());
    }
    None
}

/// The string value of the named property, or the default when the property
/// is absent or not string-typed.
pub fn get_property_value_from_object_or_default_s(
    object_data: &ObjectData,
    property_name: &[u8],
    default_value: Vec<u8>,
) -> (r: Vec<u8>)
    ensures
        r@ == (match spec_find_property(object_data.properties.deep_view(), property_name@) {
            Some(PropView::Str(s)) => s,
            _ => default_value@,
        }),
{
    match find_property(&object_data.properties, property_name) {
        Some(i) => match &object_data.properties[i].value {
            ObjectProperty::Str { value } => vstd::slice::slice_to_vec(value.as_slice()),
            _ => default_value,
        },
        None => default_value,
    }
}

/// The integer value of the named property, or the default when the property
/// is absent or not integer-typed.
pub fn get_property_value_from_object_or_default_i(
    object_data: &ObjectData,
    property_name: &[u8],
    default_value: i64,
) -> (r: i64)
    ensures
        r == (match spec_find_property(object_data.properties.deep_view(), property_name@) {
            Some(PropView::Int(n)) => n,
            _ => default_value,
        }),
{
    match find_property(&object_data.properties, property_name) {
        Some(i) => match &object_data.properties[i].value {
            ObjectProperty::Int { value } => *value,
            _ => default_value,
        },
        None => default_value,
    }
}

/// The boolean value of the named property, or the default when the property
/// is absent or not boolean-typed.
pub fn get_property_value_from_object_or_default_b(
    object_data: &ObjectData,
    property_name: &[u8],
    default_value: bool,
) -> (r: bool)
    ensures
        r == (match spec_find_property(object_data.properties.deep_view(), property_name@) {
            Some(PropView::Bool(b)) => b,
            _ => default_value,
        }),
{
    match find_property(&object_data.properties, property_name) {
        Some(i) => match &object_data.properties[i].value {
            ObjectProperty::Bool { value } => *value,
            _ => default_value,
        },
        None => default_value,
    }
}

/// The color value of the named property, or the default when the property
/// is absent or not color-typed.
pub fn get_property_value_from_object_or_default_c(
    object_data: &ObjectData,
    property_name: &[u8],
    default_value: Rgba,
) -> (r: Rgba)
    ensures
        r == (match spec_find_property(object_data.properties.deep_view(), property_name@) {
            Some(PropView::Color(c)) => c,
            _ => default_value,
        }),
{
    match find_property(&object_data.properties, property_name) {
        Some(i) => match &object_data.properties[i].value {
            ObjectProperty::Color { value } => *value,
            _ => default_value,
        },
        None => default_value,
    }
}

} // verus!
