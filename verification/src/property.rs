//! The typed property model.
//!
//! An object or template may carry a list of named, typed values. The type
//! is named by a textual tag from a closed set; [`decode_property`] turns a
//! tag and the literal value text into an [`ObjectProperty`], and
//! [`encode_property`] writes a property back out as value text.

use vstd::prelude::*;
use crate::digits::{
    digits_value, is_digits, spec_digits_of, spec_encode_i64, spec_i64_value, spec_unsigned_body,
    spec_valid_i64, lemma_digits_of_value, parse_i64, parse_unsigned, encode_i64, encode_u64,
};
use crate::float_text::{is_float_literal, spec_is_float_text};
use crate::text::{parse_bool, spec_false_bytes, spec_true_bytes};

verus! {

/// An RGBA color with one byte per channel.
#[derive(Clone, Copy, Debug, PartialEq, Eq, Structural)]
pub struct Rgba {
    pub r: u8,
    pub g: u8,
    pub b: u8,
    pub a: u8,
}

/// The fixed color substituted for every color-typed property: opaque white.
///
/// The textual encoding of color values is not interpreted; this stand-in is
/// a documented limitation of the format support, not a decoding of the
/// text.
pub open spec fn spec_white() -> Rgba {
    Rgba { r: 255, g: 255, b: 255, a: 255 }
}

/// Why a file failed to parse.
#[derive(Clone, Copy, Debug, PartialEq, Eq, Structural)]
pub enum ParseError {
    /// The document is not well-formed markup.
    DocumentParseError,
    /// A required element is absent.
    MissingElement,
    /// A required attribute is absent.
    MissingAttribute,
    /// An attribute or payload fails its expected typed parse.
    ValueParseError,
    /// A property type tag outside the closed set.
    UnsupportedPropertyType,
}

/// One typed property value.
///
/// Float values keep their textual form, validated against the float
/// grammar; the text is the value. Object values hold the referenced object
/// id, not yet resolved to anything. Color values hold the fixed stand-in.
#[derive(Clone, Debug, PartialEq, Eq)]
pub enum ObjectProperty {
    Bool { value: bool },
    Color { value: Rgba },
    Float { value: Vec<u8> },
    File { value: Vec<u8> },
    Int { value: i64 },
    Obj { value: u32 },
    Str { value: Vec<u8> },
}

/// The mathematical value of an [`ObjectProperty`].
pub enum PropView {
    Bool(bool),
    Color(Rgba),
    Float(Seq<u8>),
    File(Seq<u8>),
    Int(i64),
    Obj(u32),
    Str(Seq<u8>),
}

impl View for ObjectProperty {
    type V = PropView;

    open spec fn view(&self) -> PropView {
        match self {
            ObjectProperty::Bool { value } => PropView::Bool(*value),
            ObjectProperty::Color { value } => PropView::Color(*value),
            ObjectProperty::Float { value } => PropView::Float(value@),
            ObjectProperty::File { value } => PropView::File(value@),
            ObjectProperty::Int { value } => PropView::Int(*value),
            ObjectProperty::Obj { value } => PropView::Obj(*value),
            ObjectProperty::Str { value } => PropView::Str(value@),
        }
    }
}

impl DeepView for ObjectProperty {
    type V = PropView;

    open spec fn deep_view(&self) -> PropView {
        self.view()
    }
}

/// The bytes of the type tag `bool`.
pub open spec fn spec_tag_bool() -> Seq<u8> {
    seq![98u8, 111u8, 111u8, 108u8]
}

/// The bytes of the type tag `color`.
pub open spec fn spec_tag_color() -> Seq<u8> {
    seq![99u8, 111u8, 108u8, 111u8, 114u8]
}

/// The bytes of the type tag `float`.
pub open spec fn spec_tag_float() -> Seq<u8> {
    seq![102u8, 108u8, 111u8, 97u8, 116u8]
}

/// The bytes of the type tag `file`.
pub open spec fn spec_tag_file() -> Seq<u8> {
    seq![102u8, 105u8, 108u8, 101u8]
}

/// The bytes of the type tag `int`.
pub open spec fn spec_tag_int() -> Seq<u8> {
    seq![105u8, 110u8, 116u8]
}

/// The bytes of the type tag `object`.
pub open spec fn spec_tag_object() -> Seq<u8> {
    seq![111u8, 98u8, 106u8, 101u8, 99u8, 116u8]
}

/// The bytes of the type tag `string`.
pub open spec fn spec_tag_string() -> Seq<u8> {
    seq![115u8, 116u8, 114u8, 105u8, 110u8, 103u8]
}

/// What decoding a tag and value text yields: the typed value, or the exact
/// error. A recognized tag whose text fails its typed parse is a
/// `ValueParseError`; an unrecognized tag is always
/// `UnsupportedPropertyType`.
pub open spec fn spec_decode_property(tag: Seq<u8>, raw: Seq<u8>) -> Result<PropView, ParseError> {
    if tag == spec_tag_bool() {
        if raw == spec_true_bytes() {
            Ok(PropView::Bool(true))
        } else if raw == spec_false_bytes() {
            Ok(PropView::Bool(false))
        } else {
            Err(ParseError::ValueParseError)
        }
    } else if tag == spec_tag_color() {
        Ok(PropView::Color(spec_white()))
    } else if tag == spec_tag_float() {
        if spec_is_float_text(raw) {
            Ok(PropView::Float(raw))
        } else {
            Err(ParseError::ValueParseError)
        }
    } else if tag == spec_tag_file() {
        Ok(PropView::File(raw))
    } else if tag == spec_tag_int() {
        if spec_valid_i64(raw) {
            Ok(PropView::Int(spec_i64_value(raw) as i64))
        } else {
            Err(ParseError::ValueParseError)
        }
    } else if tag == spec_tag_object() {
        if is_digits(spec_unsigned_body(raw)) && digits_value(spec_unsigned_body(raw)) <= u32::MAX {
            Ok(PropView::Obj(digits_value(spec_unsigned_body(raw)) as u32))
        } else {
            Err(ParseError::ValueParseError)
        }
    } else if tag == spec_tag_string() {
        Ok(PropView::Str(raw))
    } else {
        Err(ParseError::UnsupportedPropertyType)
    }
}

/// Decodes the value text of one property, given its type tag.
pub fn decode_property(tag: &[u8], raw: &[u8]) -> (r: Result<ObjectProperty, ParseError>)
    ensures
        (match r {
            Ok(p) => Ok::<PropView, ParseError>(p@),
            Err(e) => Err(e),
        }) == spec_decode_property(tag@, raw@),
{
    if tag.len() == 4 && tag[0] == 98 && tag[1] == 111 && tag[2] == 111 && tag[3] == 108 {
        proof {
            assert(tag@ =~= spec_tag_bool());
        }
        match parse_bool(raw) {
            Some(v) => Ok(ObjectProperty::Bool { value: v }),
            None => Err(ParseError::ValueParseError),
        }
    } else if tag.len() == 5 && tag[0] == 99 && tag[1] == 111 && tag[2] == 108 && tag[3] == 111
        && tag[4] == 114 {
        proof {
            assert(tag@ =~= spec_tag_color());
            assert(tag@ != spec_tag_bool());
        }
        Ok(ObjectProperty::Color { value: Rgba { r: 255, g: 255, b: 255, a: 255 } })
    } else if tag.len() == 5 && tag[0] == 102 && tag[1] == 108 && tag[2] == 111 && tag[3] == 97
        && tag[4] == 116 {
        proof {
            assert(tag@ =~= spec_tag_float());
            assert(tag@ != spec_tag_bool() && tag@ != spec_tag_color());
        }
        if is_float_literal(raw) {
            Ok(ObjectProperty::Float { value: vstd::slice::slice_to_vec(raw) })
        } else {
            Err(ParseError::ValueParseError)
        }
    } else if tag.len() == 4 && tag[0] == 102 && tag[1] == 105 && tag[2] == 108 && tag[3] == 101 {
        proof {
            assert(tag@ =~= spec_tag_file());
            assert(tag@ != spec_tag_bool() && tag@ != spec_tag_color() && tag@
                != spec_tag_float());
        }
        Ok(ObjectProperty::File { value: vstd::slice::slice_to_vec(raw) })
    } else if tag.len() == 3 && tag[0] == 105 && tag[1] == 110 && tag[2] == 116 {
        proof {
            assert(tag@ =~= spec_tag_int());
            assert(tag@ != spec_tag_bool() && tag@ != spec_tag_color() && tag@ != spec_tag_float()
                && tag@ != spec_tag_file());
        }
        match parse_i64(raw) {
            Some(v) => Ok(ObjectProperty::Int { value: v }),
            None => Err(ParseError::ValueParseError),
        }
    } else if tag.len() == 6 && tag[0] == 111 && tag[1] == 98 && tag[2] == 106 && tag[3] == 101
        && tag[4] == 99 && tag[5] == 116 {
        proof {
            assert(tag@ =~= spec_tag_object());
            assert(tag@ != spec_tag_bool() && tag@ != spec_tag_color() && tag@ != spec_tag_float()
                && tag@ != spec_tag_file() && tag@ != spec_tag_int());
        }
        match parse_unsigned(raw, u32::MAX as u64) {
            Some(v) => Ok(ObjectProperty::Obj { value: v as u32 }),
            None => Err(ParseError::ValueParseError),
        }
    } else if tag.len() == 6 && tag[0] == 115 && tag[1] == 116 && tag[2] == 114 && tag[3] == 105
        && tag[4] == 110 && tag[5] == 103 {
        proof {
            assert(tag@ =~= spec_tag_string());
            assert(tag@ != spec_tag_bool() && tag@ != spec_tag_color() && tag@ != spec_tag_float()
                && tag@ != spec_tag_file() && tag@ != spec_tag_int() && tag@
                != spec_tag_object());
        }
        Ok(ObjectProperty::Str { value: vstd::slice::slice_to_vec(raw) })
    } else {
        proof {
            if tag@ == spec_tag_bool() {
                assert(tag@.len() == 4 && tag@[0] == 98 && tag@[1] == 111 && tag@[2] == 111
                    && tag@[3] == 108);
            }
            if tag@ == spec_tag_color() {
                assert(tag@.len() == 5 && tag@[0] == 99 && tag@[1] == 111 && tag@[2] == 108
                    && tag@[3] == 111 && tag@[4] == 114);
            }
            if tag@ == spec_tag_float() {
                assert(tag@.len() == 5 && tag@[0] == 102 && tag@[1] == 108 && tag@[2] == 111
                    && tag@[3] == 97 && tag@[4] == 116);
            }
            if tag@ == spec_tag_file() {
                assert(tag@.len() == 4 && tag@[0] == 102 && tag@[1] == 105 && tag@[2] == 108
                    && tag@[3] == 101);
            }
            if tag@ == spec_tag_int() {
                assert(tag@.len() == 3 && tag@[0] == 105 && tag@[1] == 110 && tag@[2] == 116);
            }
            if tag@ == spec_tag_object() {
                assert(tag@.len() == 6 && tag@[0] == 111 && tag@[1] == 98 && tag@[2] == 106
                    && tag@[3] == 101 && tag@[4] == 99 && tag@[5] == 116);
            }
            if tag@ == spec_tag_string() {
                assert(tag@.len() == 6 && tag@[0] == 115 && tag@[1] == 116 && tag@[2] == 114
                    && tag@[3] == 105 && tag@[4] == 110 && tag@[5] == 103);
            }
        }
        Err(ParseError::UnsupportedPropertyType)
    }
}

/// The type tag a property value answers to.
pub open spec fn spec_tag_of(p: PropView) -> Seq<u8> {
    match p {
        PropView::Bool(_) => spec_tag_bool(),
        PropView::Color(_) => spec_tag_color(),
        PropView::Float(_) => spec_tag_float(),
        PropView::File(_) => spec_tag_file(),
        PropView::Int(_) => spec_tag_int(),
        PropView::Obj(_) => spec_tag_object(),
        PropView::Str(_) => spec_tag_string(),
    }
}

/// What re-encoding a property value yields, where applicable. Color values
/// cannot be written back: the authored text was never interpreted.
pub open spec fn spec_encode_property(p: PropView) -> Option<Seq<u8>> {
    match p {
        PropView::Bool(true) => Some(spec_true_bytes()),
        PropView::Bool(false) => Some(spec_false_bytes()),
        PropView::Color(_) => None,
        PropView::Float(t) => Some(t),
        PropView::File(s) => Some(s),
        PropView::Int(n) => Some(spec_encode_i64(n as int)),
        PropView::Obj(n) => Some(spec_digits_of(n as nat)),
        PropView::Str(s) => Some(s),
    }
}

/// Writes a property's value back out as text, where applicable.
pub fn encode_property(p: &ObjectProperty) -> (r: Option<Vec<u8>>)
    ensures
        (match r {
            Some(v) => Some(v@),
            None => None,
        }) == spec_encode_property(p@),
{
    match p {
        ObjectProperty::Bool { value } => {
            let mut out: Vec<u8> = Vec::new();
            if *value {
                out.push(116);
                out.push(114);
                out.push(117);
                out.push(101);
                proof {
                    assert(out@ =~= spec_true_bytes());
                }
            } else {
                out.push(102);
                out.push(97);
                out.push(108);
                out.push(115);
                out.push(101);
                proof {
                    assert(out@ =~= spec_false_bytes());
                }
            }
            Some(out)
        },
        ObjectProperty::Color { .. } => None,
        ObjectProperty::Float { value } => Some(vstd::slice::slice_to_vec(value.as_slice())),
        ObjectProperty::File { value } => Some(vstd::slice::slice_to_vec(value.as_slice())),
        ObjectProperty::Int { value } => Some(encode_i64(*value)),
        ObjectProperty::Obj { value } => Some(encode_u64(*value as u64)),
        ObjectProperty::Str { value } => Some(vstd::slice::slice_to_vec(value.as_slice())),
    }
}

/// Whether a property value is internally well formed: a float's text obeys
/// the float grammar, and a color holds the fixed stand-in.
pub open spec fn spec_prop_wf(p: PropView) -> bool {
    match p {
        PropView::Float(t) => spec_is_float_text(t),
        PropView::Color(c) => c == spec_white(),
        _ => true,
    }
}

/// Decoding always yields a well-formed property.
pub proof fn lemma_decode_wf(tag: Seq<u8>, raw: Seq<u8>)
    ensures
        spec_decode_property(tag, raw) matches Ok(p) ==> spec_prop_wf(p),
{
}

/// The tag a decoded value answers to is the tag it was decoded under.
pub proof fn lemma_decode_tag(tag: Seq<u8>, raw: Seq<u8>)
    requires
        spec_decode_property(tag, raw) is Ok,
    ensures
        spec_tag_of(spec_decode_property(tag, raw)->Ok_0) == tag,
{
}

/// Round trip, decoding first: decoding a value text and re-encoding the
/// result, where applicable, preserves the value — the re-encoded text
/// decodes to the same value again under the same tag.
pub proof fn lemma_decode_reencode(tag: Seq<u8>, raw: Seq<u8>)
    requires
        spec_decode_property(tag, raw) is Ok,
        spec_encode_property(spec_decode_property(tag, raw)->Ok_0) is Some,
    ensures
        spec_decode_property(
            tag,
            spec_encode_property(spec_decode_property(tag, raw)->Ok_0)->0,
        ) == spec_decode_property(tag, raw),
{
    let p = spec_decode_property(tag, raw)->Ok_0;
    lemma_decode_wf(tag, raw);
    lemma_decode_tag(tag, raw);
    lemma_property_round_trip(p);
}

/// Round trip: re-encoding a well-formed property value and decoding the
/// text under the property's own type tag yields the value back, for every
/// value that can be written out.
pub proof fn lemma_property_round_trip(p: PropView)
    requires
        spec_prop_wf(p),
        spec_encode_property(p) is Some,
    ensures
        spec_decode_property(spec_tag_of(p), spec_encode_property(p)->0) == Ok::<
            PropView,
            ParseError,
        >(p),
{
    match p {
        PropView::Bool(b) => {
            assert(spec_true_bytes().len() == 4 && spec_false_bytes().len() == 5);
        },
        PropView::Color(_) => {
        },
        PropView::Float(t) => {
        },
        PropView::File(s) => {
        },
        PropView::Int(n) => {
            let text = spec_encode_i64(n as int);
            if n >= 0 {
                lemma_digits_of_value(n as nat);
                assert(spec_digits_of(n as nat)[0] != crate::digits::MINUS && spec_digits_of(
                    n as nat,
                )[0] != crate::digits::PLUS) by {
                    assert(crate::digits::is_digit(spec_digits_of(n as nat)[0]));
                }
                assert(crate::digits::spec_signed_body(text) =~= text);
                assert(!crate::digits::spec_is_neg(text));
                assert(spec_valid_i64(text));
                assert(spec_i64_value(text) == n);
            } else {
                lemma_digits_of_value((-n) as nat);
                assert(crate::digits::spec_signed_body(text) =~= spec_digits_of((-n) as nat));
                assert(crate::digits::spec_is_neg(text));
                assert(digits_value(spec_digits_of((-n) as nat)) == (-n) as nat);
                assert((-n) as nat <= 0x8000_0000_0000_0000);
                assert(spec_valid_i64(text));
                assert(spec_i64_value(text) == n);
            }
        },
        PropView::Obj(n) => {
            lemma_digits_of_value(n as nat);
            let text = spec_digits_of(n as nat);
            assert(text[0] != crate::digits::PLUS) by {
                assert(crate::digits::is_digit(text[0]));
            }
            assert(spec_unsigned_body(text) =~= text);
        },
        PropView::Str(s) => {
        },
    }
}

} // verus!
