//! The trusted boundary to the markup parser.
//!
//! The document comes from the `roxmltree` crate and is converted, behind
//! one trusted wrapper, into the crate's own plain tree of bytes
//! ([`crate::dom::XmlNode`]). What the parse of a given text yields is a
//! function of the text alone, so it carries a name, [`spec_xml_parse`]:
//! `Some` of the tree's model exactly when the text is well-formed markup.
//! Everything above this boundary works on the plain tree and is verified
//! against that name.

use vstd::prelude::*;
use crate::dom::{XmlNode, XmlNodeView};

verus! {

#[verifier::external_type_specification]
#[verifier::external_body]
pub struct ExNode<'a, 'input: 'a>(roxmltree::Node<'a, 'input>);

#[verifier::external_type_specification]
#[verifier::external_body]
pub struct ExError(roxmltree::Error);

/// What parsing markup text yields: the model of the document tree, rooted
/// at the document's root container node, or nothing when the text is not
/// well-formed markup.
pub uninterp spec fn spec_xml_parse(text: Seq<char>) -> Option<XmlNodeView>;

/// Relies on roxmltree::Document::parse: succeeds exactly on well-formed
/// markup text, and the resulting tree is a function of the text alone.
#[verifier::external_body]
pub(crate) fn parse_xml_tree(text: &str) -> (r: Result<XmlNode, roxmltree::Error>)
    ensures
        r is Ok <==> spec_xml_parse(text@) is Some,
        r matches Ok(t) ==> Some(t.deep_view()) == spec_xml_parse(text@),
{
    roxmltree::Document::parse(text).map(|doc| node_to_tree(doc.root()))
}

/// Relies on roxmltree's node accessors (is_element, tag_name, attributes,
/// text, children): copies one node and everything below it, byte for byte
/// and in document order, into the plain tree.
#[verifier::external_body]
fn node_to_tree(n: roxmltree::Node<'_, '_>) -> XmlNode {
    XmlNode {
        is_element: n.is_element(),
        tag: n.tag_name().name().as_bytes().to_vec(),
        attrs: n.attributes().map(
            |a| (a.name().as_bytes().to_vec(), a.value().as_bytes().to_vec()),
        ).collect(),
        text: n.text().map(|t| t.as_bytes().to_vec()),
        children: n.children().map(node_to_tree).collect(),
    }
}

} // verus!
