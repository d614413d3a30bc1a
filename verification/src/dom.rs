use vstd::prelude::*;
use crate::text::bytes_eq;

verus! {

pub struct XmlNode {
    pub is_element: bool,
    pub tag: Vec<u8>,
    pub attrs: Vec<(Vec<u8>, Vec<u8>)>,
    pub text: Option<Vec<u8>>,
    pub children: Vec<XmlNode>,
}

pub struct XmlNodeView {
    pub is_element: bool,
    pub tag: Seq<u8>,
    pub attrs: Seq<(Seq<u8>, Seq<u8>)>,
    pub text: Option<Seq<u8>>,
    pub children: Seq<XmlNodeView>,
}

impl XmlNode {
    /// The whole tree as a mathematical value.
    pub open spec fn model(&self) -> XmlNodeView
        decreases self, 1int, 0int,
    {
        XmlNodeView {
            is_element: self.is_element,
            tag: self.tag@,
            attrs: Seq::new(self.attrs@.len(), |i: int| (self.attrs@[i].0@, self.attrs@[i].1@)),
            text: match self.text {
                Some(ref t) => Some(t@),
                None => None,
            },
            children: Self::models_upto(self.children, self.children@.len() as int),
        }
    }

    /// The models of the first `n` nodes of a list.
    pub open spec fn models_upto(cs: Vec<XmlNode>, n: int) -> Seq<XmlNodeView>
        decreases cs, 0int, n,
        via Self::models_upto_decreases
    {
        if n <= 0 || n > cs@.len() {
            Seq::<XmlNodeView>::empty()
        } else {
            Self::models_upto(cs, n - 1).push(cs@[n - 1].model())
        }
    }

    #[via_fn]
    proof fn models_upto_decreases(cs: Vec<XmlNode>, n: int) {
        if 0 < n <= cs@.len() {
            vstd::std_specs::vec::axiom_vec_index_decreases(cs, n - 1);
        }
    }
}

/// The children of a model are the models of the children, in order.
pub proof fn lemma_models_upto(cs: Vec<XmlNode>, n: int)
    requires
        0 <= n <= cs@.len(),
    ensures
        XmlNode::models_upto(cs, n).len() == n,
        forall|i: int| 0 <= i < n ==> #[trigger] XmlNode::models_upto(cs, n)[i] == cs@[i].model(),
    decreases n,
{
    if n > 0 {
        lemma_models_upto(cs, n - 1);
    }
}

impl DeepView for XmlNode {
    type V = XmlNodeView;

    open spec fn deep_view(&self) -> XmlNodeView {
        self.model()
    }
}

pub open spec fn spec_find_in(n: XmlNodeView, tag: Seq<u8>) -> Option<XmlNodeView>
    decreases n,
{
    if n.is_element && n.tag == tag {
        Some(n)
    } else {
        spec_find_in_list(n.children, tag)
    }
}

pub open spec fn spec_find_in_list(cs: Seq<XmlNodeView>, tag: Seq<u8>) -> Option<XmlNodeView>
    decreases cs,
{
    if cs.len() == 0 {
        None
    } else {
        match spec_find_in(cs[0], tag) {
            Some(m) => Some(m),
            None => spec_find_in_list(cs.drop_first(), tag),
        }
    }
}

/// The children of a node's model are the models of its children, in order.
pub proof fn lemma_children_models(n: XmlNode)
    ensures
        n.deep_view().children.len() == n.children@.len(),
        forall|i: int|
            0 <= i < n.children@.len() ==> #[trigger] n.deep_view().children[i]
                == n.children@[i].deep_view(),
        n.deep_view().children == n.children.deep_view(),
{
    lemma_models_upto(n.children, n.children@.len() as int);
    assert(n.deep_view().children =~= n.children.deep_view());
}

/// The first attribute of the given name, scanned in order.
pub open spec fn spec_attr_list(attrs: Seq<(Seq<u8>, Seq<u8>)>, name: Seq<u8>) -> Option<Seq<u8>>
    decreases attrs.len(),
{
    if attrs.len() == 0 {
        None
    } else if attrs[0].0 == name {
        Some(attrs[0].1)
    } else {
        spec_attr_list(attrs.drop_first(), name)
    }
}

/// The value text of a node's named attribute, if present.
pub open spec fn spec_attr(n: XmlNodeView, name: Seq<u8>) -> Option<Seq<u8>> {
    spec_attr_list(n.attrs, name)
}

/// Finds the first element with the given tag, in document order, starting
/// at `n` itself.
pub fn find_in<'a>(n: &'a XmlNode, tag: &[u8]) -> (r: Option<&'a XmlNode>)
    ensures
        (match r {
            Some(m) => Some(m.deep_view()),
            None => None::<XmlNodeView>,
        }) == spec_find_in(n.deep_view(), tag@),
    decreases *n,
{
    let ghost dv = n.deep_view();
    if n.is_element && bytes_eq(n.tag.as_slice(), tag) {
        return Some(n);
    }
    proof {
        lemma_models_upto(n.children, n.children@.len() as int);
        assert(dv.children.skip(0) =~= dv.children);
    }
    let mut i: usize = 0;
    while i < n.children.len()
        invariant
            0 <= i <= n.children@.len(),
            dv == n.deep_view(),
            dv.children.len() == n.children@.len(),
            forall|k: int|
                0 <= k < n.children@.len() ==> #[trigger] dv.children[k]
                    == n.children@[k].deep_view(),
            spec_find_in(dv, tag@) == spec_find_in_list(dv.children, tag@),
            spec_find_in_list(dv.children, tag@) == spec_find_in_list(
                dv.children.skip(i as int),
                tag@,
            ),
        decreases n.children@.len() - i,
    {
        proof {
            assert(dv.children.skip(i as int)[0] == dv.children[i as int]);
            assert(dv.children.skip(i as int).drop_first() =~= dv.children.skip(i + 1));
            vstd::std_specs::vec::axiom_vec_index_decreases(n.children, i as int);
            assert(decreases_to!(*n => n.children));
        }
        match find_in(&n.children[i], tag) {
            Some(m) => {
                return Some(m);
            },
            None => {},
        }
        i = i + 1;
    }
    proof {
        assert(dv.children.skip(i as int) =~= Seq::<XmlNodeView>::empty());
    }
    None
}

/// The value text of the named attribute of `n`, if present.
pub fn attr(n: &XmlNode, name: &[u8]) -> (r: Option<Vec<u8>>)
    ensures
        (match r {
            Some(v) => Some(v@),
            None => None::<Seq<u8>>,
        }) == spec_attr(n.deep_view(), name@),
{
    let ghost all = n.deep_view().attrs;
    let mut i: usize = 0;
    proof {
        assert(all.skip(0) =~= all);
    }
    while i < n.attrs.len()
        invariant
            0 <= i <= n.attrs@.len(),
            all == n.deep_view().attrs,
            all.len() == n.attrs@.len(),
            forall|k: int|
                0 <= k < n.attrs@.len() ==> #[trigger] all[k] == (n.attrs@[k].0@, n.attrs@[k].1@),
            spec_attr_list(all, name@) == spec_attr_list(all.skip(i as int), name@),
        decreases n.attrs@.len() - i,
    {
        proof {
            assert(all.skip(i as int)[0] == all[i as int]);
            assert(all.skip(i as int).drop_first() =~= all.skip(i + 1));
        }
        if bytes_eq(n.attrs[i].0.as_slice(), name) {
            return Some(vstd::slice::slice_to_vec(n.attrs[i].1.as_slice()));
        }
        i = i + 1;
    }
    proof {
        assert(all.skip(i as int) =~= Seq::<(Seq<u8>, Seq<u8>)>::empty());
    }
    None
}

} // verus!
