//! The document tree the filter works on. A node is an element (tag name,
//! attributes, children), a piece of text, a comment, or a doctype; the
//! filter only ever discriminates "is this an element", everything else
//! passes through it untouched.

use vstd::prelude::*;

verus! {

/// An HTML element: a tag name, its attributes (carried through unexamined),
/// and its children in document order.
#[derive(Debug, PartialEq)]
pub struct HtmlElement {
    pub name: String,
    pub attrs: Vec<(String, String)>,
    pub children: Vec<HtmlNode>,
}

/// One node of a document tree.
#[derive(Debug, PartialEq)]
pub enum HtmlNode {
    Element(HtmlElement),
    Text(String),
    Comment(String),
    DoctypeHtml,
    DoctypeXml(String, String),
}

/// The mathematical shape of a node: the same tree over sequences.
#[verifier::ext_equal]
pub enum NodeView {
    Element { name: Seq<char>, attrs: Seq<(Seq<char>, Seq<char>)>, children: Seq<NodeView> },
    Text(Seq<char>),
    Comment(Seq<char>),
    DoctypeHtml,
    DoctypeXml(Seq<char>, Seq<char>),
}

pub open spec fn view_attrs(attrs: Seq<(String, String)>) -> Seq<(Seq<char>, Seq<char>)> {
    attrs.map_values(|p: (String, String)| (p.0@, p.1@))
}

impl HtmlNode {
    /// The abstract tree a node stands for.
    pub open spec fn view(self) -> NodeView
        decreases self,
    {
        match self {
            HtmlNode::Element(e) => NodeView::Element {
                name: e.name@,
                attrs: view_attrs(e.attrs@),
                children: view_nodes(e.children@),
            },
            HtmlNode::Text(t) => NodeView::Text(t@),
            HtmlNode::Comment(c) => NodeView::Comment(c@),
            HtmlNode::DoctypeHtml => NodeView::DoctypeHtml,
            HtmlNode::DoctypeXml(v, e) => NodeView::DoctypeXml(v@, e@),
        }
    }
}

/// The abstract trees of a sibling sequence, in order.
pub open spec fn view_nodes(s: Seq<HtmlNode>) -> Seq<NodeView>
    decreases s,
{
    if s.len() == 0 {
        Seq::empty()
    } else {
        view_nodes(s.drop_last()).push(s.last().view())
    }
}

} // verus!
