//! What the logic reads of an HTML page, as plain values.
//!
//! Parsing and CSS selection are done by the `scraper` crate; each selected
//! element is handed back as a [`Node`]: its tag name, the values of the
//! attributes asked for, and its text.
use vstd::prelude::*;
use scraper::{Html, Selector};
use crate::pattern::opt_str_view;

verus! {

/// An element of a page: tag name, the attributes asked for (in the order
/// asked, `None` where absent) and the concatenation of its text nodes.
pub struct Node {
    pub tag: String,
    pub attrs: Vec<Option<String>>,
    pub text: String,
}

/// The mathematical value of a [`Node`].
pub struct NodeView {
    pub tag: Seq<char>,
    pub attrs: Seq<Option<Seq<char>>>,
    pub text: Seq<char>,
}

impl View for Node {
    type V = NodeView;

    open spec fn view(&self) -> NodeView {
        NodeView {
            tag: self.tag@,
            attrs: self.attrs@.map_values(|a: Option<String>| opt_str_view(a)),
            text: self.text@,
        }
    }
}

/// The views of a list of names.
pub open spec fn names_view(names: Seq<&str>) -> Seq<Seq<char>> {
    names.map_values(|s: &str| s@)
}

pub open spec fn nodes_view(v: Seq<Node>) -> Seq<NodeView> {
    v.map_values(|n: Node| n@)
}

pub open spec fn groups_view(v: Seq<(Node, Vec<Node>)>) -> Seq<(NodeView, Seq<NodeView>)> {
    v.map_values(|g: (Node, Vec<Node>)| (g.0@, nodes_view(g.1@)))
}

pub open spec fn groups2_view(v: Seq<Vec<(Node, Vec<Node>)>>) -> Seq<Seq<(NodeView, Seq<NodeView>)>> {
    v.map_values(|g: Vec<(Node, Vec<Node>)>| groups_view(g@))
}

/// The elements of the document `html` that match `selector`, in document
/// order; `None` where `scraper` refuses the selector.
pub uninterp spec fn spec_select(html: Seq<char>, selector: Seq<char>, names: Seq<Seq<char>>) -> Option<Seq<NodeView>>;

/// Like [`spec_select`], with `html` parsed as a fragment.
pub uninterp spec fn spec_select_fragment(html: Seq<char>, selector: Seq<char>, names: Seq<Seq<char>>) -> Option<Seq<NodeView>>;

/// For each element of the document that matches `outer`, the element and
/// its descendants that match `inner`.
pub uninterp spec fn spec_select_nested(
    html: Seq<char>,
    outer: Seq<char>,
    inner: Seq<char>,
    names: Seq<Seq<char>>,
) -> Option<Seq<(NodeView, Seq<NodeView>)>>;

/// For each element of the document that matches `outer`: for each of its
/// descendants that match `middle`, that descendant and its own descendants
/// that match `inner`.
pub uninterp spec fn spec_select_nested2(
    html: Seq<char>,
    outer: Seq<char>,
    middle: Seq<char>,
    inner: Seq<char>,
    names: Seq<Seq<char>>,
) -> Option<Seq<Seq<(NodeView, Seq<NodeView>)>>>;

/// The inner HTML of the first element of the document that matches
/// `selector`.
pub uninterp spec fn spec_first_inner_html(html: Seq<char>, selector: Seq<char>) -> Option<Option<Seq<char>>>;

/// Parses `html` as a document (`scraper::Html::parse_document`) and selects
/// with `Selector::parse(selector)` and `Html::select`. The contract names
/// the result; it claims nothing of it but that it depends on the arguments
/// alone, and that `None` stands for a selector that `scraper` refuses.
#[verifier::external_body]
pub(crate) fn select(html: &str, selector: &str, names: &[&str]) -> (r: Option<Vec<Node>>)
    ensures
        match r {
            Some(v) => spec_select(html@, selector@, names_view(names@)) == Some(nodes_view(v@)),
            None => spec_select(html@, selector@, names_view(names@)) is None,
        },
{
    let sel = match Selector::parse(selector) {
        Ok(s) => s,
        Err(_) => return None,
    };
    let doc = Html::parse_document(html);
    Some(doc.select(&sel).map(|e| Node {
        tag: e.value().name().to_string(),
        attrs: names.iter().map(|n| e.attr(n).map(String::from)).collect(),
        text: e.text().collect(),
    }).collect())
}

/// As [`select`], with `html` parsed by `scraper::Html::parse_fragment`.
#[verifier::external_body]
pub(crate) fn select_fragment(html: &str, selector: &str, names: &[&str]) -> (r: Option<Vec<Node>>)
    ensures
        match r {
            Some(v) => spec_select_fragment(html@, selector@, names_view(names@)) == Some(nodes_view(v@)),
            None => spec_select_fragment(html@, selector@, names_view(names@)) is None,
        },
{
    let sel = match Selector::parse(selector) {
        Ok(s) => s,
        Err(_) => return None,
    };
    let doc = Html::parse_fragment(html);
    Some(doc.select(&sel).map(|e| Node {
        tag: e.value().name().to_string(),
        attrs: names.iter().map(|n| e.attr(n).map(String::from)).collect(),
        text: e.text().collect(),
    }).collect())
}

/// Selects `outer` in the document `html` (`Html::select`), and `inner` within
/// each such element (`ElementRef::select`). The contract names the result;
/// `None` stands for a selector that `scraper` refuses.
#[verifier::external_body]
pub(crate) fn select_nested(html: &str, outer: &str, inner: &str, names: &[&str]) -> (r: Option<Vec<(Node, Vec<Node>)>>)
    ensures
        match r {
            Some(v) => spec_select_nested(html@, outer@, inner@, names_view(names@)) == Some(groups_view(v@)),
            None => spec_select_nested(html@, outer@, inner@, names_view(names@)) is None,
        },
{
    let (Ok(o), Ok(i)) = (Selector::parse(outer), Selector::parse(inner)) else {
        return None;
    };
    let doc = Html::parse_document(html);
    let node = |e: scraper::ElementRef| Node {
        tag: e.value().name().to_string(),
        attrs: names.iter().map(|n| e.attr(n).map(String::from)).collect(),
        text: e.text().collect(),
    };
    Some(doc.select(&o).map(|e| (node(e), e.select(&i).map(node).collect())).collect())
}

/// Selects `outer` in the document `html`, `middle` within each such element
/// and `inner` within each of those. The contract names the result; `None`
/// stands for a selector that `scraper` refuses.
#[verifier::external_body]
pub(crate) fn select_nested2(html: &str, outer: &str, middle: &str, inner: &str, names: &[&str]) -> (r: Option<Vec<Vec<(Node, Vec<Node>)>>>)
    ensures
        match r {
            Some(v) => spec_select_nested2(html@, outer@, middle@, inner@, names_view(names@)) == Some(groups2_view(v@)),
            None => spec_select_nested2(html@, outer@, middle@, inner@, names_view(names@)) is None,
        },
{
    let (Ok(o), Ok(m), Ok(i)) = (Selector::parse(outer), Selector::parse(middle), Selector::parse(inner)) else {
        return None;
    };
    let doc = Html::parse_document(html);
    let node = |e: scraper::ElementRef| Node {
        tag: e.value().name().to_string(),
        attrs: names.iter().map(|n| e.attr(n).map(String::from)).collect(),
        text: e.text().collect(),
    };
    Some(doc.select(&o).map(|e| e.select(&m).map(|f| (node(f), f.select(&i).map(node).collect())).collect()).collect())
}

/// The inner HTML (`ElementRef::inner_html`) of the first element of the
/// document `html` that matches `selector`. The contract names the result;
/// `None` stands for a selector that `scraper` refuses.
#[verifier::external_body]
pub(crate) fn first_inner_html(html: &str, selector: &str) -> (r: Option<Option<String>>)
    ensures
        match r {
            Some(Some(s)) => spec_first_inner_html(html@, selector@) == Some(Some(s@)),
            Some(None) => spec_first_inner_html(html@, selector@) == Some(None::<Seq<char>>),
            None => spec_first_inner_html(html@, selector@) is None,
        },
{
    let sel = match Selector::parse(selector) {
        Ok(s) => s,
        Err(_) => return None,
    };
    Some(Html::parse_document(html).select(&sel).next().map(|e| e.inner_html()))
}

} // verus!
