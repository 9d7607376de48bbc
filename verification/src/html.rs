//! A parsed HTML document as the parsers see it.
//!
//! Parsing, CSS selection and tree navigation are done by the `scraper`
//! crate. Nodes are named by their position in the pre-order traversal of
//! the parsed tree (the document node is 0). What each operation returns is
//! a named function of the document's source text, whether it was parsed as
//! a fragment, and the operation's arguments.

use vstd::prelude::*;

verus! {

#[verifier::external_type_specification]
#[verifier::external_body]
pub struct ExHtml(scraper::Html);

#[verifier::external_type_specification]
#[verifier::external_body]
pub struct ExNodeId(ego_tree::NodeId);

/// The elements that `selector` matches, in the order `scraper` yields
/// them: over the whole document when `scope` is `None`
/// (`Html::select`), else among the descendants of the element `scope`
/// (`ElementRef::select`). An unparsable selector or a scope that is not an
/// element matches nothing.
pub uninterp spec fn html_select(
    source: Seq<char>,
    fragment: bool,
    scope: Option<usize>,
    selector: Seq<char>,
) -> Seq<usize>;

/// The text of node `node` as `ElementRef::text` yields it, concatenated;
/// empty when `node` is not an element.
pub uninterp spec fn html_text(source: Seq<char>, fragment: bool, node: usize) -> Seq<char>;

/// The value of attribute `name` of element `node` (`Element::attr`).
pub uninterp spec fn html_attr(source: Seq<char>, fragment: bool, node: usize, name: Seq<char>) -> Option<Seq<char>>;

/// The local name of element `node` (`Element::name`), `None` when `node`
/// is not an element.
pub uninterp spec fn html_element_name(source: Seq<char>, fragment: bool, node: usize) -> Option<Seq<char>>;

/// The content of text node `node`, `None` when `node` is not a text node.
pub uninterp spec fn html_text_node(source: Seq<char>, fragment: bool, node: usize) -> Option<Seq<char>>;

/// The children of `node`, in order.
pub uninterp spec fn html_children(source: Seq<char>, fragment: bool, node: usize) -> Seq<usize>;

/// The next sibling of `node`.
pub uninterp spec fn html_next_sibling(source: Seq<char>, fragment: bool, node: usize) -> Option<usize>;

/// The ancestors of `node`, nearest first (`NodeRef::ancestors`).
pub uninterp spec fn html_ancestors(source: Seq<char>, fragment: bool, node: usize) -> Seq<usize>;

/// `node` followed by its descendants in pre-order (`NodeRef::descendants`).
pub uninterp spec fn html_descendants(source: Seq<char>, fragment: bool, node: usize) -> Seq<usize>;

/// The number of nodes of the parsed tree.
pub uninterp spec fn html_node_count(source: Seq<char>, fragment: bool) -> usize;

/// The root `<html>` element (`Html::root_element`).
pub uninterp spec fn html_root_element(source: Seq<char>, fragment: bool) -> usize;

/// The tree of a parsed document with the ids of its nodes in pre-order
/// and, for each id, its position in that order.
type Indexed = (scraper::Html, Vec<ego_tree::NodeId>, std::collections::HashMap<ego_tree::NodeId, usize>);

/// `Html::parse_document`, with the tree's nodes numbered in pre-order.
#[verifier::external_body]
fn parse_document_raw(s: &str) -> Indexed {
    let doc = scraper::Html::parse_document(s);
    let order: Vec<_> = doc.tree.root().descendants().map(|n| n.id()).collect();
    let pos = order.iter().enumerate().map(|(i, id)| (*id, i)).collect();
    (doc, order, pos)
}

/// `Html::parse_fragment`, with the tree's nodes numbered in pre-order.
#[verifier::external_body]
fn parse_fragment_raw(s: &str) -> Indexed {
    let doc = scraper::Html::parse_fragment(s);
    let order: Vec<_> = doc.tree.root().descendants().map(|n| n.id()).collect();
    let pos = order.iter().enumerate().map(|(i, id)| (*id, i)).collect();
    (doc, order, pos)
}

/// A parsed document together with the text it was parsed from.
pub struct HtmlDoc {
    doc: scraper::Html,
    order: Vec<ego_tree::NodeId>,
    pos: std::collections::HashMap<ego_tree::NodeId, usize>,
    source: Ghost<Seq<char>>,
    fragment: Ghost<bool>,
}

impl HtmlDoc {
    /// The text the document was parsed from.
    pub closed spec fn src(&self) -> Seq<char> {
        self.source@
    }

    /// Whether it was parsed as a fragment.
    pub closed spec fn frag(&self) -> bool {
        self.fragment@
    }

    /// `Html::parse_document`.
    pub fn parse_document(s: &str) -> (d: HtmlDoc)
        ensures
            d.src() == s@,
            !d.frag(),
    {
        let (doc, order, pos) = parse_document_raw(s);
        HtmlDoc { doc, order, pos, source: Ghost(s@), fragment: Ghost(false) }
    }

    /// `Html::parse_fragment`.
    pub fn parse_fragment(s: &str) -> (d: HtmlDoc)
        ensures
            d.src() == s@,
            d.frag(),
    {
        let (doc, order, pos) = parse_fragment_raw(s);
        HtmlDoc { doc, order, pos, source: Ghost(s@), fragment: Ghost(true) }
    }

    /// `Html::select` (scope `None`) or `ElementRef::select`, with the
    /// selector parsed by `Selector::parse`.
    #[verifier::external_body]
    pub(crate) fn select(&self, scope: Option<usize>, selector: &str) -> (r: Vec<usize>)
        ensures
            r@ == html_select(self.src(), self.frag(), scope, selector@),
    {
        let Ok(sel) = scraper::Selector::parse(selector) else { return Vec::new() };
        let pos = |id| self.pos.get(&id).copied().unwrap_or(0);
        match scope {
            None => self.doc.select(&sel).map(|e| pos(e.id())).collect(),
            Some(h) => self.order.get(h).and_then(|id| self.doc.tree.get(*id)).and_then(scraper::ElementRef::wrap)
                .map_or(Vec::new(), |e| e.select(&sel).map(|m| pos(m.id())).collect()),
        }
    }

    /// `ElementRef::text`, concatenated.
    #[verifier::external_body]
    pub(crate) fn text(&self, node: usize) -> (r: String)
        ensures
            r@ == html_text(self.src(), self.frag(), node),
    {
        let n = self.order.get(node).and_then(|id| self.doc.tree.get(*id));
        n.and_then(scraper::ElementRef::wrap).map_or(String::new(), |e| e.text().collect())
    }

    /// `Element::attr`.
    #[verifier::external_body]
    pub(crate) fn attr(&self, node: usize, name: &str) -> (r: Option<String>)
        ensures
            r matches Some(s) ==> html_attr(self.src(), self.frag(), node, name@) == Some(s@),
            r is None ==> html_attr(self.src(), self.frag(), node, name@) is None,
    {
        let n = self.order.get(node).and_then(|id| self.doc.tree.get(*id));
        n.and_then(scraper::ElementRef::wrap).and_then(|e| e.value().attr(name)).map(|s| s.to_string())
    }

    /// `Element::name`.
    #[verifier::external_body]
    pub(crate) fn element_name(&self, node: usize) -> (r: Option<String>)
        ensures
            r matches Some(s) ==> html_element_name(self.src(), self.frag(), node) == Some(s@),
            r is None ==> html_element_name(self.src(), self.frag(), node) is None,
    {
        let n = self.order.get(node).and_then(|id| self.doc.tree.get(*id));
        n.and_then(scraper::ElementRef::wrap).map(|e| e.value().name().to_string())
    }

    /// The content of a text node (`Node::as_text`).
    #[verifier::external_body]
    pub(crate) fn text_node(&self, node: usize) -> (r: Option<String>)
        ensures
            r matches Some(s) ==> html_text_node(self.src(), self.frag(), node) == Some(s@),
            r is None ==> html_text_node(self.src(), self.frag(), node) is None,
    {
        let n = self.order.get(node).and_then(|id| self.doc.tree.get(*id));
        n.and_then(|n| n.value().as_text().map(|t| t.to_string()))
    }

    /// `NodeRef::children`. In pre-order every child comes after its parent.
    #[verifier::external_body]
    pub(crate) fn children(&self, node: usize) -> (r: Vec<usize>)
        ensures
            r@ == html_children(self.src(), self.frag(), node),
            forall|i: int| 0 <= i < r@.len() ==> node < #[trigger] r@[i] < html_node_count(self.src(), self.frag()),
    {
        let pos = |id| self.pos.get(&id).copied().unwrap_or(0);
        self.order.get(node).and_then(|id| self.doc.tree.get(*id)).map_or(Vec::new(), |n| n.children().map(|c| pos(c.id())).collect())
    }

    /// `NodeRef::next_sibling`. In pre-order a next sibling comes after the node.
    #[verifier::external_body]
    pub(crate) fn next_sibling(&self, node: usize) -> (r: Option<usize>)
        ensures
            r == html_next_sibling(self.src(), self.frag(), node),
            r matches Some(k) ==> node < k < html_node_count(self.src(), self.frag()),
    {
        let pos = |id| self.pos.get(&id).copied().unwrap_or(0);
        self.order.get(node).and_then(|id| self.doc.tree.get(*id)).and_then(|n| n.next_sibling()).map(|s| pos(s.id()))
    }

    /// `NodeRef::ancestors`, nearest first.
    #[verifier::external_body]
    pub(crate) fn ancestors(&self, node: usize) -> (r: Vec<usize>)
        ensures
            r@ == html_ancestors(self.src(), self.frag(), node),
    {
        let pos = |id| self.pos.get(&id).copied().unwrap_or(0);
        self.order.get(node).and_then(|id| self.doc.tree.get(*id)).map_or(Vec::new(), |n| n.ancestors().map(|a| pos(a.id())).collect())
    }

    /// `NodeRef::descendants`: the node itself, then its descendants in pre-order.
    #[verifier::external_body]
    pub(crate) fn descendants(&self, node: usize) -> (r: Vec<usize>)
        ensures
            r@ == html_descendants(self.src(), self.frag(), node),
    {
        let pos = |id| self.pos.get(&id).copied().unwrap_or(0);
        self.order.get(node).and_then(|id| self.doc.tree.get(*id)).map_or(Vec::new(), |n| n.descendants().map(|d| pos(d.id())).collect())
    }

    /// `Html::root_element`: the `<html>` element, which the HTML parser
    /// always creates.
    #[verifier::external_body]
    pub(crate) fn root_element(&self) -> (r: usize)
        ensures
            r == html_root_element(self.src(), self.frag()),
    {
        let id = self.doc.root_element().id();
        self.pos.get(&id).copied().unwrap_or(0)
    }

    /// The number of nodes of the tree.
    #[verifier::external_body]
    pub(crate) fn node_count(&self) -> (r: usize)
        ensures
            r == html_node_count(self.src(), self.frag()),
    {
        self.order.len()
    }
}

} // verus!
