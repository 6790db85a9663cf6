//! Markup documents as trees of elements and text.

use crate::text::{append_str, is_word, to_chars};
use crate::text_map::{lemma_position, lookup};
use scraper::{Html, Node};
use vstd::prelude::*;

verus! {

/// A node of a markup document.
#[derive(Debug, PartialEq, Eq)]
pub enum MarkupNode {
    /// A run of text between tags, as it stands in the document.
    Text(String),
    /// An element: its tag name, its attributes as pairs of name and value,
    /// and its children in document order.
    Element { tag: String, attrs: Vec<(String, String)>, children: Vec<MarkupNode> },
}

/// What a markup node holds, as mathematical values.
pub enum MarkupModel {
    Text(Seq<char>),
    Element { tag: Seq<char>, attrs: Seq<(Seq<char>, Seq<char>)>, children: Seq<MarkupModel> },
}

/// What a list of attributes holds.
pub open spec fn attrs_view(attrs: Seq<(String, String)>) -> Seq<(Seq<char>, Seq<char>)> {
    Seq::new(attrs.len(), |i: int| (attrs[i].0@, attrs[i].1@))
}

/// What the markup node `node` holds.
pub open spec fn markup_model(node: MarkupNode) -> MarkupModel
    decreases node,
{
    match node {
        MarkupNode::Text(content) => MarkupModel::Text(content@),
        MarkupNode::Element { tag, attrs, children } => MarkupModel::Element {
            tag: tag@,
            attrs: attrs_view(attrs@),
            children: Seq::new(
                children@.len(),
                |i: int|
                    if 0 <= i < children@.len() {
                        markup_model(children@[i])
                    } else {
                        MarkupModel::Text(Seq::empty())
                    },
            ),
        },
    }
}

impl View for MarkupNode {
    type V = MarkupModel;

    open spec fn view(&self) -> MarkupModel {
        markup_model(*self)
    }
}

/// What a list of markup nodes holds.
pub open spec fn markup_view(nodes: Seq<MarkupNode>) -> Seq<MarkupModel> {
    Seq::new(nodes.len(), |i: int| nodes[i]@)
}

/// The view of an element holds the views of its children, in order.
pub proof fn lemma_element_view(node: MarkupNode)
    ensures
        node matches MarkupNode::Element { tag, attrs, children } ==> node@ == (
        MarkupModel::Element {
            tag: tag@,
            attrs: attrs_view(attrs@),
            children: markup_view(children@),
        }),
{
    match node {
        MarkupNode::Element { tag, attrs, children } => {
            assert(node@->Element_children =~= markup_view(children@));
        },
        _ => {},
    }
}

/// One node of a parsed document, with the number of its ancestors. The
/// nodes of a document come in document order, each before its children.
#[derive(Debug, Clone, PartialEq, Eq)]
pub enum MarkupItem {
    Element { depth: usize, tag: String, attrs: Vec<(String, String)> },
    Text { depth: usize, content: String },
    /// A node that is neither element nor text: the document itself, a
    /// comment, a doctype, a processing instruction.
    Other { depth: usize },
}

/// What a parsed node holds, as mathematical values.
pub enum ItemModel {
    Element { depth: nat, tag: Seq<char>, attrs: Seq<(Seq<char>, Seq<char>)> },
    Text { depth: nat, content: Seq<char> },
    Other { depth: nat },
}

impl ItemModel {
    /// The number of ancestors of the node.
    pub open spec fn level(self) -> nat {
        match self {
            ItemModel::Element { depth, .. } => depth,
            ItemModel::Text { depth, .. } => depth,
            ItemModel::Other { depth } => depth,
        }
    }
}

impl View for MarkupItem {
    type V = ItemModel;

    open spec fn view(&self) -> ItemModel {
        match self {
            MarkupItem::Element { depth, tag, attrs } => ItemModel::Element {
                depth: *depth as nat,
                tag: tag@,
                attrs: attrs_view(attrs@),
            },
            MarkupItem::Text { depth, content } => ItemModel::Text {
                depth: *depth as nat,
                content: content@,
            },
            MarkupItem::Other { depth } => ItemModel::Other { depth: *depth as nat },
        }
    }
}

/// What a list of parsed nodes holds.
pub open spec fn items_view(items: Seq<MarkupItem>) -> Seq<ItemModel> {
    Seq::new(items.len(), |i: int| items[i]@)
}

/// The nodes of the document that an HTML parser makes of the text `html`,
/// in document order, each with the number of its ancestors.
pub uninterp spec fn parsed_markup(html: Seq<char>) -> Seq<ItemModel>;

/// Parses `html` with `scraper::Html::parse_document` and hands out the
/// nodes of the resulting tree as `descendants` of its root walks them: for
/// each the count of its `ancestors`, for an element its `name` and its
/// `attrs`, for a text node its text. The contract names the result, which
/// depends on `html` alone, and claims nothing of what it holds.
#[verifier::external_body]
fn parse_markup(html: &str) -> (items: Vec<MarkupItem>)
    ensures
        items_view(items@) == parsed_markup(html@),
{
    let document = Html::parse_document(html);
    let mut items = Vec::new();
    for node in document.tree.root().descendants() {
        let depth = node.ancestors().count();
        items.push(match node.value() {
            Node::Element(e) => MarkupItem::Element { depth, tag: e.name().to_string(), attrs: e.attrs().map(|(k, v)| (k.to_string(), v.to_string())).collect() },
            Node::Text(t) => MarkupItem::Text { depth, content: t.to_string() },
            _ => MarkupItem::Other { depth },
        });
    }
    items
}

/// The nodes that the items from `start` on make for a parent whose
/// children have `depth` ancestors, and the index of the first item that is
/// not among them. An element takes the deeper items that follow it as its
/// children; a node that is neither element nor text makes no node, and
/// what follows it at greater depth counts as if it stood in its place.
pub open spec fn nodes_from(items: Seq<ItemModel>, start: int, depth: nat) -> (
    Seq<MarkupModel>,
    int,
)
    decreases items.len() - start,
{
    if start < 0 || start >= items.len() || items[start].level() < depth {
        (Seq::empty(), start)
    } else {
        match items[start] {
            ItemModel::Element { depth: own, tag, attrs } => {
                let inner = nodes_from(items, start + 1, own + 1);
                let next = if start < inner.1 <= items.len() {
                    inner.1
                } else {
                    start + 1
                };
                let rest = nodes_from(items, next, depth);
                (
                    seq![MarkupModel::Element { tag, attrs, children: inner.0 }] + rest.0,
                    rest.1,
                )
            },
            ItemModel::Text { content, .. } => {
                let rest = nodes_from(items, start + 1, depth);
                (seq![MarkupModel::Text(content)] + rest.0, rest.1)
            },
            ItemModel::Other { .. } => nodes_from(items, start + 1, depth),
        }
    }
}

/// The top-level nodes of the document that the items make.
pub open spec fn forest(items: Seq<ItemModel>) -> Seq<MarkupModel> {
    nodes_from(items, 0, 0).0
}

/// Where `nodes_from` stops: not before it starts, and not after the end.
pub proof fn lemma_nodes_from_end(items: Seq<ItemModel>, start: int, depth: nat)
    requires
        0 <= start <= items.len(),
    ensures
        start <= nodes_from(items, start, depth).1 <= items.len(),
    decreases items.len() - start,
{
    if start >= items.len() || items[start].level() < depth {
    } else {
        match items[start] {
            ItemModel::Element { depth: own, tag, attrs } => {
                lemma_nodes_from_end(items, start + 1, own + 1);
                let inner = nodes_from(items, start + 1, own + 1);
                lemma_nodes_from_end(items, inner.1, depth);
            },
            ItemModel::Text { content, .. } => {
                lemma_nodes_from_end(items, start + 1, depth);
            },
            ItemModel::Other { .. } => {
                lemma_nodes_from_end(items, start + 1, depth);
            },
        }
    }
}

/// The items of the node `node` at the depth `depth`, in document order:
/// the node itself, and for an element its children one level deeper.
pub open spec fn node_listing(node: MarkupModel, depth: nat) -> Seq<ItemModel>
    decreases node,
{
    match node {
        MarkupModel::Text(content) => seq![ItemModel::Text { depth, content }],
        MarkupModel::Element { tag, attrs, children } => seq![
            ItemModel::Element { depth, tag, attrs },
        ] + listing(children, depth + 1),
    }
}

/// The items of the nodes `nodes` at the depth `depth`, in document order.
pub open spec fn listing(nodes: Seq<MarkupModel>, depth: nat) -> Seq<ItemModel>
    decreases nodes,
{
    if nodes.len() == 0 {
        Seq::empty()
    } else {
        node_listing(nodes[0], depth) + listing(nodes.drop_first(), depth)
    }
}

/// The listing of nodes starts with an item of their depth.
pub proof fn lemma_listing_head(nodes: Seq<MarkupModel>, depth: nat)
    requires
        nodes.len() > 0,
    ensures
        listing(nodes, depth).len() > 0,
        listing(nodes, depth)[0].level() == depth,
{
    let first = node_listing(nodes[0], depth);
    assert(first.len() > 0 && first[0].level() == depth) by {
        match nodes[0] {
            MarkupModel::Text(content) => {},
            MarkupModel::Element { tag, attrs, children } => {},
        }
    }
    assert(listing(nodes, depth)[0] == first[0]);
}

/// Building inverts listing, wherever the listing stands: where the items
/// hold the listing of `nodes` from the index `before.len()` on, followed by
/// nothing or by an item of lesser depth, the nodes built from that index
/// are `nodes`, and building stops right after the listing.
pub proof fn lemma_listing_builds(
    before: Seq<ItemModel>,
    nodes: Seq<MarkupModel>,
    depth: nat,
    after: Seq<ItemModel>,
)
    requires
        after.len() > 0 ==> after[0].level() < depth,
    ensures
        nodes_from(before + listing(nodes, depth) + after, before.len() as int, depth) == (
            nodes,
            (before.len() + listing(nodes, depth).len()) as int,
        ),
    decreases nodes,
{
    let items = before + listing(nodes, depth) + after;
    let start = before.len() as int;
    if nodes.len() == 0 {
        if after.len() > 0 {
            assert(items[start] == after[0]);
        }
        assert(nodes =~= Seq::<MarkupModel>::empty());
    } else {
        let first = nodes[0];
        let tail = nodes.drop_first();
        let own = node_listing(first, depth);
        let others = listing(tail, depth);
        assert(nodes =~= seq![first] + tail);
        assert(items =~= before + own + others + after);
        match first {
            MarkupModel::Text(content) => {
                assert(items[start] == own[0]);
                lemma_listing_builds(before + own, tail, depth, after);
                assert(items =~= (before + own) + listing(tail, depth) + after);
            },
            MarkupModel::Element { tag, attrs, children } => {
                assert(items[start] == own[0]);
                let head = seq![ItemModel::Element { depth, tag, attrs }];
                let inside = listing(children, depth + 1);
                assert(own =~= head + inside);
                let beyond = others + after;
                if tail.len() > 0 {
                    lemma_listing_head(tail, depth);
                    assert(beyond[0] == others[0]);
                } else if after.len() > 0 {
                    assert(beyond[0] == after[0]);
                }
                lemma_listing_builds(before + head, children, depth + 1, beyond);
                assert(items =~= (before + head) + inside + beyond);
                lemma_listing_builds(before + own, tail, depth, after);
                assert(items =~= (before + own) + listing(tail, depth) + after);
            },
        }
    }
}

/// Building inverts listing: the tree of the listing of a document is the
/// document.
pub proof fn lemma_forest_of_listing(nodes: Seq<MarkupModel>)
    ensures
        forest(listing(nodes, 0)) == nodes,
{
    lemma_listing_builds(Seq::empty(), nodes, 0, Seq::empty());
    assert(Seq::<ItemModel>::empty() + listing(nodes, 0) + Seq::<ItemModel>::empty() =~= listing(
        nodes,
        0,
    ));
}

/// A copy of a list of attributes.
fn clone_attrs(attrs: &Vec<(String, String)>) -> (out: Vec<(String, String)>)
    ensures
        attrs_view(out@) == attrs_view(attrs@),
{
    let mut out: Vec<(String, String)> = Vec::new();
    let mut i: usize = 0;
    while i < attrs.len()
        invariant
            i <= attrs.len(),
            out@.len() == i,
            forall|j: int| 0 <= j < i ==> out@[j].0@ == attrs@[j].0@ && out@[j].1@ == attrs@[j].1@,
        decreases attrs.len() - i,
    {
        out.push((attrs[i].0.clone(), attrs[i].1.clone()));
        i += 1;
    }
    assert(attrs_view(out@) =~= attrs_view(attrs@));
    out
}

/// The number of ancestors of the item.
fn item_depth(item: &MarkupItem) -> (depth: usize)
    ensures
        depth == item@.level(),
{
    match item {
        MarkupItem::Element { depth, .. } => *depth,
        MarkupItem::Text { depth, .. } => *depth,
        MarkupItem::Other { depth } => *depth,
    }
}

/// Builds the nodes that the items from `start` on make at `depth`.
fn build_nodes(items: &Vec<MarkupItem>, start: usize, depth: usize) -> (out: (
    Vec<MarkupNode>,
    usize,
))
    requires
        start <= items.len(),
    ensures
        markup_view(out.0@) == nodes_from(items_view(items@), start as int, depth as nat).0,
        out.1 == nodes_from(items_view(items@), start as int, depth as nat).1,
        start <= out.1 <= items.len(),
    decreases items.len() - start,
{
    let ghost all = items_view(items@);
    let mut nodes: Vec<MarkupNode> = Vec::new();
    let mut i: usize = start;
    assert(markup_view(nodes@) =~= Seq::<MarkupModel>::empty());
    while i < items.len() && item_depth(&items[i]) >= depth
        invariant
            start <= i <= items.len(),
            all == items_view(items@),
            nodes_from(all, start as int, depth as nat).0 == markup_view(nodes@) + nodes_from(
                all,
                i as int,
                depth as nat,
            ).0,
            nodes_from(all, start as int, depth as nat).1 == nodes_from(
                all,
                i as int,
                depth as nat,
            ).1,
        decreases items.len() - i,
    {
        let ghost before = markup_view(nodes@);
        assert(all[i as int] == items@[i as int]@);
        match &items[i] {
            MarkupItem::Element { depth: own, tag, attrs } => {
                let (children, next) = if *own < usize::MAX {
                    build_nodes(items, i + 1, *own + 1)
                } else {
                    proof {
                        if i + 1 < items.len() {
                            assert(all[i + 1] == items@[i + 1]@);
                        }
                    }
                    (Vec::new(), i + 1)
                };
                let node = MarkupNode::Element {
                    tag: tag.clone(),
                    attrs: clone_attrs(attrs),
                    children,
                };
                proof {
                    lemma_element_view(node);
                    assert(markup_view(children@) =~= nodes_from(
                        all,
                        i + 1,
                        (*own + 1) as nat,
                    ).0);
                }
                nodes.push(node);
                assert(markup_view(nodes@) =~= before + seq![node@]);
                i = next;
            },
            MarkupItem::Text { content, .. } => {
                let node = MarkupNode::Text(content.clone());
                nodes.push(node);
                assert(markup_view(nodes@) =~= before + seq![node@]);
                i += 1;
            },
            MarkupItem::Other { .. } => {
                i += 1;
            },
        }
    }
    (nodes, i)
}

/// Builds the tree of a parsed document: its top-level nodes, each element
/// with its children.
pub fn markup_tree(items: &Vec<MarkupItem>) -> (out: Vec<MarkupNode>)
    ensures
        markup_view(out@) == forest(items_view(items@)),
{
    build_nodes(items, 0, 0).0
}

/// Parses the markup text `html` into the top-level nodes of its document.
pub fn parse_markup_tree(html: &str) -> (out: Vec<MarkupNode>)
    ensures
        markup_view(out@) == forest(parsed_markup(html@)),
{
    let items = parse_markup(html);
    markup_tree(&items)
}

/// The value of the attribute `name` among `attrs`.
pub open spec fn attribute(attrs: Seq<(Seq<char>, Seq<char>)>, name: Seq<char>) -> Option<
    Seq<char>,
> {
    lookup(attrs, name)
}

/// The value of the attribute `name` among `attrs`.
pub fn find_attribute<'a>(attrs: &'a Vec<(String, String)>, name: &str) -> (out: Option<&'a String>)
    ensures
        match out {
            Some(value) => attribute(attrs_view(attrs@), name@) == Some(value@),
            None => attribute(attrs_view(attrs@), name@) is None,
        },
{
    let key = to_chars(name);
    let ghost all = attrs_view(attrs@);
    let mut i: usize = 0;
    while i < attrs.len()
        invariant
            i <= attrs.len(),
            key@ == name@,
            all == attrs_view(attrs@),
            forall|j: int| 0 <= j < i ==> (#[trigger] all[j]).0 != name@,
        decreases attrs.len() - i,
    {
        if is_word(&key, attrs[i].0.as_str()) {
            proof {
                lemma_position(all, name@, i as int);
            }
            return Some(&attrs[i].1);
        }
        i += 1;
    }
    proof {
        lemma_position(all, name@, i as int);
    }
    None
}

/// The first element with the tag `tag` among `nodes` and their
/// descendants, in document order.
pub open spec fn first_element(nodes: Seq<MarkupModel>, tag: Seq<char>) -> Option<MarkupModel>
    decreases nodes,
{
    if nodes.len() == 0 {
        None
    } else {
        match first_element(nodes.drop_last(), tag) {
            Some(found) => Some(found),
            None => match nodes.last() {
                MarkupModel::Element { tag: own, attrs, children } => if own == tag {
                    Some(nodes.last())
                } else {
                    first_element(children, tag)
                },
                MarkupModel::Text(_) => None,
            },
        }
    }
}

/// The first element with the tag `tag` among `nodes` and their
/// descendants, in document order.
pub fn find_element<'a>(nodes: &'a Vec<MarkupNode>, tag: &str) -> (out: Option<&'a MarkupNode>)
    ensures
        match out {
            Some(node) => first_element(markup_view(nodes@), tag@) == Some(node@),
            None => first_element(markup_view(nodes@), tag@) is None,
        },
    decreases nodes,
{
    let key = to_chars(tag);
    let ghost all = markup_view(nodes@);
    let mut i: usize = 0;
    assert(all.take(0) == Seq::<MarkupModel>::empty());
    while i < nodes.len()
        invariant
            i <= nodes.len(),
            key@ == tag@,
            all == markup_view(nodes@),
            first_element(all.take(i as int), tag@) is None,
        decreases nodes.len() - i,
    {
        assert(all.take(i + 1).drop_last() == all.take(i as int));
        assert(all.take(i + 1).last() == nodes@[i as int]@);
        proof {
            lemma_element_view(nodes@[i as int]);
        }
        match &nodes[i] {
            MarkupNode::Element { tag: own, attrs, children } => {
                if is_word(&key, own.as_str()) {
                    proof {
                        lemma_first_element_prefix(all, tag@, i + 1);
                    }
                    return Some(&nodes[i]);
                }
                match find_element(children, tag) {
                    Some(found) => {
                        proof {
                            lemma_first_element_prefix(all, tag@, i + 1);
                        }
                        return Some(found);
                    },
                    None => {},
                }
            },
            MarkupNode::Text(_) => {},
        }
        i += 1;
    }
    assert(all.take(all.len() as int) == all);
    None
}

/// What is found in a prefix of `nodes` is what is found in `nodes`.
pub proof fn lemma_first_element_prefix(nodes: Seq<MarkupModel>, tag: Seq<char>, n: int)
    requires
        0 <= n <= nodes.len(),
        first_element(nodes.take(n), tag) is Some,
    ensures
        first_element(nodes, tag) == first_element(nodes.take(n), tag),
    decreases nodes.len() - n,
{
    if n == nodes.len() {
        assert(nodes.take(n) == nodes);
    } else {
        assert(nodes.take(n + 1).drop_last() == nodes.take(n));
        lemma_first_element_prefix(nodes, tag, n + 1);
    }
}

/// The text of `nodes`: the contents of the text nodes among them and their
/// descendants, joined in document order.
pub open spec fn text_of(nodes: Seq<MarkupModel>) -> Seq<char>
    decreases nodes,
{
    if nodes.len() == 0 {
        Seq::empty()
    } else {
        text_of(nodes.drop_last()) + match nodes.last() {
            MarkupModel::Element { tag, attrs, children } => text_of(children),
            MarkupModel::Text(content) => content,
        }
    }
}

/// Appends the text of `nodes` to `out`.
pub fn collect_text(nodes: &Vec<MarkupNode>, out: &mut Vec<char>)
    ensures
        final(out)@ == old(out)@ + text_of(markup_view(nodes@)),
    decreases nodes,
{
    let ghost all = markup_view(nodes@);
    let mut i: usize = 0;
    assert(all.take(0) == Seq::<MarkupModel>::empty());
    assert(out@ =~= old(out)@ + text_of(all.take(0)));
    while i < nodes.len()
        invariant
            i <= nodes.len(),
            all == markup_view(nodes@),
            out@ == old(out)@ + text_of(all.take(i as int)),
        decreases nodes.len() - i,
    {
        assert(all.take(i + 1).drop_last() == all.take(i as int));
        assert(all.take(i + 1).last() == nodes@[i as int]@);
        proof {
            lemma_element_view(nodes@[i as int]);
        }
        let ghost before = out@;
        match &nodes[i] {
            MarkupNode::Element { tag, attrs, children } => {
                collect_text(children, out);
                assert(out@ =~= old(out)@ + text_of(all.take(i + 1)));
            },
            MarkupNode::Text(content) => {
                append_str(out, content.as_str());
                assert(out@ =~= old(out)@ + text_of(all.take(i + 1)));
            },
        }
        i += 1;
    }
    assert(all.take(all.len() as int) == all);
}

} // verus!
