//! The data that the library produces: style records, document nodes and
//! the parts of a converted book.

use crate::decimal::Decimal;
use crate::text_map::TextMap;
use vstd::prelude::*;

verus! {

/// A flat record of style properties. Every field is present or absent on
/// its own; an absent field means "not set", never a default value.
#[derive(Debug, PartialEq, Eq)]
pub struct RnStyles {
    // Typography.
    pub font_size: Option<Decimal>,
    pub font_weight: Option<String>,
    pub font_family: Option<String>,
    pub font_style: Option<String>,
    pub color: Option<String>,
    pub text_align: Option<String>,
    pub text_decoration_line: Option<String>,
    pub text_transform: Option<String>,
    pub line_height: Option<Decimal>,
    pub text_indent: Option<Decimal>,

    // Background and colour.
    pub background_color: Option<String>,
    pub opacity: Option<Decimal>,

    // Margins and paddings.
    pub margin_top: Option<Decimal>,
    pub margin_bottom: Option<Decimal>,
    pub margin_left: Option<Decimal>,
    pub margin_right: Option<Decimal>,
    pub padding_top: Option<Decimal>,
    pub padding_bottom: Option<Decimal>,
    pub padding_left: Option<Decimal>,
    pub padding_right: Option<Decimal>,

    // Size.
    pub width: Option<Decimal>,
    pub height: Option<Decimal>,
    pub min_width: Option<Decimal>,
    pub max_width: Option<Decimal>,
    pub min_height: Option<Decimal>,
    pub max_height: Option<Decimal>,

    // Positioning.
    pub position: Option<String>,
    pub top: Option<Decimal>,
    pub bottom: Option<Decimal>,
    pub left: Option<Decimal>,
    pub right: Option<Decimal>,
    pub z_index: Option<i32>,

    // Flexbox.
    pub display: Option<String>,
    pub flex_direction: Option<String>,
    pub justify_content: Option<String>,
    pub align_items: Option<String>,
    pub align_self: Option<String>,
    pub flex_wrap: Option<String>,
    pub flex: Option<Decimal>,
    pub flex_grow: Option<Decimal>,
    pub flex_shrink: Option<Decimal>,
    pub flex_basis: Option<Decimal>,

    // Borders.
    pub border_width: Option<Decimal>,
    pub border_top_width: Option<Decimal>,
    pub border_bottom_width: Option<Decimal>,
    pub border_left_width: Option<Decimal>,
    pub border_right_width: Option<Decimal>,
    pub border_color: Option<String>,
    pub border_top_color: Option<String>,
    pub border_bottom_color: Option<String>,
    pub border_left_color: Option<String>,
    pub border_right_color: Option<String>,
    pub border_radius: Option<Decimal>,
    pub border_style: Option<String>,

    // Overflow.
    pub overflow: Option<String>,
}

/// What a style record holds, as mathematical values.
pub struct StyleModel {
    pub font_size: Option<Decimal>,
    pub font_weight: Option<Seq<char>>,
    pub font_family: Option<Seq<char>>,
    pub font_style: Option<Seq<char>>,
    pub color: Option<Seq<char>>,
    pub text_align: Option<Seq<char>>,
    pub text_decoration_line: Option<Seq<char>>,
    pub text_transform: Option<Seq<char>>,
    pub line_height: Option<Decimal>,
    pub text_indent: Option<Decimal>,
    pub background_color: Option<Seq<char>>,
    pub opacity: Option<Decimal>,
    pub margin_top: Option<Decimal>,
    pub margin_bottom: Option<Decimal>,
    pub margin_left: Option<Decimal>,
    pub margin_right: Option<Decimal>,
    pub padding_top: Option<Decimal>,
    pub padding_bottom: Option<Decimal>,
    pub padding_left: Option<Decimal>,
    pub padding_right: Option<Decimal>,
    pub width: Option<Decimal>,
    pub height: Option<Decimal>,
    pub min_width: Option<Decimal>,
    pub max_width: Option<Decimal>,
    pub min_height: Option<Decimal>,
    pub max_height: Option<Decimal>,
    pub position: Option<Seq<char>>,
    pub top: Option<Decimal>,
    pub bottom: Option<Decimal>,
    pub left: Option<Decimal>,
    pub right: Option<Decimal>,
    pub z_index: Option<i32>,
    pub display: Option<Seq<char>>,
    pub flex_direction: Option<Seq<char>>,
    pub justify_content: Option<Seq<char>>,
    pub align_items: Option<Seq<char>>,
    pub align_self: Option<Seq<char>>,
    pub flex_wrap: Option<Seq<char>>,
    pub flex: Option<Decimal>,
    pub flex_grow: Option<Decimal>,
    pub flex_shrink: Option<Decimal>,
    pub flex_basis: Option<Decimal>,
    pub border_width: Option<Decimal>,
    pub border_top_width: Option<Decimal>,
    pub border_bottom_width: Option<Decimal>,
    pub border_left_width: Option<Decimal>,
    pub border_right_width: Option<Decimal>,
    pub border_color: Option<Seq<char>>,
    pub border_top_color: Option<Seq<char>>,
    pub border_bottom_color: Option<Seq<char>>,
    pub border_left_color: Option<Seq<char>>,
    pub border_right_color: Option<Seq<char>>,
    pub border_radius: Option<Decimal>,
    pub border_style: Option<Seq<char>>,
    pub overflow: Option<Seq<char>>,
}

/// The characters of an optional string.
pub open spec fn text_view(text: Option<String>) -> Option<Seq<char>> {
    match text {
        Some(s) => Some(s@),
        None => None,
    }
}

/// What an optional style record holds.
pub open spec fn style_view(style: Option<RnStyles>) -> Option<StyleModel> {
    match style {
        Some(s) => Some(s@),
        None => None,
    }
}

impl View for RnStyles {
    type V = StyleModel;

    open spec fn view(&self) -> StyleModel {
        StyleModel {
            font_size: self.font_size,
            font_weight: text_view(self.font_weight),
            font_family: text_view(self.font_family),
            font_style: text_view(self.font_style),
            color: text_view(self.color),
            text_align: text_view(self.text_align),
            text_decoration_line: text_view(self.text_decoration_line),
            text_transform: text_view(self.text_transform),
            line_height: self.line_height,
            text_indent: self.text_indent,
            background_color: text_view(self.background_color),
            opacity: self.opacity,
            margin_top: self.margin_top,
            margin_bottom: self.margin_bottom,
            margin_left: self.margin_left,
            margin_right: self.margin_right,
            padding_top: self.padding_top,
            padding_bottom: self.padding_bottom,
            padding_left: self.padding_left,
            padding_right: self.padding_right,
            width: self.width,
            height: self.height,
            min_width: self.min_width,
            max_width: self.max_width,
            min_height: self.min_height,
            max_height: self.max_height,
            position: text_view(self.position),
            top: self.top,
            bottom: self.bottom,
            left: self.left,
            right: self.right,
            z_index: self.z_index,
            display: text_view(self.display),
            flex_direction: text_view(self.flex_direction),
            justify_content: text_view(self.justify_content),
            align_items: text_view(self.align_items),
            align_self: text_view(self.align_self),
            flex_wrap: text_view(self.flex_wrap),
            flex: self.flex,
            flex_grow: self.flex_grow,
            flex_shrink: self.flex_shrink,
            flex_basis: self.flex_basis,
            border_width: self.border_width,
            border_top_width: self.border_top_width,
            border_bottom_width: self.border_bottom_width,
            border_left_width: self.border_left_width,
            border_right_width: self.border_right_width,
            border_color: text_view(self.border_color),
            border_top_color: text_view(self.border_top_color),
            border_bottom_color: text_view(self.border_bottom_color),
            border_left_color: text_view(self.border_left_color),
            border_right_color: text_view(self.border_right_color),
            border_radius: self.border_radius,
            border_style: text_view(self.border_style),
            overflow: text_view(self.overflow),
        }
    }
}

impl StyleModel {
    /// The record with every field absent.
    pub open spec fn empty() -> StyleModel {
        StyleModel {
            font_size: None,
            font_weight: None,
            font_family: None,
            font_style: None,
            color: None,
            text_align: None,
            text_decoration_line: None,
            text_transform: None,
            line_height: None,
            text_indent: None,
            background_color: None,
            opacity: None,
            margin_top: None,
            margin_bottom: None,
            margin_left: None,
            margin_right: None,
            padding_top: None,
            padding_bottom: None,
            padding_left: None,
            padding_right: None,
            width: None,
            height: None,
            min_width: None,
            max_width: None,
            min_height: None,
            max_height: None,
            position: None,
            top: None,
            bottom: None,
            left: None,
            right: None,
            z_index: None,
            display: None,
            flex_direction: None,
            justify_content: None,
            align_items: None,
            align_self: None,
            flex_wrap: None,
            flex: None,
            flex_grow: None,
            flex_shrink: None,
            flex_basis: None,
            border_width: None,
            border_top_width: None,
            border_bottom_width: None,
            border_left_width: None,
            border_right_width: None,
            border_color: None,
            border_top_color: None,
            border_bottom_color: None,
            border_left_color: None,
            border_right_color: None,
            border_radius: None,
            border_style: None,
            overflow: None,
        }
    }
}

/// A copy of an optional string.
pub fn clone_text(text: &Option<String>) -> (out: Option<String>)
    ensures
        text_view(out) == text_view(*text),
{
    match text {
        Some(s) => Some(s.clone()),
        None => None,
    }
}

impl Clone for RnStyles {
    fn clone(&self) -> (out: Self)
        ensures
            out@ == self@,
    {
        RnStyles {
            font_size: self.font_size,
            font_weight: clone_text(&self.font_weight),
            font_family: clone_text(&self.font_family),
            font_style: clone_text(&self.font_style),
            color: clone_text(&self.color),
            text_align: clone_text(&self.text_align),
            text_decoration_line: clone_text(&self.text_decoration_line),
            text_transform: clone_text(&self.text_transform),
            line_height: self.line_height,
            text_indent: self.text_indent,
            background_color: clone_text(&self.background_color),
            opacity: self.opacity,
            margin_top: self.margin_top,
            margin_bottom: self.margin_bottom,
            margin_left: self.margin_left,
            margin_right: self.margin_right,
            padding_top: self.padding_top,
            padding_bottom: self.padding_bottom,
            padding_left: self.padding_left,
            padding_right: self.padding_right,
            width: self.width,
            height: self.height,
            min_width: self.min_width,
            max_width: self.max_width,
            min_height: self.min_height,
            max_height: self.max_height,
            position: clone_text(&self.position),
            top: self.top,
            bottom: self.bottom,
            left: self.left,
            right: self.right,
            z_index: self.z_index,
            display: clone_text(&self.display),
            flex_direction: clone_text(&self.flex_direction),
            justify_content: clone_text(&self.justify_content),
            align_items: clone_text(&self.align_items),
            align_self: clone_text(&self.align_self),
            flex_wrap: clone_text(&self.flex_wrap),
            flex: self.flex,
            flex_grow: self.flex_grow,
            flex_shrink: self.flex_shrink,
            flex_basis: self.flex_basis,
            border_width: self.border_width,
            border_top_width: self.border_top_width,
            border_bottom_width: self.border_bottom_width,
            border_left_width: self.border_left_width,
            border_right_width: self.border_right_width,
            border_color: clone_text(&self.border_color),
            border_top_color: clone_text(&self.border_top_color),
            border_bottom_color: clone_text(&self.border_bottom_color),
            border_left_color: clone_text(&self.border_left_color),
            border_right_color: clone_text(&self.border_right_color),
            border_radius: self.border_radius,
            border_style: clone_text(&self.border_style),
            overflow: clone_text(&self.overflow),
        }
    }
}

impl Default for RnStyles {
    /// The record with every field absent.
    fn default() -> (out: Self)
        ensures
            out@ == StyleModel::empty(),
    {
        RnStyles {
            font_size: None,
            font_weight: None,
            font_family: None,
            font_style: None,
            color: None,
            text_align: None,
            text_decoration_line: None,
            text_transform: None,
            line_height: None,
            text_indent: None,
            background_color: None,
            opacity: None,
            margin_top: None,
            margin_bottom: None,
            margin_left: None,
            margin_right: None,
            padding_top: None,
            padding_bottom: None,
            padding_left: None,
            padding_right: None,
            width: None,
            height: None,
            min_width: None,
            max_width: None,
            min_height: None,
            max_height: None,
            position: None,
            top: None,
            bottom: None,
            left: None,
            right: None,
            z_index: None,
            display: None,
            flex_direction: None,
            justify_content: None,
            align_items: None,
            align_self: None,
            flex_wrap: None,
            flex: None,
            flex_grow: None,
            flex_shrink: None,
            flex_basis: None,
            border_width: None,
            border_top_width: None,
            border_bottom_width: None,
            border_left_width: None,
            border_right_width: None,
            border_color: None,
            border_top_color: None,
            border_bottom_color: None,
            border_left_color: None,
            border_right_color: None,
            border_radius: None,
            border_style: None,
            overflow: None,
        }
    }
}

/// A node of a converted document.
#[derive(Debug, PartialEq, Eq)]
pub enum RnNode {
    /// A run of text.
    Text { content: String, styles: Option<RnStyles> },
    /// A container of other nodes, in document order.
    View { children: Vec<RnNode>, styles: Option<RnStyles> },
    /// An image: a data URI, or the path that the markup gave.
    Image { source: String, alt: Option<String>, styles: Option<RnStyles> },
    /// A scrolling container of other nodes.
    ScrollView { children: Vec<RnNode>, styles: Option<RnStyles> },
}

/// What a document node holds, as mathematical values.
pub enum NodeModel {
    Text { content: Seq<char>, styles: Option<StyleModel> },
    View { children: Seq<NodeModel>, styles: Option<StyleModel> },
    Image { source: Seq<char>, alt: Option<Seq<char>>, styles: Option<StyleModel> },
    ScrollView { children: Seq<NodeModel>, styles: Option<StyleModel> },
}

/// What the node `node` holds.
pub open spec fn node_model(node: RnNode) -> NodeModel
    decreases node,
{
    match node {
        RnNode::Text { content, styles } => NodeModel::Text {
            content: content@,
            styles: style_view(styles),
        },
        RnNode::View { children, styles } => NodeModel::View {
            children: Seq::new(
                children@.len(),
                |i: int|
                    if 0 <= i < children@.len() {
                        node_model(children@[i])
                    } else {
                        NodeModel::Text { content: Seq::empty(), styles: None }
                    },
            ),
            styles: style_view(styles),
        },
        RnNode::Image { source, alt, styles } => NodeModel::Image {
            source: source@,
            alt: text_view(alt),
            styles: style_view(styles),
        },
        RnNode::ScrollView { children, styles } => NodeModel::ScrollView {
            children: Seq::new(
                children@.len(),
                |i: int|
                    if 0 <= i < children@.len() {
                        node_model(children@[i])
                    } else {
                        NodeModel::Text { content: Seq::empty(), styles: None }
                    },
            ),
            styles: style_view(styles),
        },
    }
}

impl View for RnNode {
    type V = NodeModel;

    open spec fn view(&self) -> NodeModel {
        node_model(*self)
    }
}

/// What a list of document nodes holds.
pub open spec fn nodes_view(nodes: Seq<RnNode>) -> Seq<NodeModel> {
    Seq::new(nodes.len(), |i: int| nodes[i]@)
}

/// The view of a container is the views of its children, in order.
pub proof fn lemma_children_view(node: RnNode)
    ensures
        node matches RnNode::View { children, styles } ==> node@ == (NodeModel::View {
            children: nodes_view(children@),
            styles: style_view(styles),
        }),
        node matches RnNode::ScrollView { children, styles } ==> node@ == (
        NodeModel::ScrollView { children: nodes_view(children@), styles: style_view(styles) }),
{
    match node {
        RnNode::View { children, styles } => {
            let kids = node@->View_children;
            assert(kids.len() == children@.len());
            assert forall|i: int| 0 <= i < kids.len() implies kids[i] == nodes_view(
                children@,
            )[i] by {}
            assert(kids =~= nodes_view(children@));
        },
        RnNode::ScrollView { children, styles } => {
            let kids = node@->ScrollView_children;
            assert(kids.len() == children@.len());
            assert forall|i: int| 0 <= i < kids.len() implies kids[i] == nodes_view(
                children@,
            )[i] by {}
            assert(kids =~= nodes_view(children@));
        },
        _ => {},
    }
}

/// A copy of an optional style record.
pub fn clone_style(style: &Option<RnStyles>) -> (out: Option<RnStyles>)
    ensures
        style_view(out) == style_view(*style),
{
    match style {
        Some(s) => Some(s.clone()),
        None => None,
    }
}

/// A copy of the node `node`, with copies of all its descendants.
pub fn clone_node(node: &RnNode) -> (out: RnNode)
    ensures
        out@ == node@,
    decreases node,
{
    match node {
        RnNode::Text { content, styles } => RnNode::Text {
            content: content.clone(),
            styles: clone_style(styles),
        },
        RnNode::View { children, styles } => {
            let out = RnNode::View { children: clone_nodes(children), styles: clone_style(styles) };
            proof {
                lemma_children_view(out);
                lemma_children_view(*node);
            }
            out
        },
        RnNode::Image { source, alt, styles } => RnNode::Image {
            source: source.clone(),
            alt: clone_text(alt),
            styles: clone_style(styles),
        },
        RnNode::ScrollView { children, styles } => {
            let out = RnNode::ScrollView {
                children: clone_nodes(children),
                styles: clone_style(styles),
            };
            proof {
                lemma_children_view(out);
                lemma_children_view(*node);
            }
            out
        },
    }
}

/// Copies of the nodes `nodes`, in order.
pub fn clone_nodes(nodes: &Vec<RnNode>) -> (out: Vec<RnNode>)
    ensures
        nodes_view(out@) == nodes_view(nodes@),
    decreases nodes,
{
    let mut out: Vec<RnNode> = Vec::new();
    let mut i: usize = 0;
    while i < nodes.len()
        invariant
            i <= nodes.len(),
            out@.len() == i,
            forall|j: int| 0 <= j < i ==> out@[j]@ == nodes@[j]@,
        decreases nodes.len() - i,
    {
        out.push(clone_node(&nodes[i]));
        i += 1;
    }
    assert(nodes_view(out@) =~= nodes_view(nodes@));
    out
}

/// The descriptive fields of a book; each may be missing.
#[derive(Debug, Clone, PartialEq, Eq)]
pub struct EpubMetadata {
    pub title: Option<String>,
    pub author: Option<String>,
    pub language: Option<String>,
    pub publisher: Option<String>,
    pub description: Option<String>,
    pub date: Option<String>,
    pub identifier: Option<String>,
    pub rights: Option<String>,
    pub subject: Option<String>,
}

/// How many entries the spine, the manifest and the table of contents have.
#[derive(Debug, Clone, Copy, PartialEq, Eq)]
pub struct EpubStructure {
    pub spine_count: usize,
    pub resource_count: usize,
    pub toc_count: usize,
}

/// One entry of the table of contents.
#[derive(Debug, Clone, PartialEq, Eq)]
pub struct TocItem {
    pub label: String,
    pub content_path: String,
}

/// One entry of the spine: the reading order of the book.
#[derive(Debug, Clone, PartialEq, Eq)]
pub struct SpineItemInfo {
    pub idref: String,
    pub id: Option<String>,
    pub properties: Option<String>,
    pub linear: bool,
}

/// One converted chapter.
#[derive(Debug, PartialEq, Eq)]
pub struct ChapterStructure {
    pub spine_index: usize,
    pub idref: String,
    pub title: Option<String>,
    pub content: RnNode,
}

/// A converted book: its description, its reading order, its styles and
/// images, and its chapters as trees of document nodes.
#[derive(Debug, PartialEq, Eq)]
pub struct CompleteEpubInfo {
    pub metadata: EpubMetadata,
    pub structure: EpubStructure,
    pub toc: Vec<TocItem>,
    pub spine: Vec<SpineItemInfo>,
    pub styles: TextMap<RnStyles>,
    pub images: TextMap<String>,
    pub chapters: Vec<ChapterStructure>,
}

/// A short description of a text that was processed.
#[derive(Debug, Clone, PartialEq, Eq)]
pub struct SimpleEpubInfo {
    pub title: Option<String>,
    pub author: Option<String>,
    pub content: String,
}

} // verus!
