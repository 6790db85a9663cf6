//! Converting a markup document into a tree of document nodes.

use crate::css_parser::{declared_style, parse_css_declarations, SheetModel, StyleSheet};
use crate::decimal::Decimal;
use crate::markup::{
    attribute, attrs_view, collect_text, find_attribute, find_element, first_element, forest,
    lemma_element_view, markup_view, parse_markup_tree, parsed_markup, text_of, MarkupModel,
    MarkupNode,
};
use crate::style::{
    extract_layout_styles, layout_styles, lemma_merge_associative, merge, merge_styles, merged,
};
use crate::text::{
    contains_text, from_chars, has_char, has_text, is_word, last_piece, last_piece_chars,
    split_words, texts, to_chars, trim, trim_chars, words,
};
use crate::text_map::{lookup, TextMap};
use crate::types::{
    clone_node, clone_style, lemma_children_view, nodes_view, style_view, text_view, NodeModel,
    RnNode, RnStyles, StyleModel,
};
use vstd::prelude::*;

verus! {

/// The images of a book: data URIs under the names of their resources.
pub type ImageMap = TextMap<String>;

/// What an image map holds: its entries, in order.
pub type ImagesModel = Seq<(Seq<char>, Seq<char>)>;

/// The record with every field absent.
pub fn create_empty_style() -> (out: RnStyles)
    ensures
        out@ == StyleModel::empty(),
{
    RnStyles::default()
}

/// The style that a generic class name stands for where no style sheet
/// says otherwise.
pub open spec fn default_class_style(class: Seq<char>) -> Option<StyleModel> {
    if class == "emphasis"@ {
        Some(
            StyleModel {
                font_style: Some("italic"@),
                ..StyleModel::empty()
            },
        )
    } else if class == "strong"@ {
        Some(
            StyleModel {
                font_weight: Some("bold"@),
                ..StyleModel::empty()
            },
        )
    } else if class == "center"@ {
        Some(
            StyleModel {
                text_align: Some("center"@),
                ..StyleModel::empty()
            },
        )
    } else if class == "left"@ {
        Some(
            StyleModel {
                text_align: Some("left"@),
                ..StyleModel::empty()
            },
        )
    } else if class == "right"@ {
        Some(
            StyleModel {
                text_align: Some("right"@),
                ..StyleModel::empty()
            },
        )
    } else if class == "author"@ || class == "firstname"@ || class == "surname"@ {
        Some(
            StyleModel {
                font_weight: Some("normal"@),
                ..StyleModel::empty()
            },
        )
    } else if class == "book"@ || class == "chapter"@ {
        Some(
            StyleModel {
                margin_top: Some(Decimal::spec_whole(16)),
                margin_bottom: Some(Decimal::spec_whole(16)),
                ..StyleModel::empty()
            },
        )
    } else if class == "dedication"@ {
        Some(
            StyleModel {
                font_style: Some("italic"@),
                text_align: Some("center"@),
                margin_top: Some(Decimal::spec_whole(32)),
                margin_bottom: Some(Decimal::spec_whole(32)),
                ..StyleModel::empty()
            },
        )
    } else if class == "link"@ {
        Some(
            StyleModel {
                text_decoration_line: Some("underline"@),
                ..StyleModel::empty()
            },
        )
    } else if class == "subtitle"@ {
        Some(
            StyleModel {
                font_size: Some(Decimal::spec_whole(18)),
                font_style: Some("italic"@),
                ..StyleModel::empty()
            },
        )
    } else if class == "quote"@ || class == "quotation"@ {
        Some(
            StyleModel {
                font_style: Some("italic"@),
                margin_left: Some(Decimal::spec_whole(16)),
                margin_right: Some(Decimal::spec_whole(16)),
                ..StyleModel::empty()
            },
        )
    } else if class == "note"@ || class == "footnote"@ {
        Some(
            StyleModel {
                font_size: Some(Decimal::spec_whole(12)),
                margin_top: Some(Decimal::spec_whole(8)),
                margin_bottom: Some(Decimal::spec_whole(8)),
                ..StyleModel::empty()
            },
        )
    } else if class == "sidebar"@ {
        Some(
            StyleModel {
                margin_left: Some(Decimal::spec_whole(16)),
                margin_right: Some(Decimal::spec_whole(16)),
                padding_top: Some(Decimal::spec_whole(8)),
                padding_bottom: Some(Decimal::spec_whole(8)),
                padding_left: Some(Decimal::spec_whole(8)),
                padding_right: Some(Decimal::spec_whole(8)),
                ..StyleModel::empty()
            },
        )
    } else {
        None
    }
}

/// The style that the generic class name `class_name` stands for.
pub fn get_default_class_style(class_name: &str) -> (out: Option<RnStyles>)
    ensures
        style_view(out) == default_class_style(class_name@),
{
    let class = to_chars(class_name);
    let mut style = RnStyles::default();
    if is_word(&class, "emphasis") {
        style.font_style = Some("italic".to_owned());
    } else if is_word(&class, "strong") {
        style.font_weight = Some("bold".to_owned());
    } else if is_word(&class, "center") {
        style.text_align = Some("center".to_owned());
    } else if is_word(&class, "left") {
        style.text_align = Some("left".to_owned());
    } else if is_word(&class, "right") {
        style.text_align = Some("right".to_owned());
    } else if is_word(&class, "author") || is_word(&class, "firstname") || is_word(&class, "surname") {
        style.font_weight = Some("normal".to_owned());
    } else if is_word(&class, "book") || is_word(&class, "chapter") {
        style.margin_top = Some(Decimal::whole(16));
        style.margin_bottom = Some(Decimal::whole(16));
    } else if is_word(&class, "dedication") {
        style.font_style = Some("italic".to_owned());
        style.text_align = Some("center".to_owned());
        style.margin_top = Some(Decimal::whole(32));
        style.margin_bottom = Some(Decimal::whole(32));
    } else if is_word(&class, "link") {
        style.text_decoration_line = Some("underline".to_owned());
    } else if is_word(&class, "subtitle") {
        style.font_size = Some(Decimal::whole(18));
        style.font_style = Some("italic".to_owned());
    } else if is_word(&class, "quote") || is_word(&class, "quotation") {
        style.font_style = Some("italic".to_owned());
        style.margin_left = Some(Decimal::whole(16));
        style.margin_right = Some(Decimal::whole(16));
    } else if is_word(&class, "note") || is_word(&class, "footnote") {
        style.font_size = Some(Decimal::whole(12));
        style.margin_top = Some(Decimal::whole(8));
        style.margin_bottom = Some(Decimal::whole(8));
    } else if is_word(&class, "sidebar") {
        style.margin_left = Some(Decimal::whole(16));
        style.margin_right = Some(Decimal::whole(16));
        style.padding_top = Some(Decimal::whole(8));
        style.padding_bottom = Some(Decimal::whole(8));
        style.padding_left = Some(Decimal::whole(8));
        style.padding_right = Some(Decimal::whole(8));
    } else {
        return None;
    }
    Some(style)
}

/// Whether the key `key` of a style sheet is a compound of several names
/// that holds the class name `class`.
pub open spec fn is_compound_of(key: Seq<char>, class: Seq<char>) -> bool {
    contains_text(key, class) && (key.contains('_') || key.contains(','))
}

/// The index of the first entry of `sheet` whose key is a compound that
/// holds `class`; the number of entries where there is none.
pub open spec fn compound_position(sheet: SheetModel, class: Seq<char>) -> int
    decreases sheet.len(),
{
    if sheet.len() == 0 || is_compound_of(sheet[0].0, class) {
        0
    } else {
        1 + compound_position(sheet.drop_first(), class)
    }
}

/// `compound_position` is the one index whose key is a compound of `class`
/// with no such key before it.
pub proof fn lemma_compound_position(sheet: SheetModel, class: Seq<char>, k: int)
    requires
        0 <= k <= sheet.len(),
        forall|j: int| 0 <= j < k ==> !is_compound_of((#[trigger] sheet[j]).0, class),
        k < sheet.len() ==> is_compound_of(sheet[k].0, class),
    ensures
        compound_position(sheet, class) == k,
    decreases sheet.len(),
{
    if sheet.len() == 0 || is_compound_of(sheet[0].0, class) {
        if k > 0 {
            assert(!is_compound_of(sheet[0].0, class));
        }
    } else {
        let t = sheet.drop_first();
        assert forall|j: int| 0 <= j < k - 1 implies !is_compound_of(
            (#[trigger] t[j]).0,
            class,
        ) by {
            assert(t[j] == sheet[j + 1]);
        }
        lemma_compound_position(t, class, k - 1);
    }
}

/// The style of one class name: the entry of the sheet under that very
/// name; else the first entry whose key is a compound that holds the name;
/// else the built-in style of the name.
pub open spec fn style_for_class(class: Seq<char>, sheet: SheetModel) -> Option<StyleModel> {
    if lookup(sheet, class) is Some {
        lookup(sheet, class)
    } else if compound_position(sheet, class) < sheet.len() {
        Some(sheet[compound_position(sheet, class)].1)
    } else {
        default_class_style(class)
    }
}

/// The style of the first of the class names `classes` that has one.
pub open spec fn first_class_style(classes: Seq<Seq<char>>, sheet: SheetModel) -> Option<
    StyleModel,
>
    decreases classes.len(),
{
    if classes.len() == 0 {
        None
    } else {
        match first_class_style(classes.drop_last(), sheet) {
            Some(style) => Some(style),
            None => style_for_class(classes.last(), sheet),
        }
    }
}

/// A style found for a prefix of the class names is the style found for
/// all of them.
pub proof fn lemma_first_class_style_prefix(classes: Seq<Seq<char>>, sheet: SheetModel, n: int)
    requires
        0 <= n <= classes.len(),
        first_class_style(classes.take(n), sheet) is Some,
    ensures
        first_class_style(classes, sheet) == first_class_style(classes.take(n), sheet),
    decreases classes.len() - n,
{
    if n == classes.len() {
        assert(classes.take(n) == classes);
    } else {
        assert(classes.take(n + 1).drop_last() == classes.take(n));
        lemma_first_class_style_prefix(classes, sheet, n + 1);
    }
}

/// The style that the `class` attribute of an element gives it.
pub open spec fn class_style(attrs: Seq<(Seq<char>, Seq<char>)>, sheet: SheetModel) -> Option<
    StyleModel,
> {
    match attribute(attrs, "class"@) {
        Some(names) => first_class_style(words(names), sheet),
        None => None,
    }
}

/// The style that the `style` attribute of an element gives it.
pub open spec fn inline_style(attrs: Seq<(Seq<char>, Seq<char>)>) -> Option<StyleModel> {
    match attribute(attrs, "style"@) {
        Some(declarations) => Some(declared_style(declarations)),
        None => None,
    }
}

/// The style of an element before its tag is regarded: the class style,
/// and over it the inline style.
pub open spec fn element_style(attrs: Seq<(Seq<char>, Seq<char>)>, sheet: SheetModel) -> Option<
    StyleModel,
> {
    merge(class_style(attrs, sheet), inline_style(attrs))
}

/// The style that the `style` attribute among `attrs` declares.
pub fn extract_inline_styles(attrs: &Vec<(String, String)>) -> (out: Option<RnStyles>)
    ensures
        style_view(out) == inline_style(attrs_view(attrs@)),
{
    match find_attribute(attrs, "style") {
        Some(declarations) => Some(parse_css_declarations(declarations.as_str())),
        None => None,
    }
}

/// The style of the class name `class` in the sheet `styles`.
pub fn find_class_style(class: &Vec<char>, styles: &StyleSheet) -> (out: Option<RnStyles>)
    ensures
        style_view(out) == style_for_class(class@, styles@),
{
    let exact = styles.find(class);
    if exact < styles.len() {
        return Some(styles.value_at(exact).clone());
    }
    let mut i: usize = 0;
    while i < styles.len()
        invariant
            i <= styles@.len(),
            lookup(styles@, class@) is None,
            forall|j: int| 0 <= j < i ==> !is_compound_of((#[trigger] styles@[j]).0, class@),
        decreases styles@.len() - i,
    {
        let key = to_chars(styles.key_at(i).as_str());
        if has_text(&key, class) && (has_char(&key, '_') || has_char(&key, ',')) {
            proof {
                lemma_compound_position(styles@, class@, i as int);
            }
            return Some(styles.value_at(i).clone());
        }
        i += 1;
    }
    proof {
        lemma_compound_position(styles@, class@, i as int);
    }
    get_default_class_style(from_chars(class).as_str())
}

/// The style that the `class` attribute among `attrs` gives: that of the
/// first class name that has one.
pub fn extract_class_styles(attrs: &Vec<(String, String)>, styles: &StyleSheet) -> (out: Option<
    RnStyles,
>)
    ensures
        style_view(out) == class_style(attrs_view(attrs@), styles@),
{
    match find_attribute(attrs, "class") {
        Some(names) => {
            let classes = split_words(&to_chars(names.as_str()));
            let ghost all = texts(classes@);
            let mut i: usize = 0;
            assert(all.take(0) == Seq::<Seq<char>>::empty());
            while i < classes.len()
                invariant
                    i <= classes.len(),
                    all == texts(classes@),
                    all == words(names@),
                    attribute(attrs_view(attrs@), "class"@) == Some(names@),
                    first_class_style(all.take(i as int), styles@) is None,
                decreases classes.len() - i,
            {
                assert(all.take(i + 1).drop_last() == all.take(i as int));
                assert(all.take(i + 1).last() == classes@[i as int]@);
                let found = find_class_style(&classes[i], styles);
                if found.is_some() {
                    proof {
                        lemma_first_class_style_prefix(all, styles@, i + 1);
                    }
                    return found;
                }
                i += 1;
            }
            assert(all.take(all.len() as int) == all);
            None
        },
        None => None,
    }
}

/// What the converter does with an element, by its tag.
#[derive(Clone, Copy, Debug, PartialEq, Eq, Structural)]
pub enum TagKind {
    /// `p`
    Paragraph,
    /// `h1` to `h6`, with the level.
    Heading(u8),
    /// `img`
    Image,
    /// `strong`, `b`
    Strong,
    /// `em`, `i`
    Emphasis,
    /// `u`
    Underline,
    /// `blockquote`
    Blockquote,
    /// `cite`
    Cite,
    /// `code`, `tt`
    Code,
    /// `pre`
    Pre,
    /// `sup`, `sub`, `small`
    Small,
    /// `big`
    Big,
    /// `center`
    Center,
    /// `div`, `section`, `article`, `header`, `footer` and every other tag.
    Plain,
}

/// What the converter does with an element of the tag `tag`.
pub open spec fn tag_kind(tag: Seq<char>) -> TagKind {
    if tag == "p"@ {
        TagKind::Paragraph
    } else if tag == "h1"@ {
        TagKind::Heading(1)
    } else if tag == "h2"@ {
        TagKind::Heading(2)
    } else if tag == "h3"@ {
        TagKind::Heading(3)
    } else if tag == "h4"@ {
        TagKind::Heading(4)
    } else if tag == "h5"@ {
        TagKind::Heading(5)
    } else if tag == "h6"@ {
        TagKind::Heading(6)
    } else if tag == "img"@ {
        TagKind::Image
    } else if tag == "strong"@ || tag == "b"@ {
        TagKind::Strong
    } else if tag == "em"@ || tag == "i"@ {
        TagKind::Emphasis
    } else if tag == "u"@ {
        TagKind::Underline
    } else if tag == "blockquote"@ {
        TagKind::Blockquote
    } else if tag == "cite"@ {
        TagKind::Cite
    } else if tag == "code"@ || tag == "tt"@ {
        TagKind::Code
    } else if tag == "pre"@ {
        TagKind::Pre
    } else if tag == "sup"@ || tag == "sub"@ || tag == "small"@ {
        TagKind::Small
    } else if tag == "big"@ {
        TagKind::Big
    } else if tag == "center"@ {
        TagKind::Center
    } else {
        TagKind::Plain
    }
}

/// What the converter does with an element of the tag `tag`.
pub fn kind_of_tag(tag: &str) -> (out: TagKind)
    ensures
        out == tag_kind(tag@),
{
    let t = to_chars(tag);
    if is_word(&t, "p") {
        TagKind::Paragraph
    } else if is_word(&t, "h1") {
        TagKind::Heading(1)
    } else if is_word(&t, "h2") {
        TagKind::Heading(2)
    } else if is_word(&t, "h3") {
        TagKind::Heading(3)
    } else if is_word(&t, "h4") {
        TagKind::Heading(4)
    } else if is_word(&t, "h5") {
        TagKind::Heading(5)
    } else if is_word(&t, "h6") {
        TagKind::Heading(6)
    } else if is_word(&t, "img") {
        TagKind::Image
    } else if is_word(&t, "strong") || is_word(&t, "b") {
        TagKind::Strong
    } else if is_word(&t, "em") || is_word(&t, "i") {
        TagKind::Emphasis
    } else if is_word(&t, "u") {
        TagKind::Underline
    } else if is_word(&t, "blockquote") {
        TagKind::Blockquote
    } else if is_word(&t, "cite") {
        TagKind::Cite
    } else if is_word(&t, "code") || is_word(&t, "tt") {
        TagKind::Code
    } else if is_word(&t, "pre") {
        TagKind::Pre
    } else if is_word(&t, "sup") || is_word(&t, "sub") || is_word(&t, "small") {
        TagKind::Small
    } else if is_word(&t, "big") {
        TagKind::Big
    } else if is_word(&t, "center") {
        TagKind::Center
    } else {
        TagKind::Plain
    }
}

/// The font size of a heading of the level `level`, in points.
pub open spec fn heading_size(level: u8) -> nat {
    if level == 1 {
        24
    } else if level == 2 {
        20
    } else if level == 3 {
        18
    } else if level == 4 {
        16
    } else if level == 5 {
        14
    } else if level == 6 {
        12
    } else {
        16
    }
}

/// The style `style`, or the empty record where there is none.
pub open spec fn or_empty(style: Option<StyleModel>) -> StyleModel {
    match style {
        Some(s) => s,
        None => StyleModel::empty(),
    }
}

/// The style of an element of the kind `kind` whose class and inline
/// styles merge to `style`: what the tag forces is set over `style`. A
/// paragraph only gets vertical margins of 8 where it has none; an image
/// and a plain element keep `style` as it is.
pub open spec fn tag_style(kind: TagKind, style: Option<StyleModel>) -> Option<StyleModel> {
    let base = or_empty(style);
    match kind {
        TagKind::Plain | TagKind::Image => style,
        TagKind::Paragraph => Some(
            StyleModel {
                margin_top: if base.margin_top is None {
                    Some(Decimal::spec_whole(8))
                } else {
                    base.margin_top
                },
                margin_bottom: if base.margin_bottom is None {
                    Some(Decimal::spec_whole(8))
                } else {
                    base.margin_bottom
                },
                ..base
            },
        ),
        TagKind::Heading(level) => Some(
            StyleModel {
                font_size: Some(Decimal::spec_whole(heading_size(level))),
                font_weight: Some("bold"@),
                ..base
            },
        ),
        TagKind::Strong => Some(StyleModel { font_weight: Some("bold"@), ..base }),
        TagKind::Emphasis => Some(StyleModel { font_style: Some("italic"@), ..base }),
        TagKind::Underline => Some(
            StyleModel { text_decoration_line: Some("underline"@), ..base },
        ),
        TagKind::Blockquote => Some(
            StyleModel {
                font_style: Some("italic"@),
                margin_top: Some(Decimal::spec_whole(8)),
                margin_bottom: Some(Decimal::spec_whole(8)),
                margin_left: Some(Decimal::spec_whole(16)),
                margin_right: Some(Decimal::spec_whole(16)),
                ..base
            },
        ),
        TagKind::Cite => Some(StyleModel { font_style: Some("italic"@), ..base }),
        TagKind::Code => Some(
            StyleModel {
                font_size: Some(Decimal::spec_whole(14)),
                font_family: Some("monospace"@),
                ..base
            },
        ),
        TagKind::Pre => Some(
            StyleModel {
                font_size: Some(Decimal::spec_whole(14)),
                font_family: Some("monospace"@),
                margin_top: Some(Decimal::spec_whole(8)),
                margin_bottom: Some(Decimal::spec_whole(8)),
                ..base
            },
        ),
        TagKind::Small => Some(StyleModel { font_size: Some(Decimal::spec_whole(12)), ..base }),
        TagKind::Big => Some(StyleModel { font_size: Some(Decimal::spec_whole(20)), ..base }),
        TagKind::Center => Some(StyleModel { text_align: Some("center"@), ..base }),
    }
}

/// The style of an element of the kind `kind` whose class and inline
/// styles merge to `style`.
pub fn style_for_tag(kind: TagKind, style: Option<RnStyles>) -> (out: Option<RnStyles>)
    ensures
        style_view(out) == tag_style(kind, style_view(style)),
        !(kind is Plain || kind is Image) ==> out is Some,
{
    match kind {
        TagKind::Plain | TagKind::Image => {
            return style;
        },
        _ => {},
    }
    let mut base = match style {
        Some(s) => s,
        None => create_empty_style(),
    };
    match kind {
        TagKind::Paragraph => {
            if base.margin_top.is_none() {
                base.margin_top = Some(Decimal::whole(8));
            }
            if base.margin_bottom.is_none() {
                base.margin_bottom = Some(Decimal::whole(8));
            }
        },
        TagKind::Heading(level) => {
            let size: u64 = if level == 1 {
                24
            } else if level == 2 {
                20
            } else if level == 3 {
                18
            } else if level == 4 {
                16
            } else if level == 5 {
                14
            } else if level == 6 {
                12
            } else {
                16
            };
            base.font_size = Some(Decimal::whole(size));
            base.font_weight = Some("bold".to_owned());
        },
        TagKind::Strong => {
            base.font_weight = Some("bold".to_owned());
        },
        TagKind::Emphasis => {
            base.font_style = Some("italic".to_owned());
        },
        TagKind::Underline => {
            base.text_decoration_line = Some("underline".to_owned());
        },
        TagKind::Blockquote => {
            base.font_style = Some("italic".to_owned());
            base.margin_top = Some(Decimal::whole(8));
            base.margin_bottom = Some(Decimal::whole(8));
            base.margin_left = Some(Decimal::whole(16));
            base.margin_right = Some(Decimal::whole(16));
        },
        TagKind::Cite => {
            base.font_style = Some("italic".to_owned());
        },
        TagKind::Code => {
            base.font_size = Some(Decimal::whole(14));
            base.font_family = Some("monospace".to_owned());
        },
        TagKind::Pre => {
            base.font_size = Some(Decimal::whole(14));
            base.font_family = Some("monospace".to_owned());
            base.margin_top = Some(Decimal::whole(8));
            base.margin_bottom = Some(Decimal::whole(8));
        },
        TagKind::Small => {
            base.font_size = Some(Decimal::whole(12));
        },
        TagKind::Big => {
            base.font_size = Some(Decimal::whole(20));
        },
        TagKind::Center => {
            base.text_align = Some("center".to_owned());
        },
        _ => {},
    }
    Some(base)
}

/// The node `node` with the text style `style` handed down to its text
/// leaves: each text leaf below it, through containers, has `style` merged
/// under its own style. Containers keep their styles; an image or a
/// scrolling container stays as it is.
pub open spec fn styled_node(node: NodeModel, style: StyleModel) -> NodeModel
    decreases node,
{
    match node {
        NodeModel::Text { content, styles } => NodeModel::Text {
            content,
            styles: merge(Some(style), styles),
        },
        NodeModel::View { children, styles } => NodeModel::View {
            children: Seq::new(
                children.len(),
                |i: int|
                    if 0 <= i < children.len() {
                        styled_node(children[i], style)
                    } else {
                        NodeModel::Text { content: Seq::empty(), styles: None }
                    },
            ),
            styles,
        },
        _ => node,
    }
}

/// The nodes `nodes`, each with the text style `style` handed down.
pub open spec fn styled_nodes(nodes: Seq<NodeModel>, style: StyleModel) -> Seq<NodeModel> {
    Seq::new(nodes.len(), |i: int| styled_node(nodes[i], style))
}

/// Handing a style down to a container hands it down to its children.
pub proof fn lemma_styled_view(children: Seq<NodeModel>, styles: Option<StyleModel>, style: StyleModel)
    ensures
        styled_node(NodeModel::View { children, styles }, style) == (NodeModel::View {
            children: styled_nodes(children, style),
            styles,
        }),
{
    let out = styled_node(NodeModel::View { children, styles }, style);
    assert(out->View_children =~= styled_nodes(children, style));
}

/// Handing down composes: a style handed down after another is the merge
/// of the two handed down at once, the earlier one on top.
pub proof fn lemma_styled_twice(node: NodeModel, inner: StyleModel, outer: StyleModel)
    ensures
        styled_node(styled_node(node, inner), outer) == styled_node(node, merged(outer, inner)),
    decreases node,
{
    match node {
        NodeModel::Text { content, styles } => {
            lemma_merge_associative(Some(outer), Some(inner), styles);
        },
        NodeModel::View { children, styles } => {
            lemma_styled_view(children, styles, inner);
            lemma_styled_view(styled_nodes(children, inner), styles, outer);
            lemma_styled_view(children, styles, merged(outer, inner));
            assert forall|i: int| 0 <= i < children.len() implies styled_node(
                styled_node(children[i], inner),
                outer,
            ) == styled_node(children[i], merged(outer, inner)) by {
                lemma_styled_twice(children[i], inner, outer);
            }
            assert(styled_nodes(styled_nodes(children, inner), outer) =~= styled_nodes(
                children,
                merged(outer, inner),
            ));
        },
        _ => {},
    }
}

/// The node `node` with the text style `text_style` handed down to its
/// text leaves.
pub fn apply_text_style(node: &RnNode, text_style: &RnStyles) -> (out: RnNode)
    ensures
        out@ == styled_node(node@, text_style@),
    decreases node,
{
    match node {
        RnNode::Text { content, styles } => RnNode::Text {
            content: content.clone(),
            styles: merge_styles(Some(text_style.clone()), clone_style(styles)),
        },
        RnNode::View { children, styles } => {
            let out = RnNode::View {
                children: restyle_nodes(children, text_style),
                styles: clone_style(styles),
            };
            proof {
                lemma_children_view(*node);
                lemma_children_view(out);
                lemma_styled_view(nodes_view(children@), style_view(*styles), text_style@);
            }
            out
        },
        _ => clone_node(node),
    }
}

/// The nodes `nodes`, each with the text style `text_style` handed down.
pub fn restyle_nodes(nodes: &Vec<RnNode>, text_style: &RnStyles) -> (out: Vec<RnNode>)
    ensures
        nodes_view(out@) == styled_nodes(nodes_view(nodes@), text_style@),
    decreases nodes,
{
    let mut out: Vec<RnNode> = Vec::new();
    let mut i: usize = 0;
    while i < nodes.len()
        invariant
            i <= nodes.len(),
            out@.len() == i,
            forall|j: int| 0 <= j < i ==> out@[j]@ == styled_node(nodes@[j]@, text_style@),
        decreases nodes.len() - i,
    {
        out.push(apply_text_style(&nodes[i], text_style));
        i += 1;
    }
    assert(nodes_view(out@) =~= styled_nodes(nodes_view(nodes@), text_style@));
    out
}

/// Hands the text style `text_style` down to the text leaves of `children`
/// and of their descendants. A leaf's own style wins, field by field.
pub fn apply_text_style_to_children(children: Vec<RnNode>, text_style: &RnStyles) -> (out: Vec<
    RnNode,
>)
    ensures
        nodes_view(out@) == styled_nodes(nodes_view(children@), text_style@),
{
    restyle_nodes(&children, text_style)
}

/// The source of an image whose `src` attribute is `src`: the entry of the
/// image map under `src`; else the entry under the part of `src` after its
/// last `/`; else `src` itself.
pub open spec fn image_source(src: Seq<char>, images: ImagesModel) -> Seq<char> {
    match lookup(images, src) {
        Some(uri) => uri,
        None => match lookup(images, last_piece(src, '/')) {
            Some(uri) => uri,
            None => src,
        },
    }
}

/// The source of an image whose `src` attribute is `src`.
pub fn resolve_image_source(src: &str, images: &ImageMap) -> (out: String)
    ensures
        out@ == image_source(src@, images@),
{
    match images.get(src) {
        Some(uri) => uri.clone(),
        None => {
            let name = from_chars(&last_piece_chars(&to_chars(src), '/'));
            match images.get(name.as_str()) {
                Some(uri) => uri.clone(),
                None => src.to_owned(),
            }
        },
    }
}

/// The text leaf that an element with the style `style` collapses to: where
/// its only child is a text leaf, that leaf with `style` merged under its
/// own style.
pub open spec fn collapsed(children: Seq<NodeModel>, style: StyleModel) -> Option<NodeModel> {
    if children.len() == 1 && children[0] is Text {
        Some(styled_node(children[0], style))
    } else {
        None
    }
}

/// The node of an element of the kind `kind`, given its attributes, the
/// nodes of its children and the merge of its class and inline styles.
///
/// - A plain element, a paragraph, a block quotation, `pre` and `center`
///   give a container of the children with the style of the tag.
/// - An image with a `src` attribute gives an image node with the resolved
///   source, the `alt` text and the merged style; without `src` it gives a
///   container like a plain element.
/// - A heading gives a container of the children with the heading's style
///   handed down to their text leaves; the container keeps the layout part
///   of that style.
/// - `strong` and `em` collapse to a text leaf where the only child is one;
///   else they give what a heading gives.
/// - The other inline tags collapse in the same way; else they give a
///   container of the children with the style of the tag.
pub open spec fn assembled(
    kind: TagKind,
    attrs: Seq<(Seq<char>, Seq<char>)>,
    children: Seq<NodeModel>,
    merged: Option<StyleModel>,
    images: ImagesModel,
) -> NodeModel {
    let style = tag_style(kind, merged);
    match kind {
        TagKind::Plain | TagKind::Paragraph | TagKind::Blockquote | TagKind::Pre
        | TagKind::Center => NodeModel::View { children, styles: style },
        TagKind::Image => match attribute(attrs, "src"@) {
            Some(src) => NodeModel::Image {
                source: image_source(src, images),
                alt: attribute(attrs, "alt"@),
                styles: merged,
            },
            None => NodeModel::View { children, styles: merged },
        },
        TagKind::Heading(_) => NodeModel::View {
            children: styled_nodes(children, or_empty(style)),
            styles: layout_styles(or_empty(style)),
        },
        TagKind::Strong | TagKind::Emphasis => match collapsed(children, or_empty(style)) {
            Some(leaf) => leaf,
            None => NodeModel::View {
                children: styled_nodes(children, or_empty(style)),
                styles: layout_styles(or_empty(style)),
            },
        },
        TagKind::Underline | TagKind::Cite | TagKind::Code | TagKind::Small
        | TagKind::Big => match collapsed(children, or_empty(style)) {
            Some(leaf) => leaf,
            None => NodeModel::View { children, styles: style },
        },
    }
}

/// Only a single text leaf is a single text leaf after a style is handed
/// down: handing down changes neither the number of nodes nor their kinds.
pub proof fn lemma_styled_keeps_shape(children: Seq<NodeModel>, style: StyleModel)
    ensures
        styled_nodes(children, style).len() == children.len(),
        forall|i: int|
            0 <= i < children.len() ==> ((#[trigger] styled_nodes(children, style)[i]) is Text
                <==> children[i] is Text),
        collapsed(children, style) is None ==> !(styled_nodes(children, style).len() == 1
            && styled_nodes(children, style)[0] is Text),
{
    assert forall|i: int| 0 <= i < children.len() implies ((#[trigger] styled_nodes(
        children,
        style,
    )[i]) is Text <==> children[i] is Text) by {
        match children[i] {
            NodeModel::View { children: inner, styles } => {
                lemma_styled_view(inner, styles, style);
            },
            _ => {},
        }
    }
}

/// Whether an element of the kind `kind` becomes a bare text leaf where its
/// only child is one.
pub open spec fn collapses(kind: TagKind) -> bool {
    kind is Strong || kind is Emphasis || kind is Underline || kind is Cite || kind is Code
        || kind is Small || kind is Big
}

/// An inline element whose only child is a text leaf becomes that leaf, not
/// a container around it: the leaf keeps its text, and its style is the
/// style of the element with the leaf's own style merged over it.
pub proof fn lemma_single_text_collapses(
    kind: TagKind,
    attrs: Seq<(Seq<char>, Seq<char>)>,
    content: Seq<char>,
    styles: Option<StyleModel>,
    merged: Option<StyleModel>,
    images: ImagesModel,
)
    requires
        collapses(kind),
    ensures
        assembled(kind, attrs, seq![NodeModel::Text { content, styles }], merged, images) == (
        NodeModel::Text { content, styles: merge(tag_style(kind, merged), styles) }),
{
}

/// Whether `children` is one text leaf.
fn is_single_text(children: &Vec<RnNode>) -> (single: bool)
    ensures
        single == (nodes_view(children@).len() == 1 && nodes_view(children@)[0] is Text),
{
    if children.len() != 1 {
        return false;
    }
    match &children[0] {
        RnNode::Text { .. } => true,
        _ => false,
    }
}

/// A container of `children` with the style `styles`.
fn view_node(children: Vec<RnNode>, styles: Option<RnStyles>) -> (out: RnNode)
    ensures
        out@ == (NodeModel::View { children: nodes_view(children@), styles: style_view(styles) }),
{
    let out = RnNode::View { children, styles };
    proof {
        lemma_children_view(out);
    }
    out
}

/// Builds the node of an element of the kind `kind` from its attributes,
/// the nodes of its children and the merge of its class and inline styles.
pub fn assemble(
    kind: TagKind,
    attrs: &Vec<(String, String)>,
    children: Vec<RnNode>,
    merged: Option<RnStyles>,
    images: &ImageMap,
) -> (out: RnNode)
    ensures
        out@ == assembled(
            kind,
            attrs_view(attrs@),
            nodes_view(children@),
            style_view(merged),
            images@,
        ),
{
    match kind {
        TagKind::Plain | TagKind::Paragraph | TagKind::Blockquote | TagKind::Pre
        | TagKind::Center => view_node(children, style_for_tag(kind, merged)),
        TagKind::Image => match find_attribute(attrs, "src") {
            Some(src) => {
                let alt = match find_attribute(attrs, "alt") {
                    Some(text) => Some(text.clone()),
                    None => None,
                };
                RnNode::Image {
                    source: resolve_image_source(src.as_str(), images),
                    alt,
                    styles: merged,
                }
            },
            None => view_node(children, merged),
        },
        TagKind::Heading(_) => {
            let style = style_for_tag(kind, merged).unwrap();
            let styled = restyle_nodes(&children, &style);
            view_node(styled, extract_layout_styles(&style))
        },
        TagKind::Strong | TagKind::Emphasis => {
            let style = style_for_tag(kind, merged).unwrap();
            if is_single_text(&children) {
                apply_text_style(&children[0], &style)
            } else {
                let styled = restyle_nodes(&children, &style);
                view_node(styled, extract_layout_styles(&style))
            }
        },
        TagKind::Underline | TagKind::Cite | TagKind::Code | TagKind::Small | TagKind::Big => {
            let style = style_for_tag(kind, merged).unwrap();
            if is_single_text(&children) {
                apply_text_style(&children[0], &style)
            } else {
                view_node(children, Some(style))
            }
        },
    }
}

/// The nodes of the children of an element: a text node whose trimmed text
/// is not empty gives a text leaf with that text and no style, an element
/// gives its node, and the order is kept.
pub open spec fn converted_children(
    children: Seq<MarkupModel>,
    sheet: SheetModel,
    images: ImagesModel,
) -> Seq<NodeModel>
    decreases children,
{
    if children.len() == 0 {
        Seq::empty()
    } else {
        let before = converted_children(children.drop_last(), sheet, images);
        match children.last() {
            MarkupModel::Text(content) => if trim(content).len() > 0 {
                before.push(NodeModel::Text { content: trim(content), styles: None })
            } else {
                before
            },
            MarkupModel::Element { tag, attrs, children: inner } => before.push(
                assembled(
                    tag_kind(tag),
                    attrs,
                    converted_children(inner, sheet, images),
                    element_style(attrs, sheet),
                    images,
                ),
            ),
        }
    }
}

/// The node of the markup node `node`: an element is assembled from the
/// nodes of its children and its style; a text node gives a text leaf with
/// its trimmed text.
pub open spec fn element_node(node: MarkupModel, sheet: SheetModel, images: ImagesModel)
    -> NodeModel {
    match node {
        MarkupModel::Text(content) => NodeModel::Text { content: trim(content), styles: None },
        MarkupModel::Element { tag, attrs, children } => assembled(
            tag_kind(tag),
            attrs,
            converted_children(children, sheet, images),
            element_style(attrs, sheet),
            images,
        ),
    }
}

/// Converts the children of an element to their nodes.
pub fn convert_children(children: &Vec<MarkupNode>, styles: &StyleSheet, images: &ImageMap) -> (out:
    Vec<RnNode>)
    ensures
        nodes_view(out@) == converted_children(markup_view(children@), styles@, images@),
    decreases children,
{
    let ghost all = markup_view(children@);
    let mut out: Vec<RnNode> = Vec::new();
    let mut i: usize = 0;
    assert(all.take(0) == Seq::<MarkupModel>::empty());
    assert(nodes_view(out@) =~= converted_children(all.take(0), styles@, images@));
    while i < children.len()
        invariant
            i <= children.len(),
            all == markup_view(children@),
            nodes_view(out@) == converted_children(all.take(i as int), styles@, images@),
        decreases children.len() - i,
    {
        assert(all.take(i + 1).drop_last() == all.take(i as int));
        assert(all.take(i + 1).last() == children@[i as int]@);
        let ghost before = nodes_view(out@);
        match &children[i] {
            MarkupNode::Text(content) => {
                let trimmed = trim_chars(&to_chars(content.as_str()));
                if trimmed.len() > 0 {
                    let leaf = RnNode::Text { content: from_chars(&trimmed), styles: None };
                    out.push(leaf);
                    assert(nodes_view(out@) =~= before.push(leaf@));
                }
            },
            MarkupNode::Element { .. } => {
                proof {
                    lemma_element_view(children@[i as int]);
                }
                let node = convert_element_to_rn_node(&children[i], styles, images);
                out.push(node);
                assert(nodes_view(out@) =~= before.push(node@));
            },
        }
        i += 1;
    }
    assert(all.take(all.len() as int) == all);
    out
}

/// Converts a markup node and everything below it into a document node.
/// The style of an element is its class style with its inline style merged
/// over it, and what its tag forces set over both.
pub fn convert_element_to_rn_node(element: &MarkupNode, styles: &StyleSheet, images: &ImageMap)
    -> (out: RnNode)
    ensures
        out@ == element_node(element@, styles@, images@),
    decreases element,
{
    match element {
        MarkupNode::Text(content) => RnNode::Text {
            content: from_chars(&trim_chars(&to_chars(content.as_str()))),
            styles: None,
        },
        MarkupNode::Element { tag, attrs, children } => {
            proof {
                lemma_element_view(*element);
            }
            let nodes = convert_children(children, styles, images);
            let inline = extract_inline_styles(attrs);
            let class = extract_class_styles(attrs, styles);
            let merged = merge_styles(class, inline);
            assemble(kind_of_tag(tag.as_str()), attrs, nodes, merged, images)
        },
    }
}

/// The nodes of the top-level `html` elements among `nodes`, in order.
pub open spec fn converted_roots(nodes: Seq<MarkupModel>, sheet: SheetModel, images: ImagesModel)
    -> Seq<NodeModel>
    decreases nodes.len(),
{
    if nodes.len() == 0 {
        Seq::empty()
    } else {
        let before = converted_roots(nodes.drop_last(), sheet, images);
        match nodes.last() {
            MarkupModel::Element { tag, .. } => if tag == "html"@ {
                before.push(element_node(nodes.last(), sheet, images))
            } else {
                before
            },
            MarkupModel::Text(_) => before,
        }
    }
}

/// The root node of the document with the top-level nodes `nodes`: the
/// node of its first `body` element; without one, a container of the nodes
/// of its top-level `html` elements; without these either, a text leaf that
/// says so.
pub open spec fn document_node(nodes: Seq<MarkupModel>, sheet: SheetModel, images: ImagesModel)
    -> NodeModel {
    match first_element(nodes, "body"@) {
        Some(body) => element_node(body, sheet, images),
        None => if converted_roots(nodes, sheet, images).len() == 0 {
            NodeModel::Text { content: "no content"@, styles: None }
        } else {
            NodeModel::View { children: converted_roots(nodes, sheet, images), styles: None }
        },
    }
}

/// Converts the document with the top-level nodes `nodes` into its root
/// node.
pub fn convert_document(nodes: &Vec<MarkupNode>, styles: &StyleSheet, images: &ImageMap) -> (out:
    RnNode)
    ensures
        out@ == document_node(markup_view(nodes@), styles@, images@),
{
    match find_element(nodes, "body") {
        Some(body) => convert_element_to_rn_node(body, styles, images),
        None => {
            let ghost all = markup_view(nodes@);
            let mut roots: Vec<RnNode> = Vec::new();
            let mut i: usize = 0;
            assert(all.take(0) == Seq::<MarkupModel>::empty());
            assert(nodes_view(roots@) =~= converted_roots(all.take(0), styles@, images@));
            while i < nodes.len()
                invariant
                    i <= nodes.len(),
                    all == markup_view(nodes@),
                    nodes_view(roots@) == converted_roots(all.take(i as int), styles@, images@),
                decreases nodes.len() - i,
            {
                assert(all.take(i + 1).drop_last() == all.take(i as int));
                assert(all.take(i + 1).last() == nodes@[i as int]@);
                let ghost before = nodes_view(roots@);
                match &nodes[i] {
                    MarkupNode::Element { tag, .. } => {
                        proof {
                            lemma_element_view(nodes@[i as int]);
                        }
                        if is_word(&to_chars(tag.as_str()), "html") {
                            let node = convert_element_to_rn_node(&nodes[i], styles, images);
                            roots.push(node);
                            assert(nodes_view(roots@) =~= before.push(node@));
                        }
                    },
                    MarkupNode::Text(_) => {},
                }
                i += 1;
            }
            assert(all.take(all.len() as int) == all);
            if roots.len() == 0 {
                RnNode::Text { content: "no content".to_owned(), styles: None }
            } else {
                view_node(roots, None)
            }
        },
    }
}

/// Converts the markup text `html` into the root node of its document.
pub fn parse_html_to_rn_nodes(html: &str, styles: &StyleSheet, images: &ImageMap) -> (out: RnNode)
    ensures
        out@ == document_node(forest(parsed_markup(html@)), styles@, images@),
{
    let nodes = parse_markup_tree(html);
    convert_document(&nodes, styles, images)
}

/// The text of a markup node: for an element the text of its children.
pub open spec fn node_text(node: MarkupModel) -> Seq<char> {
    match node {
        MarkupModel::Text(content) => content,
        MarkupModel::Element { children, .. } => text_of(children),
    }
}

/// The title of the document with the top-level nodes `nodes`: the text of
/// its first `title` element; without one, the text of its first `h1`
/// element; without that either, none.
pub open spec fn title_of(nodes: Seq<MarkupModel>) -> Option<Seq<char>> {
    match first_element(nodes, "title"@) {
        Some(title) => Some(node_text(title)),
        None => match first_element(nodes, "h1"@) {
            Some(heading) => Some(node_text(heading)),
            None => None,
        },
    }
}

/// The text of the markup node `node`.
fn text_of_node(node: &MarkupNode) -> (out: String)
    ensures
        out@ == node_text(node@),
{
    match node {
        MarkupNode::Text(content) => content.clone(),
        MarkupNode::Element { children, .. } => {
            proof {
                lemma_element_view(*node);
            }
            let mut text: Vec<char> = Vec::new();
            collect_text(children, &mut text);
            assert(text@ =~= text_of(markup_view(children@)));
            from_chars(&text)
        },
    }
}

/// The title of the document with the top-level nodes `nodes`.
pub fn extract_title(nodes: &Vec<MarkupNode>) -> (out: Option<String>)
    ensures
        text_view(out) == title_of(markup_view(nodes@)),
{
    match find_element(nodes, "title") {
        Some(title) => Some(text_of_node(title)),
        None => match find_element(nodes, "h1") {
            Some(heading) => Some(text_of_node(heading)),
            None => None,
        },
    }
}

/// The title of the markup text `html`.
pub fn extract_title_from_html(html: &str) -> (out: Option<String>)
    ensures
        text_view(out) == title_of(forest(parsed_markup(html@))),
{
    let nodes = parse_markup_tree(html);
    extract_title(&nodes)
}

} // verus!
