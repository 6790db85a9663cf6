//! Combining style records.

use crate::types::{clone_text, style_view, text_view, RnStyles, StyleModel};
use vstd::prelude::*;

verus! {

/// `over` where it is present, else `base`.
pub open spec fn prefer<T>(over: Option<T>, base: Option<T>) -> Option<T> {
    if over is Some {
        over
    } else {
        base
    }
}

/// The record that has, field by field, the value of `over` where `over`
/// has one, and else the value of `base`.
pub open spec fn merged(base: StyleModel, over: StyleModel) -> StyleModel {
    StyleModel {
        font_size: prefer(over.font_size, base.font_size),
        font_weight: prefer(over.font_weight, base.font_weight),
        font_family: prefer(over.font_family, base.font_family),
        font_style: prefer(over.font_style, base.font_style),
        color: prefer(over.color, base.color),
        text_align: prefer(over.text_align, base.text_align),
        text_decoration_line: prefer(over.text_decoration_line, base.text_decoration_line),
        text_transform: prefer(over.text_transform, base.text_transform),
        line_height: prefer(over.line_height, base.line_height),
        text_indent: prefer(over.text_indent, base.text_indent),
        background_color: prefer(over.background_color, base.background_color),
        opacity: prefer(over.opacity, base.opacity),
        margin_top: prefer(over.margin_top, base.margin_top),
        margin_bottom: prefer(over.margin_bottom, base.margin_bottom),
        margin_left: prefer(over.margin_left, base.margin_left),
        margin_right: prefer(over.margin_right, base.margin_right),
        padding_top: prefer(over.padding_top, base.padding_top),
        padding_bottom: prefer(over.padding_bottom, base.padding_bottom),
        padding_left: prefer(over.padding_left, base.padding_left),
        padding_right: prefer(over.padding_right, base.padding_right),
        width: prefer(over.width, base.width),
        height: prefer(over.height, base.height),
        min_width: prefer(over.min_width, base.min_width),
        max_width: prefer(over.max_width, base.max_width),
        min_height: prefer(over.min_height, base.min_height),
        max_height: prefer(over.max_height, base.max_height),
        position: prefer(over.position, base.position),
        top: prefer(over.top, base.top),
        bottom: prefer(over.bottom, base.bottom),
        left: prefer(over.left, base.left),
        right: prefer(over.right, base.right),
        z_index: prefer(over.z_index, base.z_index),
        display: prefer(over.display, base.display),
        flex_direction: prefer(over.flex_direction, base.flex_direction),
        justify_content: prefer(over.justify_content, base.justify_content),
        align_items: prefer(over.align_items, base.align_items),
        align_self: prefer(over.align_self, base.align_self),
        flex_wrap: prefer(over.flex_wrap, base.flex_wrap),
        flex: prefer(over.flex, base.flex),
        flex_grow: prefer(over.flex_grow, base.flex_grow),
        flex_shrink: prefer(over.flex_shrink, base.flex_shrink),
        flex_basis: prefer(over.flex_basis, base.flex_basis),
        border_width: prefer(over.border_width, base.border_width),
        border_top_width: prefer(over.border_top_width, base.border_top_width),
        border_bottom_width: prefer(over.border_bottom_width, base.border_bottom_width),
        border_left_width: prefer(over.border_left_width, base.border_left_width),
        border_right_width: prefer(over.border_right_width, base.border_right_width),
        border_color: prefer(over.border_color, base.border_color),
        border_top_color: prefer(over.border_top_color, base.border_top_color),
        border_bottom_color: prefer(over.border_bottom_color, base.border_bottom_color),
        border_left_color: prefer(over.border_left_color, base.border_left_color),
        border_right_color: prefer(over.border_right_color, base.border_right_color),
        border_radius: prefer(over.border_radius, base.border_radius),
        border_style: prefer(over.border_style, base.border_style),
        overflow: prefer(over.overflow, base.overflow),
    }
}

/// The merge of two optional records: none where both are missing, the one
/// that is there where one is missing, and else [`merged`].
pub open spec fn merge(base: Option<StyleModel>, over: Option<StyleModel>) -> Option<StyleModel> {
    match (base, over) {
        (Some(b), Some(o)) => Some(merged(b, o)),
        (Some(b), None) => Some(b),
        (None, Some(o)) => Some(o),
        (None, None) => None,
    }
}

/// `over` where it is present, else `base`.
pub fn pick<T>(over: Option<T>, base: Option<T>) -> (out: Option<T>)
    ensures
        out == prefer(over, base),
{
    if over.is_some() {
        over
    } else {
        base
    }
}

/// `over` where it is present, else `base`.
pub fn pick_text(over: Option<String>, base: Option<String>) -> (out: Option<String>)
    ensures
        text_view(out) == prefer(text_view(over), text_view(base)),
{
    if over.is_some() {
        over
    } else {
        base
    }
}

/// Merges two optional style records. A field of `inline_style` that is
/// present replaces the same field of `class_style`.
pub fn merge_styles(class_style: Option<RnStyles>, inline_style: Option<RnStyles>) -> (out: Option<
    RnStyles,
>)
    ensures
        style_view(out) == merge(style_view(class_style), style_view(inline_style)),
{
    match (class_style, inline_style) {
        (Some(class), Some(inline)) => Some(
            RnStyles {
                font_size: pick(inline.font_size, class.font_size),
                font_weight: pick_text(inline.font_weight, class.font_weight),
                font_family: pick_text(inline.font_family, class.font_family),
                font_style: pick_text(inline.font_style, class.font_style),
                color: pick_text(inline.color, class.color),
                text_align: pick_text(inline.text_align, class.text_align),
                text_decoration_line: pick_text(inline.text_decoration_line, class.text_decoration_line),
                text_transform: pick_text(inline.text_transform, class.text_transform),
                line_height: pick(inline.line_height, class.line_height),
                text_indent: pick(inline.text_indent, class.text_indent),
                background_color: pick_text(inline.background_color, class.background_color),
                opacity: pick(inline.opacity, class.opacity),
                margin_top: pick(inline.margin_top, class.margin_top),
                margin_bottom: pick(inline.margin_bottom, class.margin_bottom),
                margin_left: pick(inline.margin_left, class.margin_left),
                margin_right: pick(inline.margin_right, class.margin_right),
                padding_top: pick(inline.padding_top, class.padding_top),
                padding_bottom: pick(inline.padding_bottom, class.padding_bottom),
                padding_left: pick(inline.padding_left, class.padding_left),
                padding_right: pick(inline.padding_right, class.padding_right),
                width: pick(inline.width, class.width),
                height: pick(inline.height, class.height),
                min_width: pick(inline.min_width, class.min_width),
                max_width: pick(inline.max_width, class.max_width),
                min_height: pick(inline.min_height, class.min_height),
                max_height: pick(inline.max_height, class.max_height),
                position: pick_text(inline.position, class.position),
                top: pick(inline.top, class.top),
                bottom: pick(inline.bottom, class.bottom),
                left: pick(inline.left, class.left),
                right: pick(inline.right, class.right),
                z_index: pick(inline.z_index, class.z_index),
                display: pick_text(inline.display, class.display),
                flex_direction: pick_text(inline.flex_direction, class.flex_direction),
                justify_content: pick_text(inline.justify_content, class.justify_content),
                align_items: pick_text(inline.align_items, class.align_items),
                align_self: pick_text(inline.align_self, class.align_self),
                flex_wrap: pick_text(inline.flex_wrap, class.flex_wrap),
                flex: pick(inline.flex, class.flex),
                flex_grow: pick(inline.flex_grow, class.flex_grow),
                flex_shrink: pick(inline.flex_shrink, class.flex_shrink),
                flex_basis: pick(inline.flex_basis, class.flex_basis),
                border_width: pick(inline.border_width, class.border_width),
                border_top_width: pick(inline.border_top_width, class.border_top_width),
                border_bottom_width: pick(inline.border_bottom_width, class.border_bottom_width),
                border_left_width: pick(inline.border_left_width, class.border_left_width),
                border_right_width: pick(inline.border_right_width, class.border_right_width),
                border_color: pick_text(inline.border_color, class.border_color),
                border_top_color: pick_text(inline.border_top_color, class.border_top_color),
                border_bottom_color: pick_text(inline.border_bottom_color, class.border_bottom_color),
                border_left_color: pick_text(inline.border_left_color, class.border_left_color),
                border_right_color: pick_text(inline.border_right_color, class.border_right_color),
                border_radius: pick(inline.border_radius, class.border_radius),
                border_style: pick_text(inline.border_style, class.border_style),
                overflow: pick_text(inline.overflow, class.overflow),
            },
        ),
        (Some(class), None) => Some(class),
        (None, Some(inline)) => Some(inline),
        (None, None) => None,
    }
}

/// Merging is right-biased: where only one record is given the merge is that
/// record, and where both are given each field comes from the second record
/// if it is present there, and else from the first.
pub proof fn lemma_merge_right_bias(a: StyleModel, b: StyleModel)
    ensures
        merge(None, None) == None::<StyleModel>,
        merge(Some(a), None) == Some(a),
        merge(None, Some(b)) == Some(b),
        merge(Some(a), Some(b)) is Some,
        merge(Some(a), Some(b))->0.font_size == if b.font_size is Some {
            b.font_size
        } else {
            a.font_size
        },
        merge(Some(a), Some(b))->0.font_weight == if b.font_weight is Some {
            b.font_weight
        } else {
            a.font_weight
        },
        merge(Some(a), Some(b))->0.font_family == if b.font_family is Some {
            b.font_family
        } else {
            a.font_family
        },
        merge(Some(a), Some(b))->0.font_style == if b.font_style is Some {
            b.font_style
        } else {
            a.font_style
        },
        merge(Some(a), Some(b))->0.color == if b.color is Some {
            b.color
        } else {
            a.color
        },
        merge(Some(a), Some(b))->0.text_align == if b.text_align is Some {
            b.text_align
        } else {
            a.text_align
        },
        merge(Some(a), Some(b))->0.text_decoration_line == if b.text_decoration_line is Some {
            b.text_decoration_line
        } else {
            a.text_decoration_line
        },
        merge(Some(a), Some(b))->0.text_transform == if b.text_transform is Some {
            b.text_transform
        } else {
            a.text_transform
        },
        merge(Some(a), Some(b))->0.line_height == if b.line_height is Some {
            b.line_height
        } else {
            a.line_height
        },
        merge(Some(a), Some(b))->0.text_indent == if b.text_indent is Some {
            b.text_indent
        } else {
            a.text_indent
        },
        merge(Some(a), Some(b))->0.background_color == if b.background_color is Some {
            b.background_color
        } else {
            a.background_color
        },
        merge(Some(a), Some(b))->0.opacity == if b.opacity is Some {
            b.opacity
        } else {
            a.opacity
        },
        merge(Some(a), Some(b))->0.margin_top == if b.margin_top is Some {
            b.margin_top
        } else {
            a.margin_top
        },
        merge(Some(a), Some(b))->0.margin_bottom == if b.margin_bottom is Some {
            b.margin_bottom
        } else {
            a.margin_bottom
        },
        merge(Some(a), Some(b))->0.margin_left == if b.margin_left is Some {
            b.margin_left
        } else {
            a.margin_left
        },
        merge(Some(a), Some(b))->0.margin_right == if b.margin_right is Some {
            b.margin_right
        } else {
            a.margin_right
        },
        merge(Some(a), Some(b))->0.padding_top == if b.padding_top is Some {
            b.padding_top
        } else {
            a.padding_top
        },
        merge(Some(a), Some(b))->0.padding_bottom == if b.padding_bottom is Some {
            b.padding_bottom
        } else {
            a.padding_bottom
        },
        merge(Some(a), Some(b))->0.padding_left == if b.padding_left is Some {
            b.padding_left
        } else {
            a.padding_left
        },
        merge(Some(a), Some(b))->0.padding_right == if b.padding_right is Some {
            b.padding_right
        } else {
            a.padding_right
        },
        merge(Some(a), Some(b))->0.width == if b.width is Some {
            b.width
        } else {
            a.width
        },
        merge(Some(a), Some(b))->0.height == if b.height is Some {
            b.height
        } else {
            a.height
        },
        merge(Some(a), Some(b))->0.min_width == if b.min_width is Some {
            b.min_width
        } else {
            a.min_width
        },
        merge(Some(a), Some(b))->0.max_width == if b.max_width is Some {
            b.max_width
        } else {
            a.max_width
        },
        merge(Some(a), Some(b))->0.min_height == if b.min_height is Some {
            b.min_height
        } else {
            a.min_height
        },
        merge(Some(a), Some(b))->0.max_height == if b.max_height is Some {
            b.max_height
        } else {
            a.max_height
        },
        merge(Some(a), Some(b))->0.position == if b.position is Some {
            b.position
        } else {
            a.position
        },
        merge(Some(a), Some(b))->0.top == if b.top is Some {
            b.top
        } else {
            a.top
        },
        merge(Some(a), Some(b))->0.bottom == if b.bottom is Some {
            b.bottom
        } else {
            a.bottom
        },
        merge(Some(a), Some(b))->0.left == if b.left is Some {
            b.left
        } else {
            a.left
        },
        merge(Some(a), Some(b))->0.right == if b.right is Some {
            b.right
        } else {
            a.right
        },
        merge(Some(a), Some(b))->0.z_index == if b.z_index is Some {
            b.z_index
        } else {
            a.z_index
        },
        merge(Some(a), Some(b))->0.display == if b.display is Some {
            b.display
        } else {
            a.display
        },
        merge(Some(a), Some(b))->0.flex_direction == if b.flex_direction is Some {
            b.flex_direction
        } else {
            a.flex_direction
        },
        merge(Some(a), Some(b))->0.justify_content == if b.justify_content is Some {
            b.justify_content
        } else {
            a.justify_content
        },
        merge(Some(a), Some(b))->0.align_items == if b.align_items is Some {
            b.align_items
        } else {
            a.align_items
        },
        merge(Some(a), Some(b))->0.align_self == if b.align_self is Some {
            b.align_self
        } else {
            a.align_self
        },
        merge(Some(a), Some(b))->0.flex_wrap == if b.flex_wrap is Some {
            b.flex_wrap
        } else {
            a.flex_wrap
        },
        merge(Some(a), Some(b))->0.flex == if b.flex is Some {
            b.flex
        } else {
            a.flex
        },
        merge(Some(a), Some(b))->0.flex_grow == if b.flex_grow is Some {
            b.flex_grow
        } else {
            a.flex_grow
        },
        merge(Some(a), Some(b))->0.flex_shrink == if b.flex_shrink is Some {
            b.flex_shrink
        } else {
            a.flex_shrink
        },
        merge(Some(a), Some(b))->0.flex_basis == if b.flex_basis is Some {
            b.flex_basis
        } else {
            a.flex_basis
        },
        merge(Some(a), Some(b))->0.border_width == if b.border_width is Some {
            b.border_width
        } else {
            a.border_width
        },
        merge(Some(a), Some(b))->0.border_top_width == if b.border_top_width is Some {
            b.border_top_width
        } else {
            a.border_top_width
        },
        merge(Some(a), Some(b))->0.border_bottom_width == if b.border_bottom_width is Some {
            b.border_bottom_width
        } else {
            a.border_bottom_width
        },
        merge(Some(a), Some(b))->0.border_left_width == if b.border_left_width is Some {
            b.border_left_width
        } else {
            a.border_left_width
        },
        merge(Some(a), Some(b))->0.border_right_width == if b.border_right_width is Some {
            b.border_right_width
        } else {
            a.border_right_width
        },
        merge(Some(a), Some(b))->0.border_color == if b.border_color is Some {
            b.border_color
        } else {
            a.border_color
        },
        merge(Some(a), Some(b))->0.border_top_color == if b.border_top_color is Some {
            b.border_top_color
        } else {
            a.border_top_color
        },
        merge(Some(a), Some(b))->0.border_bottom_color == if b.border_bottom_color is Some {
            b.border_bottom_color
        } else {
            a.border_bottom_color
        },
        merge(Some(a), Some(b))->0.border_left_color == if b.border_left_color is Some {
            b.border_left_color
        } else {
            a.border_left_color
        },
        merge(Some(a), Some(b))->0.border_right_color == if b.border_right_color is Some {
            b.border_right_color
        } else {
            a.border_right_color
        },
        merge(Some(a), Some(b))->0.border_radius == if b.border_radius is Some {
            b.border_radius
        } else {
            a.border_radius
        },
        merge(Some(a), Some(b))->0.border_style == if b.border_style is Some {
            b.border_style
        } else {
            a.border_style
        },
        merge(Some(a), Some(b))->0.overflow == if b.overflow is Some {
            b.overflow
        } else {
            a.overflow
        },
{
}

/// Merging a record with itself gives the record back.
pub proof fn lemma_merge_idempotent(a: StyleModel)
    ensures
        merge(Some(a), Some(a)) == Some(a),
{
}

/// Merging is associative: in a chain of records the last one that has a
/// field decides it, however the chain is bracketed.
pub proof fn lemma_merge_associative(
    a: Option<StyleModel>,
    b: Option<StyleModel>,
    c: Option<StyleModel>,
)
    ensures
        merge(merge(a, b), c) == merge(a, merge(b, c)),
{
    if a is Some && b is Some && c is Some {
        let left = merged(merged(a->0, b->0), c->0);
        let right = merged(a->0, merged(b->0, c->0));
        assert(left.font_size == right.font_size);
        assert(left.font_weight == right.font_weight);
        assert(left.font_family == right.font_family);
        assert(left.font_style == right.font_style);
        assert(left.color == right.color);
        assert(left.text_align == right.text_align);
        assert(left.text_decoration_line == right.text_decoration_line);
        assert(left.text_transform == right.text_transform);
        assert(left.line_height == right.line_height);
        assert(left.text_indent == right.text_indent);
        assert(left.background_color == right.background_color);
        assert(left.opacity == right.opacity);
        assert(left.margin_top == right.margin_top);
        assert(left.margin_bottom == right.margin_bottom);
        assert(left.margin_left == right.margin_left);
        assert(left.margin_right == right.margin_right);
        assert(left.padding_top == right.padding_top);
        assert(left.padding_bottom == right.padding_bottom);
        assert(left.padding_left == right.padding_left);
        assert(left.padding_right == right.padding_right);
        assert(left.width == right.width);
        assert(left.height == right.height);
        assert(left.min_width == right.min_width);
        assert(left.max_width == right.max_width);
        assert(left.min_height == right.min_height);
        assert(left.max_height == right.max_height);
        assert(left.position == right.position);
        assert(left.top == right.top);
        assert(left.bottom == right.bottom);
        assert(left.left == right.left);
        assert(left.right == right.right);
        assert(left.z_index == right.z_index);
        assert(left.display == right.display);
        assert(left.flex_direction == right.flex_direction);
        assert(left.justify_content == right.justify_content);
        assert(left.align_items == right.align_items);
        assert(left.align_self == right.align_self);
        assert(left.flex_wrap == right.flex_wrap);
        assert(left.flex == right.flex);
        assert(left.flex_grow == right.flex_grow);
        assert(left.flex_shrink == right.flex_shrink);
        assert(left.flex_basis == right.flex_basis);
        assert(left.border_width == right.border_width);
        assert(left.border_top_width == right.border_top_width);
        assert(left.border_bottom_width == right.border_bottom_width);
        assert(left.border_left_width == right.border_left_width);
        assert(left.border_right_width == right.border_right_width);
        assert(left.border_color == right.border_color);
        assert(left.border_top_color == right.border_top_color);
        assert(left.border_bottom_color == right.border_bottom_color);
        assert(left.border_left_color == right.border_left_color);
        assert(left.border_right_color == right.border_right_color);
        assert(left.border_radius == right.border_radius);
        assert(left.border_style == right.border_style);
        assert(left.overflow == right.overflow);
        assert(left == right);
    }
}

/// The fields that style characters rather than boxes are absent.
pub open spec fn is_layout_only(s: StyleModel) -> bool {
    &&& s.font_size is None
    &&& s.font_weight is None
    &&& s.font_family is None
    &&& s.font_style is None
    &&& s.color is None
    &&& s.text_decoration_line is None
    &&& s.text_transform is None
    &&& s.line_height is None
}

/// The record `s` without the fields that style characters: font size,
/// weight, family and style, colour, decoration line, text transform and
/// line height.
pub open spec fn layout_part(s: StyleModel) -> StyleModel {
    StyleModel {
        font_size: None,
        font_weight: None,
        font_family: None,
        font_style: None,
        color: None,
        text_decoration_line: None,
        text_transform: None,
        line_height: None,
        ..s
    }
}

/// Whether `s` has a field that styles a box.
pub open spec fn has_layout(s: StyleModel) -> bool {
    layout_part(s) != StyleModel::empty()
}

/// The layout fields of `s`, if it has any.
pub open spec fn layout_styles(s: StyleModel) -> Option<StyleModel> {
    if has_layout(s) {
        Some(layout_part(s))
    } else {
        None
    }
}

/// The layout fields of `style`: the record without the fields that style
/// characters. None where no layout field is present.
pub fn extract_layout_styles(style: &RnStyles) -> (out: Option<RnStyles>)
    ensures
        style_view(out) == layout_styles(style@),
{
    let any =
        style.text_align.is_some()
        || style.text_indent.is_some()
        || style.background_color.is_some()
        || style.opacity.is_some()
        || style.margin_top.is_some()
        || style.margin_bottom.is_some()
        || style.margin_left.is_some()
        || style.margin_right.is_some()
        || style.padding_top.is_some()
        || style.padding_bottom.is_some()
        || style.padding_left.is_some()
        || style.padding_right.is_some()
        || style.width.is_some()
        || style.height.is_some()
        || style.min_width.is_some()
        || style.max_width.is_some()
        || style.min_height.is_some()
        || style.max_height.is_some()
        || style.position.is_some()
        || style.top.is_some()
        || style.bottom.is_some()
        || style.left.is_some()
        || style.right.is_some()
        || style.z_index.is_some()
        || style.display.is_some()
        || style.flex_direction.is_some()
        || style.justify_content.is_some()
        || style.align_items.is_some()
        || style.align_self.is_some()
        || style.flex_wrap.is_some()
        || style.flex.is_some()
        || style.flex_grow.is_some()
        || style.flex_shrink.is_some()
        || style.flex_basis.is_some()
        || style.border_width.is_some()
        || style.border_top_width.is_some()
        || style.border_bottom_width.is_some()
        || style.border_left_width.is_some()
        || style.border_right_width.is_some()
        || style.border_color.is_some()
        || style.border_top_color.is_some()
        || style.border_bottom_color.is_some()
        || style.border_left_color.is_some()
        || style.border_right_color.is_some()
        || style.border_radius.is_some()
        || style.border_style.is_some()
        || style.overflow.is_some();
    if !any {
        return None;
    }
    Some(
        RnStyles {
            font_size: None,
            font_weight: None,
            font_family: None,
            font_style: None,
            color: None,
            text_align: clone_text(&style.text_align),
            text_decoration_line: None,
            text_transform: None,
            line_height: None,
            text_indent: style.text_indent,
            background_color: clone_text(&style.background_color),
            opacity: style.opacity,
            margin_top: style.margin_top,
            margin_bottom: style.margin_bottom,
            margin_left: style.margin_left,
            margin_right: style.margin_right,
            padding_top: style.padding_top,
            padding_bottom: style.padding_bottom,
            padding_left: style.padding_left,
            padding_right: style.padding_right,
            width: style.width,
            height: style.height,
            min_width: style.min_width,
            max_width: style.max_width,
            min_height: style.min_height,
            max_height: style.max_height,
            position: clone_text(&style.position),
            top: style.top,
            bottom: style.bottom,
            left: style.left,
            right: style.right,
            z_index: style.z_index,
            display: clone_text(&style.display),
            flex_direction: clone_text(&style.flex_direction),
            justify_content: clone_text(&style.justify_content),
            align_items: clone_text(&style.align_items),
            align_self: clone_text(&style.align_self),
            flex_wrap: clone_text(&style.flex_wrap),
            flex: style.flex,
            flex_grow: style.flex_grow,
            flex_shrink: style.flex_shrink,
            flex_basis: style.flex_basis,
            border_width: style.border_width,
            border_top_width: style.border_top_width,
            border_bottom_width: style.border_bottom_width,
            border_left_width: style.border_left_width,
            border_right_width: style.border_right_width,
            border_color: clone_text(&style.border_color),
            border_top_color: clone_text(&style.border_top_color),
            border_bottom_color: clone_text(&style.border_bottom_color),
            border_left_color: clone_text(&style.border_left_color),
            border_right_color: clone_text(&style.border_right_color),
            border_radius: style.border_radius,
            border_style: clone_text(&style.border_style),
            overflow: clone_text(&style.overflow),
        },
    )
}

/// Taking the layout part twice is taking it once, and the layout part has
/// no field that styles characters.
pub proof fn lemma_layout_part(s: StyleModel)
    ensures
        is_layout_only(layout_part(s)),
        layout_part(layout_part(s)) == layout_part(s),
        merged(layout_part(s), s) == s,
{
}

} // verus!
