//! The table from CSS property names to the fields of a style record.

use crate::css_parser::{size_of_chars, size_value};
use crate::decimal::{integer, number, parse_decimal, parse_integer};
use crate::text::{
    contains_text, from_chars, has_text, is_word, lower, lower_chars, to_chars, trim_char,
    trim_char_chars,
};
use crate::types::{RnStyles, StyleModel};
use vstd::prelude::*;

verus! {

/// A field of a style record.
#[derive(Clone, Copy, Debug, PartialEq, Eq, Structural)]
pub enum StyleField {
    FontSize,
    FontWeight,
    FontFamily,
    FontStyle,
    Color,
    TextAlign,
    TextDecorationLine,
    TextTransform,
    LineHeight,
    TextIndent,
    BackgroundColor,
    Opacity,
    MarginTop,
    MarginBottom,
    MarginLeft,
    MarginRight,
    PaddingTop,
    PaddingBottom,
    PaddingLeft,
    PaddingRight,
    Width,
    Height,
    MinWidth,
    MaxWidth,
    MinHeight,
    MaxHeight,
    Position,
    Top,
    Bottom,
    Left,
    Right,
    ZIndex,
    Display,
    FlexDirection,
    JustifyContent,
    AlignItems,
    AlignSelf,
    FlexWrap,
    Flex,
    FlexGrow,
    FlexShrink,
    FlexBasis,
    BorderWidth,
    BorderTopWidth,
    BorderBottomWidth,
    BorderLeftWidth,
    BorderRightWidth,
    BorderColor,
    BorderTopColor,
    BorderBottomColor,
    BorderLeftColor,
    BorderRightColor,
    BorderRadius,
    BorderStyle,
    Overflow,
}

/// The field that the CSS property `property` sets; none for a property
/// that the record has no field for.
pub open spec fn field_of(property: Seq<char>) -> Option<StyleField> {
    if property == "font-size"@ {
        Some(StyleField::FontSize)
    } else if property == "font-weight"@ {
        Some(StyleField::FontWeight)
    } else if property == "font-family"@ {
        Some(StyleField::FontFamily)
    } else if property == "font-style"@ {
        Some(StyleField::FontStyle)
    } else if property == "color"@ {
        Some(StyleField::Color)
    } else if property == "text-align"@ {
        Some(StyleField::TextAlign)
    } else if property == "text-decoration"@ || property == "text-decoration-line"@ {
        Some(StyleField::TextDecorationLine)
    } else if property == "text-transform"@ {
        Some(StyleField::TextTransform)
    } else if property == "line-height"@ {
        Some(StyleField::LineHeight)
    } else if property == "text-indent"@ {
        Some(StyleField::TextIndent)
    } else if property == "background-color"@ {
        Some(StyleField::BackgroundColor)
    } else if property == "opacity"@ {
        Some(StyleField::Opacity)
    } else if property == "margin-top"@ {
        Some(StyleField::MarginTop)
    } else if property == "margin-bottom"@ {
        Some(StyleField::MarginBottom)
    } else if property == "margin-left"@ {
        Some(StyleField::MarginLeft)
    } else if property == "margin-right"@ {
        Some(StyleField::MarginRight)
    } else if property == "padding-top"@ {
        Some(StyleField::PaddingTop)
    } else if property == "padding-bottom"@ {
        Some(StyleField::PaddingBottom)
    } else if property == "padding-left"@ {
        Some(StyleField::PaddingLeft)
    } else if property == "padding-right"@ {
        Some(StyleField::PaddingRight)
    } else if property == "width"@ {
        Some(StyleField::Width)
    } else if property == "height"@ {
        Some(StyleField::Height)
    } else if property == "min-width"@ {
        Some(StyleField::MinWidth)
    } else if property == "max-width"@ {
        Some(StyleField::MaxWidth)
    } else if property == "min-height"@ {
        Some(StyleField::MinHeight)
    } else if property == "max-height"@ {
        Some(StyleField::MaxHeight)
    } else if property == "position"@ {
        Some(StyleField::Position)
    } else if property == "top"@ {
        Some(StyleField::Top)
    } else if property == "bottom"@ {
        Some(StyleField::Bottom)
    } else if property == "left"@ {
        Some(StyleField::Left)
    } else if property == "right"@ {
        Some(StyleField::Right)
    } else if property == "z-index"@ {
        Some(StyleField::ZIndex)
    } else if property == "display"@ {
        Some(StyleField::Display)
    } else if property == "flex-direction"@ {
        Some(StyleField::FlexDirection)
    } else if property == "justify-content"@ {
        Some(StyleField::JustifyContent)
    } else if property == "align-items"@ {
        Some(StyleField::AlignItems)
    } else if property == "align-self"@ {
        Some(StyleField::AlignSelf)
    } else if property == "flex-wrap"@ {
        Some(StyleField::FlexWrap)
    } else if property == "flex"@ {
        Some(StyleField::Flex)
    } else if property == "flex-grow"@ {
        Some(StyleField::FlexGrow)
    } else if property == "flex-shrink"@ {
        Some(StyleField::FlexShrink)
    } else if property == "flex-basis"@ {
        Some(StyleField::FlexBasis)
    } else if property == "border-width"@ {
        Some(StyleField::BorderWidth)
    } else if property == "border-top-width"@ {
        Some(StyleField::BorderTopWidth)
    } else if property == "border-bottom-width"@ {
        Some(StyleField::BorderBottomWidth)
    } else if property == "border-left-width"@ {
        Some(StyleField::BorderLeftWidth)
    } else if property == "border-right-width"@ {
        Some(StyleField::BorderRightWidth)
    } else if property == "border-color"@ {
        Some(StyleField::BorderColor)
    } else if property == "border-top-color"@ {
        Some(StyleField::BorderTopColor)
    } else if property == "border-bottom-color"@ {
        Some(StyleField::BorderBottomColor)
    } else if property == "border-left-color"@ {
        Some(StyleField::BorderLeftColor)
    } else if property == "border-right-color"@ {
        Some(StyleField::BorderRightColor)
    } else if property == "border-radius"@ {
        Some(StyleField::BorderRadius)
    } else if property == "border-style"@ {
        Some(StyleField::BorderStyle)
    } else if property == "overflow"@ {
        Some(StyleField::Overflow)
    } else {
        None
    }
}

/// The field that the CSS property `property` sets.
pub fn style_field(property: &Vec<char>) -> (out: Option<StyleField>)
    ensures
        out == field_of(property@),
{
    if is_word(property, "font-size") {
        Some(StyleField::FontSize)
    } else if is_word(property, "font-weight") {
        Some(StyleField::FontWeight)
    } else if is_word(property, "font-family") {
        Some(StyleField::FontFamily)
    } else if is_word(property, "font-style") {
        Some(StyleField::FontStyle)
    } else if is_word(property, "color") {
        Some(StyleField::Color)
    } else if is_word(property, "text-align") {
        Some(StyleField::TextAlign)
    } else if is_word(property, "text-decoration") || is_word(property, "text-decoration-line") {
        Some(StyleField::TextDecorationLine)
    } else if is_word(property, "text-transform") {
        Some(StyleField::TextTransform)
    } else if is_word(property, "line-height") {
        Some(StyleField::LineHeight)
    } else if is_word(property, "text-indent") {
        Some(StyleField::TextIndent)
    } else if is_word(property, "background-color") {
        Some(StyleField::BackgroundColor)
    } else if is_word(property, "opacity") {
        Some(StyleField::Opacity)
    } else if is_word(property, "margin-top") {
        Some(StyleField::MarginTop)
    } else if is_word(property, "margin-bottom") {
        Some(StyleField::MarginBottom)
    } else if is_word(property, "margin-left") {
        Some(StyleField::MarginLeft)
    } else if is_word(property, "margin-right") {
        Some(StyleField::MarginRight)
    } else if is_word(property, "padding-top") {
        Some(StyleField::PaddingTop)
    } else if is_word(property, "padding-bottom") {
        Some(StyleField::PaddingBottom)
    } else if is_word(property, "padding-left") {
        Some(StyleField::PaddingLeft)
    } else if is_word(property, "padding-right") {
        Some(StyleField::PaddingRight)
    } else if is_word(property, "width") {
        Some(StyleField::Width)
    } else if is_word(property, "height") {
        Some(StyleField::Height)
    } else if is_word(property, "min-width") {
        Some(StyleField::MinWidth)
    } else if is_word(property, "max-width") {
        Some(StyleField::MaxWidth)
    } else if is_word(property, "min-height") {
        Some(StyleField::MinHeight)
    } else if is_word(property, "max-height") {
        Some(StyleField::MaxHeight)
    } else if is_word(property, "position") {
        Some(StyleField::Position)
    } else if is_word(property, "top") {
        Some(StyleField::Top)
    } else if is_word(property, "bottom") {
        Some(StyleField::Bottom)
    } else if is_word(property, "left") {
        Some(StyleField::Left)
    } else if is_word(property, "right") {
        Some(StyleField::Right)
    } else if is_word(property, "z-index") {
        Some(StyleField::ZIndex)
    } else if is_word(property, "display") {
        Some(StyleField::Display)
    } else if is_word(property, "flex-direction") {
        Some(StyleField::FlexDirection)
    } else if is_word(property, "justify-content") {
        Some(StyleField::JustifyContent)
    } else if is_word(property, "align-items") {
        Some(StyleField::AlignItems)
    } else if is_word(property, "align-self") {
        Some(StyleField::AlignSelf)
    } else if is_word(property, "flex-wrap") {
        Some(StyleField::FlexWrap)
    } else if is_word(property, "flex") {
        Some(StyleField::Flex)
    } else if is_word(property, "flex-grow") {
        Some(StyleField::FlexGrow)
    } else if is_word(property, "flex-shrink") {
        Some(StyleField::FlexShrink)
    } else if is_word(property, "flex-basis") {
        Some(StyleField::FlexBasis)
    } else if is_word(property, "border-width") {
        Some(StyleField::BorderWidth)
    } else if is_word(property, "border-top-width") {
        Some(StyleField::BorderTopWidth)
    } else if is_word(property, "border-bottom-width") {
        Some(StyleField::BorderBottomWidth)
    } else if is_word(property, "border-left-width") {
        Some(StyleField::BorderLeftWidth)
    } else if is_word(property, "border-right-width") {
        Some(StyleField::BorderRightWidth)
    } else if is_word(property, "border-color") {
        Some(StyleField::BorderColor)
    } else if is_word(property, "border-top-color") {
        Some(StyleField::BorderTopColor)
    } else if is_word(property, "border-bottom-color") {
        Some(StyleField::BorderBottomColor)
    } else if is_word(property, "border-left-color") {
        Some(StyleField::BorderLeftColor)
    } else if is_word(property, "border-right-color") {
        Some(StyleField::BorderRightColor)
    } else if is_word(property, "border-radius") {
        Some(StyleField::BorderRadius)
    } else if is_word(property, "border-style") {
        Some(StyleField::BorderStyle)
    } else if is_word(property, "overflow") {
        Some(StyleField::Overflow)
    } else {
        None
    }
}

/// The decoration line that a `text-decoration` value names: the first of
/// `underline`, `line-through` and `none` that stands in it.
pub open spec fn decoration_line(value: Seq<char>) -> Option<Seq<char>> {
    if contains_text(value, "underline"@) {
        Some("underline"@)
    } else if contains_text(value, "line-through"@) {
        Some("line-through"@)
    } else if contains_text(value, "none"@) {
        Some("none"@)
    } else {
        None
    }
}

/// The decoration line that the value `value` names.
pub fn decoration_of(value: &Vec<char>) -> (out: Option<String>)
    ensures
        crate::types::text_view(out) == decoration_line(value@),
{
    if has_text(value, &to_chars("underline")) {
        Some("underline".to_owned())
    } else if has_text(value, &to_chars("line-through")) {
        Some("line-through".to_owned())
    } else if has_text(value, &to_chars("none")) {
        Some("none".to_owned())
    } else {
        None
    }
}

/// The record `style` after `field` is set from the CSS value `value`. A
/// length field takes the length of the value, a number field its number,
/// and either is absent where the value has none. A text field takes the
/// value as it is; the font family loses the double quotes around it, and
/// the decoration line changes only where the value names one.
pub open spec fn with_field(style: StyleModel, field: StyleField, value: Seq<char>) -> StyleModel {
    match field {
        StyleField::FontSize => StyleModel { font_size: size_value(value), ..style },
        StyleField::FontWeight => StyleModel { font_weight: Some(value), ..style },
        StyleField::FontFamily => StyleModel { font_family: Some(trim_char(value, '"')), ..style },
        StyleField::FontStyle => StyleModel { font_style: Some(value), ..style },
        StyleField::Color => StyleModel { color: Some(value), ..style },
        StyleField::TextAlign => StyleModel { text_align: Some(value), ..style },
        StyleField::TextDecorationLine => match decoration_line(value) {
            Some(line) => StyleModel { text_decoration_line: Some(line), ..style },
            None => style,
        },
        StyleField::TextTransform => StyleModel { text_transform: Some(value), ..style },
        StyleField::LineHeight => StyleModel { line_height: size_value(value), ..style },
        StyleField::TextIndent => StyleModel { text_indent: size_value(value), ..style },
        StyleField::BackgroundColor => StyleModel { background_color: Some(value), ..style },
        StyleField::Opacity => StyleModel { opacity: number(value), ..style },
        StyleField::MarginTop => StyleModel { margin_top: size_value(value), ..style },
        StyleField::MarginBottom => StyleModel { margin_bottom: size_value(value), ..style },
        StyleField::MarginLeft => StyleModel { margin_left: size_value(value), ..style },
        StyleField::MarginRight => StyleModel { margin_right: size_value(value), ..style },
        StyleField::PaddingTop => StyleModel { padding_top: size_value(value), ..style },
        StyleField::PaddingBottom => StyleModel { padding_bottom: size_value(value), ..style },
        StyleField::PaddingLeft => StyleModel { padding_left: size_value(value), ..style },
        StyleField::PaddingRight => StyleModel { padding_right: size_value(value), ..style },
        StyleField::Width => StyleModel { width: size_value(value), ..style },
        StyleField::Height => StyleModel { height: size_value(value), ..style },
        StyleField::MinWidth => StyleModel { min_width: size_value(value), ..style },
        StyleField::MaxWidth => StyleModel { max_width: size_value(value), ..style },
        StyleField::MinHeight => StyleModel { min_height: size_value(value), ..style },
        StyleField::MaxHeight => StyleModel { max_height: size_value(value), ..style },
        StyleField::Position => StyleModel { position: Some(value), ..style },
        StyleField::Top => StyleModel { top: size_value(value), ..style },
        StyleField::Bottom => StyleModel { bottom: size_value(value), ..style },
        StyleField::Left => StyleModel { left: size_value(value), ..style },
        StyleField::Right => StyleModel { right: size_value(value), ..style },
        StyleField::ZIndex => StyleModel { z_index: integer(value), ..style },
        StyleField::Display => StyleModel { display: Some(value), ..style },
        StyleField::FlexDirection => StyleModel { flex_direction: Some(value), ..style },
        StyleField::JustifyContent => StyleModel { justify_content: Some(value), ..style },
        StyleField::AlignItems => StyleModel { align_items: Some(value), ..style },
        StyleField::AlignSelf => StyleModel { align_self: Some(value), ..style },
        StyleField::FlexWrap => StyleModel { flex_wrap: Some(value), ..style },
        StyleField::Flex => StyleModel { flex: number(value), ..style },
        StyleField::FlexGrow => StyleModel { flex_grow: number(value), ..style },
        StyleField::FlexShrink => StyleModel { flex_shrink: number(value), ..style },
        StyleField::FlexBasis => StyleModel { flex_basis: size_value(value), ..style },
        StyleField::BorderWidth => StyleModel { border_width: size_value(value), ..style },
        StyleField::BorderTopWidth => StyleModel { border_top_width: size_value(value), ..style },
        StyleField::BorderBottomWidth => StyleModel { border_bottom_width: size_value(value), ..style },
        StyleField::BorderLeftWidth => StyleModel { border_left_width: size_value(value), ..style },
        StyleField::BorderRightWidth => StyleModel { border_right_width: size_value(value), ..style },
        StyleField::BorderColor => StyleModel { border_color: Some(value), ..style },
        StyleField::BorderTopColor => StyleModel { border_top_color: Some(value), ..style },
        StyleField::BorderBottomColor => StyleModel { border_bottom_color: Some(value), ..style },
        StyleField::BorderLeftColor => StyleModel { border_left_color: Some(value), ..style },
        StyleField::BorderRightColor => StyleModel { border_right_color: Some(value), ..style },
        StyleField::BorderRadius => StyleModel { border_radius: size_value(value), ..style },
        StyleField::BorderStyle => StyleModel { border_style: Some(value), ..style },
        StyleField::Overflow => StyleModel { overflow: Some(value), ..style },
    }
}

/// The record `style` after the declaration of `property` with `value`.
/// The property name counts without regard to the case of its letters; a
/// property that the record has no field for leaves the record as it is.
pub open spec fn applied(style: StyleModel, property: Seq<char>, value: Seq<char>) -> StyleModel {
    match field_of(lower(property)) {
        Some(field) => with_field(style, field, value),
        None => style,
    }
}

/// Sets `field` of `style` from the CSS value `value`.
pub fn set_field(style: &mut RnStyles, field: StyleField, value: &Vec<char>)
    ensures
        final(style)@ == with_field(old(style)@, field, value@),
{
    match field {
        StyleField::FontSize => {
            style.font_size = size_of_chars(value);
        },
        StyleField::FontWeight => {
            style.font_weight = Some(from_chars(value));
        },
        StyleField::FontFamily => {
            style.font_family = Some(from_chars(&trim_char_chars(value, '"')));
        },
        StyleField::FontStyle => {
            style.font_style = Some(from_chars(value));
        },
        StyleField::Color => {
            style.color = Some(from_chars(value));
        },
        StyleField::TextAlign => {
            style.text_align = Some(from_chars(value));
        },
        StyleField::TextDecorationLine => {
            let line = decoration_of(value);
            if line.is_some() {
                style.text_decoration_line = line;
            }
        },
        StyleField::TextTransform => {
            style.text_transform = Some(from_chars(value));
        },
        StyleField::LineHeight => {
            style.line_height = size_of_chars(value);
        },
        StyleField::TextIndent => {
            style.text_indent = size_of_chars(value);
        },
        StyleField::BackgroundColor => {
            style.background_color = Some(from_chars(value));
        },
        StyleField::Opacity => {
            style.opacity = parse_decimal(value);
        },
        StyleField::MarginTop => {
            style.margin_top = size_of_chars(value);
        },
        StyleField::MarginBottom => {
            style.margin_bottom = size_of_chars(value);
        },
        StyleField::MarginLeft => {
            style.margin_left = size_of_chars(value);
        },
        StyleField::MarginRight => {
            style.margin_right = size_of_chars(value);
        },
        StyleField::PaddingTop => {
            style.padding_top = size_of_chars(value);
        },
        StyleField::PaddingBottom => {
            style.padding_bottom = size_of_chars(value);
        },
        StyleField::PaddingLeft => {
            style.padding_left = size_of_chars(value);
        },
        StyleField::PaddingRight => {
            style.padding_right = size_of_chars(value);
        },
        StyleField::Width => {
            style.width = size_of_chars(value);
        },
        StyleField::Height => {
            style.height = size_of_chars(value);
        },
        StyleField::MinWidth => {
            style.min_width = size_of_chars(value);
        },
        StyleField::MaxWidth => {
            style.max_width = size_of_chars(value);
        },
        StyleField::MinHeight => {
            style.min_height = size_of_chars(value);
        },
        StyleField::MaxHeight => {
            style.max_height = size_of_chars(value);
        },
        StyleField::Position => {
            style.position = Some(from_chars(value));
        },
        StyleField::Top => {
            style.top = size_of_chars(value);
        },
        StyleField::Bottom => {
            style.bottom = size_of_chars(value);
        },
        StyleField::Left => {
            style.left = size_of_chars(value);
        },
        StyleField::Right => {
            style.right = size_of_chars(value);
        },
        StyleField::ZIndex => {
            style.z_index = parse_integer(value);
        },
        StyleField::Display => {
            style.display = Some(from_chars(value));
        },
        StyleField::FlexDirection => {
            style.flex_direction = Some(from_chars(value));
        },
        StyleField::JustifyContent => {
            style.justify_content = Some(from_chars(value));
        },
        StyleField::AlignItems => {
            style.align_items = Some(from_chars(value));
        },
        StyleField::AlignSelf => {
            style.align_self = Some(from_chars(value));
        },
        StyleField::FlexWrap => {
            style.flex_wrap = Some(from_chars(value));
        },
        StyleField::Flex => {
            style.flex = parse_decimal(value);
        },
        StyleField::FlexGrow => {
            style.flex_grow = parse_decimal(value);
        },
        StyleField::FlexShrink => {
            style.flex_shrink = parse_decimal(value);
        },
        StyleField::FlexBasis => {
            style.flex_basis = size_of_chars(value);
        },
        StyleField::BorderWidth => {
            style.border_width = size_of_chars(value);
        },
        StyleField::BorderTopWidth => {
            style.border_top_width = size_of_chars(value);
        },
        StyleField::BorderBottomWidth => {
            style.border_bottom_width = size_of_chars(value);
        },
        StyleField::BorderLeftWidth => {
            style.border_left_width = size_of_chars(value);
        },
        StyleField::BorderRightWidth => {
            style.border_right_width = size_of_chars(value);
        },
        StyleField::BorderColor => {
            style.border_color = Some(from_chars(value));
        },
        StyleField::BorderTopColor => {
            style.border_top_color = Some(from_chars(value));
        },
        StyleField::BorderBottomColor => {
            style.border_bottom_color = Some(from_chars(value));
        },
        StyleField::BorderLeftColor => {
            style.border_left_color = Some(from_chars(value));
        },
        StyleField::BorderRightColor => {
            style.border_right_color = Some(from_chars(value));
        },
        StyleField::BorderRadius => {
            style.border_radius = size_of_chars(value);
        },
        StyleField::BorderStyle => {
            style.border_style = Some(from_chars(value));
        },
        StyleField::Overflow => {
            style.overflow = Some(from_chars(value));
        },
    }
}

/// Applies one CSS declaration to `style`: the field that `property` names
/// is set from `value`, and a property without a field changes nothing.
pub fn apply_css_property_to_rn_style(style: &mut RnStyles, property: &str, value: &str)
    ensures
        final(style)@ == applied(old(style)@, property@, value@),
{
    let name = lower_chars(&to_chars(property));
    match style_field(&name) {
        Some(field) => set_field(style, field, &to_chars(value)),
        None => {},
    }
}

/// A declaration for a property that the record has no field for changes
/// nothing.
pub proof fn lemma_unknown_property(style: StyleModel, property: Seq<char>, value: Seq<char>)
    requires
        field_of(lower(property)) is None,
    ensures
        applied(style, property, value) == style,
{
}

} // verus!
