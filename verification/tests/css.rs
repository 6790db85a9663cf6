use epub_to_rn::css_parser::{
    create_default_epub_styles, css_selector_to_style_name, declaration_from_tokens,
    extract_css_rules, parse_css_declaration_simple, parse_css_declarations,
    parse_css_declarations_with_cssparser, parse_css_to_rn_styles, parse_size_value, CssToken,
};
use epub_to_rn::decimal::Decimal;
use epub_to_rn::property::apply_css_property_to_rn_style;
use epub_to_rn::types::RnStyles;

fn dec(magnitude: u128, scale: u8) -> Decimal {
    Decimal { negative: false, magnitude, scale }
}

fn text(s: &str) -> Option<String> {
    Some(s.to_string())
}

fn as_f64(d: Decimal) -> f64 {
    let v = d.magnitude as f64 / 10f64.powi(d.scale as i32);
    if d.negative {
        -v
    } else {
        v
    }
}

#[test]
fn size_values_are_normalised() {
    assert_eq!(parse_size_value("16px"), Some(dec(16, 0)));
    assert_eq!(parse_size_value("1em"), Some(dec(16, 0)));
    assert_eq!(parse_size_value("12pt"), Some(dec(1596, 2)));
    assert_eq!(parse_size_value("2"), Some(dec(2, 0)));
    assert_eq!(parse_size_value("abc"), None);
}

#[test]
fn size_values_as_numbers() {
    assert_eq!(as_f64(parse_size_value("16px").unwrap()), 16.0);
    assert_eq!(as_f64(parse_size_value("1em").unwrap()), 16.0);
    assert_eq!(as_f64(parse_size_value("12pt").unwrap()), 15.96);
    assert_eq!(as_f64(parse_size_value("2").unwrap()), 2.0);
}

#[test]
fn size_values_with_fractions_and_signs() {
    assert_eq!(parse_size_value("1.5em"), Some(dec(24, 0)));
    assert_eq!(parse_size_value("0.5pt"), Some(dec(665, 3)));
    assert_eq!(parse_size_value("16.0px"), Some(dec(16, 0)));
    assert_eq!(parse_size_value(".5"), Some(dec(5, 1)));
    assert_eq!(parse_size_value("5."), Some(dec(5, 0)));
    assert_eq!(parse_size_value("+3px"), Some(dec(3, 0)));
    assert_eq!(
        parse_size_value("-2.50px"),
        Some(Decimal { negative: true, magnitude: 25, scale: 1 })
    );
    assert_eq!(parse_size_value("-0"), Some(dec(0, 0)));
}

#[test]
fn size_values_that_are_no_numbers() {
    assert_eq!(parse_size_value(""), None);
    assert_eq!(parse_size_value("px"), None);
    assert_eq!(parse_size_value("."), None);
    assert_eq!(parse_size_value("-"), None);
    assert_eq!(parse_size_value("1.2.3"), None);
    assert_eq!(parse_size_value("12 px"), None);
    assert_eq!(parse_size_value("50%"), None);
    assert_eq!(parse_size_value("1e3"), None);
    assert_eq!(parse_size_value("auto"), None);
}

#[test]
fn repeated_units_are_all_taken_off() {
    assert_eq!(parse_size_value("16pxpx"), Some(dec(16, 0)));
    assert_eq!(parse_size_value("2emem"), Some(dec(32, 0)));
}

#[test]
fn numerals_beyond_the_limit_are_no_numbers() {
    let ones = "1".repeat(36);
    assert_eq!(parse_size_value(&ones), Some(dec(ones.parse().unwrap(), 0)));
    let limit = format!("1{}", "0".repeat(36));
    assert_eq!(parse_size_value(&limit), Some(dec(limit.parse().unwrap(), 0)));
    let over = format!("1{}1", "0".repeat(35));
    assert_eq!(parse_size_value(&over), None);
    let too_long = "9".repeat(38);
    assert_eq!(parse_size_value(&too_long), None);
    let scaled = format!("{}pt", limit);
    assert_eq!(parse_size_value(&scaled), Some(dec(133 * 10u128.pow(34), 0)));
}

#[test]
fn selector_names_are_normalised() {
    assert_eq!(css_selector_to_style_name(".title"), "title");
    assert_eq!(css_selector_to_style_name("#main"), "main");
    assert_eq!(css_selector_to_style_name("div .note"), "div_note");
    assert_eq!(css_selector_to_style_name("  .chapter-title \n"), "chapter-title");
    assert_eq!(css_selector_to_style_name(".a.b"), "ab");
    assert_eq!(css_selector_to_style_name(".a, .b"), "a,_b");
    assert_eq!(css_selector_to_style_name(""), "");
}

#[test]
fn rules_are_split_at_depth_one() {
    let rules = extract_css_rules("h1 { color: red; } .a { b: c }");
    assert_eq!(
        rules,
        vec![
            ("h1".to_string(), "color: red;".to_string()),
            (".a".to_string(), "b: c".to_string())
        ]
    );
}

#[test]
fn braces_in_a_value_do_not_end_the_rule() {
    let rules = extract_css_rules(".a { width: calc({1}); color: red } .b { color: blue; }");
    assert_eq!(
        rules,
        vec![
            (".a".to_string(), "width: calc({1}); color: red".to_string()),
            (".b".to_string(), "color: blue;".to_string())
        ]
    );
}

#[test]
fn a_nested_block_belongs_to_its_rule() {
    let rules = extract_css_rules("@media print { h1 { color: red; } }\np { margin-top: 4px }");
    assert_eq!(
        rules,
        vec![
            ("@media print".to_string(), "h1 { color: red; }".to_string()),
            ("p".to_string(), "margin-top: 4px".to_string())
        ]
    );
}

#[test]
fn empty_selectors_and_blocks_are_dropped() {
    assert_eq!(extract_css_rules("{ color: red }"), vec![]);
    assert_eq!(extract_css_rules("p { }"), vec![]);
    assert_eq!(extract_css_rules("p"), vec![]);
    assert_eq!(extract_css_rules(""), vec![]);
    assert_eq!(extract_css_rules("p { color: red"), vec![]);
}

#[test]
fn a_stray_closing_brace_stops_all_later_rules() {
    assert_eq!(extract_css_rules("} p { color: red }"), vec![]);
}

#[test]
fn declaration_block_round_trip() {
    let style =
        parse_css_declarations_with_cssparser("font-size: 18px; color: #ff0000; font-weight: bold;")
            .unwrap();
    let expected = RnStyles {
        font_size: Some(dec(18, 0)),
        color: text("#ff0000"),
        font_weight: text("bold"),
        ..Default::default()
    };
    assert_eq!(style, expected);
}

#[test]
fn declaration_is_split_into_property_and_value() {
    assert_eq!(
        parse_css_declaration_simple("color: red"),
        Some(("color".to_string(), "red".to_string()))
    );
    assert_eq!(
        parse_css_declaration_simple("font-family: \"Times New Roman\", serif"),
        Some(("font-family".to_string(), "\"Times New Roman\" serif".to_string()))
    );
    assert_eq!(
        parse_css_declaration_simple("font-family: 'Gill Sans'"),
        Some(("font-family".to_string(), "\"Gill Sans\"".to_string()))
    );
    assert_eq!(
        parse_css_declaration_simple("color: rgb(255, 0, 0)"),
        Some(("color".to_string(), "rgb(...)".to_string()))
    );
    assert_eq!(
        parse_css_declaration_simple("color: #000000"),
        Some(("color".to_string(), "#000000".to_string()))
    );
    assert_eq!(
        parse_css_declaration_simple("margin: 1.50em 2px 0"),
        Some(("margin".to_string(), "1.5em 2px 0".to_string()))
    );
    assert_eq!(
        parse_css_declaration_simple("width: 50%"),
        Some(("width".to_string(), "50%".to_string()))
    );
    assert_eq!(
        parse_css_declaration_simple("  line-height :1.5  "),
        Some(("line-height".to_string(), "1.5".to_string()))
    );
}

#[test]
fn what_is_no_declaration() {
    assert_eq!(parse_css_declaration_simple("color red"), None);
    assert_eq!(parse_css_declaration_simple("color:"), None);
    assert_eq!(parse_css_declaration_simple(": red"), None);
    assert_eq!(parse_css_declaration_simple("a b: red"), None);
    assert_eq!(parse_css_declaration_simple("12: red"), None);
    assert_eq!(parse_css_declaration_simple("color: a:b"), None);
    assert_eq!(parse_css_declaration_simple("color: ,"), None);
    assert_eq!(parse_css_declaration_simple(""), None);
}

#[test]
fn declaration_from_given_tokens() {
    let name = vec![CssToken::Ident("margin".to_string())];
    let value = vec![
        CssToken::Dimension("1.5".to_string(), "em".to_string()),
        CssToken::Other,
        CssToken::Number("0".to_string()),
        CssToken::Percentage("50%".to_string()),
        CssToken::Quoted("a b".to_string()),
        CssToken::Hash("fff".to_string()),
        CssToken::Function("calc".to_string()),
        CssToken::Ident("auto".to_string()),
    ];
    assert_eq!(
        declaration_from_tokens(&name, &value),
        Some(("margin".to_string(), "1.5em 0 50% \"a b\" #fff calc(...) auto".to_string()))
    );
    assert_eq!(declaration_from_tokens(&name, &vec![CssToken::Other]), None);
    assert_eq!(declaration_from_tokens(&name, &vec![]), None);
    assert_eq!(declaration_from_tokens(&vec![], &value), None);
    assert_eq!(
        declaration_from_tokens(&vec![CssToken::Number("1".to_string())], &value),
        None
    );
    let two = vec![CssToken::Ident("a".to_string()), CssToken::Ident("b".to_string())];
    assert_eq!(declaration_from_tokens(&two, &value), None);
}

#[test]
fn unknown_and_malformed_declarations_have_no_effect() {
    let style = parse_css_declarations("float: left; nonsense; color: blue; : x; ;;");
    assert_eq!(style, RnStyles { color: text("blue"), ..Default::default() });
    assert_eq!(parse_css_declarations(""), RnStyles::default());
    assert_eq!(parse_css_declarations("   "), RnStyles::default());
}

#[test]
fn a_later_declaration_wins() {
    let style = parse_css_declarations("color: red; color: blue");
    assert_eq!(style, RnStyles { color: text("blue"), ..Default::default() });
    let style = parse_css_declarations("margin-top: 4px; margin-top: wide");
    assert_eq!(style, RnStyles::default());
}

#[test]
fn property_names_count_without_case() {
    let style = parse_css_declarations("COLOR: red; Font-Size: 2em");
    assert_eq!(
        style,
        RnStyles { color: text("red"), font_size: Some(dec(32, 0)), ..Default::default() }
    );
}

#[test]
fn properties_reach_their_fields() {
    let mut style = RnStyles::default();
    apply_css_property_to_rn_style(&mut style, "font-family", "\"Georgia\"");
    apply_css_property_to_rn_style(&mut style, "text-decoration", "underline dotted");
    apply_css_property_to_rn_style(&mut style, "opacity", "0.5");
    apply_css_property_to_rn_style(&mut style, "z-index", "-3");
    apply_css_property_to_rn_style(&mut style, "flex", "1");
    apply_css_property_to_rn_style(&mut style, "border-left-width", "2px");
    apply_css_property_to_rn_style(&mut style, "overflow", "hidden");
    apply_css_property_to_rn_style(&mut style, "line-height", "1.5");
    let expected = RnStyles {
        font_family: text("Georgia"),
        text_decoration_line: text("underline"),
        opacity: Some(dec(5, 1)),
        z_index: Some(-3),
        flex: Some(dec(1, 0)),
        border_left_width: Some(dec(2, 0)),
        overflow: text("hidden"),
        line_height: Some(dec(15, 1)),
        ..Default::default()
    };
    assert_eq!(style, expected);
}

#[test]
fn decoration_lines_in_their_order() {
    let mut style = RnStyles::default();
    apply_css_property_to_rn_style(&mut style, "text-decoration-line", "line-through");
    assert_eq!(style.text_decoration_line, text("line-through"));
    apply_css_property_to_rn_style(&mut style, "text-decoration", "none");
    assert_eq!(style.text_decoration_line, text("none"));
    apply_css_property_to_rn_style(&mut style, "text-decoration", "line-through underline");
    assert_eq!(style.text_decoration_line, text("underline"));
    apply_css_property_to_rn_style(&mut style, "text-decoration", "overline");
    assert_eq!(style.text_decoration_line, text("underline"));
}

#[test]
fn numbers_that_cannot_be_read_clear_the_field() {
    let mut style = RnStyles { z_index: Some(1), width: Some(dec(3, 0)), ..Default::default() };
    apply_css_property_to_rn_style(&mut style, "z-index", "2147483648");
    apply_css_property_to_rn_style(&mut style, "width", "auto");
    assert_eq!(style, RnStyles::default());
    apply_css_property_to_rn_style(&mut style, "z-index", "-2147483648");
    assert_eq!(style.z_index, Some(i32::MIN));
    apply_css_property_to_rn_style(&mut style, "z-index", "+2147483647");
    assert_eq!(style.z_index, Some(i32::MAX));
    apply_css_property_to_rn_style(&mut style, "z-index", "1.0");
    assert_eq!(style.z_index, None);
}

#[test]
fn built_in_styles() {
    let styles = create_default_epub_styles();
    assert_eq!(styles.len(), 9);
    let keys: Vec<&str> = (0..styles.len()).map(|i| styles.key_at(i).as_str()).collect();
    assert_eq!(keys, vec!["body", "h1", "h2", "h3", "p", "em", "strong", "blockquote", "center"]);
    let body = RnStyles {
        font_size: Some(dec(16, 0)),
        font_family: text("serif"),
        color: text("#000000"),
        line_height: Some(dec(15, 1)),
        padding_left: Some(dec(16, 0)),
        padding_right: Some(dec(16, 0)),
        padding_top: Some(dec(16, 0)),
        padding_bottom: Some(dec(16, 0)),
        ..Default::default()
    };
    assert_eq!(styles.get("body"), Some(&body));
    let h1 = RnStyles {
        font_size: Some(dec(28, 0)),
        font_weight: text("bold"),
        margin_top: Some(dec(24, 0)),
        margin_bottom: Some(dec(16, 0)),
        ..Default::default()
    };
    assert_eq!(styles.get("h1"), Some(&h1));
    let quote = RnStyles {
        margin_left: Some(dec(24, 0)),
        margin_right: Some(dec(24, 0)),
        margin_top: Some(dec(16, 0)),
        margin_bottom: Some(dec(16, 0)),
        padding_left: Some(dec(16, 0)),
        border_left_width: Some(dec(3, 0)),
        border_left_color: text("#cccccc"),
        font_style: text("italic"),
        ..Default::default()
    };
    assert_eq!(styles.get("blockquote"), Some(&quote));
    assert_eq!(styles.get("h4"), None);
}

#[test]
fn rules_overwrite_built_in_styles_and_each_other() {
    let styles = parse_css_to_rn_styles("h1{color:red;} .note{font-style:italic;} .note{color:blue}");
    assert_eq!(styles.len(), 10);
    assert_eq!(styles.get("h1"), Some(&RnStyles { color: text("red"), ..Default::default() }));
    assert_eq!(styles.get("note"), Some(&RnStyles { color: text("blue"), ..Default::default() }));
    assert_eq!(styles.key_at(1), "h1");
    assert_eq!(styles.key_at(9), "note");
    assert_eq!(
        styles.get("em"),
        Some(&RnStyles { font_style: text("italic"), ..Default::default() })
    );
}
