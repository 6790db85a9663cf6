use epub_to_rn::decimal::{parse_decimal, parse_integer, Decimal};
use epub_to_rn::style::{extract_layout_styles, merge_styles};
use epub_to_rn::text_map::TextMap;
use epub_to_rn::types::RnStyles;

fn whole(n: u128) -> Option<Decimal> {
    Some(Decimal { negative: false, magnitude: n, scale: 0 })
}

fn word(s: &str) -> Option<String> {
    Some(s.to_string())
}

fn sample_a() -> RnStyles {
    RnStyles {
        font_size: whole(12),
        color: word("black"),
        margin_top: whole(4),
        z_index: Some(1),
        ..Default::default()
    }
}

fn sample_b() -> RnStyles {
    RnStyles {
        font_size: whole(20),
        font_weight: word("bold"),
        margin_top: whole(0),
        ..Default::default()
    }
}

#[test]
fn merge_prefers_the_second_record_field_by_field() {
    let merged = merge_styles(Some(sample_a()), Some(sample_b()));
    let expected = RnStyles {
        font_size: whole(20),
        font_weight: word("bold"),
        color: word("black"),
        margin_top: whole(0),
        z_index: Some(1),
        ..Default::default()
    };
    assert_eq!(merged, Some(expected));
}

#[test]
fn merge_with_a_missing_record() {
    assert_eq!(merge_styles(None, None), None);
    assert_eq!(merge_styles(Some(sample_a()), None), Some(sample_a()));
    assert_eq!(merge_styles(None, Some(sample_b())), Some(sample_b()));
}

#[test]
fn merge_with_itself_changes_nothing() {
    assert_eq!(merge_styles(Some(sample_a()), Some(sample_a())), Some(sample_a()));
    assert_eq!(
        merge_styles(Some(RnStyles::default()), Some(RnStyles::default())),
        Some(RnStyles::default())
    );
}

#[test]
fn merge_is_associative_on_samples() {
    let c = RnStyles { color: word("red"), ..Default::default() };
    let left = merge_styles(merge_styles(Some(sample_a()), Some(sample_b())), Some(c.clone()));
    let right = merge_styles(Some(sample_a()), merge_styles(Some(sample_b()), Some(c)));
    assert_eq!(left, right);
}

#[test]
fn layout_styles_leave_the_text_fields_out() {
    let style = RnStyles {
        font_size: whole(12),
        font_weight: word("bold"),
        font_family: word("serif"),
        font_style: word("italic"),
        color: word("red"),
        text_decoration_line: word("underline"),
        text_transform: word("uppercase"),
        line_height: whole(2),
        text_align: word("center"),
        text_indent: whole(3),
        background_color: word("white"),
        margin_left: whole(5),
        border_radius: whole(1),
        ..Default::default()
    };
    let expected = RnStyles {
        text_align: word("center"),
        text_indent: whole(3),
        background_color: word("white"),
        margin_left: whole(5),
        border_radius: whole(1),
        ..Default::default()
    };
    assert_eq!(extract_layout_styles(&style), Some(expected));
}

#[test]
fn layout_styles_of_a_text_only_record() {
    let style = RnStyles { font_size: whole(12), color: word("red"), ..Default::default() };
    assert_eq!(extract_layout_styles(&style), None);
    assert_eq!(extract_layout_styles(&RnStyles::default()), None);
}

#[test]
fn clone_keeps_every_field() {
    let a = sample_a();
    assert_eq!(a.clone(), a);
}

#[test]
fn decimals_are_canonical() {
    assert_eq!(Decimal::new(false, 1500, 3), Decimal { negative: false, magnitude: 15, scale: 1 });
    assert_eq!(Decimal::new(true, 0, 2), Decimal { negative: false, magnitude: 0, scale: 0 });
    assert_eq!(Decimal::new(true, 70, 0), Decimal { negative: true, magnitude: 70, scale: 0 });
    assert_eq!(Decimal::whole(7), Decimal { negative: false, magnitude: 7, scale: 0 });
    assert_eq!(
        Decimal::whole(12).scaled(133, 2),
        Decimal { negative: false, magnitude: 1596, scale: 2 }
    );
}

#[test]
fn decimal_numerals() {
    let chars = |s: &str| s.chars().collect::<Vec<char>>();
    assert_eq!(
        parse_decimal(&chars("007.2500")),
        Some(Decimal { negative: false, magnitude: 725, scale: 2 })
    );
    assert_eq!(parse_decimal(&chars("1,5")), None);
    assert_eq!(parse_decimal(&chars("+")), None);
    assert_eq!(parse_decimal(&chars("--1")), None);
    let long_fraction = format!("0.{}1", "0".repeat(249));
    assert_eq!(
        parse_decimal(&chars(&long_fraction)),
        Some(Decimal { negative: false, magnitude: 1, scale: 250 })
    );
    let too_long = format!("0.{}1", "0".repeat(250));
    assert_eq!(parse_decimal(&chars(&too_long)), None);
}

#[test]
fn integer_numerals() {
    let chars = |s: &str| s.chars().collect::<Vec<char>>();
    assert_eq!(parse_integer(&chars("42")), Some(42));
    assert_eq!(parse_integer(&chars("-42")), Some(-42));
    assert_eq!(parse_integer(&chars("+0")), Some(0));
    assert_eq!(parse_integer(&chars("")), None);
    assert_eq!(parse_integer(&chars("-")), None);
    assert_eq!(parse_integer(&chars("4 2")), None);
    assert_eq!(parse_integer(&chars("99999999999999999999999999999999999999999")), None);
}

#[test]
fn text_map_keeps_first_insertion_order() {
    let mut map: TextMap<String> = TextMap::new();
    assert_eq!(map.len(), 0);
    map.insert("b".to_string(), "1".to_string());
    map.insert("a".to_string(), "2".to_string());
    map.insert("b".to_string(), "3".to_string());
    assert_eq!(map.len(), 2);
    assert_eq!(map.key_at(0), "b");
    assert_eq!(map.value_at(0), "3");
    assert_eq!(map.key_at(1), "a");
    assert_eq!(map.get("a"), Some(&"2".to_string()));
    assert_eq!(map.get("b"), Some(&"3".to_string()));
    assert_eq!(map.get("c"), None);
    assert_eq!(map.get(""), None);
}
