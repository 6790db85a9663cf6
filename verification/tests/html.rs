use epub_to_rn::css_parser::{parse_css_to_rn_styles, StyleSheet};
use epub_to_rn::decimal::Decimal;
use epub_to_rn::html_parser::{
    apply_text_style_to_children, convert_document, convert_element_to_rn_node,
    extract_class_styles, extract_inline_styles, extract_title, extract_title_from_html,
    get_default_class_style, kind_of_tag, parse_html_to_rn_nodes, resolve_image_source, ImageMap,
    TagKind,
};
use epub_to_rn::markup::{markup_tree, parse_markup_tree, MarkupItem, MarkupNode};
use epub_to_rn::text_map::TextMap;
use epub_to_rn::types::{RnNode, RnStyles};

fn whole(n: u128) -> Option<Decimal> {
    Some(Decimal { negative: false, magnitude: n, scale: 0 })
}

fn word(s: &str) -> Option<String> {
    Some(s.to_string())
}

fn el(tag: &str, attrs: &[(&str, &str)], children: Vec<MarkupNode>) -> MarkupNode {
    MarkupNode::Element {
        tag: tag.to_string(),
        attrs: attrs.iter().map(|(k, v)| (k.to_string(), v.to_string())).collect(),
        children,
    }
}

fn txt(s: &str) -> MarkupNode {
    MarkupNode::Text(s.to_string())
}

fn leaf(s: &str, styles: Option<RnStyles>) -> RnNode {
    RnNode::Text { content: s.to_string(), styles }
}

fn view(children: Vec<RnNode>, styles: Option<RnStyles>) -> RnNode {
    RnNode::View { children, styles }
}

fn bold() -> RnStyles {
    RnStyles { font_weight: word("bold"), ..Default::default() }
}

fn italic() -> RnStyles {
    RnStyles { font_style: word("italic"), ..Default::default() }
}

fn no_styles() -> StyleSheet {
    TextMap::new()
}

fn no_images() -> ImageMap {
    TextMap::new()
}

fn convert(node: &MarkupNode) -> RnNode {
    convert_element_to_rn_node(node, &no_styles(), &no_images())
}

#[test]
fn bold_text_collapses_to_a_leaf() {
    let node = convert(&el("b", &[], vec![txt("hi")]));
    assert_eq!(node, leaf("hi", Some(bold())));
    let node = convert(&el("strong", &[], vec![txt(" hi\n")]));
    assert_eq!(node, leaf("hi", Some(bold())));
}

#[test]
fn nested_inline_styles_compose() {
    let node = convert(&el("b", &[], vec![el("i", &[], vec![txt("hi")])]));
    let both = RnStyles { font_weight: word("bold"), font_style: word("italic"), ..Default::default() };
    assert_eq!(node, leaf("hi", Some(both)));
}

#[test]
fn the_leaf_keeps_its_own_value_of_a_field() {
    let node = convert(&el("big", &[], vec![el("small", &[], vec![txt("x")])]));
    assert_eq!(node, leaf("x", Some(RnStyles { font_size: whole(12), ..Default::default() })));
}

#[test]
fn bold_with_several_children_hands_its_style_down() {
    let node = convert(&el(
        "b",
        &[("style", "margin-top: 2px")],
        vec![txt("a"), el("div", &[], vec![txt("b"), el("img", &[("src", "x.png")], vec![])])],
    ));
    let style = RnStyles { font_weight: word("bold"), margin_top: whole(2), ..Default::default() };
    let expected = view(
        vec![
            leaf("a", Some(style.clone())),
            view(
                vec![
                    leaf("b", Some(style.clone())),
                    RnNode::Image { source: "x.png".to_string(), alt: None, styles: None },
                ],
                None,
            ),
        ],
        Some(RnStyles { margin_top: whole(2), ..Default::default() }),
    );
    assert_eq!(node, expected);
}

#[test]
fn emphasis_without_children() {
    assert_eq!(convert(&el("em", &[], vec![])), view(vec![], None));
    assert_eq!(
        convert(&el("u", &[], vec![])),
        view(vec![], Some(RnStyles { text_decoration_line: word("underline"), ..Default::default() }))
    );
}

#[test]
fn simple_inline_tags() {
    let cases: Vec<(&str, RnStyles)> = vec![
        ("u", RnStyles { text_decoration_line: word("underline"), ..Default::default() }),
        ("cite", italic()),
        ("code", RnStyles { font_size: whole(14), font_family: word("monospace"), ..Default::default() }),
        ("tt", RnStyles { font_size: whole(14), font_family: word("monospace"), ..Default::default() }),
        ("sup", RnStyles { font_size: whole(12), ..Default::default() }),
        ("sub", RnStyles { font_size: whole(12), ..Default::default() }),
        ("small", RnStyles { font_size: whole(12), ..Default::default() }),
        ("big", RnStyles { font_size: whole(20), ..Default::default() }),
        ("i", italic()),
        ("em", italic()),
    ];
    for (tag, style) in cases {
        assert_eq!(convert(&el(tag, &[], vec![txt("x")])), leaf("x", Some(style.clone())));
    }
    let two = convert(&el("code", &[], vec![txt("x"), txt("y")]));
    let code = RnStyles { font_size: whole(14), font_family: word("monospace"), ..Default::default() };
    assert_eq!(two, view(vec![leaf("x", None), leaf("y", None)], Some(code)));
}

#[test]
fn block_tags() {
    let margins = RnStyles { margin_top: whole(8), margin_bottom: whole(8), ..Default::default() };
    assert_eq!(convert(&el("p", &[], vec![txt("x")])), view(vec![leaf("x", None)], Some(margins)));
    let own = convert(&el("p", &[("style", "margin-top: 1px")], vec![]));
    assert_eq!(
        own,
        view(vec![], Some(RnStyles { margin_top: whole(1), margin_bottom: whole(8), ..Default::default() }))
    );
    for tag in ["div", "section", "article", "header", "footer", "span", "table"] {
        assert_eq!(convert(&el(tag, &[], vec![txt("x")])), view(vec![leaf("x", None)], None));
    }
    let quote = RnStyles {
        font_style: word("italic"),
        margin_top: whole(8),
        margin_bottom: whole(8),
        margin_left: whole(16),
        margin_right: whole(16),
        ..Default::default()
    };
    assert_eq!(convert(&el("blockquote", &[], vec![])), view(vec![], Some(quote)));
    let pre = RnStyles {
        font_size: whole(14),
        font_family: word("monospace"),
        margin_top: whole(8),
        margin_bottom: whole(8),
        ..Default::default()
    };
    assert_eq!(convert(&el("pre", &[], vec![])), view(vec![], Some(pre)));
    let center = RnStyles { text_align: word("center"), ..Default::default() };
    assert_eq!(convert(&el("center", &[], vec![])), view(vec![], Some(center)));
}

#[test]
fn headings_by_level() {
    let sizes = [("h1", 24), ("h2", 20), ("h3", 18), ("h4", 16), ("h5", 14), ("h6", 12)];
    for (tag, size) in sizes {
        let node = convert(&el(tag, &[("style", "text-align: center; color: red")], vec![txt("T")]));
        let text = RnStyles {
            font_size: whole(size),
            font_weight: word("bold"),
            color: word("red"),
            text_align: word("center"),
            ..Default::default()
        };
        let layout = RnStyles { text_align: word("center"), ..Default::default() };
        assert_eq!(node, view(vec![leaf("T", Some(text))], Some(layout)));
    }
    let plain = convert(&el("h2", &[], vec![]));
    assert_eq!(plain, view(vec![], None));
}

#[test]
fn tags_and_their_kinds() {
    assert_eq!(kind_of_tag("p"), TagKind::Paragraph);
    assert_eq!(kind_of_tag("h3"), TagKind::Heading(3));
    assert_eq!(kind_of_tag("h7"), TagKind::Plain);
    assert_eq!(kind_of_tag("img"), TagKind::Image);
    assert_eq!(kind_of_tag("B"), TagKind::Plain);
    assert_eq!(kind_of_tag(""), TagKind::Plain);
}

#[test]
fn blank_text_is_dropped_and_order_is_kept() {
    let node = convert(&el("div", &[], vec![txt("  "), txt(" a "), el("p", &[], vec![]), txt("\n"), txt("b")]));
    let margins = RnStyles { margin_top: whole(8), margin_bottom: whole(8), ..Default::default() };
    assert_eq!(node, view(vec![leaf("a", None), view(vec![], Some(margins)), leaf("b", None)], None));
}

#[test]
fn a_text_node_alone() {
    assert_eq!(convert(&txt("  x ")), leaf("x", None));
}

fn cover_images() -> ImageMap {
    let mut images: ImageMap = TextMap::new();
    images.insert("images/cover.jpg".to_string(), "data:image/jpeg;base64,AAAA".to_string());
    images.insert("logo.png".to_string(), "data:image/png;base64,BBBB".to_string());
    images
}

#[test]
fn image_sources_fall_back() {
    let images = cover_images();
    assert_eq!(resolve_image_source("images/cover.jpg", &images), "data:image/jpeg;base64,AAAA");
    assert_eq!(resolve_image_source("../img/logo.png", &images), "data:image/png;base64,BBBB");
    assert_eq!(resolve_image_source("missing.png", &images), "missing.png");
    assert_eq!(resolve_image_source("", &images), "");
    assert_eq!(resolve_image_source("a/", &images), "a/");
}

#[test]
fn image_by_file_name() {
    let mut images: ImageMap = TextMap::new();
    images.insert("cover.jpg".to_string(), "data:x".to_string());
    assert_eq!(resolve_image_source("../images/cover.jpg", &images), "data:x");
}

#[test]
fn image_elements() {
    let images = cover_images();
    let node = convert_element_to_rn_node(
        &el("img", &[("alt", "Cover"), ("src", "images/cover.jpg"), ("style", "width: 10px")], vec![]),
        &no_styles(),
        &images,
    );
    assert_eq!(
        node,
        RnNode::Image {
            source: "data:image/jpeg;base64,AAAA".to_string(),
            alt: word("Cover"),
            styles: Some(RnStyles { width: whole(10), ..Default::default() }),
        }
    );
    let missing = convert_element_to_rn_node(&el("img", &[("src", "missing.png")], vec![]), &no_styles(), &images);
    assert_eq!(missing, RnNode::Image { source: "missing.png".to_string(), alt: None, styles: None });
    let no_src = convert_element_to_rn_node(&el("img", &[("alt", "x")], vec![]), &no_styles(), &images);
    assert_eq!(no_src, view(vec![], None));
}

#[test]
fn document_without_body() {
    let doc = vec![el("html", &[], vec![txt("hello")])];
    let node = convert_document(&doc, &no_styles(), &no_images());
    assert_eq!(node, view(vec![view(vec![leaf("hello", None)], None)], None));
}

#[test]
fn document_with_body() {
    let doc = vec![el("html", &[], vec![el("head", &[], vec![]), el("body", &[], vec![txt("x")])])];
    assert_eq!(convert_document(&doc, &no_styles(), &no_images()), view(vec![leaf("x", None)], None));
}

#[test]
fn document_without_anything() {
    assert_eq!(convert_document(&vec![], &no_styles(), &no_images()), leaf("no content", None));
    let doc = vec![el("div", &[], vec![txt("x")]), txt("y")];
    assert_eq!(convert_document(&doc, &no_styles(), &no_images()), leaf("no content", None));
}

#[test]
fn only_top_level_html_elements_are_roots() {
    let doc = vec![
        el("html", &[], vec![txt("a"), el("html", &[], vec![txt("inner")])]),
        el("html", &[], vec![txt("b")]),
    ];
    let node = convert_document(&doc, &no_styles(), &no_images());
    assert_eq!(
        node,
        view(
            vec![
                view(vec![leaf("a", None), view(vec![leaf("inner", None)], None)], None),
                view(vec![leaf("b", None)], None)
            ],
            None
        )
    );
}

#[test]
fn class_styles_by_exact_key_first() {
    let styles = parse_css_to_rn_styles(".note { color: red } .box_note { color: blue }");
    let attrs = vec![("class".to_string(), "q note".to_string())];
    assert_eq!(
        extract_class_styles(&attrs, &styles),
        Some(RnStyles { color: word("red"), ..Default::default() })
    );
}

#[test]
fn a_compound_key_matches_any_name_it_holds() {
    let styles = parse_css_to_rn_styles(".note { color: red } .box_note { color: blue }");
    let attrs = vec![("class".to_string(), "x note".to_string())];
    assert_eq!(
        extract_class_styles(&attrs, &styles),
        Some(RnStyles { color: word("blue"), ..Default::default() })
    );
}

#[test]
fn class_styles_by_compound_key() {
    let styles = parse_css_to_rn_styles(".toc .toc-title { color: red } .a, .b { color: blue }");
    let attrs = vec![("class".to_string(), "toc-title".to_string())];
    assert_eq!(
        extract_class_styles(&attrs, &styles),
        Some(RnStyles { color: word("red"), ..Default::default() })
    );
    let attrs = vec![("class".to_string(), "b".to_string())];
    assert_eq!(
        extract_class_styles(&attrs, &styles),
        Some(RnStyles { color: word("blue"), ..Default::default() })
    );
}

#[test]
fn class_styles_by_built_in_name() {
    let styles = no_styles();
    let attrs = vec![("class".to_string(), "unknown  subtitle emphasis".to_string())];
    assert_eq!(
        extract_class_styles(&attrs, &styles),
        Some(RnStyles { font_size: whole(18), font_style: word("italic"), ..Default::default() })
    );
    let attrs = vec![("class".to_string(), "unknown".to_string())];
    assert_eq!(extract_class_styles(&attrs, &styles), None);
    assert_eq!(extract_class_styles(&vec![], &styles), None);
    let attrs = vec![("class".to_string(), "".to_string())];
    assert_eq!(extract_class_styles(&attrs, &styles), None);
}

#[test]
fn built_in_class_names() {
    assert_eq!(get_default_class_style("emphasis"), Some(italic()));
    assert_eq!(get_default_class_style("strong"), Some(bold()));
    for side in ["center", "left", "right"] {
        assert_eq!(
            get_default_class_style(side),
            Some(RnStyles { text_align: word(side), ..Default::default() })
        );
    }
    for name in ["author", "firstname", "surname"] {
        assert_eq!(
            get_default_class_style(name),
            Some(RnStyles { font_weight: word("normal"), ..Default::default() })
        );
    }
    for name in ["book", "chapter"] {
        assert_eq!(
            get_default_class_style(name),
            Some(RnStyles { margin_top: whole(16), margin_bottom: whole(16), ..Default::default() })
        );
    }
    assert_eq!(
        get_default_class_style("dedication"),
        Some(RnStyles {
            font_style: word("italic"),
            text_align: word("center"),
            margin_top: whole(32),
            margin_bottom: whole(32),
            ..Default::default()
        })
    );
    assert_eq!(
        get_default_class_style("link"),
        Some(RnStyles { text_decoration_line: word("underline"), ..Default::default() })
    );
    for name in ["quote", "quotation"] {
        assert_eq!(
            get_default_class_style(name),
            Some(RnStyles {
                font_style: word("italic"),
                margin_left: whole(16),
                margin_right: whole(16),
                ..Default::default()
            })
        );
    }
    for name in ["note", "footnote"] {
        assert_eq!(
            get_default_class_style(name),
            Some(RnStyles {
                font_size: whole(12),
                margin_top: whole(8),
                margin_bottom: whole(8),
                ..Default::default()
            })
        );
    }
    assert_eq!(
        get_default_class_style("sidebar"),
        Some(RnStyles {
            margin_left: whole(16),
            margin_right: whole(16),
            padding_top: whole(8),
            padding_bottom: whole(8),
            padding_left: whole(8),
            padding_right: whole(8),
            ..Default::default()
        })
    );
    assert_eq!(get_default_class_style("Emphasis"), None);
    assert_eq!(get_default_class_style(""), None);
}

#[test]
fn inline_style_wins_over_class_style() {
    let styles = parse_css_to_rn_styles(".warn { color: red; margin-left: 4px }");
    let node = convert_element_to_rn_node(
        &el("div", &[("class", "warn"), ("style", "color: blue")], vec![]),
        &styles,
        &no_images(),
    );
    let expected = RnStyles { color: word("blue"), margin_left: whole(4), ..Default::default() };
    assert_eq!(node, view(vec![], Some(expected)));
}

#[test]
fn inline_styles_of_an_element() {
    let attrs = vec![("style".to_string(), "font-size: 2em".to_string())];
    assert_eq!(
        extract_inline_styles(&attrs),
        Some(RnStyles { font_size: whole(32), ..Default::default() })
    );
    let attrs = vec![("style".to_string(), "".to_string())];
    assert_eq!(extract_inline_styles(&attrs), Some(RnStyles::default()));
    assert_eq!(extract_inline_styles(&vec![]), None);
}

#[test]
fn text_style_reaches_leaves_through_containers() {
    let children = vec![
        leaf("a", None),
        leaf("b", Some(RnStyles { font_weight: word("normal"), color: word("red"), ..Default::default() })),
        view(vec![leaf("c", None)], Some(italic())),
        RnNode::ScrollView { children: vec![leaf("d", None)], styles: None },
    ];
    let out = apply_text_style_to_children(children, &bold());
    let expected = vec![
        leaf("a", Some(bold())),
        leaf("b", Some(RnStyles { font_weight: word("normal"), color: word("red"), ..Default::default() })),
        view(vec![leaf("c", Some(bold()))], Some(italic())),
        RnNode::ScrollView { children: vec![leaf("d", None)], styles: None },
    ];
    assert_eq!(out, expected);
}

#[test]
fn end_to_end() {
    let styles = parse_css_to_rn_styles("h1{color:red;} .note{font-style:italic;}");
    let html = "<body><h1 class=\"x\">Title</h1><p class=\"note\">hi</p></body>";
    let node = parse_html_to_rn_nodes(html, &styles, &no_images());
    let heading = RnStyles { font_size: whole(24), font_weight: word("bold"), ..Default::default() };
    let paragraph = RnStyles {
        font_style: word("italic"),
        margin_top: whole(8),
        margin_bottom: whole(8),
        ..Default::default()
    };
    let expected = view(
        vec![
            view(vec![leaf("Title", Some(heading))], None),
            view(vec![leaf("hi", None)], Some(paragraph)),
        ],
        None,
    );
    assert_eq!(node, expected);
}

#[test]
fn end_to_end_with_classes_that_match() {
    let styles = parse_css_to_rn_styles(".red{color:red;} .note{font-style:italic;}");
    let html = "<html><body><h1 class=\"red\">Title</h1><p><em class=\"note\">hi</em></p></body></html>";
    let node = parse_html_to_rn_nodes(html, &styles, &no_images());
    let heading = RnStyles {
        font_size: whole(24),
        font_weight: word("bold"),
        color: word("red"),
        ..Default::default()
    };
    let margins = RnStyles { margin_top: whole(8), margin_bottom: whole(8), ..Default::default() };
    let expected = view(
        vec![
            view(vec![leaf("Title", Some(heading))], None),
            view(vec![leaf("hi", Some(italic()))], Some(margins)),
        ],
        None,
    );
    assert_eq!(node, expected);
}

#[test]
fn parsed_markup_has_html_head_and_body() {
    let tree = parse_markup_tree("<p id=\"a\">x<!-- c --><b>y</b></p>");
    let expected = vec![el(
        "html",
        &[],
        vec![
            el("head", &[], vec![]),
            el("body", &[], vec![el("p", &[("id", "a")], vec![txt("x"), el("b", &[], vec![txt("y")])])]),
        ],
    )];
    assert_eq!(tree, expected);
}

#[test]
fn images_in_parsed_markup() {
    let html = "<html><body><img src=\"../images/cover.jpg\" alt=\"A\"><img src=\"missing.png\"></body></html>";
    let node = parse_html_to_rn_nodes(html, &no_styles(), &cover_images());
    let expected = view(
        vec![
            RnNode::Image { source: "../images/cover.jpg".to_string(), alt: word("A"), styles: None },
            RnNode::Image { source: "missing.png".to_string(), alt: None, styles: None },
        ],
        None,
    );
    assert_eq!(node, expected);
    let mut images: ImageMap = TextMap::new();
    images.insert("cover.jpg".to_string(), "data:x".to_string());
    let node = parse_html_to_rn_nodes(html, &no_styles(), &images);
    match node {
        RnNode::View { children, .. } => match &children[0] {
            RnNode::Image { source, .. } => assert_eq!(source, "data:x"),
            _ => panic!("no image"),
        },
        _ => panic!("no container"),
    }
}

#[test]
fn tree_from_items() {
    let items = vec![
        MarkupItem::Other { depth: 0 },
        MarkupItem::Other { depth: 1 },
        MarkupItem::Element { depth: 1, tag: "html".to_string(), attrs: vec![] },
        MarkupItem::Element { depth: 2, tag: "body".to_string(), attrs: vec![] },
        MarkupItem::Text { depth: 3, content: "a".to_string() },
        MarkupItem::Element { depth: 3, tag: "p".to_string(), attrs: vec![] },
        MarkupItem::Text { depth: 4, content: "b".to_string() },
        MarkupItem::Other { depth: 4 },
        MarkupItem::Text { depth: 3, content: "c".to_string() },
        MarkupItem::Element { depth: 2, tag: "x".to_string(), attrs: vec![] },
        MarkupItem::Text { depth: 1, content: "d".to_string() },
    ];
    let expected = vec![
        el(
            "html",
            &[],
            vec![
                el("body", &[], vec![txt("a"), el("p", &[], vec![txt("b")]), txt("c")]),
                el("x", &[], vec![]),
            ],
        ),
        txt("d"),
    ];
    assert_eq!(markup_tree(&items), expected);
    assert_eq!(markup_tree(&vec![]), vec![]);
}

#[test]
fn titles() {
    assert_eq!(
        extract_title_from_html("<html><head><title>The <b>Book</b></title></head><body><h1>Other</h1></body></html>"),
        word("The <b>Book</b>")
    );
    assert_eq!(extract_title_from_html("<body><p>x</p><h1>Chapter <i>One</i></h1></body>"), word("Chapter One"));
    assert_eq!(extract_title_from_html("<body><p>x</p></body>"), None);
    assert_eq!(extract_title_from_html(""), None);
}

#[test]
fn titles_of_given_trees() {
    let doc = vec![el(
        "html",
        &[],
        vec![el("body", &[], vec![el("h1", &[], vec![txt(" A "), el("span", &[], vec![txt("B")])]), el("title", &[], vec![txt("T")])])],
    )];
    assert_eq!(extract_title(&doc), word("T"));
    let doc = vec![el("h1", &[], vec![]), el("h1", &[], vec![txt("second")])];
    assert_eq!(extract_title(&doc), word(""));
    assert_eq!(extract_title(&vec![txt("h1")]), None);
}
