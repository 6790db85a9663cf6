use epub_to_rn::css_parser::{create_default_epub_styles, StyleSheet};
use epub_to_rn::epub_extractor::{
    add_image, add_style_sheet, chapter_content, data_uri_of, extract_chapter, extract_chapters,
    extract_epub_data, extract_resource_content, extract_styles_and_images, find_chapter_markup,
    image_data_uri, is_chapter_type, processed_info, resource_kind, text_from_bytes, text_type,
    ChapterContent, Resource, ResourceData, ResourceKind,
};
use epub_to_rn::html_parser::ImageMap;
use epub_to_rn::text_map::TextMap;
use epub_to_rn::types::{EpubMetadata, EpubStructure, RnNode, RnStyles, SpineItemInfo, TocItem};

fn spine_item(idref: &str) -> SpineItemInfo {
    SpineItemInfo { idref: idref.to_string(), id: None, properties: None, linear: true }
}

#[test]
fn resources_by_media_type() {
    assert_eq!(resource_kind("text/css"), ResourceKind::StyleSheet);
    assert_eq!(resource_kind("image/png"), ResourceKind::Image);
    assert_eq!(resource_kind("image/"), ResourceKind::Image);
    assert_eq!(resource_kind("image"), ResourceKind::Other);
    assert_eq!(resource_kind("text/CSS"), ResourceKind::Other);
    assert_eq!(resource_kind("application/xhtml+xml"), ResourceKind::Other);
    assert_eq!(resource_kind(""), ResourceKind::Other);
    assert!(is_chapter_type("application/xhtml+xml"));
    assert!(!is_chapter_type("text/html"));
}

#[test]
fn data_uris() {
    assert_eq!(
        image_data_uri("image/png", b"hello"),
        Some("data:image/png;base64,aGVsbG8=".to_string())
    );
    assert_eq!(image_data_uri("image/gif", b""), Some("data:image/gif;base64,".to_string()));
    assert_eq!(image_data_uri("", &[0xff, 0xfe, 0xfd]), Some("data:;base64,//79".to_string()));
    assert_eq!(image_data_uri("x", b"f"), Some("data:x;base64,Zg==".to_string()));
    assert_eq!(image_data_uri("x", b"fo"), Some("data:x;base64,Zm8=".to_string()));
    assert_eq!(image_data_uri("x", b"foo"), Some("data:x;base64,Zm9v".to_string()));
    assert_eq!(image_data_uri("x", b"foob"), Some("data:x;base64,Zm9vYg==".to_string()));
    assert_eq!(image_data_uri("x", &[0xfb, 0xff]), Some("data:x;base64,+/8=".to_string()));
    assert_eq!(data_uri_of("a/b", "QQ=="), "data:a/b;base64,QQ==");
}

#[test]
fn images_are_entered_under_their_names() {
    let mut images: ImageMap = TextMap::new();
    add_image(&mut images, "cover", "image/jpeg", b"ab");
    add_image(&mut images, "logo", "image/png", b"c");
    add_image(&mut images, "cover", "image/jpeg", b"d");
    assert_eq!(images.len(), 2);
    assert_eq!(images.get("cover"), Some(&"data:image/jpeg;base64,ZA==".to_string()));
    assert_eq!(images.get("logo"), Some(&"data:image/png;base64,Yw==".to_string()));
}

#[test]
fn style_sheets_are_read_over_each_other() {
    let mut styles: StyleSheet = TextMap::new();
    add_style_sheet(&mut styles, "");
    assert_eq!(styles.len(), 0);
    add_style_sheet(&mut styles, ".a { color: red } h1 { color: blue }");
    assert_eq!(styles.len(), 10);
    assert_eq!(
        styles.get("h1"),
        Some(&RnStyles { color: Some("blue".to_string()), ..Default::default() })
    );
    add_style_sheet(&mut styles, ".b { color: green }");
    assert_eq!(styles.len(), 11);
    assert_eq!(styles.get("h1"), create_default_epub_styles().get("h1"));
    assert_eq!(
        styles.get("a"),
        Some(&RnStyles { color: Some("red".to_string()), ..Default::default() })
    );
    assert_eq!(styles.key_at(9), "a");
    assert_eq!(styles.key_at(10), "b");
}

fn resource(id: &str, mime_type: &str, data: Option<&[u8]>) -> Resource {
    Resource { id: id.to_string(), mime_type: mime_type.to_string(), data: data.map(|d| d.to_vec()) }
}

fn sample_resources() -> Vec<Resource> {
    vec![
        resource("css1", "text/css", Some(b".a { color: red } h1 { color: blue }")),
        resource("cover", "image/jpeg", Some(b"ab")),
        resource("c1", "application/xhtml+xml", Some(b"<html><head><title>One</title></head><body><p class=\"a\">x</p></body></html>")),
        resource("css2", "text/css", Some(b".b { color: green }")),
        resource("bad-css", "text/css", Some(&[0xff, 0xfe])),
        resource("lost-css", "text/css", None),
        resource("empty-css", "text/css", Some(b"")),
        resource("lost-image", "image/png", None),
        resource("c2", "application/xhtml+xml", Some(b"<body><h1>Two</h1></body>")),
        resource("c3", "application/xhtml+xml", None),
        resource("c4", "application/xhtml+xml", Some(&[0xc3, 0x28])),
        resource("ncx", "application/x-dtbncx+xml", Some(b"<ncx/>")),
        resource("c1", "application/xhtml+xml", Some(b"<body>shadowed</body>")),
    ]
}

#[test]
fn texts_from_bytes() {
    assert_eq!(text_from_bytes(&Some("h\u{e9}llo".as_bytes().to_vec())), Some("h\u{e9}llo".to_string()));
    assert_eq!(text_from_bytes(&Some(vec![])), Some(String::new()));
    assert_eq!(text_from_bytes(&Some(vec![0xff])), None);
    assert_eq!(text_from_bytes(&None), None);
}

#[test]
fn styles_and_images_of_the_resources() {
    let (styles, images) = extract_styles_and_images(&sample_resources());
    assert_eq!(styles.len(), 11);
    assert_eq!(styles.key_at(9), "a");
    assert_eq!(styles.key_at(10), "b");
    assert_eq!(
        styles.get("a"),
        Some(&RnStyles { color: Some("red".to_string()), ..Default::default() })
    );
    assert_eq!(styles.get("h1"), create_default_epub_styles().get("h1"));
    assert_eq!(images.len(), 1);
    assert_eq!(images.get("cover"), Some(&"data:image/jpeg;base64,YWI=".to_string()));
    let (styles, images) = extract_styles_and_images(&vec![]);
    assert_eq!(styles.len(), 0);
    assert_eq!(images.len(), 0);
}

#[test]
fn chapter_markup_by_resource_name() {
    let resources = sample_resources();
    assert_eq!(find_chapter_markup(&resources, "c2"), Some("<body><h1>Two</h1></body>".to_string()));
    assert!(find_chapter_markup(&resources, "c1").unwrap().contains("One"));
    assert_eq!(find_chapter_markup(&resources, "c3"), None);
    assert_eq!(find_chapter_markup(&resources, "c4"), None);
    assert_eq!(find_chapter_markup(&resources, "cover"), None);
    assert_eq!(find_chapter_markup(&resources, "ncx"), None);
    assert_eq!(find_chapter_markup(&resources, "nowhere"), None);
}

#[test]
fn chapters_of_the_spine() {
    let spine = vec![
        spine_item("cover"),
        spine_item("c2"),
        spine_item("gone"),
        spine_item("c3"),
        spine_item("c1"),
        spine_item("c2"),
    ];
    let resources = sample_resources();
    let (styles, images) = extract_styles_and_images(&resources);
    let chapters = extract_chapters(&spine, &resources, &styles, &images);
    let found: Vec<(usize, &str, Option<&str>)> =
        chapters.iter().map(|c| (c.spine_index, c.idref.as_str(), c.title.as_deref())).collect();
    assert_eq!(found, vec![(1, "c2", Some("Two")), (4, "c1", Some("One")), (5, "c2", Some("Two"))]);
    let red = RnStyles {
        color: Some("red".to_string()),
        margin_top: Some(epub_to_rn::decimal::Decimal::whole(8)),
        margin_bottom: Some(epub_to_rn::decimal::Decimal::whole(8)),
        ..Default::default()
    };
    assert_eq!(
        chapters[1].content,
        RnNode::View {
            children: vec![RnNode::View {
                children: vec![RnNode::Text { content: "x".to_string(), styles: None }],
                styles: Some(red)
            }],
            styles: None
        }
    );
    assert_eq!(extract_chapters(&vec![], &resources, &styles, &images), vec![]);
}

#[test]
fn one_chapter() {
    let styles = create_default_epub_styles();
    let images: ImageMap = TextMap::new();
    let chapter = extract_chapter(
        3,
        "c1",
        "<html><head><title>One</title></head><body>text</body></html>",
        &styles,
        &images,
    );
    assert_eq!(chapter.spine_index, 3);
    assert_eq!(chapter.idref, "c1");
    assert_eq!(chapter.title, Some("One".to_string()));
    assert_eq!(
        chapter.content,
        RnNode::View {
            children: vec![RnNode::Text { content: "text".to_string(), styles: None }],
            styles: None
        }
    );
}

#[test]
fn a_book_from_its_parts() {
    let metadata = EpubMetadata {
        title: Some("T".to_string()),
        author: None,
        language: None,
        publisher: None,
        description: None,
        date: None,
        identifier: None,
        rights: None,
        subject: None,
    };
    let toc = vec![TocItem { label: "a".to_string(), content_path: "a.xhtml".to_string() }];
    let spine = vec![spine_item("c1"), spine_item("c2")];
    let resources = sample_resources();
    let book = extract_epub_data(metadata.clone(), toc.clone(), spine.clone(), &resources);
    assert_eq!(book.structure, EpubStructure { spine_count: 2, resource_count: 13, toc_count: 1 });
    assert_eq!(book.metadata, metadata);
    assert_eq!(book.toc, toc);
    assert_eq!(book.spine, spine);
    assert_eq!(book.styles.len(), 11);
    assert_eq!(book.images.len(), 1);
    assert_eq!(book.chapters.len(), 2);
    assert_eq!(book.chapters[0].title, Some("One".to_string()));
    assert_eq!(book.chapters[1].spine_index, 1);
    let empty = extract_epub_data(metadata, vec![], vec![], &vec![]);
    assert_eq!(empty.structure, EpubStructure { spine_count: 0, resource_count: 0, toc_count: 0 });
    assert_eq!(empty.chapters.len(), 0);
}

#[test]
fn processed_text() {
    let info = processed_info("abc");
    assert_eq!(info.title, Some("Processed".to_string()));
    assert_eq!(info.author, Some("System".to_string()));
    assert_eq!(info.content, "Processed: abc");
}

#[test]
fn text_types() {
    assert!(text_type("text/css"));
    assert!(text_type("text/"));
    assert!(text_type("application/xhtml+xml"));
    assert!(text_type("application/x-dtbncx+xml"));
    assert!(!text_type("image/png"));
    assert!(!text_type("text"));
    assert!(!text_type(""));
}

#[test]
fn resource_contents() {
    assert_eq!(
        extract_resource_content("text/css", Some("p { }".as_bytes().to_vec())),
        ResourceData::Text { data: "p { }".to_string() }
    );
    assert_eq!(
        extract_resource_content("application/xhtml+xml", Some("h\u{e9}".as_bytes().to_vec())),
        ResourceData::Text { data: "h\u{e9}".to_string() }
    );
    assert_eq!(
        extract_resource_content("text/plain", Some(vec![0xff, 0x00])),
        ResourceData::Error { message: "텍스트 디코딩 실패".to_string() }
    );
    assert_eq!(
        extract_resource_content("image/png", Some(vec![0xff, 0x00])),
        ResourceData::Binary { data: "/wA=".to_string() }
    );
    assert_eq!(
        extract_resource_content("image/png", None),
        ResourceData::Error { message: "리소스를 읽을 수 없음".to_string() }
    );
    assert_eq!(
        extract_resource_content("text/css", None),
        ResourceData::Error { message: "리소스를 읽을 수 없음".to_string() }
    );
}

#[test]
fn chapter_contents() {
    let chapter = |mime: &str, text: Option<&str>| {
        chapter_content(
            2,
            "c".to_string(),
            "c.xhtml".to_string(),
            mime.to_string(),
            text.map(|t| t.to_string()),
        )
    };
    let base = ChapterContent {
        spine_index: 2,
        idref: "c".to_string(),
        path: "c.xhtml".to_string(),
        mime_type: "application/xhtml+xml".to_string(),
        content: None,
        error: None,
    };
    assert_eq!(
        chapter("application/xhtml+xml", Some("<p/>")),
        ChapterContent { content: Some("<p/>".to_string()), ..base.clone() }
    );
    assert_eq!(
        chapter("application/xhtml+xml", None),
        ChapterContent { error: Some("리소스를 찾을 수 없음".to_string()), ..base.clone() }
    );
    assert_eq!(
        chapter("image/png", Some("<p/>")),
        ChapterContent {
            mime_type: "image/png".to_string(),
            error: Some("XHTML이 아닌 파일: image/png".to_string()),
            ..base.clone()
        }
    );
}
