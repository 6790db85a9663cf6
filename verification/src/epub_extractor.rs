//! Putting a book together from the parts that a reader of the container
//! hands over: style sheets, images, and the markup of the chapters.

use crate::css_parser::{parse_css_to_rn_styles, style_sheet, SheetModel, StyleSheet};
use crate::html_parser::{
    convert_document, document_node, extract_title, title_of, ImageMap, ImagesModel,
};
use crate::markup::{forest, parse_markup_tree, parsed_markup};
use crate::text::{append_str, from_chars, has_prefix, is_word, starts_with, to_chars};
use crate::text_map::{inserted, TextMap};
use crate::types::{
    text_view, ChapterStructure, CompleteEpubInfo, EpubMetadata, EpubStructure, SimpleEpubInfo,
    SpineItemInfo, StyleModel, TocItem,
};
use base64::Engine;
use vstd::prelude::*;
use vstd::utf8::{decode_utf8, encode_utf8, encode_utf8_decode_utf8, valid_utf8};

verus! {

/// What the converter does with a resource of the book, by its media type.
#[derive(Clone, Copy, Debug, PartialEq, Eq, Structural)]
pub enum ResourceKind {
    /// A style sheet: `text/css`.
    StyleSheet,
    /// An image: any type that starts with `image/`.
    Image,
    /// Anything else.
    Other,
}

/// The kind of a resource with the media type `mime_type`.
pub open spec fn kind_of_type(mime_type: Seq<char>) -> ResourceKind {
    if mime_type == "text/css"@ {
        ResourceKind::StyleSheet
    } else if starts_with(mime_type, "image/"@) {
        ResourceKind::Image
    } else {
        ResourceKind::Other
    }
}

/// The kind of a resource with the media type `mime_type`.
pub fn resource_kind(mime_type: &str) -> (out: ResourceKind)
    ensures
        out == kind_of_type(mime_type@),
{
    let chars = to_chars(mime_type);
    if is_word(&chars, "text/css") {
        ResourceKind::StyleSheet
    } else if has_prefix(&chars, &to_chars("image/")) {
        ResourceKind::Image
    } else {
        ResourceKind::Other
    }
}

/// Whether a resource with the media type `mime_type` is the markup of a
/// chapter.
pub fn is_chapter_type(mime_type: &str) -> (out: bool)
    ensures
        out == (mime_type@ == "application/xhtml+xml"@),
{
    is_word(&to_chars(mime_type), "application/xhtml+xml")
}

/// The entries `sheet` after the entries `more` are entered in order.
pub open spec fn extended<W>(sheet: Seq<(Seq<char>, W)>, more: Seq<(Seq<char>, W)>) -> Seq<
    (Seq<char>, W),
>
    decreases more.len(),
{
    if more.len() == 0 {
        sheet
    } else {
        inserted(extended(sheet, more.drop_last()), more.last().0, more.last().1)
    }
}

/// The styles `styles` after the style sheet `css` is read into them: an
/// empty text changes nothing; any other text enters the entries of its
/// sheet, built-in styles included, over what was there.
pub open spec fn with_style_sheet(styles: SheetModel, css: Seq<char>) -> SheetModel {
    if css.len() == 0 {
        styles
    } else {
        extended(styles, style_sheet(css))
    }
}

/// Reads the style sheet `css` into `styles`.
pub fn add_style_sheet(styles: &mut StyleSheet, css: &str)
    ensures
        final(styles)@ == with_style_sheet(old(styles)@, css@),
        old(styles).wf() ==> final(styles).wf(),
{
    if css.is_empty() {
        return ;
    }
    let parsed = parse_css_to_rn_styles(css);
    let ghost more = parsed@;
    let mut i: usize = 0;
    assert(more.take(0) == Seq::<(Seq<char>, StyleModel)>::empty());
    while i < parsed.len()
        invariant
            i <= parsed@.len(),
            more == parsed@,
            css@.len() != 0,
            styles@ == extended(old(styles)@, more.take(i as int)),
            old(styles).wf() ==> styles.wf(),
        decreases parsed@.len() - i,
    {
        assert(more.take(i + 1).drop_last() == more.take(i as int));
        styles.insert(parsed.key_at(i).clone(), parsed.value_at(i).clone());
        i += 1;
    }
    assert(more.take(more.len() as int) == more);
}

/// The character that stands for the six-bit value `value` in the standard
/// base64 alphabet: `A` to `Z`, `a` to `z`, `0` to `9`, `+` and `/`.
pub open spec fn base64_char(value: int) -> char {
    if value < 26 {
        ('A' as u8 + value) as char
    } else if value < 52 {
        ('a' as u8 + (value - 26)) as char
    } else if value < 62 {
        ('0' as u8 + (value - 52)) as char
    } else if value == 62 {
        '+'
    } else {
        '/'
    }
}

/// The base64 text of the bytes `data`, in the standard alphabet and with
/// padding: every three bytes give four characters of six bits each, and
/// one or two bytes at the end are padded with `=` to four characters.
pub open spec fn base64_text(data: Seq<u8>) -> Seq<char>
    decreases data.len(),
{
    if data.len() == 0 {
        Seq::empty()
    } else if data.len() == 1 {
        let a = data[0] as int;
        seq![base64_char(a / 4), base64_char((a % 4) * 16), '=', '=']
    } else if data.len() == 2 {
        let a = data[0] as int;
        let b = data[1] as int;
        seq![
            base64_char(a / 4),
            base64_char((a % 4) * 16 + b / 16),
            base64_char((b % 16) * 4),
            '=',
        ]
    } else {
        let a = data[0] as int;
        let b = data[1] as int;
        let c = data[2] as int;
        seq![
            base64_char(a / 4),
            base64_char((a % 4) * 16 + b / 16),
            base64_char((b % 16) * 4 + c / 64),
            base64_char(c % 64),
        ] + base64_text(data.skip(3))
    }
}

/// The base64 texts of `f`, `fo`, `foo` and `foob` are `Zg==`, `Zm8=`,
/// `Zm9v` and `Zm9vYg==`, and that of the bytes `fb ff` is `+/8=`.
pub proof fn lemma_base64_examples()
    ensures
        base64_text(Seq::empty()) == Seq::<char>::empty(),
        base64_text(seq![102u8]) == seq!['Z', 'g', '=', '='],
        base64_text(seq![102u8, 111u8]) == seq!['Z', 'm', '8', '='],
        base64_text(seq![102u8, 111u8, 111u8]) == seq!['Z', 'm', '9', 'v'],
        base64_text(seq![0xfbu8, 0xffu8]) == seq!['+', '/', '8', '='],
        base64_text(seq![102u8, 111u8, 111u8, 98u8]) == seq![
            'Z',
            'm',
            '9',
            'v',
            'Y',
            'g',
            '=',
            '=',
        ],
{
    assert(base64_char(25) == 'Z');
    assert(base64_char(32) == 'g');
    assert(base64_char(38) == 'm');
    assert(base64_char(60) == '8');
    assert(base64_char(61) == '9');
    assert(base64_char(47) == 'v');
    assert(base64_char(24) == 'Y');
    assert(base64_char(62) == '+');
    assert(base64_char(63) == '/');
    assert(base64_text(seq![0xfbu8, 0xffu8]) =~= seq!['+', '/', '8', '=']);
    assert(base64_text(seq![102u8]) =~= seq!['Z', 'g', '=', '=']);
    assert(base64_text(seq![102u8, 111u8]) =~= seq!['Z', 'm', '8', '=']);
    let foo = seq![102u8, 111u8, 111u8];
    assert(foo.skip(3) =~= Seq::<u8>::empty());
    assert(base64_text(foo.skip(3)) =~= Seq::<char>::empty());
    assert(base64_text(foo) =~= seq!['Z', 'm', '9', 'v']);
    let foob = seq![102u8, 111u8, 111u8, 98u8];
    assert(foob.skip(3) =~= seq![98u8]);
    assert(base64_text(seq![98u8]) =~= seq!['Y', 'g', '=', '=']);
    assert(base64_text(foob) =~= seq!['Z', 'm', '9', 'v', 'Y', 'g', '=', '=']);
}

/// Calls `encode` of `base64::engine::general_purpose::STANDARD`, which
/// writes base64 in the standard alphabet and with padding. The length
/// bound keeps the call from its one panic, the overflow of the encoded
/// length.
#[verifier::external_body]
fn encode_base64(data: &[u8]) -> (out: String)
    requires
        data@.len() <= usize::MAX / 2,
    ensures
        out@ == base64_text(data@),
{
    base64::engine::general_purpose::STANDARD.encode(data)
}

/// The data URI of an image of the media type `mime_type` with the bytes
/// `data`.
pub open spec fn data_uri(mime_type: Seq<char>, data: Seq<u8>) -> Seq<char> {
    "data:"@ + mime_type + ";base64,"@ + base64_text(data)
}

/// The data URI of base64 text `encoded` for the media type `mime_type`.
pub fn data_uri_of(mime_type: &str, encoded: &str) -> (out: String)
    ensures
        out@ == "data:"@ + mime_type@ + ";base64,"@ + encoded@,
{
    let mut uri: Vec<char> = Vec::new();
    append_str(&mut uri, "data:");
    append_str(&mut uri, mime_type);
    append_str(&mut uri, ";base64,");
    append_str(&mut uri, encoded);
    assert(uri@ =~= "data:"@ + mime_type@ + ";base64,"@ + encoded@);
    from_chars(&uri)
}

/// Whether bytes of this number can be written in base64: the length of
/// the result must not overflow.
pub open spec fn can_encode(len: nat) -> bool {
    len <= usize::MAX / 2
}

/// The data URI of an image of the media type `mime_type` with the bytes
/// `data`; none where the bytes are too many to be written in base64.
pub fn image_data_uri(mime_type: &str, data: &[u8]) -> (out: Option<String>)
    ensures
        text_view(out) == if can_encode(data@.len()) {
            Some(data_uri(mime_type@, data@))
        } else {
            None
        },
{
    if data.len() > usize::MAX / 2 {
        return None;
    }
    let encoded = encode_base64(data);
    Some(data_uri_of(mime_type, encoded.as_str()))
}

/// The images `images` after the image `id` is entered as a data URI; the
/// same images where its bytes are too many to be written in base64.
pub open spec fn with_image(images: ImagesModel, id: Seq<char>, mime_type: Seq<char>, data: Seq<u8>)
    -> ImagesModel {
    if can_encode(data.len()) {
        inserted(images, id, data_uri(mime_type, data))
    } else {
        images
    }
}

/// Enters the image `id` into `images`, as a data URI.
pub fn add_image(images: &mut ImageMap, id: &str, mime_type: &str, data: &[u8])
    ensures
        final(images)@ == with_image(old(images)@, id@, mime_type@, data@),
        old(images).wf() ==> final(images).wf(),
{
    match image_data_uri(mime_type, data) {
        Some(uri) => {
            images.insert(id.to_owned(), uri);
        },
        None => {},
    }
}

/// Converts one chapter: the markup text `html` of the spine entry
/// `spine_index`, whose resource is `idref`.
pub fn extract_chapter(
    spine_index: usize,
    idref: &str,
    html: &str,
    styles: &StyleSheet,
    images: &ImageMap,
) -> (out: ChapterStructure)
    ensures
        out.spine_index == spine_index,
        out.idref@ == idref@,
        text_view(out.title) == title_of(forest(parsed_markup(html@))),
        out.content@ == document_node(forest(parsed_markup(html@)), styles@, images@),
{
    let nodes = parse_markup_tree(html);
    ChapterStructure {
        spine_index,
        idref: idref.to_owned(),
        title: extract_title(&nodes),
        content: convert_document(&nodes, styles, images),
    }
}

/// A resource of a book: its name in the manifest, its media type, and its
/// bytes where they could be read.
#[derive(Debug, Clone, PartialEq, Eq)]
pub struct Resource {
    pub id: String,
    pub mime_type: String,
    pub data: Option<Vec<u8>>,
}

/// What a resource holds, as mathematical values.
pub struct ResourceModel {
    pub id: Seq<char>,
    pub mime_type: Seq<char>,
    pub data: Option<Seq<u8>>,
}

impl View for Resource {
    type V = ResourceModel;

    open spec fn view(&self) -> ResourceModel {
        ResourceModel { id: self.id@, mime_type: self.mime_type@, data: bytes_view(self.data) }
    }
}

/// What a list of resources holds.
pub open spec fn resources_view(resources: Seq<Resource>) -> Seq<ResourceModel> {
    Seq::new(resources.len(), |i: int| resources[i]@)
}

/// The styles of a book: its style sheets, read in the order of the
/// resources, each over what the ones before it gave. A style sheet that
/// could not be read, or that is no valid UTF-8, is passed over.
pub open spec fn styles_of(resources: Seq<ResourceModel>) -> SheetModel
    decreases resources.len(),
{
    if resources.len() == 0 {
        Seq::empty()
    } else {
        let before = styles_of(resources.drop_last());
        let last = resources.last();
        match text_of_bytes(last.data) {
            Some(css) => if kind_of_type(last.mime_type) is StyleSheet {
                with_style_sheet(before, css)
            } else {
                before
            },
            None => before,
        }
    }
}

/// The images of a book: the data URI of every image that could be read,
/// under the name of its resource. An image whose bytes are too many to be
/// written in base64 is passed over.
pub open spec fn images_of(resources: Seq<ResourceModel>) -> ImagesModel
    decreases resources.len(),
{
    if resources.len() == 0 {
        Seq::empty()
    } else {
        let before = images_of(resources.drop_last());
        let last = resources.last();
        match last.data {
            Some(bytes) => if kind_of_type(last.mime_type) is Image {
                with_image(before, last.id, last.mime_type, bytes)
            } else {
                before
            },
            None => before,
        }
    }
}

/// Builds the styles and the images of a book from its resources.
pub fn extract_styles_and_images(resources: &Vec<Resource>) -> (out: (StyleSheet, ImageMap))
    ensures
        out.0@ == styles_of(resources_view(resources@)),
        out.1@ == images_of(resources_view(resources@)),
        out.0.wf(),
        out.1.wf(),
{
    let mut styles: StyleSheet = TextMap::new();
    let mut images: ImageMap = TextMap::new();
    let ghost all = resources_view(resources@);
    let mut i: usize = 0;
    assert(all.take(0) == Seq::<ResourceModel>::empty());
    while i < resources.len()
        invariant
            i <= resources.len(),
            all == resources_view(resources@),
            styles@ == styles_of(all.take(i as int)),
            images@ == images_of(all.take(i as int)),
            styles.wf(),
            images.wf(),
        decreases resources.len() - i,
    {
        assert(all.take(i + 1).drop_last() == all.take(i as int));
        assert(all.take(i + 1).last() == resources@[i as int]@);
        assert(all[i as int] == resources@[i as int]@);
        let resource = &resources[i];
        match resource_kind(resource.mime_type.as_str()) {
            ResourceKind::StyleSheet => {
                match text_from_bytes(&resource.data) {
                    Some(css) => {
                        add_style_sheet(&mut styles, css.as_str());
                    },
                    None => {},
                }
            },
            ResourceKind::Image => {
                match &resource.data {
                    Some(bytes) => {
                        add_image(
                            &mut images,
                            resource.id.as_str(),
                            resource.mime_type.as_str(),
                            bytes.as_slice(),
                        );
                    },
                    None => {},
                }
            },
            ResourceKind::Other => {},
        }
        i += 1;
    }
    assert(all.take(all.len() as int) == all);
    (styles, images)
}

/// The index of the first resource with the name `id`; the number of
/// resources where there is none.
pub open spec fn resource_position(resources: Seq<ResourceModel>, id: Seq<char>) -> int
    decreases resources.len(),
{
    if resources.len() == 0 || resources[0].id == id {
        0
    } else {
        1 + resource_position(resources.drop_first(), id)
    }
}

/// `resource_position` is the one index that has the name with no such
/// name before it.
pub proof fn lemma_resource_position(resources: Seq<ResourceModel>, id: Seq<char>, k: int)
    requires
        0 <= k <= resources.len(),
        forall|j: int| 0 <= j < k ==> (#[trigger] resources[j]).id != id,
        k < resources.len() ==> resources[k].id == id,
    ensures
        resource_position(resources, id) == k,
    decreases resources.len(),
{
    if resources.len() == 0 || resources[0].id == id {
        if k > 0 {
            assert(resources[0].id != id);
        }
    } else {
        let t = resources.drop_first();
        assert forall|j: int| 0 <= j < k - 1 implies (#[trigger] t[j]).id != id by {
            assert(t[j] == resources[j + 1]);
        }
        lemma_resource_position(t, id, k - 1);
    }
}

/// The markup of the chapter that the resource `idref` holds: the text of
/// the first resource of that name, where it is chapter markup that could
/// be read.
pub open spec fn chapter_markup(resources: Seq<ResourceModel>, idref: Seq<char>) -> Option<
    Seq<char>,
> {
    let k = resource_position(resources, idref);
    if k < resources.len() && resources[k].mime_type == "application/xhtml+xml"@ {
        text_of_bytes(resources[k].data)
    } else {
        None
    }
}

/// The markup of the chapter that the resource `idref` holds.
pub fn find_chapter_markup(resources: &Vec<Resource>, idref: &str) -> (out: Option<String>)
    ensures
        text_view(out) == chapter_markup(resources_view(resources@), idref@),
{
    let key = to_chars(idref);
    let ghost all = resources_view(resources@);
    let mut i: usize = 0;
    while i < resources.len()
        invariant
            i <= resources.len(),
            key@ == idref@,
            all == resources_view(resources@),
            forall|j: int| 0 <= j < i ==> (#[trigger] all[j]).id != idref@,
        decreases resources.len() - i,
    {
        assert(all[i as int] == resources@[i as int]@);
        if is_word(&key, resources[i].id.as_str()) {
            proof {
                lemma_resource_position(all, idref@, i as int);
            }
            if is_chapter_type(resources[i].mime_type.as_str()) {
                return text_from_bytes(&resources[i].data);
            } else {
                return None;
            }
        }
        i += 1;
    }
    proof {
        lemma_resource_position(all, idref@, i as int);
    }
    None
}

/// The chapters among the first `n` entries of the spine: for each entry
/// whose resource holds chapter markup, its index in the spine, the name
/// of the resource, and the markup.
pub open spec fn chapter_sources(
    spine: Seq<SpineItemInfo>,
    resources: Seq<ResourceModel>,
    n: int,
) -> Seq<(int, Seq<char>, Seq<char>)>
    decreases n,
{
    if n <= 0 {
        Seq::empty()
    } else {
        let before = chapter_sources(spine, resources, n - 1);
        match chapter_markup(resources, spine[n - 1].idref@) {
            Some(html) => before.push((n - 1, spine[n - 1].idref@, html)),
            None => before,
        }
    }
}

/// Whether `chapter` is the conversion of the markup `source.2` of the
/// spine entry `source.0`, whose resource is `source.1`.
pub open spec fn is_chapter_of(
    chapter: ChapterStructure,
    source: (int, Seq<char>, Seq<char>),
    sheet: SheetModel,
    images: ImagesModel,
) -> bool {
    &&& chapter.spine_index == source.0
    &&& chapter.idref@ == source.1
    &&& text_view(chapter.title) == title_of(forest(parsed_markup(source.2)))
    &&& chapter.content@ == document_node(forest(parsed_markup(source.2)), sheet, images)
}

/// Whether `chapters` are the conversions of `sources`, one for one.
pub open spec fn are_chapters_of(
    chapters: Seq<ChapterStructure>,
    sources: Seq<(int, Seq<char>, Seq<char>)>,
    sheet: SheetModel,
    images: ImagesModel,
) -> bool {
    &&& chapters.len() == sources.len()
    &&& forall|k: int|
        0 <= k < chapters.len() ==> is_chapter_of(#[trigger] chapters[k], sources[k], sheet, images)
}

/// Converts the chapters of a book: every entry of the spine whose
/// resource holds chapter markup that could be read, in the order of the
/// spine.
pub fn extract_chapters(
    spine: &Vec<SpineItemInfo>,
    resources: &Vec<Resource>,
    styles: &StyleSheet,
    images: &ImageMap,
) -> (out: Vec<ChapterStructure>)
    ensures
        are_chapters_of(
            out@,
            chapter_sources(spine@, resources_view(resources@), spine@.len() as int),
            styles@,
            images@,
        ),
{
    let mut chapters: Vec<ChapterStructure> = Vec::new();
    let ghost all = resources_view(resources@);
    let mut i: usize = 0;
    while i < spine.len()
        invariant
            i <= spine.len(),
            all == resources_view(resources@),
            are_chapters_of(chapters@, chapter_sources(spine@, all, i as int), styles@, images@),
        decreases spine.len() - i,
    {
        let ghost before = chapters@;
        match find_chapter_markup(resources, spine[i].idref.as_str()) {
            Some(html) => {
                let chapter = extract_chapter(
                    i,
                    spine[i].idref.as_str(),
                    html.as_str(),
                    styles,
                    images,
                );
                chapters.push(chapter);
                assert forall|k: int| 0 <= k < chapters@.len() implies is_chapter_of(
                    #[trigger] chapters@[k],
                    chapter_sources(spine@, all, i + 1)[k],
                    styles@,
                    images@,
                ) by {
                    if k < before.len() {
                        assert(chapters@[k] == before[k]);
                    }
                }
            },
            None => {},
        }
        i += 1;
    }
    chapters
}

/// Converts a book from what was read of its container: the description,
/// the table of contents, the spine, and the resources of the manifest.
/// The structure counts the entries of the spine, of the manifest and of
/// the table of contents.
pub fn extract_epub_data(
    metadata: EpubMetadata,
    toc: Vec<TocItem>,
    spine: Vec<SpineItemInfo>,
    resources: &Vec<Resource>,
) -> (out: CompleteEpubInfo)
    ensures
        out.metadata == metadata,
        out.structure == (EpubStructure {
            spine_count: spine@.len() as usize,
            resource_count: resources@.len() as usize,
            toc_count: toc@.len() as usize,
        }),
        out.toc == toc,
        out.spine == spine,
        out.styles@ == styles_of(resources_view(resources@)),
        out.styles.wf(),
        out.images@ == images_of(resources_view(resources@)),
        out.images.wf(),
        are_chapters_of(
            out.chapters@,
            chapter_sources(spine@, resources_view(resources@), spine@.len() as int),
            out.styles@,
            out.images@,
        ),
{
    let structure = EpubStructure {
        spine_count: spine.len(),
        resource_count: resources.len(),
        toc_count: toc.len(),
    };
    let (styles, images) = extract_styles_and_images(resources);
    let chapters = extract_chapters(&spine, resources, &styles, &images);
    CompleteEpubInfo { metadata, structure, toc, spine, styles, images, chapters }
}

/// The description of the processed text `input`.
pub fn processed_info(input: &str) -> (out: SimpleEpubInfo)
    ensures
        text_view(out.title) == Some("Processed"@),
        text_view(out.author) == Some("System"@),
        out.content@ == "Processed: "@ + input@,
{
    let mut content: Vec<char> = Vec::new();
    append_str(&mut content, "Processed: ");
    append_str(&mut content, input);
    assert(content@ =~= "Processed: "@ + input@);
    SimpleEpubInfo {
        title: Some("Processed".to_owned()),
        author: Some("System".to_owned()),
        content: from_chars(&content),
    }
}

/// The content of one resource, as a plain dump of a book holds it.
#[derive(Debug, Clone, PartialEq, Eq)]
pub enum ResourceData {
    /// The text of a text resource.
    Text { data: String },
    /// The bytes of any other resource, in base64.
    Binary { data: String },
    /// Why there is no content.
    Error { message: String },
}

/// Whether a resource of the media type `mime_type` is text: any `text/`
/// type, chapter markup, and the NCX table of contents.
pub open spec fn is_text_type(mime_type: Seq<char>) -> bool {
    starts_with(mime_type, "text/"@) || mime_type == "application/xhtml+xml"@ || mime_type
        == "application/x-dtbncx+xml"@
}

/// Whether a resource of the media type `mime_type` is text.
pub fn text_type(mime_type: &str) -> (out: bool)
    ensures
        out == is_text_type(mime_type@),
{
    let chars = to_chars(mime_type);
    has_prefix(&chars, &to_chars("text/")) || is_word(&chars, "application/xhtml+xml") || is_word(
        &chars,
        "application/x-dtbncx+xml",
    )
}

/// `std::str::from_utf8`: the text whose UTF-8 encoding is `bytes`, and none
/// exactly where `bytes` is no valid UTF-8.
#[verifier::external_body]
fn decode_text(bytes: &[u8]) -> (out: Option<&str>)
    ensures
        out is Some <==> valid_utf8(bytes@),
        out matches Some(text) ==> encode_utf8(text@) == bytes@,
{
    std::str::from_utf8(bytes).ok()
}

/// The text that the bytes `data` spell in UTF-8, where they are read and
/// valid.
pub open spec fn text_of_bytes(data: Option<Seq<u8>>) -> Option<Seq<char>> {
    match data {
        Some(bytes) => if valid_utf8(bytes) {
            Some(decode_utf8(bytes))
        } else {
            None
        },
        None => None,
    }
}

/// What optional bytes hold.
pub open spec fn bytes_view(data: Option<Vec<u8>>) -> Option<Seq<u8>> {
    match data {
        Some(bytes) => Some(bytes@),
        None => None,
    }
}

/// The text that the bytes `data` spell in UTF-8.
pub fn text_from_bytes(data: &Option<Vec<u8>>) -> (out: Option<String>)
    ensures
        text_view(out) == text_of_bytes(bytes_view(*data)),
{
    match data {
        Some(bytes) => match decode_text(bytes.as_slice()) {
            Some(text) => {
                proof {
                    encode_utf8_decode_utf8(text@);
                }
                Some(text.to_owned())
            },
            None => None,
        },
        None => None,
    }
}

/// The content of a resource of the media type `mime_type`, given what was
/// read of it: the text of a text resource, the base64 of any other, and an
/// error where nothing was read or where the text is no valid UTF-8. Bytes
/// too many to be written in base64 count as not read.
pub fn extract_resource_content(mime_type: &str, data: Option<Vec<u8>>) -> (out: ResourceData)
    ensures
        match data {
            None => out matches ResourceData::Error { message } && message@
                == "리소스를 읽을 수 없음"@,
            Some(bytes) => if !is_text_type(mime_type@) {
                if can_encode(bytes@.len()) {
                    out matches ResourceData::Binary { data } && data@ == base64_text(bytes@)
                } else {
                    out matches ResourceData::Error { message } && message@
                        == "리소스를 읽을 수 없음"@
                }
            } else if valid_utf8(bytes@) {
                out matches ResourceData::Text { data } && data@ == decode_utf8(bytes@)
            } else {
                out matches ResourceData::Error { message } && message@
                    == "텍스트 디코딩 실패"@
            },
        },
{
    if data.is_none() {
        return ResourceData::Error { message: "리소스를 읽을 수 없음".to_owned() };
    }
    if text_type(mime_type) {
        match text_from_bytes(&data) {
            Some(text) => ResourceData::Text { data: text },
            None => ResourceData::Error { message: "텍스트 디코딩 실패".to_owned() },
        }
    } else {
        match &data {
            Some(bytes) => if bytes.len() <= usize::MAX / 2 {
                ResourceData::Binary { data: encode_base64(bytes.as_slice()) }
            } else {
                ResourceData::Error { message: "리소스를 읽을 수 없음".to_owned() }
            },
            None => ResourceData::Error { message: "리소스를 읽을 수 없음".to_owned() },
        }
    }
}

/// One entry of the spine, as a plain dump of a book holds it: the markup
/// of a chapter, or why there is none.
#[derive(Debug, Clone, PartialEq, Eq)]
pub struct ChapterContent {
    pub spine_index: usize,
    pub idref: String,
    pub path: String,
    pub mime_type: String,
    pub content: Option<String>,
    pub error: Option<String>,
}

/// The entry of a plain dump for one entry of the spine, given its
/// resource and what was read of it. Chapter markup that was read is the
/// content; markup that could not be read, and a resource of any other
/// type, give an error.
pub fn chapter_content(
    spine_index: usize,
    idref: String,
    path: String,
    mime_type: String,
    text: Option<String>,
) -> (out: ChapterContent)
    ensures
        out.spine_index == spine_index,
        out.idref == idref,
        out.path == path,
        out.mime_type == mime_type,
        text_view(out.content) == if mime_type@ == "application/xhtml+xml"@ {
            text_view(text)
        } else {
            None
        },
        text_view(out.error) == if mime_type@ != "application/xhtml+xml"@ {
            Some("XHTML이 아닌 파일: "@ + mime_type@)
        } else if text is None {
            Some("리소스를 찾을 수 없음"@)
        } else {
            None
        },
{
    let (content, error) = if is_chapter_type(mime_type.as_str()) {
        match text {
            Some(markup) => (Some(markup), None),
            None => (None, Some("리소스를 찾을 수 없음".to_owned())),
        }
    } else {
        let mut message: Vec<char> = Vec::new();
        append_str(&mut message, "XHTML이 아닌 파일: ");
        append_str(&mut message, mime_type.as_str());
        assert(message@ =~= "XHTML이 아닌 파일: "@ + mime_type@);
        (None, Some(from_chars(&message)))
    };
    ChapterContent { spine_index, idref, path, mime_type, content, error }
}

} // verus!
