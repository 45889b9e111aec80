//! HTML to Markdown: the title, the images (embedded data URLs decoded,
//! other sources as placeholders), and the Markdown that the `html2md` crate
//! writes for the page.
use vstd::prelude::*;
use base64::Engine;
use crate::archive::{utf8_error_text, utf8_text};
use crate::chars::to_string;
use crate::error::{parse_error, MarkitdownError};
use crate::model::{
    opt_str, BlockView, ContentBlock, ConversionOptions, DocPageView, Document, DocumentConverter, DocumentView,
    ExtractedImage, ImageView, Page, ext_views,
};
use crate::pattern::{all_captures, first_group, regex_all_captures, regex_first_group};
use crate::text::{chars_eq_str, chars_of, decimal, extend_chars, extend_str, has_prefix, push_decimal, starts_with_str, trim, trim_chars};

verus! {

/// What `html2md::parse_html` returns for the HTML text.
pub uninterp spec fn html_to_markdown(html: Seq<char>) -> Seq<char>;

/// Calls `html2md::parse_html`: the Markdown form of the HTML text.
#[verifier::external_body]
pub(crate) fn parse_html(html: &str) -> (r: String)
    ensures
        r@ == html_to_markdown(html@),
{
    html2md::parse_html(html)
}

/// What the `base64` crate's standard engine decodes from the text, if it
/// is valid Base64.
pub uninterp spec fn base64_decoded(text: Seq<char>) -> Option<Seq<u8>>;

/// Calls `BASE64_STANDARD.decode` on the text.
#[verifier::external_body]
fn decode_base64(text: &[char]) -> (r: Option<Vec<u8>>)
    ensures
        match r {
            Some(v) => base64_decoded(text@) == Some(v@),
            None => base64_decoded(text@) is None,
        },
{
    let t: String = text.iter().collect();
    base64::engine::general_purpose::STANDARD.decode(t).ok()
}

/// HTML converter.
pub struct HtmlConverter;

/// The expression of the title: group 1 is the title text.
pub open spec fn title_pattern() -> Seq<char> {
    "(?i)<title(?:\\s[^>]*)?>(.*?)</title>"@
}

/// The expression of an image tag with a source: group 1 is the whole tag,
/// group 2 the source.
pub open spec fn img_pattern() -> Seq<char> {
    "(<img[^>]*\\s+src=[\"']([^\"']+)[\"'][^>]*>)"@
}

/// The expression of an alt attribute: group 1 is its value.
pub open spec fn alt_pattern() -> Seq<char> {
    "alt=[\"']([^\"']*)[\"']"@
}

/// The title: the first title element's text, trimmed.
pub open spec fn html_title(c: Seq<char>) -> Option<Seq<char>> {
    match regex_first_group(title_pattern(), c) {
        Some(t) => Some(trim(t)),
        None => None,
    }
}

/// The first position of `x` in `s`, if any.
pub open spec fn index_of_char(s: Seq<char>, x: char) -> Option<int>
    decreases s.len(),
{
    if s.len() == 0 {
        None
    } else if s.last() == x && index_of_char(s.drop_last(), x) is None {
        Some(s.len() - 1)
    } else {
        index_of_char(s.drop_last(), x)
    }
}

/// The text up to the first `x` (all of it where there is none).
pub open spec fn before_char(s: Seq<char>, x: char) -> Seq<char> {
    match index_of_char(s, x) {
        Some(k) => s.take(k),
        None => s,
    }
}

/// A new image with no other information than its identifier, data and
/// type.
pub open spec fn new_image(id: Seq<char>, data: Seq<u8>, mime: Seq<char>) -> ImageView {
    ImageView {
        id,
        data,
        mime_type: mime,
        alt_text: None,
        description: None,
        width: None,
        height: None,
        page_number: None,
        source_path: None,
    }
}

/// The identifier of the `idx`-th image of a page.
pub open spec fn html_image_id(idx: nat) -> Seq<char> {
    "html_image_"@ + decimal(idx)
}

/// The image of a data URL `data:<type>;base64,<data>`: the text before the
/// first comma must begin with `data:`, the type runs to the first `;`, and
/// the rest must be valid Base64.
pub open spec fn data_url_image(src: Seq<char>, idx: nat) -> Option<ImageView> {
    match index_of_char(src, ',') {
        None => None,
        Some(k) => {
            let header = src.take(k);
            if !has_prefix(header, "data:"@) {
                None
            } else {
                match base64_decoded(src.skip(k + 1)) {
                    Some(bytes) => Some(new_image(html_image_id(idx), bytes, before_char(header.skip(5), ';'))),
                    None => None,
                }
            }
        },
    }
}

/// The image of the `idx`-th image tag: for a `data:image/` source the
/// decoded image (if it decodes), else a placeholder whose alt text is the
/// tag's alt text or the source; the alt text is that of the tag.
pub open spec fn tag_image(caps: Seq<Option<Seq<char>>>, idx: nat) -> Option<ImageView> {
    if caps.len() < 2 || caps[1] is None {
        None
    } else {
        let tag = match caps[0] {
            Some(t) => t,
            None => Seq::empty(),
        };
        let src = caps[1]->0;
        let alt = regex_first_group(alt_pattern(), tag);
        if has_prefix(src, "data:image/"@) {
            match data_url_image(src, idx) {
                Some(img) => Some(ImageView { alt_text: alt, ..img }),
                None => None,
            }
        } else {
            Some(
                ImageView {
                    alt_text: match alt {
                        Some(a) => Some(a),
                        None => Some(src),
                    },
                    ..new_image(html_image_id(idx), Seq::empty(), "image/unknown"@)
                },
            )
        }
    }
}

/// The images of the image tags, in order, numbered by tag.
pub open spec fn tag_images(tags: Seq<Seq<Option<Seq<char>>>>) -> Seq<ImageView>
    decreases tags.len(),
{
    if tags.len() == 0 {
        Seq::empty()
    } else {
        tag_images(tags.drop_last()) + match tag_image(tags.last(), (tags.len() - 1) as nat) {
            Some(img) => seq![img],
            None => Seq::empty(),
        }
    }
}

/// The images of an HTML text.
pub open spec fn html_images(c: Seq<char>) -> Seq<ImageView> {
    tag_images(regex_all_captures(img_pattern(), c))
}

/// The document of an HTML text: its title, and one page holding the
/// images (when extracted) and then the Markdown of the page.
pub open spec fn html_document(c: Seq<char>, extract_images: bool) -> DocumentView {
    DocumentView {
        title: html_title(c),
        pages: seq![
            DocPageView {
                page_number: 1,
                content: (if extract_images {
                    html_images(c).map_values(|i: ImageView| BlockView::Image(i))
                } else {
                    Seq::empty()
                }) + seq![BlockView::Markdown(html_to_markdown(c))],
                rendered_image: None,
            },
        ],
        metadata: Seq::empty(),
    }
}

/// The result for HTML bytes: the document of the text, or a parse error
/// where the bytes are not UTF-8.
pub open spec fn html_result(b: Seq<u8>, extract_images: bool, r: Result<Document, MarkitdownError>) -> bool {
    if vstd::utf8::valid_utf8(b) {
        r matches Ok(d) && d@ == html_document(vstd::utf8::decode_utf8(b), extract_images)
    } else {
        r matches Err(MarkitdownError::ParseError(m)) && m@ == "Invalid UTF-8 encoding: "@ + utf8_error_text(b)
    }
}

/// The position of the first `x` in `s`.
pub(crate) fn find_char(s: &[char], x: char) -> (r: Option<usize>)
    ensures
        match r {
            Some(k) => index_of_char(s@, x) == Some(k as int) && k < s@.len(),
            None => index_of_char(s@, x) is None,
        },
{
    let mut i: usize = 0;
    while i < s.len()
        invariant
            i <= s@.len(),
            index_of_char(s@.take(i as int), x) is None,
        decreases s@.len() - i,
    {
        assert(s@.take(i + 1).drop_last() =~= s@.take(i as int));
        if s[i] == x {
            proof {
                lemma_index_of_prefix(s@, x, i + 1);
            }
            return Some(i);
        }
        i += 1;
    }
    assert(s@.take(i as int) =~= s@);
    None
}

/// Where the first `x` lies within the first `n` characters, it is the
/// first `x` of the whole text.
proof fn lemma_index_of_prefix(s: Seq<char>, x: char, n: int)
    requires
        0 <= n <= s.len(),
        index_of_char(s.take(n), x) is Some,
    ensures
        index_of_char(s, x) == index_of_char(s.take(n), x),
    decreases s.len() - n,
{
    if n < s.len() {
        assert(s.take(n + 1).drop_last() =~= s.take(n));
        lemma_index_of_prefix(s, x, n + 1);
    } else {
        assert(s.take(n) =~= s);
    }
}

/// The image of a data URL.
fn extract_data_url_image(src: &[char], idx: usize) -> (r: Option<ExtractedImage>)
    ensures
        match r {
            Some(img) => data_url_image(src@, idx as nat) == Some(img@),
            None => data_url_image(src@, idx as nat) is None,
        },
{
    let k = match find_char(src, ',') {
        Some(k) => k,
        None => {
            return None;
        },
    };
    let n = src.len();
    assert(k < n);
    let header = crate::text::sub_vec(src, 0, k);
    assert(header@ =~= src@.take(k as int));
    if !starts_with_str(header.as_slice(), "data:") {
        return None;
    }
    proof {
        reveal_strlit("data:");
    }
    let data = crate::text::sub_vec(src, k + 1, n);
    assert(data@ =~= src@.skip(k + 1));
    let bytes = match decode_base64(data.as_slice()) {
        Some(b) => b,
        None => {
            return None;
        },
    };
    let rest = crate::text::sub_vec(header.as_slice(), 5, header.len());
    assert(rest@ =~= header@.skip(5));
    let mime = match find_char(rest.as_slice(), ';') {
        Some(j) => {
            let m = crate::text::sub_vec(rest.as_slice(), 0, j);
            assert(m@ =~= rest@.take(j as int));
            m
        },
        None => rest,
    };
    let mut id: Vec<char> = Vec::new();
    extend_str(&mut id, "html_image_");
    push_decimal(&mut id, idx);
    let img = ExtractedImage::new(to_string(id.as_slice()), bytes, to_string(mime.as_slice()));
    assert(img@ == new_image(html_image_id(idx as nat), bytes@, before_char(header@.skip(5), ';')));
    Some(img)
}

/// The image of one image tag.
fn image_of_tag(caps: &Vec<Option<Vec<char>>>, idx: usize) -> (r: Option<ExtractedImage>)
    ensures
        match r {
            Some(img) => tag_image(caps.deep_view(), idx as nat) == Some(img@),
            None => tag_image(caps.deep_view(), idx as nat) is None,
        },
{
    let ghost cv = caps.deep_view();
    if caps.len() < 2 || caps[1].is_none() {
        return None;
    }
    let tag: Vec<char> = match &caps[0] {
        Some(t) => crate::text::sub_vec(t.as_slice(), 0, t.len()),
        None => Vec::new(),
    };
    assert(tag@ == (match cv[0] {
        Some(t) => t,
        None => Seq::<char>::empty(),
    })) by {
        if cv[0] is Some {
            assert(tag@ =~= cv[0]->0);
        }
    }
    let src: Vec<char> = match &caps[1] {
        Some(s) => crate::text::sub_vec(s.as_slice(), 0, s.len()),
        None => Vec::new(),
    };
    assert(src@ =~= cv[1]->0);
    let alt = first_group("alt=[\"']([^\"']*)[\"']", tag.as_slice());
    let alt_text: Option<String> = match alt {
        Some(a) => Some(to_string(a.as_slice())),
        None => None,
    };
    if starts_with_str(src.as_slice(), "data:image/") {
        match extract_data_url_image(src.as_slice(), idx) {
            Some(img) => {
                let mut img = img;
                img.alt_text = alt_text;
                Some(img)
            },
            None => None,
        }
    } else {
        let mut id: Vec<char> = Vec::new();
        extend_str(&mut id, "html_image_");
        push_decimal(&mut id, idx);
        let mut img = ExtractedImage::new(to_string(id.as_slice()), Vec::new(), String::from_str("image/unknown"));
        img.alt_text = match alt_text {
            Some(a) => Some(a),
            None => Some(to_string(src.as_slice())),
        };
        Some(img)
    }
}

impl HtmlConverter {
    /// Converts HTML bytes: a parse error where they are not UTF-8, else the
    /// document of [`html_document`].
    pub fn convert_html_bytes(&self, bytes: &[u8], extract_images: bool) -> (r: Result<Document, MarkitdownError>)
        ensures
            html_result(bytes@, extract_images, r),
    {
        let content = match utf8_text(bytes) {
            Ok(c) => c,
            Err(m) => {
                let mc = chars_of(m.as_str());
                return Err(parse_error("Invalid UTF-8 encoding: ", mc.as_slice()));
            },
        };
        let ghost c = content@;
        let title = match first_group("(?i)<title(?:\\s[^>]*)?>(.*?)</title>", content.as_slice()) {
            Some(t) => Some(to_string(trim_chars(t.as_slice()).as_slice())),
            None => None,
        };
        assert(opt_str(title) == html_title(c));
        let mut page = Page::new(1);
        if extract_images {
            let tags = all_captures("(<img[^>]*\\s+src=[\"']([^\"']+)[\"'][^>]*>)", content.as_slice());
            let ghost tv = tags.deep_view();
            let mut i: usize = 0;
            while i < tags.len()
                invariant
                    i <= tags@.len(),
                    tv == tags.deep_view(),
                    tv == regex_all_captures(img_pattern(), c),
                    page.page_number == 1,
                    page.rendered_image is None,
                    page@.content == tag_images(tv.take(i as int)).map_values(|m: ImageView| BlockView::Image(m)),
                decreases tags@.len() - i,
            {
                let ghost before = page@.content;
                let ghost t1 = tv.take(i + 1);
                assert(t1.drop_last() =~= tv.take(i as int));
                assert(t1.last() == tv[i as int]);
                assert(tags@[i as int].deep_view() == tv[i as int]);
                match image_of_tag(&tags[i], i) {
                    Some(img) => {
                        let ghost iv = img@;
                        page.add_content(ContentBlock::Image(img));
                        assert(page@.content =~= before.push(BlockView::Image(iv)));
                        assert(tag_images(t1) == tag_images(tv.take(i as int)) + seq![iv]);
                        assert(page@.content =~= tag_images(t1).map_values(|m: ImageView| BlockView::Image(m)));
                    },
                    None => {
                        assert(tag_images(t1) =~= tag_images(tv.take(i as int)));
                    },
                }
                i += 1;
            }
            assert(tv.take(i as int) =~= tv);
        }
        let md = parse_html(to_string(content.as_slice()).as_str());
        page.add_content(ContentBlock::Markdown(md));
        let mut doc = Document::new();
        doc.title = title;
        doc.add_page(page);
        assert(doc@.pages[0].content =~= html_document(c, extract_images).pages[0].content);
        assert(doc@.pages =~= html_document(c, extract_images).pages);
        assert(doc@.metadata =~= Seq::<(Seq<char>, Seq<char>)>::empty());
        Ok(doc)
    }

    /// Converts HTML bytes with the options: an extension hint other than
    /// `.html` or `.htm` (compared exactly) is an invalid file; images are
    /// extracted unless the options turn it off.
    pub fn convert_bytes(&self, bytes: &[u8], options: Option<&ConversionOptions>) -> (r: Result<Document, MarkitdownError>)
        ensures
            match options {
                Some(o) => match opt_str(o.file_extension) {
                    Some(e) => if e == ".html"@ || e == ".htm"@ {
                        html_result(bytes@, o.extract_images, r)
                    } else {
                        r matches Err(MarkitdownError::InvalidFile(m)) && m@ == "Expected .html or .htm file, got "@ + e
                    },
                    None => html_result(bytes@, o.extract_images, r),
                },
                None => html_result(bytes@, true, r),
            },
    {
        match options {
            Some(o) => {
                match &o.file_extension {
                    Some(e) => {
                        let c = chars_of(e.as_str());
                        let s = c.as_slice();
                        if !(chars_eq_str(s, ".html") || chars_eq_str(s, ".htm")) {
                            let mut m: Vec<char> = Vec::new();
                            extend_str(&mut m, "Expected .html or .htm file, got ");
                            extend_chars(&mut m, s);
                            return Err(MarkitdownError::InvalidFile(to_string(m.as_slice())));
                        }
                    },
                    None => {},
                }
                self.convert_html_bytes(bytes, o.extract_images)
            },
            None => self.convert_html_bytes(bytes, true),
        }
    }
}

impl DocumentConverter for HtmlConverter {
    open spec fn extensions(&self) -> Seq<Seq<char>> {
        seq![".html"@, ".htm"@]
    }

    fn supported_extensions(&self) -> (r: Vec<&'static str>) {
        let r = vec![".html", ".htm"];
        assert(ext_views(r@) =~= self.extensions());
        r
    }
}

} // verus!
