//! Legacy Office formats (.doc, .xls, .ppt): finding embedded images and
//! text in the binary streams of the compound file.
use vstd::prelude::*;
use crate::text::sub_vec;

verus! {

/// Image formats found in legacy Office files.
#[derive(Debug, Clone, Copy, PartialEq, Eq, Structural)]
pub enum ImageFormat {
    Jpeg,
    Png,
    Wmf,
    Emf,
    Dib,
    Pict,
    Unknown,
}

/// The MIME type of a format.
pub open spec fn mime_of(f: ImageFormat) -> Seq<char> {
    match f {
        ImageFormat::Jpeg => "image/jpeg"@,
        ImageFormat::Png => "image/png"@,
        ImageFormat::Wmf => "image/wmf"@,
        ImageFormat::Emf => "image/emf"@,
        ImageFormat::Dib => "image/bmp"@,
        ImageFormat::Pict => "image/pict"@,
        ImageFormat::Unknown => "application/octet-stream"@,
    }
}

/// The file extension of a format.
pub open spec fn ext_of(f: ImageFormat) -> Seq<char> {
    match f {
        ImageFormat::Jpeg => "jpg"@,
        ImageFormat::Png => "png"@,
        ImageFormat::Wmf => "wmf"@,
        ImageFormat::Emf => "emf"@,
        ImageFormat::Dib => "bmp"@,
        ImageFormat::Pict => "pict"@,
        ImageFormat::Unknown => "bin"@,
    }
}

impl ImageFormat {
    /// The MIME type of the format.
    pub fn mime_type(&self) -> (r: &'static str)
        ensures
            r@ == mime_of(*self),
    {
        match self {
            ImageFormat::Jpeg => "image/jpeg",
            ImageFormat::Png => "image/png",
            ImageFormat::Wmf => "image/wmf",
            ImageFormat::Emf => "image/emf",
            ImageFormat::Dib => "image/bmp",
            ImageFormat::Pict => "image/pict",
            ImageFormat::Unknown => "application/octet-stream",
        }
    }

    /// The file extension of the format.
    pub fn extension(&self) -> (r: &'static str)
        ensures
            r@ == ext_of(*self),
    {
        match self {
            ImageFormat::Jpeg => "jpg",
            ImageFormat::Png => "png",
            ImageFormat::Wmf => "wmf",
            ImageFormat::Emf => "emf",
            ImageFormat::Dib => "bmp",
            ImageFormat::Pict => "pict",
            ImageFormat::Unknown => "bin",
        }
    }

    /// Detects the image format from the leading bytes.
    pub fn detect(data: &[u8]) -> (r: Self)
        ensures
            r == detect_format(data@),
    {
        let d = data;
        if d.len() < 8 {
            return ImageFormat::Unknown;
        }
        if is_jpeg_at(d, 0) {
            return ImageFormat::Jpeg;
        }
        if is_png_at(d, 0) {
            return ImageFormat::Png;
        }
        if is_wmf_placeable_at(d, 0) {
            return ImageFormat::Wmf;
        }
        if d.len() >= 18 && (d[0] == 0x01 || d[0] == 0x02) && d[1] == 0x00 {
            let version = le16(d[4], d[5]);
            if version == 0x0100 || version == 0x0300 {
                return ImageFormat::Wmf;
            }
        }
        if is_emf_at(d, 0) {
            return ImageFormat::Emf;
        }
        if d[0] == 0x42 && d[1] == 0x4D {
            return ImageFormat::Dib;
        }
        if d.len() >= 4 && d[2] == 0x00 && d[3] == 0x11 {
            return ImageFormat::Pict;
        }
        ImageFormat::Unknown
    }
}

/// Little-endian 16-bit value of two bytes.
pub open spec fn le16_spec(a: u8, b: u8) -> nat {
    a as nat + 256 * (b as nat)
}

/// Little-endian 32-bit value of four bytes.
pub open spec fn le32_spec(a: u8, b: u8, c: u8, d: u8) -> nat {
    a as nat + 256 * (b as nat) + 65536 * (c as nat) + 16777216 * (d as nat)
}

/// `u16::from_le_bytes`.
pub fn le16(a: u8, b: u8) -> (r: u16)
    ensures
        r as nat == le16_spec(a, b),
{
    a as u16 + (b as u16) * 256
}

/// `u32::from_le_bytes`.
pub fn le32(a: u8, b: u8, c: u8, d: u8) -> (r: u32)
    ensures
        r as nat == le32_spec(a, b, c, d),
{
    a as u32 + (b as u32) * 256 + (c as u32) * 65536 + (d as u32) * 16777216
}

/// JPEG signature `FF D8 FF` at position `i`.
pub open spec fn jpeg_at(d: Seq<u8>, i: int) -> bool {
    0 <= i && i + 3 <= d.len() && d[i] == 0xFF && d[i + 1] == 0xD8 && d[i + 2] == 0xFF
}

/// PNG signature `89 50 4E 47 0D 0A 1A 0A` at position `i`.
pub open spec fn png_at(d: Seq<u8>, i: int) -> bool {
    0 <= i && i + 8 <= d.len() && d[i] == 0x89 && d[i + 1] == 0x50 && d[i + 2] == 0x4E && d[i + 3]
        == 0x47 && d[i + 4] == 0x0D && d[i + 5] == 0x0A && d[i + 6] == 0x1A && d[i + 7] == 0x0A
}

/// The first four PNG signature bytes `89 50 4E 47` at position `i`.
pub open spec fn png4_at(d: Seq<u8>, i: int) -> bool {
    0 <= i && i + 4 <= d.len() && d[i] == 0x89 && d[i + 1] == 0x50 && d[i + 2] == 0x4E && d[i + 3]
        == 0x47
}

/// Placeable WMF signature `D7 CD C6 9A` at position `i`.
pub open spec fn wmf_placeable_at(d: Seq<u8>, i: int) -> bool {
    0 <= i && i + 4 <= d.len() && d[i] == 0xD7 && d[i + 1] == 0xCD && d[i + 2] == 0xC6 && d[i + 3]
        == 0x9A
}

/// EMF header: `01 00 00 00` at `i` and `20 45 4D 46` at `i + 40`.
pub open spec fn emf_at(d: Seq<u8>, i: int) -> bool {
    0 <= i && i + 44 <= d.len() && d[i] == 0x01 && d[i + 1] == 0x00 && d[i + 2] == 0x00 && d[i + 3]
        == 0x00 && d[i + 40] == 0x20 && d[i + 41] == 0x45 && d[i + 42] == 0x4D && d[i + 43] == 0x46
}

fn is_jpeg_at(d: &[u8], i: usize) -> (r: bool)
    ensures
        r == jpeg_at(d@, i as int),
{
    i <= d.len() && d.len() - i >= 3 && d[i] == 0xFF && d[i + 1] == 0xD8 && d[i + 2] == 0xFF
}

fn is_png_at(d: &[u8], i: usize) -> (r: bool)
    ensures
        r == png_at(d@, i as int),
{
    i <= d.len() && d.len() - i >= 8 && d[i] == 0x89 && d[i + 1] == 0x50 && d[i + 2] == 0x4E && d[i
        + 3] == 0x47 && d[i + 4] == 0x0D && d[i + 5] == 0x0A && d[i + 6] == 0x1A && d[i + 7] == 0x0A
}

fn is_png4_at(d: &[u8], i: usize) -> (r: bool)
    ensures
        r == png4_at(d@, i as int),
{
    i <= d.len() && d.len() - i >= 4 && d[i] == 0x89 && d[i + 1] == 0x50 && d[i + 2] == 0x4E && d[i
        + 3] == 0x47
}

fn is_wmf_placeable_at(d: &[u8], i: usize) -> (r: bool)
    ensures
        r == wmf_placeable_at(d@, i as int),
{
    i <= d.len() && d.len() - i >= 4 && d[i] == 0xD7 && d[i + 1] == 0xCD && d[i + 2] == 0xC6 && d[i
        + 3] == 0x9A
}

fn is_emf_at(d: &[u8], i: usize) -> (r: bool)
    ensures
        r == emf_at(d@, i as int),
{
    i <= d.len() && d.len() - i >= 44 && d[i] == 0x01 && d[i + 1] == 0x00 && d[i + 2] == 0x00
        && d[i + 3] == 0x00 && d[i + 40] == 0x20 && d[i + 41] == 0x45 && d[i + 42] == 0x4D && d[i
        + 43] == 0x46
}

/// The image format given by the leading bytes.
pub open spec fn detect_format(d: Seq<u8>) -> ImageFormat {
    if d.len() < 8 {
        ImageFormat::Unknown
    } else if jpeg_at(d, 0) {
        ImageFormat::Jpeg
    } else if png_at(d, 0) {
        ImageFormat::Png
    } else if wmf_placeable_at(d, 0) {
        ImageFormat::Wmf
    } else if d.len() >= 18 && (d[0] == 0x01 || d[0] == 0x02) && d[1] == 0x00 && (le16_spec(d[4], d[5])
        == 0x0100 || le16_spec(d[4], d[5]) == 0x0300) {
        ImageFormat::Wmf
    } else if emf_at(d, 0) {
        ImageFormat::Emf
    } else if d[0] == 0x42 && d[1] == 0x4D {
        ImageFormat::Dib
    } else if d.len() >= 4 && d[2] == 0x00 && d[3] == 0x11 {
        ImageFormat::Pict
    } else {
        ImageFormat::Unknown
    }
}

// ---------------------------------------------------------------------
// Image boundaries
// ---------------------------------------------------------------------

/// Searching from `i`: the end of a JPEG image (just past the first
/// `FF D9` that starts before the last byte).
pub open spec fn jpeg_end_from(d: Seq<u8>, i: int) -> Option<int>
    decreases d.len() - i,
{
    if i < 0 || i >= d.len() - 1 {
        None
    } else if d[i] == 0xFF && d[i + 1] == 0xD9 {
        Some(i + 2)
    } else {
        jpeg_end_from(d, i + 1)
    }
}

/// The end of a JPEG image starting at the beginning of `d`.
pub open spec fn jpeg_end(d: Seq<u8>) -> Option<int> {
    jpeg_end_from(d, 2)
}

/// Searching from `i`: the end of a PNG image (8 bytes past the first
/// `IEND` that starts before the last 8 bytes).
pub open spec fn png_end_from(d: Seq<u8>, i: int) -> Option<int>
    decreases d.len() - i,
{
    if i < 0 || i >= d.len() - 8 {
        None
    } else if d[i] == 0x49 && d[i + 1] == 0x45 && d[i + 2] == 0x4E && d[i + 3] == 0x44 {
        Some(i + 8)
    } else {
        png_end_from(d, i + 1)
    }
}

/// The end of a PNG image starting at the beginning of `d`.
pub open spec fn png_end(d: Seq<u8>) -> Option<int> {
    png_end_from(d, 8)
}

/// Searching from `i`: the start of the next image signature, if any
/// before the last 8 bytes.
pub open spec fn next_signature_from(d: Seq<u8>, i: int) -> Option<int>
    decreases d.len() - i,
{
    if i < 0 || i >= d.len() - 8 {
        None
    } else if jpeg_at(d, i) || png4_at(d, i) || wmf_placeable_at(d, i) {
        Some(i)
    } else {
        next_signature_from(d, i + 1)
    }
}

/// The end of a metafile: where the next image signature starts (searched
/// from byte 22), else the data length capped at 1 MiB.
pub open spec fn metafile_end(d: Seq<u8>) -> int {
    match next_signature_from(d, 22) {
        Some(i) => i,
        None => if d.len() < 1048576 {
            d.len() as int
        } else {
            1048576
        },
    }
}

pub proof fn lemma_jpeg_end_from(d: Seq<u8>, i: int)
    requires
        0 <= i,
    ensures
        jpeg_end_from(d, i) matches Some(e) ==> i + 2 <= e <= d.len(),
    decreases d.len() - i,
{
    if i < d.len() - 1 && !(d[i] == 0xFF && d[i + 1] == 0xD9) {
        lemma_jpeg_end_from(d, i + 1);
    }
}

pub proof fn lemma_png_end_from(d: Seq<u8>, i: int)
    requires
        0 <= i,
    ensures
        png_end_from(d, i) matches Some(e) ==> i + 8 <= e <= d.len(),
    decreases d.len() - i,
{
    if i < d.len() - 8 && !(d[i] == 0x49 && d[i + 1] == 0x45 && d[i + 2] == 0x4E && d[i + 3] == 0x44) {
        lemma_png_end_from(d, i + 1);
    }
}

pub proof fn lemma_next_signature_from(d: Seq<u8>, i: int)
    requires
        0 <= i,
    ensures
        next_signature_from(d, i) matches Some(e) ==> i <= e < d.len(),
    decreases d.len() - i,
{
    if i < d.len() - 8 && !(jpeg_at(d, i) || png4_at(d, i) || wmf_placeable_at(d, i)) {
        lemma_next_signature_from(d, i + 1);
    }
}

/// Signature tests on the bytes from `base` on agree with tests at the
/// shifted positions of the whole data.
proof fn lemma_shift(d: Seq<u8>, base: int, i: int)
    requires
        0 <= base <= d.len(),
        0 <= i,
    ensures
        jpeg_at(d.skip(base), i) == jpeg_at(d, base + i),
        png_at(d.skip(base), i) == png_at(d, base + i),
        png4_at(d.skip(base), i) == png4_at(d, base + i),
        wmf_placeable_at(d.skip(base), i) == wmf_placeable_at(d, base + i),
        emf_at(d.skip(base), i) == emf_at(d, base + i),
{
}

/// Finds the end of a JPEG image that starts at `base`.
fn find_jpeg_end_at(data: &[u8], base: usize) -> (r: Option<usize>)
    requires
        base < data@.len(),
    ensures
        match r {
            Some(e) => jpeg_end(data@.skip(base as int)) == Some(e as int),
            None => jpeg_end(data@.skip(base as int)) is None,
        },
{
    let ghost s = data@.skip(base as int);
    let n = data.len();
    let mut i: usize = 2;
    while i < n - base - 1
        invariant
            n == data@.len(),
            base < n,
            s == data@.skip(base as int),
            2 <= i,
            jpeg_end(s) == jpeg_end_from(s, i as int),
        decreases n - base - i,
    {
        assert(s[i as int] == data@[base + i]);
        assert(s[i + 1] == data@[base + i + 1]);
        if data[base + i] == 0xFF && data[base + i + 1] == 0xD9 {
            return Some(i + 2);
        }
        i += 1;
    }
    None
}

/// Finds the end of a PNG image that starts at `base`.
fn find_png_end_at(data: &[u8], base: usize) -> (r: Option<usize>)
    requires
        base + 8 <= data@.len(),
    ensures
        match r {
            Some(e) => png_end(data@.skip(base as int)) == Some(e as int),
            None => png_end(data@.skip(base as int)) is None,
        },
{
    let ghost s = data@.skip(base as int);
    let n = data.len();
    let mut i: usize = 8;
    while i < n - base - 8
        invariant
            n == data@.len(),
            base + 8 <= n,
            s == data@.skip(base as int),
            8 <= i,
            png_end(s) == png_end_from(s, i as int),
        decreases n - base - i,
    {
        let j = base + i;
        assert(s[i as int] == data@[j as int]);
        assert(s[i + 1] == data@[j + 1]);
        assert(s[i + 2] == data@[j + 2]);
        assert(s[i + 3] == data@[j + 3]);
        if data[j] == 0x49 && data[j + 1] == 0x45 && data[j + 2] == 0x4E && data[j + 3] == 0x44 {
            return Some(i + 8);
        }
        i += 1;
    }
    None
}

/// Finds the end of a metafile (WMF or EMF) that starts at `base`.
fn find_metafile_end_at(data: &[u8], base: usize) -> (r: usize)
    requires
        base + 8 <= data@.len(),
    ensures
        r as int == metafile_end(data@.skip(base as int)),
{
    let ghost s = data@.skip(base as int);
    let total = data.len();
    let n = total - base;
    let end: usize = if n < 1048576 {
        n
    } else {
        1048576
    };
    let mut i: usize = 22;
    if n < 30 {
        return end;
    }
    while i < n - 8
        invariant
            n == s.len(),
            base + n == total,
            total == data@.len(),
            n >= 8,
            s == data@.skip(base as int),
            22 <= i,
            i <= n,
            next_signature_from(s, 22) == next_signature_from(s, i as int),
        decreases n - i,
    {
        proof {
            lemma_shift(data@, base as int, i as int);
        }
        if is_jpeg_at(data, base + i) || is_png4_at(data, base + i) || is_wmf_placeable_at(data, base + i) {
            return i;
        }
        i += 1;
    }
    end
}

/// Finds the end of a JPEG image.
fn find_jpeg_end(data: &[u8]) -> (r: Option<usize>)
    requires
        data@.len() >= 1,
    ensures
        match r {
            Some(e) => jpeg_end(data@) == Some(e as int),
            None => jpeg_end(data@) is None,
        },
{
    assert(data@.skip(0) =~= data@);
    find_jpeg_end_at(data, 0)
}

/// Finds the end of a PNG image.
fn find_png_end(data: &[u8]) -> (r: Option<usize>)
    requires
        data@.len() >= 8,
    ensures
        match r {
            Some(e) => png_end(data@) == Some(e as int),
            None => png_end(data@) is None,
        },
{
    assert(data@.skip(0) =~= data@);
    find_png_end_at(data, 0)
}

/// Finds the end of a metafile (WMF or EMF).
fn find_metafile_end(data: &[u8]) -> (r: usize)
    requires
        data@.len() >= 8,
    ensures
        r as int == metafile_end(data@),
{
    assert(data@.skip(0) =~= data@);
    find_metafile_end_at(data, 0)
}

/// The image (bytes and format) that starts at `pos`, if any.
pub open spec fn image_at(d: Seq<u8>, pos: int) -> Option<(Seq<u8>, ImageFormat)> {
    if pos < 0 || pos + 8 > d.len() {
        None
    } else {
        let s = d.skip(pos);
        if jpeg_at(s, 0) && jpeg_end(s) is Some {
            Some((s.take(jpeg_end(s).unwrap()), ImageFormat::Jpeg))
        } else if png_at(s, 0) && png_end(s) is Some {
            Some((s.take(png_end(s).unwrap()), ImageFormat::Png))
        } else if emf_at(s, 0) && le32_spec(s[4], s[5], s[6], s[7]) > 44 && le32_spec(s[4], s[5], s[6], s[7])
            <= s.len() {
            Some((s.take(le32_spec(s[4], s[5], s[6], s[7]) as int), ImageFormat::Emf))
        } else if wmf_placeable_at(s, 0) && s.len() >= 22 && metafile_end(s) > 22 {
            Some((s.take(metafile_end(s)), ImageFormat::Wmf))
        } else {
            None
        }
    }
}

pub proof fn lemma_image_at_len(d: Seq<u8>, pos: int)
    ensures
        image_at(d, pos) matches Some((b, f)) ==> 1 <= b.len() <= d.len() - pos,
{
    if 0 <= pos && pos + 8 <= d.len() {
        let s = d.skip(pos);
        lemma_jpeg_end_from(s, 2);
        lemma_png_end_from(s, 8);
        lemma_next_signature_from(s, 22);
    }
}

/// The image that starts at `pos`, if any.
fn try_extract_image_at(data: &[u8], pos: usize) -> (r: Option<(Vec<u8>, ImageFormat)>)
    ensures
        match r {
            Some(x) => image_at(data@, pos as int) == Some((x.0@, x.1)),
            None => image_at(data@, pos as int) is None,
        },
{
    if pos > data.len() || data.len() - pos < 8 {
        return None;
    }
    let ghost s = data@.skip(pos as int);
    proof {
        lemma_jpeg_end_from(s, 2);
        lemma_png_end_from(s, 8);
        lemma_next_signature_from(s, 22);
        lemma_shift(data@, pos as int, 0);
    }
    if is_jpeg_at(data, pos) {
        if let Some(end) = find_jpeg_end_at(data, pos) {
            let img = sub_vec(data, pos, pos + end);
            assert(img@ =~= s.take(end as int));
            return Some((img, ImageFormat::Jpeg));
        }
    }
    if is_png_at(data, pos) {
        if let Some(end) = find_png_end_at(data, pos) {
            let img = sub_vec(data, pos, pos + end);
            assert(img@ =~= s.take(end as int));
            return Some((img, ImageFormat::Png));
        }
    }
    if is_emf_at(data, pos) {
        assert(s[4] == data@[pos + 4] && s[5] == data@[pos + 5] && s[6] == data@[pos + 6] && s[7] == data@[pos + 7]);
        let size = le32(data[pos + 4], data[pos + 5], data[pos + 6], data[pos + 7]) as usize;
        if size > 44 && size <= data.len() - pos {
            let img = sub_vec(data, pos, pos + size);
            assert(img@ =~= s.take(size as int));
            return Some((img, ImageFormat::Emf));
        }
    }
    if is_wmf_placeable_at(data, pos) {
        if data.len() - pos >= 22 {
            let end = find_metafile_end_at(data, pos);
            if end > 22 {
                let img = sub_vec(data, pos, pos + end);
                assert(img@ =~= s.take(end as int));
                return Some((img, ImageFormat::Wmf));
            }
        }
    }
    None
}

// ---------------------------------------------------------------------
// Image scans
// ---------------------------------------------------------------------

/// An image found in a legacy Office stream.
#[derive(Debug, Clone)]
pub struct LegacyImage {
    /// The image bytes.
    pub data: Vec<u8>,
    /// The detected format.
    pub format: ImageFormat,
    /// Position of the image in the document (from 1).
    pub index: usize,
}

/// The images as (bytes, format) pairs, numbered from 1 in order.
pub open spec fn numbered(v: Seq<LegacyImage>, s: Seq<(Seq<u8>, ImageFormat)>) -> bool {
    &&& v.len() == s.len()
    &&& forall|k: int|
        0 <= k < v.len() ==> (#[trigger] v[k]).data@ == s[k].0 && v[k].format == s[k].1 && v[k].index
            == k + 1
}

/// The images found by stepping through the data from `pos`: an image
/// found at a position is taken and skipped (at least one byte), otherwise
/// the scan moves one byte on; positions are tried while `pos + gap` is
/// before the end.
pub open spec fn image_scan(d: Seq<u8>, pos: int, gap: int) -> Seq<(Seq<u8>, ImageFormat)>
    decreases d.len() - pos,
{
    if pos < 0 || gap < 0 || pos + gap >= d.len() {
        seq![]
    } else {
        proof {
            lemma_image_at_len(d, pos);
        }
        match image_at(d, pos) {
            Some(img) => {
                let step = if img.0.len() > 1 {
                    img.0.len() as int
                } else {
                    1
                };
                seq![img] + image_scan(d, pos + step, gap)
            },
            None => image_scan(d, pos + 1, gap),
        }
    }
}

/// Pushes a numbered image.
fn push_image(v: &mut Vec<LegacyImage>, data: Vec<u8>, format: ImageFormat, Ghost(s): Ghost<Seq<(Seq<u8>, ImageFormat)>>)
    requires
        numbered(old(v)@, s),
        old(v)@.len() < usize::MAX,
    ensures
        numbered(final(v)@, s.push((data@, format))),
{
    let index = v.len() + 1;
    v.push(LegacyImage { data, format, index });
    assert forall|k: int| 0 <= k < v@.len() implies (#[trigger] v@[k]).data@ == s.push((data@, format))[k].0
        && v@[k].format == s.push((data@, format))[k].1 && v@[k].index == k + 1 by {
        if k < v@.len() - 1 {
            assert(v@[k] == old(v)@[k]);
        }
    }
}

fn scan_images(data: &[u8], gap: usize) -> (r: Vec<LegacyImage>)
    requires
        gap == 8 || gap == 16,
    ensures
        numbered(r@, image_scan(data@, 0, gap as int)),
{
    let mut images: Vec<LegacyImage> = Vec::new();
    let mut pos: usize = 0;
    let n = data.len();
    let ghost mut done: Seq<(Seq<u8>, ImageFormat)> = seq![];
    assert(image_scan(data@, 0, gap as int) =~= done + image_scan(data@, 0, gap as int));
    while pos < n && n - pos > gap
        invariant
            n == data@.len(),
            gap == 8 || gap == 16,
            pos <= n,
            images@.len() <= pos,
            image_scan(data@, 0, gap as int) == done + image_scan(data@, pos as int, gap as int),
            numbered(images@, done),
        decreases n - pos,
    {
        proof {
            lemma_image_at_len(data@, pos as int);
        }
        match try_extract_image_at(data, pos) {
            Some((img, fmt)) => {
                let len = img.len();
                let step = if len > 1 {
                    len
                } else {
                    1
                };
                let ghost item = (img@, fmt);
                assert(image_scan(data@, pos as int, gap as int) == seq![item] + image_scan(
                    data@,
                    pos + step,
                    gap as int,
                ));
                push_image(&mut images, img, fmt, Ghost(done));
                proof {
                    assert(done + (seq![item] + image_scan(data@, pos + step, gap as int)) =~= done.push(item)
                        + image_scan(data@, pos + step, gap as int));
                    done = done.push(item);
                }
                pos = pos + step;
            },
            None => {
                pos = pos + 1;
            },
        }
    }
    assert(image_scan(data@, pos as int, gap as int) =~= Seq::<(Seq<u8>, ImageFormat)>::empty());
    assert(done =~= image_scan(data@, 0, gap as int));
    images
}

/// Word document (.doc) converter.
pub struct DocConverter;

impl DocConverter {
    /// The images found in a Data or Pictures stream: at each position
    /// (while 8 more bytes follow) an image that starts there is taken and
    /// skipped, else the scan moves one byte on.
    pub fn extract_blips_from_data(data: &[u8]) -> (r: Vec<LegacyImage>)
        ensures
            numbered(r@, image_scan(data@, 0, 8)),
    {
        scan_images(data, 8)
    }

    /// The images found in a WordDocument stream, the same way as
    /// [`DocConverter::extract_blips_from_data`] but while 16 more bytes
    /// follow.
    pub fn scan_for_images(data: &[u8]) -> (r: Vec<LegacyImage>)
        ensures
            numbered(r@, image_scan(data@, 0, 16)),
    {
        scan_images(data, 16)
    }

    /// The image that starts at `pos`, if any.
    pub fn try_extract_image_at(data: &[u8], pos: usize) -> (r: Option<(Vec<u8>, ImageFormat)>)
        ensures
            match r {
                Some(x) => image_at(data@, pos as int) == Some((x.0@, x.1)),
                None => image_at(data@, pos as int) is None,
            },
    {
        try_extract_image_at(data, pos)
    }

    /// The end of a JPEG image that starts the data.
    pub fn find_jpeg_end(data: &[u8]) -> (r: Option<usize>)
        requires
            data@.len() >= 1,
        ensures
            match r {
                Some(e) => jpeg_end(data@) == Some(e as int),
                None => jpeg_end(data@) is None,
            },
    {
        find_jpeg_end(data)
    }

    /// The end of a PNG image that starts the data.
    pub fn find_png_end(data: &[u8]) -> (r: Option<usize>)
        requires
            data@.len() >= 8,
        ensures
            match r {
                Some(e) => png_end(data@) == Some(e as int),
                None => png_end(data@) is None,
            },
    {
        find_png_end(data)
    }

    /// The end of a metafile that starts the data.
    pub fn find_metafile_end(data: &[u8]) -> (r: usize)
        requires
            data@.len() >= 8,
        ensures
            r as int == metafile_end(data@),
    {
        find_metafile_end(data)
    }
}


// ---------------------------------------------------------------------
// PowerPoint pictures
// ---------------------------------------------------------------------

/// The image format and header size of a BLIP record type, if the record
/// is a BLIP.
pub open spec fn blip_kind(rec_type: nat, ver_inst: u16) -> Option<(ImageFormat, int)> {
    if rec_type == 0xF01A {
        Some((ImageFormat::Emf, 50))
    } else if rec_type == 0xF01B {
        Some((ImageFormat::Wmf, 50))
    } else if rec_type == 0xF01C {
        Some((ImageFormat::Pict, 50))
    } else if rec_type == 0xF01D || rec_type == 0xF02A {
        Some((ImageFormat::Jpeg, if (ver_inst >> 4u16) == 0x46Bu16 {
            33
        } else {
            17
        }))
    } else if rec_type == 0xF01E {
        Some((ImageFormat::Png, if (ver_inst >> 4u16) == 0x6E1u16 {
            33
        } else {
            17
        }))
    } else if rec_type == 0xF01F {
        Some((ImageFormat::Dib, 17))
    } else {
        None
    }
}

/// The images of a Pictures stream, reading records from `pos`: each
/// record has an 8-byte header (version and instance, type, length); a
/// record whose length is zero or runs past the end is skipped by one byte;
/// a BLIP record whose data is longer than its header yields the data after
/// the header, if longer than 16 bytes, with the format detected from the
/// data (or the record type's format).
pub open spec fn pictures_from(d: Seq<u8>, pos: int) -> Seq<(Seq<u8>, ImageFormat)>
    decreases d.len() + 1 - pos,
{
    if pos < 0 || pos + 8 > d.len() {
        seq![]
    } else {
        let vi = le16_spec(d[pos], d[pos + 1]) as u16;
        let rt = le16_spec(d[pos + 2], d[pos + 3]);
        let rl = le32_spec(d[pos + 4], d[pos + 5], d[pos + 6], d[pos + 7]) as int;
        let p = pos + 8;
        if rl == 0 || rl > d.len() - p {
            pictures_from(d, p + 1)
        } else {
            let rest = pictures_from(d, p + rl);
            match blip_kind(rt, vi) {
                None => rest,
                Some((fmt, hs)) => {
                    let rec = d.subrange(p, p + rl);
                    if rec.len() > hs {
                        let img = rec.skip(hs);
                        let det = detect_format(img);
                        let fin = if det != ImageFormat::Unknown {
                            det
                        } else {
                            fmt
                        };
                        if img.len() > 16 {
                            seq![(img, fin)] + rest
                        } else {
                            rest
                        }
                    } else {
                        rest
                    }
                },
            }
        }
    }
}

/// PowerPoint presentation (.ppt) converter.
pub struct PptConverter;

/// The images found by scanning a PowerPoint Document stream from `pos`
/// (while 16 more bytes follow) for JPEG and PNG images.
pub open spec fn ppt_scan(d: Seq<u8>, pos: int) -> Seq<(Seq<u8>, ImageFormat)>
    decreases d.len() - pos,
{
    if pos < 0 || pos + 16 >= d.len() {
        seq![]
    } else {
        let s = d.skip(pos);
        proof {
            lemma_jpeg_end_from(s, 2);
            lemma_png_end_from(s, 8);
        }
        if jpeg_at(s, 0) && jpeg_end(s) is Some {
            let e = jpeg_end(s).unwrap();
            seq![(s.take(e), ImageFormat::Jpeg)] + ppt_scan(d, pos + e)
        } else if png_at(s, 0) && png_end(s) is Some {
            let e = png_end(s).unwrap();
            seq![(s.take(e), ImageFormat::Png)] + ppt_scan(d, pos + e)
        } else {
            ppt_scan(d, pos + 1)
        }
    }
}

impl PptConverter {
    /// The images of a Pictures stream (BLIP records).
    pub fn parse_pictures_stream(data: &[u8]) -> (r: Vec<LegacyImage>)
        ensures
            numbered(r@, pictures_from(data@, 0)),
    {
        let n = data.len();
        let mut images: Vec<LegacyImage> = Vec::new();
        let mut pos: usize = 0;
        let ghost mut done: Seq<(Seq<u8>, ImageFormat)> = seq![];
        assert(pictures_from(data@, 0) =~= done + pictures_from(data@, 0));
        while pos <= n && n - pos >= 8
            invariant
                n == data@.len(),
                pos <= n + 1,
                images@.len() <= pos,
                pictures_from(data@, 0) == done + pictures_from(data@, pos as int),
                numbered(images@, done),
            decreases n + 1 - pos,
        {
            let vi = le16(data[pos], data[pos + 1]);
            let rt = le16(data[pos + 2], data[pos + 3]);
            let rl = le32(data[pos + 4], data[pos + 5], data[pos + 6], data[pos + 7]) as usize;
            let ghost p0 = pos as int;
            pos = pos + 8;
            if rl == 0 || rl > n - pos {
                if pos == n {
                    assert(pictures_from(data@, pos + 1) =~= Seq::<(Seq<u8>, ImageFormat)>::empty());
                    assert(done =~= pictures_from(data@, 0));
                    return images;
                }
                pos = pos + 1;
                continue;
            }
            let kind: Option<(ImageFormat, usize)> = if rt == 0xF01A {
                Some((ImageFormat::Emf, 50))
            } else if rt == 0xF01B {
                Some((ImageFormat::Wmf, 50))
            } else if rt == 0xF01C {
                Some((ImageFormat::Pict, 50))
            } else if rt == 0xF01D || rt == 0xF02A {
                Some((ImageFormat::Jpeg, if (vi >> 4u16) == 0x46Bu16 {
                    33
                } else {
                    17
                }))
            } else if rt == 0xF01E {
                Some((ImageFormat::Png, if (vi >> 4u16) == 0x6E1u16 {
                    33
                } else {
                    17
                }))
            } else if rt == 0xF01F {
                Some((ImageFormat::Dib, 17))
            } else {
                None
            };
            assert(kind matches Some((f, h)) ==> blip_kind(rt as nat, vi) == Some((f, h as int)));
            assert(kind is None ==> blip_kind(rt as nat, vi) is None);
            match kind {
                None => {},
                Some((fmt, hs)) => {
                    if rl > hs {
                        let img = sub_vec(data, pos + hs, pos + rl);
                        assert(img@ =~= data@.subrange(pos as int, pos + rl).skip(hs as int));
                        let det = ImageFormat::detect(img.as_slice());
                        let fin = if det != ImageFormat::Unknown {
                            det
                        } else {
                            fmt
                        };
                        if img.len() > 16 {
                            let ghost item = (img@, fin);
                            push_image(&mut images, img, fin, Ghost(done));
                            proof {
                                assert(done + (seq![item] + pictures_from(data@, pos + rl)) =~= done.push(item)
                                    + pictures_from(data@, pos + rl));
                                done = done.push(item);
                            }
                        }
                    }
                },
            }
            pos = pos + rl;
        }
        assert(pictures_from(data@, pos as int) =~= Seq::<(Seq<u8>, ImageFormat)>::empty());
        assert(done =~= pictures_from(data@, 0));
        images
    }

    /// The JPEG and PNG images found in a PowerPoint Document stream.
    pub fn scan_ppt_for_images(data: &[u8]) -> (r: Vec<LegacyImage>)
        ensures
            numbered(r@, ppt_scan(data@, 0)),
    {
        let n = data.len();
        let mut images: Vec<LegacyImage> = Vec::new();
        let mut pos: usize = 0;
        let ghost mut done: Seq<(Seq<u8>, ImageFormat)> = seq![];
        assert(ppt_scan(data@, 0) =~= done + ppt_scan(data@, 0));
        while pos < n && n - pos > 16
            invariant
                n == data@.len(),
                pos <= n,
                images@.len() <= pos,
                ppt_scan(data@, 0) == done + ppt_scan(data@, pos as int),
                numbered(images@, done),
            decreases n - pos,
        {
            let ghost s = data@.skip(pos as int);
            proof {
                lemma_shift(data@, pos as int, 0);
                lemma_jpeg_end_from(s, 2);
                lemma_png_end_from(s, 8);
            }
            if is_jpeg_at(data, pos) {
                if let Some(end) = find_jpeg_end_at(data, pos) {
                    let img = sub_vec(data, pos, pos + end);
                    assert(img@ =~= s.take(end as int));
                    let ghost item = (img@, ImageFormat::Jpeg);
                    push_image(&mut images, img, ImageFormat::Jpeg, Ghost(done));
                    proof {
                        assert(done + (seq![item] + ppt_scan(data@, pos + end)) =~= done.push(item) + ppt_scan(
                            data@,
                            pos + end,
                        ));
                        done = done.push(item);
                    }
                    pos = pos + end;
                    continue;
                }
            }
            if is_png_at(data, pos) {
                if let Some(end) = find_png_end_at(data, pos) {
                    let img = sub_vec(data, pos, pos + end);
                    assert(img@ =~= s.take(end as int));
                    let ghost item = (img@, ImageFormat::Png);
                    push_image(&mut images, img, ImageFormat::Png, Ghost(done));
                    proof {
                        assert(done + (seq![item] + ppt_scan(data@, pos + end)) =~= done.push(item) + ppt_scan(
                            data@,
                            pos + end,
                        ));
                        done = done.push(item);
                    }
                    pos = pos + end;
                    continue;
                }
            }
            pos = pos + 1;
        }
        assert(ppt_scan(data@, pos as int) =~= Seq::<(Seq<u8>, ImageFormat)>::empty());
        assert(done =~= ppt_scan(data@, 0));
        images
    }
}

} // verus!
