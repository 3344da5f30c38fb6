//! Main functions doing actual work.
//!
//! Use [`guess_format`] to identify an image's codec from its extension or
//! magic bytes, have the codec collaborator decode the file to the size given
//! by [`image_resized_size`], and display the resized samples with
//! `write_[no_]ansi[_truecolor]()` or [`write_ascii`], or display them
//! yourself with approximations from [`create_colourtable`].

use vstd::prelude::*;
use vstd::string::StrSliceExecFns;
use crate::error::Error;
use crate::pixels::{Rgb, Rgba, PixelBuffer};
use crate::util::{closest_in, closest_colour, bg_colours_for, fg_escape, bg_escape,
    ansi_colour_escape, ansi_bg_colour_escape, ansi_reset_attributes};

mod no_ansi;

pub use no_ansi::{console_cell_attribute, rgb_from_console_colour, write_no_ansi};

verus! {

/// The codec identifier of an encoded image file, consumed by the decoder
/// collaborator.
#[derive(Clone, Copy, Debug, PartialEq, Eq, Structural, Hash)]
pub enum FormatTag {
    Png,
    Jpeg,
    Gif,
    WebP,
    Pnm,
    Tiff,
    Tga,
    Bmp,
    Ico,
    Hdr,
}

/// ASCII upper-case letters folded to lower case; all else unchanged.
pub open spec fn lower_char(c: char) -> char {
    if 'A' <= c && c <= 'Z' {
        ((c as u8 + 32) as u8) as char
    } else {
        c
    }
}

/// A character sequence with its ASCII upper-case letters folded.
pub open spec fn to_lower(s: Seq<char>) -> Seq<char> {
    Seq::new(s.len(), |i: int| lower_char(s[i]))
}

/// The extension table of the sniffer, on an already lower-cased extension.
pub open spec fn ext_format(ext: Seq<char>) -> Option<FormatTag> {
    if ext == "png"@ {
        Some(FormatTag::Png)
    } else if ext == "jpg"@ || ext == "jpeg"@ || ext == "jpe"@ || ext == "jif"@ || ext == "jfif"@
        || ext == "jfi"@ {
        Some(FormatTag::Jpeg)
    } else if ext == "gif"@ {
        Some(FormatTag::Gif)
    } else if ext == "webp"@ {
        Some(FormatTag::WebP)
    } else if ext == "ppm"@ {
        Some(FormatTag::Pnm)
    } else if ext == "tiff"@ || ext == "tif"@ {
        Some(FormatTag::Tiff)
    } else if ext == "tga"@ {
        Some(FormatTag::Tga)
    } else if ext == "bmp"@ || ext == "dib"@ {
        Some(FormatTag::Bmp)
    } else if ext == "ico"@ {
        Some(FormatTag::Ico)
    } else if ext == "hdr"@ {
        Some(FormatTag::Hdr)
    } else {
        None
    }
}

fn lower_char_of(c: char) -> (r: char)
    ensures
        r == lower_char(c),
{
    if c >= 'A' && c <= 'Z' {
        (c as u8 + 32) as char
    } else {
        c
    }
}

/// Whether `s`, lower-cased, spells exactly `pat`.
fn eq_lowercase(s: &str, pat: &str) -> (r: bool)
    ensures
        r == (to_lower(s@) == pat@),
{
    let n = s.unicode_len();
    if n != pat.unicode_len() {
        return false;
    }
    let mut i: usize = 0;
    while i < n
        invariant
            i <= n,
            n == s@.len(),
            n == pat@.len(),
            forall|j: int| 0 <= j < i ==> to_lower(s@)[j] == pat@[j],
        decreases n - i,
    {
        let lc = lower_char_of(s.get_char(i));
        if lc != pat.get_char(i) {
            assert(to_lower(s@)[i as int] != pat@[i as int]);
            return false;
        }
        i = i + 1;
    }
    proof {
        assert(to_lower(s@) =~= pat@);
    }
    true
}

/// Map a file extension (any case) through the fixed extension table.
///
/// An extension match is authoritative: the sniffer never falls through to
/// magic bytes after one, even if the extension is wrong.
pub fn format_from_extension(ext: &str) -> (r: Option<FormatTag>)
    ensures
        r == ext_format(to_lower(ext@)),
{
    if eq_lowercase(ext, "png") {
        Some(FormatTag::Png)
    } else if eq_lowercase(ext, "jpg") || eq_lowercase(ext, "jpeg") || eq_lowercase(ext, "jpe")
        || eq_lowercase(ext, "jif") || eq_lowercase(ext, "jfif") || eq_lowercase(ext, "jfi") {
        Some(FormatTag::Jpeg)
    } else if eq_lowercase(ext, "gif") {
        Some(FormatTag::Gif)
    } else if eq_lowercase(ext, "webp") {
        Some(FormatTag::WebP)
    } else if eq_lowercase(ext, "ppm") {
        Some(FormatTag::Pnm)
    } else if eq_lowercase(ext, "tiff") || eq_lowercase(ext, "tif") {
        Some(FormatTag::Tiff)
    } else if eq_lowercase(ext, "tga") {
        Some(FormatTag::Tga)
    } else if eq_lowercase(ext, "bmp") || eq_lowercase(ext, "dib") {
        Some(FormatTag::Bmp)
    } else if eq_lowercase(ext, "ico") {
        Some(FormatTag::Ico)
    } else if eq_lowercase(ext, "hdr") {
        Some(FormatTag::Hdr)
    } else {
        None
    }
}

/// Magic number determining whether an image is a PNG.
pub open spec fn png_magic() -> Seq<u8> {
    seq![0x89u8, 0x50u8, 0x4Eu8, 0x47u8, 0x0Du8, 0x0Au8, 0x1Au8, 0x0Au8]
}

/// Magic number determining whether an image is a JPEG.
pub open spec fn jpeg_magic() -> Seq<u8> {
    seq![0xFFu8, 0xD8u8, 0xFFu8, 0xE0u8]
}

/// Magic number determining whether an image is a GIF.
pub open spec fn gif_magic() -> Seq<u8> {
    seq![0x47u8, 0x49u8, 0x46u8, 0x38u8]
}

/// Magic number determining whether an image is a BMP.
pub open spec fn bmp_magic() -> Seq<u8> {
    seq![0x42u8, 0x4Du8]
}

/// Magic number determining whether an image is an ICO.
pub open spec fn ico_magic() -> Seq<u8> {
    seq![0x00u8, 0x00u8, 0x01u8, 0x00u8]
}

/// Whether `b` starts with the magic number `m`.
pub open spec fn magic_prefix(b: Seq<u8>, m: Seq<u8>) -> bool {
    b.len() >= m.len() && b.take(m.len() as int) == m
}

/// The magic-byte table of the sniffer, checked in the order PNG, JPEG, GIF,
/// BMP, ICO; the first match wins.
pub open spec fn magic_format(b: Seq<u8>) -> Option<FormatTag> {
    if magic_prefix(b, png_magic()) {
        Some(FormatTag::Png)
    } else if magic_prefix(b, jpeg_magic()) {
        Some(FormatTag::Jpeg)
    } else if magic_prefix(b, gif_magic()) {
        Some(FormatTag::Gif)
    } else if magic_prefix(b, bmp_magic()) {
        Some(FormatTag::Bmp)
    } else if magic_prefix(b, ico_magic()) {
        Some(FormatTag::Ico)
    } else {
        None
    }
}

fn magic_prefix_check(buf: &[u8], m: &Vec<u8>) -> (r: bool)
    ensures
        r == magic_prefix(buf@, m@),
{
    let k = m.len();
    if buf.len() < k {
        return false;
    }
    let mut i: usize = 0;
    while i < k
        invariant
            i <= k,
            k == m@.len(),
            buf@.len() >= k,
            forall|j: int| 0 <= j < i ==> buf@.take(k as int)[j] == m@[j],
        decreases k - i,
    {
        if *vstd::slice::slice_index_get(buf, i) != m[i] {
            assert(buf@.take(k as int)[i as int] != m@[i as int]);
            return false;
        }
        i = i + 1;
    }
    proof {
        assert(buf@.take(k as int) =~= m@);
    }
    true
}

/// The PNG magic number as bytes.
pub fn png_magic_bytes() -> (r: Vec<u8>)
    ensures
        r@ == png_magic(),
{
    let mut v: Vec<u8> = Vec::new();
    v.push(0x89);
    v.push(0x50);
    v.push(0x4E);
    v.push(0x47);
    v.push(0x0D);
    v.push(0x0A);
    v.push(0x1A);
    v.push(0x0A);
    proof {
        assert(v@ =~= png_magic());
    }
    v
}

/// The JPEG magic number as bytes.
pub fn jpeg_magic_bytes() -> (r: Vec<u8>)
    ensures
        r@ == jpeg_magic(),
{
    let mut v: Vec<u8> = Vec::new();
    v.push(0xFF);
    v.push(0xD8);
    v.push(0xFF);
    v.push(0xE0);
    proof {
        assert(v@ =~= jpeg_magic());
    }
    v
}

/// The GIF magic number as bytes.
pub fn gif_magic_bytes() -> (r: Vec<u8>)
    ensures
        r@ == gif_magic(),
{
    let mut v: Vec<u8> = Vec::new();
    v.push(0x47);
    v.push(0x49);
    v.push(0x46);
    v.push(0x38);
    proof {
        assert(v@ =~= gif_magic());
    }
    v
}

/// The BMP magic number as bytes.
pub fn bmp_magic_bytes() -> (r: Vec<u8>)
    ensures
        r@ == bmp_magic(),
{
    let mut v: Vec<u8> = Vec::new();
    v.push(0x42);
    v.push(0x4D);
    proof {
        assert(v@ =~= bmp_magic());
    }
    v
}

/// The ICO magic number as bytes.
pub fn ico_magic_bytes() -> (r: Vec<u8>)
    ensures
        r@ == ico_magic(),
{
    let mut v: Vec<u8> = Vec::new();
    v.push(0x00);
    v.push(0x00);
    v.push(0x01);
    v.push(0x00);
    proof {
        assert(v@ =~= ico_magic());
    }
    v
}

/// Match the first bytes of a file against the known magic numbers.
pub fn format_from_magic(buf: &[u8]) -> (r: Option<FormatTag>)
    ensures
        r == magic_format(buf@),
{
    let png = png_magic_bytes();
    let jpeg = jpeg_magic_bytes();
    let gif = gif_magic_bytes();
    let bmp = bmp_magic_bytes();
    let ico = ico_magic_bytes();
    if magic_prefix_check(buf, &png) {
        Some(FormatTag::Png)
    } else if magic_prefix_check(buf, &jpeg) {
        Some(FormatTag::Jpeg)
    } else if magic_prefix_check(buf, &gif) {
        Some(FormatTag::Gif)
    } else if magic_prefix_check(buf, &bmp) {
        Some(FormatTag::Bmp)
    } else if magic_prefix_check(buf, &ico) {
        Some(FormatTag::Ico)
    } else {
        None
    }
}

/// Guess the image format from its extension or magic.
///
/// `name` is the user-facing name of the file; `extension` its path
/// extension, if it has one; `prefix` the first bytes of its contents (up to
/// 32), or `None` where the file could not be opened. The extension is
/// consulted first and a match is final; only when it yields nothing are the
/// contents looked at, so `prefix` matters only then.
pub fn guess_format(name: &String, extension: Option<&str>, prefix: Option<&[u8]>) -> (r: Result<
    FormatTag,
    Error,
>)
    ensures
        (match extension {
            Some(e) => ext_format(to_lower(e@)),
            None => None,
        }) matches Some(t) ==> r == Ok::<FormatTag, Error>(t),
        (match extension {
            Some(e) => ext_format(to_lower(e@)),
            None => None,
        }) is None ==> (match prefix {
            None => r matches Err(e) && e matches Error::OpeningImageFailed(n) && n@ == name@,
            Some(p) => (match magic_format(p@) {
                Some(t) => r == Ok::<FormatTag, Error>(t),
                None => r matches Err(e) && e matches Error::GuessingFormatFailed(n) && n@
                    == name@,
            }),
        }),
{
    match extension {
        Some(e) => {
            match format_from_extension(e) {
                Some(t) => {
                    return Ok(t);
                },
                None => {},
            }
        },
        None => {},
    }
    match prefix {
        None => Err(Error::OpeningImageFailed(name.clone())),
        Some(p) => {
            match format_from_magic(p) {
                Some(t) => Ok(t),
                None => Err(Error::GuessingFormatFailed(name.clone())),
            }
        },
    }
}

/// The planned target size in pixels: the unconstrained target is the cell
/// grid with its height doubled (two pixel rows per terminal row); under
/// aspect preservation both source dimensions are scaled by the binding
/// constraint and truncated.
pub open spec fn planned_size(size: (u32, u32), term_size: (u32, u32), preserve_aspect: bool) -> (
    int,
    int,
) {
    let w = size.0;
    let h = size.1;
    let nw = term_size.0;
    let nh = 2 * term_size.1;
    if !preserve_aspect {
        (nw as int, nh)
    } else if nw * h > nh * w {
        ((w * nh) / (h as int), nh)
    } else {
        (nw as int, (h * nw) / (w as int))
    }
}

/// Get the image size to downscale to, given its size, the terminal's size
/// and whether to preserve its aspect.
///
/// The resulting image size is twice as tall as the terminal size because two
/// pixels are printed per cell (height-wise). With `preserve_aspect`, the
/// scale is `nh/h` when the target box is relatively wider than the source
/// (`nw/nh > w/h`), else `nw/w`, so the result never exceeds the box.
pub fn image_resized_size(size: (u32, u32), term_size: (u32, u32), preserve_aspect: bool) -> (r: (
    u32,
    u32,
))
    requires
        size.0 > 0,
        size.1 > 0,
        term_size.0 > 0,
        term_size.1 <= 0x7FFF_FFFF,
    ensures
        (r.0 as int, r.1 as int) == planned_size(size, term_size, preserve_aspect),
{
    if !preserve_aspect {
        return (term_size.0, term_size.1 * 2);
    }
    let (width, height) = size;
    let nwidth = term_size.0 as u64;
    let nheight = term_size.1 as u64 * 2;
    let w = width as u64;
    let h = height as u64;
    proof {
        assert(nwidth * h <= u64::MAX && nheight * w <= u64::MAX && w * nheight <= u64::MAX && h
            * nwidth <= u64::MAX) by (nonlinear_arith)
            requires
                nwidth <= u32::MAX,
                nheight <= u32::MAX + 1,
                w <= u32::MAX,
                h <= u32::MAX,
        ;
    }
    if nwidth * h > nheight * w {
        let rw = (w * nheight) / h;
        proof {
            assert(w as int * nheight as int / (h as int) < nwidth as int) by (nonlinear_arith)
                requires
                    h > 0,
                    (w as int) * (nheight as int) < (nwidth as int) * (h as int),
            ;
        }
        (rw as u32, (nheight) as u32)
    } else {
        let rh = (h * nwidth) / w;
        proof {
            assert(h as int * nwidth as int / (w as int) <= nheight as int) by (nonlinear_arith)
                requires
                    w > 0,
                    (nwidth as int) * (h as int) <= (nheight as int) * (w as int),
            ;
        }
        (nwidth as u32, rh as u32)
    }
}

/// The line-major table of (upper, lower) colour approximation indices for an
/// image: one row per pair of pixel rows, each cell matching the upper pixel
/// against `upper` and the lower pixel against `lower`.
pub open spec fn colour_table(img: PixelBuffer, upper: Seq<Rgb>, lower: Seq<Rgb>) -> Seq<
    Seq<(usize, usize)>,
> {
    Seq::new(
        (img.height / 2) as nat,
        |y: int|
            Seq::new(
                img.width as nat,
                |x: int|
                    (
                        closest_in(img.spec_pixel(x, 2 * y).spec_rgb(), upper) as usize,
                        closest_in(img.spec_pixel(x, 2 * y + 1).spec_rgb(), lower) as usize,
                    ),
            ),
    )
}

/// Create a line-major table of (upper, lower) colour approximation indices
/// given the supported colours therefor.
///
/// Row `y` of the table reads source rows `2y` (upper) and `2y + 1` (lower),
/// columns left to right; an odd trailing source row is ignored.
pub fn create_colourtable(
    img: &PixelBuffer,
    upper_colours: &[Rgb],
    lower_colours: &[Rgb],
) -> (r: Vec<Vec<(usize, usize)>>)
    requires
        img.wf(),
        upper_colours@.len() > 0,
        lower_colours@.len() > 0,
    ensures
        r.deep_view() == colour_table(*img, upper_colours@, lower_colours@),
        r@.len() == img.height / 2,
        forall|y: int| 0 <= y < r@.len() ==> (#[trigger] r@[y])@.len() == img.width,
        forall|y: int, x: int|
            0 <= y < r@.len() && 0 <= x < img.width ==> #[trigger] r@[y]@[x] == colour_table(
                *img,
                upper_colours@,
                lower_colours@,
            )[y][x],
{
    let ghost t = colour_table(*img, upper_colours@, lower_colours@);
    let term_h = img.height / 2;
    let mut result: Vec<Vec<(usize, usize)>> = Vec::new();
    let mut y: u32 = 0;
    while y < term_h
        invariant
            y <= term_h,
            term_h == img.height / 2,
            img.wf(),
            upper_colours@.len() > 0,
            lower_colours@.len() > 0,
            t == colour_table(*img, upper_colours@, lower_colours@),
            result@.len() == y,
            forall|yy: int| 0 <= yy < y ==> (#[trigger] result@[yy])@ =~= t[yy],
        decreases term_h - y,
    {
        let upper_y = y * 2;
        let lower_y = upper_y + 1;
        let mut row: Vec<(usize, usize)> = Vec::new();
        let mut x: u32 = 0;
        while x < img.width
            invariant
                x <= img.width,
                y < term_h,
                term_h == img.height / 2,
                upper_y == 2 * y,
                lower_y == 2 * y + 1,
                img.wf(),
                upper_colours@.len() > 0,
                lower_colours@.len() > 0,
                t == colour_table(*img, upper_colours@, lower_colours@),
                row@.len() == x,
                forall|xx: int| 0 <= xx < x ==> row@[xx] == t[y as int][xx],
            decreases img.width - x,
        {
            let up = closest_colour(img.get_pixel(x, upper_y).to_rgb(), upper_colours);
            let low = closest_colour(img.get_pixel(x, lower_y).to_rgb(), lower_colours);
            row.push((up, low));
            x = x + 1;
        }
        proof {
            assert(row@ =~= t[y as int]);
        }
        result.push(row);
        y = y + 1;
    }
    proof {
        assert(result.deep_view() =~~= t);
    }
    result
}

/// Building the colour table is deterministic: any two tables built from the
/// same pixel buffer and palettes are identical.
pub proof fn lemma_colourtable_deterministic(
    a: Vec<Vec<(usize, usize)>>,
    b: Vec<Vec<(usize, usize)>>,
    img: PixelBuffer,
    upper: Seq<Rgb>,
    lower: Seq<Rgb>,
)
    requires
        a.deep_view() == colour_table(img, upper, lower),
        b.deep_view() == colour_table(img, upper, lower),
    ensures
        a.deep_view() == b.deep_view(),
{
}

/// One 16-colour cell: a foreground escape keyed by the upper index, a
/// background escape keyed by the lower index, then the half-block glyph.
pub open spec fn ansi_cell(upper: int, lower: int) -> Seq<char> {
    fg_escape(upper) + bg_escape(lower) + "\u{2580}"@
}

/// The first `n` cells of one 16-colour output row.
pub open spec fn ansi_row(cells: Seq<(usize, usize)>, n: int) -> Seq<char>
    decreases n,
{
    if n <= 0 {
        Seq::empty()
    } else {
        ansi_row(cells, n - 1) + ansi_cell(cells[n - 1].0 as int, cells[n - 1].1 as int)
    }
}

/// The first `n` rows of the 16-colour output, each terminated by an
/// attribute reset and a line break.
pub open spec fn ansi_rows(table: Seq<Seq<(usize, usize)>>, n: int) -> Seq<char>
    decreases n,
{
    if n <= 0 {
        Seq::empty()
    } else {
        ansi_rows(table, n - 1) + ansi_row(table[n - 1], table[n - 1].len() as int) + "\x1B[0m"@
            + "\n"@
    }
}

/// The whole 16-colour rendering of an image: its colour table against the
/// foreground palette and that palette's first 8 entries as backgrounds,
/// emitted row by row.
pub open spec fn ansi_output(img: PixelBuffer, fg: Seq<Rgb>) -> Seq<char> {
    let t = colour_table(img, fg, fg.take(8));
    ansi_rows(t, t.len() as int)
}

/// Render the image as 16-colour ANSI text, approximating it to the given
/// foreground colours (and their first 8 entries as backgrounds).
pub fn render_ansi(img: &PixelBuffer, foreground_colours: &[Rgb]) -> (r: String)
    requires
        img.wf(),
        foreground_colours@.len() == 16,
    ensures
        r@ == ansi_output(*img, foreground_colours@),
{
    let ghost t = colour_table(*img, foreground_colours@, foreground_colours@.take(8));
    let bg = bg_colours_for(foreground_colours);
    let table = create_colourtable(img, foreground_colours, bg);
    let mut out = String::new();
    let term_h = table.len();
    let mut y: usize = 0;
    while y < term_h
        invariant
            y <= term_h,
            term_h == t.len(),
            t == colour_table(*img, foreground_colours@, foreground_colours@.take(8)),
            img.wf(),
            foreground_colours@.len() == 16,
            table@.len() == t.len(),
            forall|yy: int| 0 <= yy < t.len() ==> (#[trigger] table@[yy])@.len() == t[yy].len(),
            forall|yy: int, xx: int|
                0 <= yy < t.len() && 0 <= xx < t[yy].len() ==> #[trigger] table@[yy]@[xx]
                    == t[yy][xx],
            out@ == ansi_rows(t, y as int),
        decreases term_h - y,
    {
        let width = table[y].len();
        let mut x: usize = 0;
        while x < width
            invariant
                x <= width,
                y < term_h,
                term_h == t.len(),
                t == colour_table(*img, foreground_colours@, foreground_colours@.take(8)),
                img.wf(),
                foreground_colours@.len() == 16,
                table@.len() == t.len(),
                width == t[y as int].len(),
                forall|yy: int| 0 <= yy < t.len() ==> (#[trigger] table@[yy])@.len() == t[yy].len(),
                forall|yy: int, xx: int|
                    0 <= yy < t.len() && 0 <= xx < t[yy].len() ==> #[trigger] table@[yy]@[xx]
                        == t[yy][xx],
                out@ == ansi_rows(t, y as int) + ansi_row(t[y as int], x as int),
            decreases width - x,
        {
            let cell = (&table[y])[x];
            proof {
                crate::util::lemma_closest_in_min(
                    img.spec_pixel(x as int, 2 * y).spec_rgb(),
                    foreground_colours@,
                );
                crate::util::lemma_closest_in_min(
                    img.spec_pixel(x as int, 2 * y + 1).spec_rgb(),
                    foreground_colours@.take(8),
                );
            }
            out.append(ansi_colour_escape(cell.0));
            out.append(ansi_bg_colour_escape(cell.1));
            out.append("\u{2580}");
            proof {
                assert(out@ =~= ansi_rows(t, y as int) + ansi_row(t[y as int], x as int + 1));
            }
            x = x + 1;
        }
        out.append(ansi_reset_attributes());
        out.append("\n");
        proof {
            assert(out@ =~= ansi_rows(t, y as int + 1));
        }
        y = y + 1;
    }
    out
}

/// Relies on std::io::Write::write_all to hand the rendered text to the
/// sink, whole. The sink's own failures are outside the rendering core and
/// are discarded.
#[verifier::external_body]
pub(crate) fn write_str<W: std::io::Write>(out: &mut W, s: &str) {
    let _ = out.write_all(s.as_bytes());
}

/// Relies on std::io::stdout and std::io::Write::write_all to put the
/// rendered text on standard output, whole; failures of the stream are
/// discarded.
#[verifier::external_body]
fn print_str(s: &str) {
    let _ = std::io::Write::write_all(&mut std::io::stdout(), s.as_bytes());
}

/// Display the specified image approximating it to the specified colours in
/// the default console using ANSI escape codes.
///
/// The text written is exactly [`render_ansi`]'s, whose contract pins it.
pub fn write_ansi<W: std::io::Write>(out: &mut W, img: &PixelBuffer, foreground_colours: &[Rgb])
    requires
        img.wf(),
        foreground_colours@.len() == 16,
{
    let s = render_ansi(img, foreground_colours);
    write_str(out, s.as_str());
}

/// The decimal digits of a byte value, most significant first, no leading
/// zeroes.
pub open spec fn dec_u8(n: int) -> Seq<char> {
    if n < 10 {
        seq![digit(n)]
    } else if n < 100 {
        seq![digit(n / 10), digit(n % 10)]
    } else {
        seq![digit(n / 100), digit((n / 10) % 10), digit(n % 10)]
    }
}

/// One decimal digit as a character.
pub open spec fn digit(d: int) -> char {
    if d == 0 {
        '0'
    } else if d == 1 {
        '1'
    } else if d == 2 {
        '2'
    } else if d == 3 {
        '3'
    } else if d == 4 {
        '4'
    } else if d == 5 {
        '5'
    } else if d == 6 {
        '6'
    } else if d == 7 {
        '7'
    } else if d == 8 {
        '8'
    } else {
        '9'
    }
}

fn append_digit(out: &mut String, d: u8)
    requires
        d < 10,
    ensures
        final(out)@ == old(out)@ + seq![digit(d as int)],
{
    if d == 0 {
        out.append("0");
        proof {
            reveal_strlit("0");
            assert(old(out)@ + "0"@ =~= old(out)@ + seq![digit(d as int)]);
        }
    } else if d == 1 {
        out.append("1");
        proof {
            reveal_strlit("1");
            assert(old(out)@ + "1"@ =~= old(out)@ + seq![digit(d as int)]);
        }
    } else if d == 2 {
        out.append("2");
        proof {
            reveal_strlit("2");
            assert(old(out)@ + "2"@ =~= old(out)@ + seq![digit(d as int)]);
        }
    } else if d == 3 {
        out.append("3");
        proof {
            reveal_strlit("3");
            assert(old(out)@ + "3"@ =~= old(out)@ + seq![digit(d as int)]);
        }
    } else if d == 4 {
        out.append("4");
        proof {
            reveal_strlit("4");
            assert(old(out)@ + "4"@ =~= old(out)@ + seq![digit(d as int)]);
        }
    } else if d == 5 {
        out.append("5");
        proof {
            reveal_strlit("5");
            assert(old(out)@ + "5"@ =~= old(out)@ + seq![digit(d as int)]);
        }
    } else if d == 6 {
        out.append("6");
        proof {
            reveal_strlit("6");
            assert(old(out)@ + "6"@ =~= old(out)@ + seq![digit(d as int)]);
        }
    } else if d == 7 {
        out.append("7");
        proof {
            reveal_strlit("7");
            assert(old(out)@ + "7"@ =~= old(out)@ + seq![digit(d as int)]);
        }
    } else if d == 8 {
        out.append("8");
        proof {
            reveal_strlit("8");
            assert(old(out)@ + "8"@ =~= old(out)@ + seq![digit(d as int)]);
        }
    } else {
        out.append("9");
        proof {
            reveal_strlit("9");
            assert(old(out)@ + "9"@ =~= old(out)@ + seq![digit(d as int)]);
        }
    }
}

fn append_decimal(out: &mut String, n: u8)
    ensures
        final(out)@ == old(out)@ + dec_u8(n as int),
{
    if n >= 100 {
        append_digit(out, n / 100);
        append_digit(out, (n / 10) % 10);
        append_digit(out, n % 10);
        proof {
            assert(final(out)@ =~= old(out)@ + dec_u8(n as int));
        }
    } else if n >= 10 {
        append_digit(out, n / 10);
        append_digit(out, n % 10);
        proof {
            assert(final(out)@ =~= old(out)@ + dec_u8(n as int));
        }
    } else {
        append_digit(out, n);
        proof {
            assert(final(out)@ =~= old(out)@ + dec_u8(n as int));
        }
    }
}

/// One truecolor cell: a 24-bit foreground escape with the upper pixel's
/// literal channels, a 24-bit background escape with the lower pixel's, then
/// the half-block glyph.
pub open spec fn truecolor_cell(up: Rgb, low: Rgb) -> Seq<char> {
    "\x1B[38;2;"@ + dec_u8(up.r as int) + ";"@ + dec_u8(up.g as int) + ";"@ + dec_u8(up.b as int)
        + "m"@ + "\x1B[48;2;"@ + dec_u8(low.r as int) + ";"@ + dec_u8(low.g as int) + ";"@ + dec_u8(
        low.b as int,
    ) + "m"@ + "\u{2580}"@
}

/// The first `n` cells of one truecolor output row, pairing source rows `2y`
/// and `2y + 1`.
pub open spec fn truecolor_row(img: PixelBuffer, y: int, n: int) -> Seq<char>
    decreases n,
{
    if n <= 0 {
        Seq::empty()
    } else {
        truecolor_row(img, y, n - 1) + truecolor_cell(
            img.spec_pixel(n - 1, 2 * y).spec_rgb(),
            img.spec_pixel(n - 1, 2 * y + 1).spec_rgb(),
        )
    }
}

/// The first `n` rows of the truecolor output, each terminated by an
/// attribute reset and a line break.
pub open spec fn truecolor_rows(img: PixelBuffer, n: int) -> Seq<char>
    decreases n,
{
    if n <= 0 {
        Seq::empty()
    } else {
        truecolor_rows(img, n - 1) + truecolor_row(img, n - 1, img.width as int) + "\x1B[0m"@
            + "\n"@
    }
}

/// The whole truecolor rendering of an image: no palette matching, every
/// pixel's channels emitted literally.
pub open spec fn truecolor_output(img: PixelBuffer) -> Seq<char> {
    truecolor_rows(img, (img.height / 2) as int)
}

fn append_truecolor_cell(out: &mut String, up: Rgb, low: Rgb)
    ensures
        final(out)@ == old(out)@ + truecolor_cell(up, low),
{
    out.append("\x1B[38;2;");
    append_decimal(out, up.r);
    out.append(";");
    append_decimal(out, up.g);
    out.append(";");
    append_decimal(out, up.b);
    out.append("m");
    out.append("\x1B[48;2;");
    append_decimal(out, low.r);
    out.append(";");
    append_decimal(out, low.g);
    out.append(";");
    append_decimal(out, low.b);
    out.append("m");
    out.append("\u{2580}");
    proof {
        assert(final(out)@ =~= old(out)@ + truecolor_cell(up, low));
    }
}

/// Render the image as 24-bit truecolor ANSI text.
pub fn render_ansi_truecolor(img: &PixelBuffer) -> (r: String)
    requires
        img.wf(),
    ensures
        r@ == truecolor_output(*img),
{
    let term_h = img.height / 2;
    let mut out = String::new();
    let mut y: u32 = 0;
    while y < term_h
        invariant
            y <= term_h,
            term_h == img.height / 2,
            img.wf(),
            out@ == truecolor_rows(*img, y as int),
        decreases term_h - y,
    {
        let upper_y = y * 2;
        let lower_y = upper_y + 1;
        let mut x: u32 = 0;
        while x < img.width
            invariant
                x <= img.width,
                y < term_h,
                term_h == img.height / 2,
                upper_y == 2 * y,
                lower_y == 2 * y + 1,
                img.wf(),
                out@ == truecolor_rows(*img, y as int) + truecolor_row(*img, y as int, x as int),
            decreases img.width - x,
        {
            let upper_pixel = img.get_pixel(x, upper_y).to_rgb();
            let lower_pixel = img.get_pixel(x, lower_y).to_rgb();
            append_truecolor_cell(&mut out, upper_pixel, lower_pixel);
            proof {
                assert(out@ =~= truecolor_rows(*img, y as int) + truecolor_row(
                    *img,
                    y as int,
                    x as int + 1,
                ));
            }
            x = x + 1;
        }
        out.append("\x1B[0m");
        out.append("\n");
        proof {
            assert(out@ =~= truecolor_rows(*img, y as int + 1));
        }
        y = y + 1;
    }
    out
}

/// Display the specified image in the default console using ANSI 24-bit
/// escape colour codes.
///
/// The text written is exactly [`render_ansi_truecolor`]'s, whose contract
/// pins it.
pub fn write_ansi_truecolor<W: std::io::Write>(out: &mut W, img: &PixelBuffer)
    requires
        img.wf(),
{
    let s = render_ansi_truecolor(img);
    write_str(out, s.as_str());
}

/// The grayscale intensity of a sample: the truncating average `r/3 + g/3 +
/// b/3`, forced to 0 when the sample is fully transparent.
pub open spec fn pixel_intensity(p: Rgba) -> int {
    if p.a == 0 {
        0
    } else {
        p.r / 3 + p.g / 3 + p.b / 3
    }
}

/// The luminance glyph for an intensity: one of 8 buckets of width 32 over
/// the ramp `" .,-~+=@"`, dark to light.
pub open spec fn ascii_glyph(intensity: int) -> Seq<char> {
    let idx = intensity / 32;
    if idx == 0 {
        " "@
    } else if idx == 1 {
        "."@
    } else if idx == 2 {
        ","@
    } else if idx == 3 {
        "-"@
    } else if idx == 4 {
        "~"@
    } else if idx == 5 {
        "+"@
    } else if idx == 6 {
        "="@
    } else {
        "@"@
    }
}

/// A fully transparent sample is rendered blank, whatever its colour
/// channels.
pub proof fn lemma_transparent_pixel_blank(p: Rgba)
    requires
        p.a == 0,
    ensures
        ascii_glyph(pixel_intensity(p)) == " "@,
{
}

/// The luminance glyph for an intensity value.
pub fn get_str_ascii(intent: u8) -> (r: &'static str)
    ensures
        r@ == ascii_glyph(intent as int),
{
    let index = intent / 32;
    if index == 0 {
        " "
    } else if index == 1 {
        "."
    } else if index == 2 {
        ","
    } else if index == 3 {
        "-"
    } else if index == 4 {
        "~"
    } else if index == 5 {
        "+"
    } else if index == 6 {
        "="
    } else {
        "@"
    }
}

/// The first `n` glyphs of the ASCII output row for source row `y`.
pub open spec fn ascii_row(img: PixelBuffer, y: int, n: int) -> Seq<char>
    decreases n,
{
    if n <= 0 {
        Seq::empty()
    } else {
        ascii_row(img, y, n - 1) + ascii_glyph(pixel_intensity(img.spec_pixel(n - 1, y)))
    }
}

/// The ASCII output of the first `n` source rows: one glyph row and a line
/// break per even source row, odd rows skipped.
pub open spec fn ascii_rows(img: PixelBuffer, n: int) -> Seq<char>
    decreases n,
{
    if n <= 0 {
        Seq::empty()
    } else if (n - 1) % 2 == 0 {
        ascii_rows(img, n - 1) + ascii_row(img, n - 1, img.width as int) + "\n"@
    } else {
        ascii_rows(img, n - 1)
    }
}

/// The whole ASCII-art rendering of an image.
pub open spec fn ascii_output(img: PixelBuffer) -> Seq<char> {
    ascii_rows(img, img.height as int)
}

/// Render the image in the ASCII art style: every even source row becomes a
/// line of luminance glyphs, odd rows are skipped.
pub fn render_ascii(img: &PixelBuffer) -> (r: String)
    requires
        img.wf(),
    ensures
        r@ == ascii_output(*img),
{
    let mut out = String::new();
    let mut y: u32 = 0;
    while y < img.height
        invariant
            y <= img.height,
            img.wf(),
            out@ == ascii_rows(*img, y as int),
        decreases img.height - y,
    {
        if y % 2 == 0 {
            let mut x: u32 = 0;
            while x < img.width
                invariant
                    x <= img.width,
                    y < img.height,
                    img.wf(),
                    out@ == ascii_rows(*img, y as int) + ascii_row(*img, y as int, x as int),
                decreases img.width - x,
            {
                let pix = img.get_pixel(x, y);
                let mut intent = pix.r / 3 + pix.g / 3 + pix.b / 3;
                if pix.a == 0 {
                    intent = 0;
                }
                out.append(get_str_ascii(intent));
                proof {
                    assert(out@ =~= ascii_rows(*img, y as int) + ascii_row(
                        *img,
                        y as int,
                        x as int + 1,
                    ));
                }
                x = x + 1;
            }
            out.append("\n");
            proof {
                assert(out@ =~= ascii_rows(*img, y as int + 1));
            }
        }
        y = y + 1;
    }
    out
}

/// Display the specified image in the ASCII art style on standard output.
///
/// The text written is exactly [`render_ascii`]'s, whose contract pins it.
pub fn write_ascii(img: &PixelBuffer)
    requires
        img.wf(),
{
    let s = render_ascii(img);
    print_str(s.as_str());
}

/// Without aspect preservation the plan is exactly the doubled cell grid,
/// whatever the source size.
pub proof fn lemma_unconstrained_plan(size: (u32, u32), term_size: (u32, u32))
    ensures
        planned_size(size, term_size, false) == (term_size.0 as int, 2 * term_size.1 as int),
{
}

/// Whatever the orientation, a plan that preserves aspect fits within the
/// `(cols, 2 * rows)` box.
pub proof fn lemma_planned_size_fits(size: (u32, u32), term_size: (u32, u32))
    requires
        size.0 > 0,
        size.1 > 0,
        term_size.0 > 0,
        term_size.1 > 0,
    ensures
        planned_size(size, term_size, true).0 <= term_size.0,
        planned_size(size, term_size, true).1 <= 2 * term_size.1,
{
    let w = size.0 as int;
    let h = size.1 as int;
    let nw = term_size.0 as int;
    let nh = 2 * term_size.1 as int;
    if nw * h > nh * w {
        assert(w * nh / h < nw) by (nonlinear_arith)
            requires
                h > 0,
                w * nh < nw * h,
        ;
    } else {
        assert(h * nw / w <= nh) by (nonlinear_arith)
            requires
                w > 0,
                nw * h <= nh * w,
        ;
    }
}

} // verus!
