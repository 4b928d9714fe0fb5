//! Recognising image formats and placing images and markers on screen.
use vstd::arithmetic::div_mod::{lemma_div_by_multiple, lemma_div_is_ordered};
use vstd::prelude::*;

verus! {

/// The image formats that the viewer decodes.
#[derive(Debug, Clone, Copy, PartialEq, Eq, Structural)]
pub enum ImageKind {
    Jpeg,
    Png,
    Webp,
}

/// The bytes start with no signature that the viewer knows.
#[derive(Debug, Clone, Copy, PartialEq, Eq, Structural)]
pub struct UnsupportedFormat;

/// The JPEG signature: `FF D8 FF`.
pub open spec fn jpeg_signature() -> Seq<u8> {
    seq![0xffu8, 0xd8u8, 0xffu8]
}

/// The PNG signature: `89 'P' 'N' 'G' 0D 0A 1A 0A`.
pub open spec fn png_signature() -> Seq<u8> {
    seq![0x89u8, 0x50u8, 0x4eu8, 0x47u8, 0x0du8, 0x0au8, 0x1au8, 0x0au8]
}

/// `RIFF`, at the start of a WebP file.
pub open spec fn riff_tag() -> Seq<u8> {
    seq![0x52u8, 0x49u8, 0x46u8, 0x46u8]
}

/// `WEBPVP`, eight bytes into a WebP file.
pub open spec fn webp_tag() -> Seq<u8> {
    seq![0x57u8, 0x45u8, 0x42u8, 0x50u8, 0x56u8, 0x50u8]
}

/// Whether `s` holds `tag` at `at`.
pub open spec fn holds_at(s: Seq<u8>, at: int, tag: Seq<u8>) -> bool {
    at + tag.len() <= s.len() && s.subrange(at, at + tag.len()) == tag
}

/// Whether `s` is taken for WebP: longer than the fourteen bytes that the
/// two tags span, with both tags in place.
pub open spec fn is_webp(s: Seq<u8>) -> bool {
    s.len() > 14 && holds_at(s, 0, riff_tag()) && holds_at(s, 8, webp_tag())
}

/// The format of `s`, by signature, in the order JPEG, PNG, WebP.
pub open spec fn kind_of(s: Seq<u8>) -> Option<ImageKind> {
    if holds_at(s, 0, jpeg_signature()) {
        Some(ImageKind::Jpeg)
    } else if holds_at(s, 0, png_signature()) {
        Some(ImageKind::Png)
    } else if is_webp(s) {
        Some(ImageKind::Webp)
    } else {
        None
    }
}

fn bytes_at(s: &[u8], at: usize, tag: &[u8]) -> (r: bool)
    ensures
        r == holds_at(s@, at as int, tag@),
{
    if at > s.len() || tag.len() > s.len() - at {
        return false;
    }
    let mut i: usize = 0;
    while i < tag.len()
        invariant
            at + tag@.len() <= s.len(),
            i <= tag@.len(),
            forall|j: int| 0 <= j < i ==> s@[at + j] == tag@[j],
        decreases tag@.len() - i,
    {
        if s[at + i] != tag[i] {
            assert(s@.subrange(at as int, at + tag@.len())[i as int] != tag@[i as int]);
            return false;
        }
        i += 1;
    }
    assert(s@.subrange(at as int, at + tag@.len()) =~= tag@);
    true
}

/// Recognises the format of an image by its first bytes. A buffer too short
/// for a signature is refused without reading past its end.
pub fn classify(bytes: &[u8]) -> (r: Result<ImageKind, UnsupportedFormat>)
    ensures
        kind_of(bytes@) matches Some(k) ==> r == Ok::<ImageKind, UnsupportedFormat>(k),
        kind_of(bytes@) is None ==> r == Err::<ImageKind, UnsupportedFormat>(UnsupportedFormat),
{
    let jpeg: [u8; 3] = [0xff, 0xd8, 0xff];
    let png: [u8; 8] = [0x89, 0x50, 0x4e, 0x47, 0x0d, 0x0a, 0x1a, 0x0a];
    let riff: [u8; 4] = [0x52, 0x49, 0x46, 0x46];
    let webp: [u8; 6] = [0x57, 0x45, 0x42, 0x50, 0x56, 0x50];
    assert(jpeg@ =~= jpeg_signature());
    assert(png@ =~= png_signature());
    assert(riff@ =~= riff_tag());
    assert(webp@ =~= webp_tag());
    if bytes_at(bytes, 0, jpeg.as_slice()) {
        Ok(ImageKind::Jpeg)
    } else if bytes_at(bytes, 0, png.as_slice()) {
        Ok(ImageKind::Png)
    } else if bytes.len() > 14 && bytes_at(bytes, 0, riff.as_slice()) && bytes_at(
        bytes,
        8,
        webp.as_slice(),
    ) {
        Ok(ImageKind::Webp)
    } else {
        Err(UnsupportedFormat)
    }
}

/// Radius of a progress marker, in pixels.
pub const MARKER_RADIUS: u32 = 16;

/// Gap between two progress markers, in pixels.
pub const MARKER_SPACING: u32 = 8;

/// Progress markers per row.
pub const MARKERS_PER_ROW: usize = 3;

/// Where and how large an image is drawn inside a box.
#[derive(Debug, Clone, Copy, PartialEq, Eq, Structural)]
pub struct Placement {
    pub x: u32,
    pub y: u32,
    pub width: u32,
    pub height: u32,
}

/// The size of a `w` by `h` image scaled by `min(mw / w, mh / h)`, each side
/// rounded down: the largest size of its proportions inside `mw` by `mh`.
pub open spec fn fit_size(w: nat, h: nat, mw: nat, mh: nat) -> (nat, nat)
    recommends
        w > 0,
        h > 0,
{
    if mw * h <= mh * w {
        (mw, h * mw / w)
    } else {
        (w * mh / h, mh)
    }
}

/// Scales a `width` by `height` image to fit a `max_width` by `max_height`
/// box, keeping its proportions.
pub fn scale_to_fit(width: u32, height: u32, max_width: u32, max_height: u32) -> (r: (u32, u32))
    requires
        width > 0,
        height > 0,
    ensures
        (r.0 as nat, r.1 as nat) == fit_size(
            width as nat,
            height as nat,
            max_width as nat,
            max_height as nat,
        ),
        r.0 <= max_width,
        r.1 <= max_height,
{
    let w = width as u64;
    let h = height as u64;
    let mw = max_width as u64;
    let mh = max_height as u64;
    assert(mw * h <= u32::MAX * u32::MAX) by (nonlinear_arith)
        requires
            mw <= u32::MAX,
            h <= u32::MAX,
    ;
    assert(mh * w <= u32::MAX * u32::MAX) by (nonlinear_arith)
        requires
            mh <= u32::MAX,
            w <= u32::MAX,
    ;
    if mw * h <= mh * w {
        proof {
            lemma_div_is_ordered((h * mw) as int, (mh * w) as int, w as int);
            lemma_div_by_multiple(mh as int, w as int);
        }
        (max_width, (h * mw / w) as u32)
    } else {
        proof {
            lemma_div_is_ordered((w * mh) as int, (mw * h) as int, h as int);
            lemma_div_by_multiple(mw as int, h as int);
        }
        ((w * mh / h) as u32, max_height)
    }
}

/// Scales a `width` by `height` image to fit a `max_width` by `max_height`
/// box and centres it there; the offsets are rounded down, so the margins
/// on the two sides may differ by a pixel.
pub fn fit_centered(width: u32, height: u32, max_width: u32, max_height: u32) -> (r: Placement)
    requires
        width > 0,
        height > 0,
    ensures
        (r.width as nat, r.height as nat) == fit_size(
            width as nat,
            height as nat,
            max_width as nat,
            max_height as nat,
        ),
        r.x == (max_width - r.width) / 2,
        r.y == (max_height - r.height) / 2,
{
    let (w, h) = scale_to_fit(width, height, max_width, max_height);
    Placement { x: (max_width - w) / 2, y: (max_height - h) / 2, width: w, height: h }
}

/// How many of the ten progress markers are lit at entry `index` of `len`.
pub open spec fn progress_of(index: nat, len: nat) -> nat {
    if len == 0 {
        0
    } else {
        index * 10 / len
    }
}

/// The centre of progress marker `i`: three to a row, from the top left.
pub open spec fn marker_centre(i: nat) -> (u32, u32) {
    (
        (40 * (1 + i % 3)) as u32,
        (40 * (1 + i / 3)) as u32,
    )
}

/// The centres of the progress markers lit at entry `index` of `len`; none
/// for an empty container.
pub fn progress_markers(index: usize, len: usize) -> (r: Vec<(u32, u32)>)
    requires
        len == 0 || index < len,
    ensures
        r@.len() == progress_of(index as nat, len as nat),
        forall|i: int| 0 <= i < r@.len() ==> #[trigger] r@[i] == marker_centre(i as nat),
{
    let mut markers: Vec<(u32, u32)> = Vec::new();
    if len == 0 {
        return markers;
    }
    assert(index * 10 < len * 10) by (nonlinear_arith)
        requires
            index < len,
    ;
    let lit_wide: u128 = (index as u128) * 10 / (len as u128);
    assert(lit_wide == (index * 10) / (len as int));
    assert(lit_wide < 10) by {
        lemma_div_is_ordered((index * 10) as int, (len * 10 - 1) as int, len as int);
        lemma_div_by_multiple(10, len as int);
        assert((len * 10 - 1) / (len as int) < 10) by (nonlinear_arith)
            requires
                len > 0,
        ;
    }
    let lit = lit_wide as usize;
    let step: u32 = 2 * MARKER_RADIUS + MARKER_SPACING;
    let mut i: usize = 0;
    while i < lit
        invariant
            lit < 10,
            step == 40,
            i <= lit,
            markers@.len() == i,
            forall|j: int| 0 <= j < i ==> #[trigger] markers@[j] == marker_centre(j as nat),
        decreases lit - i,
    {
        let col = (i % MARKERS_PER_ROW) as u32;
        let row = (i / MARKERS_PER_ROW) as u32;
        markers.push((step * (1 + col), step * (1 + row)));
        i += 1;
    }
    markers
}

} // verus!
