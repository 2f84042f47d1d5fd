//! The picture of a message, and what stands in its place.
use vstd::prelude::*;

use crate::backend::{error_text, BackendError};
use crate::helpers::{wrap_text, wrapped};
use crate::layout::Rect;
use crate::text::{joined, owned, views};

verus! {

/// Marks where a picture is drawn.
#[derive(Clone, Copy, Debug)]
pub struct ImageWidget;

/// A decoded picture: four bytes for each pixel, row by row.
#[derive(Debug, PartialEq, Eq)]
pub struct Pixels {
    pub width: u32,
    pub height: u32,
    pub rgba: Vec<u8>,
}

impl View for Pixels {
    type V = (u32, u32, Seq<u8>);

    open spec fn view(&self) -> (u32, u32, Seq<u8>) {
        (self.width, self.height, self.rgba@)
    }
}

impl Pixels {
    /// Every pixel has its four bytes.
    pub open spec fn wf(&self) -> bool {
        self.rgba@.len() == 4 * self.width * self.height
    }
}

/// The picture that bytes hold, as the image crate decodes it: its width, its
/// height and its pixels; or why they hold none.
pub uninterp spec fn picture_of(bytes: Seq<u8>) -> Result<(u32, u32, Seq<u8>), Seq<char>>;

/// Calls `load_from_memory` of the image crate and hands the pixels out as
/// `DynamicImage::into_rgba8` gives them.
///
/// Believed of them: what comes out depends on the bytes alone, the program
/// registering no decoding hook, and each pixel is four bytes.
#[verifier::external_body]
fn read_picture(bytes: &Vec<u8>) -> (r: Result<Pixels, String>)
    ensures
        match r {
            Ok(pixels) => picture_of(bytes@) == Ok::<(u32, u32, Seq<u8>), Seq<char>>(pixels@)
                && pixels.wf(),
            Err(e) => picture_of(bytes@) == Err::<(u32, u32, Seq<u8>), Seq<char>>(e@),
        },
{
    let image = image::load_from_memory(bytes).map_err(|e| e.to_string())?.into_rgba8();
    Ok(Pixels { width: image.width(), height: image.height(), rgba: image.into_raw() })
}

/// What is shown of a decoding: the picture, or a notice.
pub open spec fn decoding(read: Result<(u32, u32, Seq<u8>), Seq<char>>) -> Result<
    (u32, u32, Seq<u8>),
    Seq<char>,
> {
    match read {
        Ok(pixels) => Ok(pixels),
        Err(e) => Err("Failed to decode image: "@ + e),
    }
}

/// What is shown of a decoding.
pub fn decoded_picture(read: Result<Pixels, String>) -> (r: Result<Pixels, String>)
    ensures
        match (read, r) {
            (Ok(pixels), Ok(shown)) => shown == pixels,
            (Err(e), Err(note)) => Err::<(u32, u32, Seq<u8>), Seq<char>>(note@) == decoding(
                Err(e@),
            ),
            _ => false,
        },
{
    match read {
        Ok(pixels) => Ok(pixels),
        Err(e) => Err(joined("Failed to decode image: ", e.as_str())),
    }
}

/// What is shown of a fetch: the picture, or a notice.
pub open spec fn fetch_shown(result: Result<Option<Seq<u8>>, Seq<char>>) -> Result<
    (u32, u32, Seq<u8>),
    Seq<char>,
> {
    match result {
        Ok(Some(bytes)) => decoding(picture_of(bytes)),
        Ok(None) => Err("Media not available"@),
        Err(e) => Err("Failed to load image: "@ + e),
    }
}

/// What came of a fetch: the bytes where there are any, else the error in words.
pub open spec fn fetch_view(result: Result<Option<Vec<u8>>, BackendError>) -> Result<
    Option<Seq<u8>>,
    Seq<char>,
> {
    match result {
        Ok(Some(bytes)) => Ok(Some(bytes@)),
        Ok(None) => Ok(None),
        Err(e) => Err(error_text(e@)),
    }
}

/// The picture that a fetch brought, or the notice that stands in its place.
pub fn fetched_picture(result: &Result<Option<Vec<u8>>, BackendError>) -> (r: Result<
    Pixels,
    String,
>)
    ensures
        match r {
            Ok(pixels) => fetch_shown(fetch_view(*result)) == Ok::<
                (u32, u32, Seq<u8>),
                Seq<char>,
            >(pixels@) && pixels.wf(),
            Err(note) => fetch_shown(fetch_view(*result)) == Err::<
                (u32, u32, Seq<u8>),
                Seq<char>,
            >(note@),
        },
{
    match result {
        Ok(Some(bytes)) => decoded_picture(read_picture(bytes)),
        Ok(None) => Err(owned("Media not available")),
        Err(e) => Err(joined("Failed to load image: ", e.message().as_str())),
    }
}

/// An empty line.
pub open spec fn empty_line() -> Seq<char> {
    Seq::empty()
}

/// The lines shown in place of a picture: the notice, broken to the width and
/// centred in the height, with empty lines above and below.
pub open spec fn placeholder(status: Seq<char>, width: u16, height: u16) -> Seq<Seq<char>> {
    let text = wrapped(status, if width > 2 { width - 2 } else { 0 });
    let room = if height > text.len() { height - text.len() } else { 0 };
    let above = room / 2;
    let below = if height > above + text.len() { height - above - text.len() } else { 0 };
    Seq::new(above as nat, |i: int| empty_line()) + text + Seq::new(
        below as nat,
        |i: int| empty_line(),
    )
}

/// The lines shown in place of a picture.
pub fn placeholder_lines(status: &str, area: Rect) -> (r: Vec<String>)
    ensures
        views(r@) == placeholder(status@, area.width, area.height),
{
    let width: usize = if area.width > 2 { (area.width - 2) as usize } else { 0 };
    let height: usize = area.height as usize;
    let mut text: Vec<String> = wrap_text(status, width);
    let ghost t = views(text@);
    assert(t.len() == text@.len());
    let n: usize = text.len();
    let above: usize = (if height > n { height - n } else { 0 }) / 2;
    let mut out: Vec<String> = Vec::new();
    while out.len() < above
        invariant
            out@.len() <= above,
            views(out@) =~= Seq::new(out@.len(), |i: int| empty_line()),
        decreases above - out@.len(),
    {
        let ghost before = views(out@);
        let s: String = String::new();
        assert(s@ =~= empty_line());
        out.push(s);
        assert(views(out@) =~= before.push(empty_line()));
    }
    let ghost lead = views(out@);
    let ghost raw = out@;
    let ghost rt = text@;
    out.append(&mut text);
    assert(views(out@) =~= lead + t) by {
        assert(out@ =~= raw + rt);
    }
    let ghost base = views(out@);
    let ghost blen = out@.len();
    while out.len() < height
        invariant
            blen <= out@.len(),
            base.len() == blen,
            out@.len() <= (if height > blen { height as int } else { blen as int }),
            views(out@) =~= base + Seq::new((out@.len() - blen) as nat, |i: int| empty_line()),
        decreases height - out@.len(),
    {
        let ghost before = views(out@);
        let s: String = String::new();
        assert(s@ =~= empty_line());
        out.push(s);
        assert(views(out@) =~= before.push(empty_line()));
    }
    assert(views(out@) =~= placeholder(status@, area.width, area.height));
    out
}

/// Where a picture of a given size is drawn: centred, and cut to the area.
pub fn image_area(area: Rect, width: u16, height: u16) -> (r: Rect)
    requires
        area.x + area.width <= u16::MAX,
        area.y + area.height <= u16::MAX,
    ensures
        r.x == area.x + (if area.width > width { (area.width - width) / 2 } else { 0 }),
        r.y == area.y + (if area.height > height { (area.height - height) / 2 } else { 0 }),
        r.width == if width < area.width { width } else { area.width },
        r.height == if height < area.height { height } else { area.height },
{
    Rect {
        x: area.x + (if area.width > width { (area.width - width) / 2 } else { 0 }),
        y: area.y + (if area.height > height { (area.height - height) / 2 } else { 0 }),
        width: if width < area.width { width } else { area.width },
        height: if height < area.height { height } else { area.height },
    }
}

}
