//! Reading the content of tabs: telling images, their sizes, and making a page
//! of an image; following the folder of a tab; and the style of the window.

use vstd::prelude::*;

use crate::pages::{Item, LoadedPage, PageManifest};
use crate::text::{lower, lower_all, own, push_text, same, to_chars, to_lower};

verus! {

/// The endings of the names of image files.
pub open spec fn image_extensions() -> Seq<Seq<char>> {
    seq!["png"@, "jpg"@, "jpeg"@, "webp"@, "bmp"@, "gif"@]
}

fn lowered(s: &str) -> (r: String)
    ensures
        r@ == lower_all(s@),
{
    let v = to_chars(s);
    let mut out = String::new();
    let mut i: usize = 0;
    while i < v.len()
        invariant
            i <= v.len(),
            v@ == s@,
            out@ == lower_all(v@).take(i as int),
        decreases v.len() - i,
    {
        out.push(to_lower(v[i]));
        i += 1;
        assert(lower_all(v@).take(i as int) =~= lower_all(v@).take(i - 1).push(
            lower(v@[i - 1]),
        ));
    }
    assert(lower_all(v@).take(i as int) =~= lower_all(v@));
    out
}

/// Whether a file is an image, by the ending of its name, whatever its case.
pub fn is_image_extension(extension: Option<&str>) -> (r: bool)
    ensures
        r == (extension matches Some(e) && image_extensions().contains(lower_all(e@))),
{
    match extension {
        Some(e) => {
            let low = lowered(e);
            let ghost l = image_extensions();
            assert(l[0] == "png"@ && l[1] == "jpg"@ && l[2] == "jpeg"@ && l[3] == "webp"@ && l[4]
                == "bmp"@ && l[5] == "gif"@);
            same(low.as_str(), "png") || same(low.as_str(), "jpg") || same(low.as_str(), "jpeg")
                || same(low.as_str(), "webp") || same(low.as_str(), "bmp") || same(
                low.as_str(),
                "gif",
            )
        },
        None => false,
    }
}

/// Whether a file is a PNG image, by the ending of its name, whatever its case.
pub fn is_png_extension(extension: Option<&str>) -> (r: bool)
    ensures
        r == (extension matches Some(e) && lower_all(e@) == "png"@),
{
    match extension {
        Some(e) => same(lowered(e).as_str(), "png"),
        None => false,
    }
}

/// The bytes with which every PNG file begins.
pub open spec fn png_magic() -> Seq<u8> {
    seq![0x89u8, 0x50u8, 0x4eu8, 0x47u8, 0x0du8, 0x0au8, 0x1au8, 0x0au8]
}

/// The number that four bytes stand for, the most significant first.
pub open spec fn big_endian(b: Seq<u8>, at: int) -> int {
    ((b[at] * 256 + b[at + 1]) * 256 + b[at + 2]) * 256 + b[at + 3]
}

/// The width and height that the first bytes of a PNG file tell.
pub open spec fn png_size(b: Seq<u8>) -> Option<(u32, u32)> {
    if b.len() >= 24 && b.take(8) == png_magic() {
        Some((big_endian(b, 16) as u32, big_endian(b, 20) as u32))
    } else {
        None
    }
}

fn read_big_endian(b: &[u8], at: usize) -> (r: u32)
    requires
        at + 4 <= b@.len(),
    ensures
        r == big_endian(b@, at as int),
{
    ((b[at] as u32 * 256 + b[at + 1] as u32) * 256 + b[at + 2] as u32) * 256 + b[at + 3] as u32
}

/// Reads the width and height of an image from the first bytes of its file.
/// `None` where it is no PNG file.
pub fn read_png_dims(header: &[u8]) -> (r: Option<(u32, u32)>)
    ensures
        r == png_size(header@),
{
    if header.len() < 24 {
        return None;
    }
    if !(header[0] == 0x89 && header[1] == 0x50 && header[2] == 0x4e && header[3] == 0x47
        && header[4] == 0x0d && header[5] == 0x0a && header[6] == 0x1a && header[7] == 0x0a) {
        proof {
            let t = header@.take(8);
            assert(t[0] == header@[0] && t[1] == header@[1] && t[2] == header@[2] && t[3]
                == header@[3] && t[4] == header@[4] && t[5] == header@[5] && t[6] == header@[6]
                && t[7] == header@[7]);
            let m = png_magic();
            assert(m[0] == 0x89 && m[1] == 0x50 && m[2] == 0x4e && m[3] == 0x47 && m[4] == 0x0d
                && m[5] == 0x0a && m[6] == 0x1a && m[7] == 0x0a);
        }
        return None;
    }
    assert(header@.take(8) =~= png_magic());
    Some((read_big_endian(header, 16), read_big_endian(header, 20)))
}

/// The size of a page made of an image.
pub open spec fn size_of_page(dims: Option<(u32, u32)>) -> (u32, u32) {
    match dims {
        Some((w, h)) => (
            if w > 0 {
                w
            } else {
                1
            },
            if h > 0 {
                h
            } else {
                1
            },
        ),
        None => (1, 1),
    }
}

/// The size of a page made of an image: that of the image, at least one pixel
/// each way, also where it is not known.
pub fn page_size(dims: Option<(u32, u32)>) -> (r: (u32, u32))
    ensures
        r == size_of_page(dims),
        r == (match dims {
            Some((w, h)) => (
                if w > 0 {
                    w
                } else {
                    1
                },
                if h > 0 {
                    h
                } else {
                    1
                },
            ),
            None => (1u32, 1u32),
        }),
{
    match dims {
        Some((w, h)) => (
            if w > 0 {
                w
            } else {
                1
            },
            if h > 0 {
                h
            } else {
                1
            },
        ),
        None => (1, 1),
    }
}

/// The text, or another one where there is none.
pub open spec fn text_or(s: Option<&str>, other: Seq<char>) -> Seq<char> {
    match s {
        Some(t) => t@,
        None => other,
    }
}

/// A page made of an image alone: one item that covers the page and is named
/// like the file.
pub fn image_page(
    stem: Option<&str>,
    file_name: Option<&str>,
    size: (u32, u32),
    bbox: [u32; 4],
    image_path: String,
) -> (r: LoadedPage)
    ensures
        r.image_path == image_path,
        r.manifest.schema_version@ == "image-folder"@,
        r.manifest.title@ == text_or(stem, "page"@),
        r.manifest.image@ == text_or(file_name, ""@),
        r.manifest.image_size@ == seq![size.0, size.1],
        r.manifest.items@.len() == 1,
        r.manifest.items@[0].idx == 0,
        r.manifest.items@[0].group@.len() == 0,
        r.manifest.items@[0].kind@ == "image"@,
        r.manifest.items@[0].text@ == text_or(stem, "page"@),
        r.manifest.items@[0].spoken is None,
        r.manifest.items@[0].navigable,
        r.manifest.items@[0].bbox == bbox,
{
    let title = match stem {
        Some(s) => own(s),
        None => own("page"),
    };
    let image = match file_name {
        Some(s) => own(s),
        None => own(""),
    };
    let item = Item {
        idx: 0,
        group: String::new(),
        kind: own("image"),
        text: own(title.as_str()),
        spoken: None,
        navigable: true,
        bbox,
    };
    let manifest = PageManifest {
        schema_version: own("image-folder"),
        title,
        image,
        image_size: [size.0, size.1],
        items: vec![item],
    };
    assert(manifest.image_size@ =~= seq![size.0, size.1]);
    LoadedPage { manifest, image_path }
}

/// The error where a folder has no content.
pub fn empty_folder_error(images: bool, folder: &str) -> (r: String)
    ensures
        r@ == (if images {
            "no images in "@
        } else {
            "no page JSONs in "@
        }) + folder@,
{
    let mut e = own(
        if images {
            "no images in "
        } else {
            "no page JSONs in "
        },
    );
    push_text(&mut e, folder);
    e
}

/// What to do to follow a folder.
#[derive(Debug, Clone, Copy, PartialEq, Eq, Structural)]
pub enum WatchStep {
    /// It is followed already, or none is and none is to be.
    Keep,
    /// Follow nothing any more.
    Stop,
    /// Follow nothing: the folder does not exist.
    Missing,
    /// Follow the folder in place of what was followed.
    Watch,
}

/// What to do to follow a folder, or none.
pub open spec fn watch_plan(same_as_now: bool, wanted: bool, exists_now: bool) -> WatchStep {
    if same_as_now {
        WatchStep::Keep
    } else if !wanted {
        WatchStep::Stop
    } else if !exists_now {
        WatchStep::Missing
    } else {
        WatchStep::Watch
    }
}

/// What to do to follow a folder, or none.
pub fn plan_watch(same_as_now: bool, wanted: bool, exists_now: bool) -> (r: WatchStep)
    ensures
        r == watch_plan(same_as_now, wanted, exists_now),
        r == (if same_as_now {
            WatchStep::Keep
        } else if !wanted {
            WatchStep::Stop
        } else if !exists_now {
            WatchStep::Missing
        } else {
            WatchStep::Watch
        }),
{
    if same_as_now {
        WatchStep::Keep
    } else if !wanted {
        WatchStep::Stop
    } else if !exists_now {
        WatchStep::Missing
    } else {
        WatchStep::Watch
    }
}

/// The bit of a window's style that lets the mouse pass through it.
pub const STYLE_TRANSPARENT: u64 = 0x20;

/// The bit of a window's style that lets it be drawn in layers.
pub const STYLE_LAYERED: u64 = 0x8_0000;

/// The style of a window through which the mouse passes, or does not. Layers
/// stay on when it no longer does.
pub fn click_through_style(style: u64, enabled: bool) -> (r: u64)
    ensures
        enabled ==> r == style | (STYLE_TRANSPARENT | STYLE_LAYERED),
        !enabled ==> r == style & !STYLE_TRANSPARENT,
        (r & STYLE_TRANSPARENT == STYLE_TRANSPARENT) == enabled,
        enabled ==> r & STYLE_LAYERED == STYLE_LAYERED,
        !enabled ==> r & STYLE_LAYERED == style & STYLE_LAYERED,
        r & !(STYLE_TRANSPARENT | STYLE_LAYERED) == style & !(STYLE_TRANSPARENT | STYLE_LAYERED),
{
    if enabled {
        let r: u64 = style | (STYLE_TRANSPARENT | STYLE_LAYERED);
        assert(r & 0x20 == 0x20 && r & 0x8_0000 == 0x8_0000 && r & !(0x20u64 | 0x8_0000u64) == style
            & !(0x20u64 | 0x8_0000u64)) by (bit_vector)
            requires
                r == style | (0x20u64 | 0x8_0000u64),
        ;
        r
    } else {
        let r: u64 = style & !STYLE_TRANSPARENT;
        assert(r & 0x20 != 0x20 && r & 0x8_0000 == style & 0x8_0000 && r & !(0x20u64
            | 0x8_0000u64) == style & !(0x20u64 | 0x8_0000u64)) by (bit_vector)
            requires
                r == style & !0x20u64,
        ;
        r
    }
}

/// The style of a window that can be drawn in layers.
pub fn layered_style(style: u64) -> (r: u64)
    ensures
        r == style | STYLE_LAYERED,
{
    style | STYLE_LAYERED
}

/// The four bytes of a number, the most significant first.
pub open spec fn four_bytes(n: u32) -> Seq<u8> {
    seq![
        (n / 0x100_0000) as u8,
        (n / 0x1_0000 % 0x100) as u8,
        (n / 0x100 % 0x100) as u8,
        (n % 0x100) as u8,
    ]
}

/// The size that is written into an image file is read back.
pub proof fn law_the_size_is_read_back(w: u32, h: u32, chunk: Seq<u8>, rest: Seq<u8>)
    requires
        chunk.len() == 8,
    ensures
        png_size(
            seq![0x89u8, 0x50u8, 0x4eu8, 0x47u8, 0x0du8, 0x0au8, 0x1au8, 0x0au8] + chunk
                + four_bytes(w) + four_bytes(h) + rest,
        ) == Some((w, h)),
{
    let b = seq![0x89u8, 0x50u8, 0x4eu8, 0x47u8, 0x0du8, 0x0au8, 0x1au8, 0x0au8] + chunk
        + four_bytes(w) + four_bytes(h) + rest;
    assert(b.take(8) =~= png_magic());
    assert(b.subrange(16, 20) =~= four_bytes(w));
    assert(b.subrange(20, 24) =~= four_bytes(h));
    assert(b[16] == four_bytes(w)[0] && b[17] == four_bytes(w)[1] && b[18] == four_bytes(w)[2]
        && b[19] == four_bytes(w)[3]);
    assert(b[20] == four_bytes(h)[0] && b[21] == four_bytes(h)[1] && b[22] == four_bytes(h)[2]
        && b[23] == four_bytes(h)[3]);
}

/// A file that does not begin as an image file does has no size.
pub proof fn law_other_files_have_no_size(b: Seq<u8>, i: int)
    requires
        0 <= i < 8,
        b.len() < 24 || b[i] != seq![
            0x89u8,
            0x50u8,
            0x4eu8,
            0x47u8,
            0x0du8,
            0x0au8,
            0x1au8,
            0x0au8,
        ][i],
    ensures
        png_size(b) is None,
{
    if b.len() >= 24 {
        assert(b.take(8)[i] == b[i]);
    }
}

/// The endings of image files.
pub proof fn law_the_endings_of_images()
    ensures
        image_extensions() == seq!["png"@, "jpg"@, "jpeg"@, "webp"@, "bmp"@, "gif"@],
{
}

/// A folder is followed where it is wanted, exists, and is not followed yet.
pub proof fn law_folders_are_followed_where_they_exist(same: bool, wanted: bool, exists_now: bool)
    ensures
        watch_plan(true, wanted, exists_now) is Keep,
        watch_plan(false, true, true) is Watch,
        watch_plan(false, true, false) is Missing,
        watch_plan(false, false, exists_now) is Stop,
        watch_plan(same, wanted, exists_now) is Watch ==> !same && wanted && exists_now,
{
}

/// A page is as large as its image, and never empty.
pub proof fn law_pages_are_as_large_as_their_image(w: u32, h: u32)
    ensures
        w > 0 && h > 0 ==> size_of_page(Some((w, h))) == (w, h),
        size_of_page(Some((w, h))).0 > 0 && size_of_page(Some((w, h))).1 > 0,
        h > 0 ==> size_of_page(Some((0, h))) == (1u32, h),
        w > 0 ==> size_of_page(Some((w, 0))) == (w, 1u32),
        size_of_page(None) == (1u32, 1u32),
{
}

} // verus!
