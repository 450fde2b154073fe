//! What is recorded of raw clipboard content.
use vstd::prelude::*;
use vstd::utf8::{decode_utf8, valid_utf8};
use crate::domain::services::{default_hash_bytes, std_hash_of_bytes};
use crate::text::{trim, trim_str};

verus! {

/// Hash of image bytes, to tell a new image from the last one.
pub fn compute_image_hash(bytes: &[u8]) -> (r: u64)
    ensures
        r == std_hash_of_bytes(bytes@),
{
    default_hash_bytes(bytes)
}

/// `bytes` starts with `magic`.
pub open spec fn starts_with_bytes(bytes: Seq<u8>, magic: Seq<u8>) -> bool {
    magic.len() <= bytes.len() && bytes.take(magic.len() as int) == magic
}

pub open spec fn jpeg_magic() -> Seq<u8> {
    seq![0xFFu8, 0xD8u8, 0xFFu8]
}

pub open spec fn png_magic() -> Seq<u8> {
    seq![0x89u8, 0x50u8, 0x4Eu8, 0x47u8, 0x0Du8, 0x0Au8, 0x1Au8, 0x0Au8]
}

/// The image type that `bytes` announce by their first bytes.
pub open spec fn image_type_of(bytes: Seq<u8>) -> Option<Seq<char>> {
    if starts_with_bytes(bytes, jpeg_magic()) {
        Some("image/jpeg"@)
    } else if starts_with_bytes(bytes, png_magic()) {
        Some("image/png"@)
    } else {
        None
    }
}

fn starts_with_exec(bytes: &[u8], magic: &[u8]) -> (r: bool)
    ensures
        r == starts_with_bytes(bytes@, magic@),
{
    if magic.len() > bytes.len() {
        return false;
    }
    let mut i: usize = 0;
    while i < magic.len()
        invariant
            magic.len() <= bytes.len(),
            i <= magic.len(),
            forall|k: int| 0 <= k < i ==> bytes@[k] == magic@[k],
        decreases magic.len() - i,
    {
        if bytes[i] != magic[i] {
            assert(bytes@.take(magic@.len() as int)[i as int] != magic@[i as int]);
            return false;
        }
        i += 1;
    }
    assert(bytes@.take(magic@.len() as int) =~= magic@);
    true
}

/// The image type announced by the first bytes: JPEG (`FF D8 FF`) or PNG
/// (the eight-byte PNG signature).
pub fn detect_image_type(bytes: &[u8]) -> (r: Option<&'static str>)
    ensures
        match r {
            Some(t) => image_type_of(bytes@) == Some(t@),
            None => image_type_of(bytes@) is None,
        },
{
    let jpeg: [u8; 3] = [0xFF, 0xD8, 0xFF];
    let png: [u8; 8] = [0x89, 0x50, 0x4E, 0x47, 0x0D, 0x0A, 0x1A, 0x0A];
    assert(jpeg@ =~= jpeg_magic());
    assert(png@ =~= png_magic());
    if starts_with_exec(bytes, jpeg.as_slice()) {
        Some("image/jpeg")
    } else if starts_with_exec(bytes, png.as_slice()) {
        Some("image/png")
    } else {
        None
    }
}

/// The text that `bytes` hold, when they are valid UTF-8
/// (`String::from_utf8`): valid UTF-8 gives the text it encodes, anything
/// else gives nothing, as std documents.
#[verifier::external_body]
fn utf8_text(bytes: Vec<u8>) -> (r: Option<String>)
    ensures
        r is Some <==> valid_utf8(bytes@),
        r matches Some(s) ==> s@ == decode_utf8(bytes@),
{
    match String::from_utf8(bytes) {
        Ok(s) => Some(s),
        Err(_) => None,
    }
}

/// What a copy on the clipboard amounts to.
#[derive(Debug, Clone, PartialEq, Eq)]
pub enum ClipboardPayload {
    /// Text, trimmed.
    Text(String),
    /// An image of the given type.
    Image(&'static str),
    /// Nothing to record.
    Nothing,
}

/// What copied bytes amount to: text that is not blank once trimmed, else an
/// image announced by its first bytes, else nothing.
pub open spec fn payload_of(bytes: Seq<u8>) -> ClipboardPayloadSpec {
    if valid_utf8(bytes) && trim(decode_utf8(bytes)).len() > 0 {
        ClipboardPayloadSpec::Text(trim(decode_utf8(bytes)))
    } else {
        match image_type_of(bytes) {
            Some(t) => ClipboardPayloadSpec::Image(t),
            None => ClipboardPayloadSpec::Nothing,
        }
    }
}

/// A payload, its texts as character sequences.
pub ghost enum ClipboardPayloadSpec {
    Text(Seq<char>),
    Image(Seq<char>),
    Nothing,
}

pub open spec fn payload_view(p: ClipboardPayload) -> ClipboardPayloadSpec {
    match p {
        ClipboardPayload::Text(t) => ClipboardPayloadSpec::Text(t@),
        ClipboardPayload::Image(t) => ClipboardPayloadSpec::Image(t@),
        ClipboardPayload::Nothing => ClipboardPayloadSpec::Nothing,
    }
}

/// What copied bytes amount to.
pub fn classify_clipboard_bytes(bytes: Vec<u8>) -> (r: ClipboardPayload)
    ensures
        payload_view(r) == payload_of(bytes@),
{
    let ghost b = bytes@;
    let kind = detect_image_type(bytes.as_slice());
    match utf8_text(bytes) {
        Some(text) => {
            let trimmed = trim_str(text.as_str());
            if trimmed.unicode_len() > 0 {
                return ClipboardPayload::Text(trimmed);
            }
        },
        None => {},
    }
    match kind {
        Some(t) => ClipboardPayload::Image(t),
        None => ClipboardPayload::Nothing,
    }
}

} // verus!

verus! {

/// The image that `bytes` encode, as `image::load_from_memory` decodes it and
/// `to_rgba8` converts it: width, height and RGBA pixels, row by row; `None`
/// when the bytes do not decode.
pub uninterp spec fn decoded_rgba(bytes: Seq<u8>) -> Option<(u32, u32, Seq<u8>)>;

/// The PNG file that `image`'s `PngEncoder`, with its default settings, writes
/// for an RGBA image of the given size and pixels; `None` when it fails.
pub uninterp spec fn png_of(width: u32, height: u32, pixels: Seq<u8>) -> Option<Seq<u8>>;

/// Decodes image bytes (`image::load_from_memory`, then `to_rgba8`). The
/// contract claims that the outcome is a function of the bytes.
#[verifier::external_body]
pub(crate) fn decode_rgba(bytes: &[u8]) -> (r: Option<(u32, u32, Vec<u8>)>)
    ensures
        match r {
            Some((w, h, px)) => decoded_rgba(bytes@) == Some((w, h, px@)),
            None => decoded_rgba(bytes@) is None,
        },
{
    match image::load_from_memory(bytes) {
        Ok(img) => {
            let rgba = img.to_rgba8();
            Some((rgba.width(), rgba.height(), rgba.into_raw()))
        },
        Err(_) => None,
    }
}

/// Encodes RGBA pixels as a PNG file (`PngEncoder::new`, then
/// `ImageEncoder::write_image` with `Rgba8`). The encoder panics unless there
/// are four bytes per pixel, so the pixels must fill the image exactly. The
/// contract claims that the outcome is a function of the size and pixels.
#[verifier::external_body]
pub(crate) fn encode_png(width: u32, height: u32, pixels: &[u8]) -> (r: Option<Vec<u8>>)
    requires
        pixels@.len() == width * height * 4,
    ensures
        match r {
            Some(png) => png_of(width, height, pixels@) == Some(png@),
            None => png_of(width, height, pixels@) is None,
        },
{
    let mut out: Vec<u8> = Vec::new();
    let encoder = image::codecs::png::PngEncoder::new(&mut out);
    match image::ImageEncoder::write_image(encoder, pixels, width, height, image::ExtendedColorType::Rgba8) {
        Ok(()) => Some(out),
        Err(_) => None,
    }
}

/// What is done with a copy: record its text, record an image from a PNG
/// file, or nothing.
#[derive(Debug, Clone, PartialEq, Eq)]
pub enum CopyAction {
    /// Record this text.
    Text(String),
    /// Record an image of the given announced type, stored as this PNG file.
    Image { mime_type: &'static str, png: Vec<u8> },
    /// Record nothing.
    Nothing,
}

/// A copy action, its texts and bytes as sequences.
pub ghost enum CopyActionSpec {
    Text(Seq<char>),
    Image(Seq<char>, Seq<u8>),
    Nothing,
}

pub open spec fn copy_action_view(a: CopyAction) -> CopyActionSpec {
    match a {
        CopyAction::Text(t) => CopyActionSpec::Text(t@),
        CopyAction::Image { mime_type, png } => CopyActionSpec::Image(mime_type@, png@),
        CopyAction::Nothing => CopyActionSpec::Nothing,
    }
}

/// The PNG file stored for image bytes: the decoded image, when its pixels
/// fill it, encoded as PNG.
pub open spec fn stored_png(bytes: Seq<u8>) -> Option<Seq<u8>> {
    match decoded_rgba(bytes) {
        Some((w, h, px)) => if px.len() == w * h * 4 {
            png_of(w, h, px)
        } else {
            None
        },
        None => None,
    }
}

/// What is done with copied bytes: text that is not blank once trimmed is
/// recorded; bytes announced as an image are recorded when they decode and
/// encode as PNG; anything else is ignored.
pub open spec fn copy_action_spec(bytes: Seq<u8>) -> CopyActionSpec {
    match payload_of(bytes) {
        ClipboardPayloadSpec::Text(t) => CopyActionSpec::Text(t),
        ClipboardPayloadSpec::Image(mime) => match stored_png(bytes) {
            Some(png) => CopyActionSpec::Image(mime, png),
            None => CopyActionSpec::Nothing,
        },
        ClipboardPayloadSpec::Nothing => CopyActionSpec::Nothing,
    }
}

/// The PNG file to store for image bytes.
fn png_for(bytes: &[u8]) -> (r: Option<Vec<u8>>)
    ensures
        match r {
            Some(png) => stored_png(bytes@) == Some(png@),
            None => stored_png(bytes@) is None,
        },
{
    match decode_rgba(bytes) {
        Some((w, h, px)) => {
            let w2: u128 = w as u128;
            let h2: u128 = h as u128;
            assert(w2 * h2 <= 0xffff_ffffu128 * 0xffff_ffffu128) by (nonlinear_arith)
                requires
                    w2 <= 0xffff_ffffu128,
                    h2 <= 0xffff_ffffu128,
            ;
            let size: u128 = w2 * h2 * 4;
            if px.len() as u128 == size {
                encode_png(w, h, px.as_slice())
            } else {
                None
            }
        },
        None => None,
    }
}

/// What to do with bytes copied to the clipboard.
pub fn copy_action(bytes: Vec<u8>) -> (r: CopyAction)
    ensures
        copy_action_view(r) == copy_action_spec(bytes@),
{
    let copy = bytes.clone();
    assert(copy@ =~= bytes@);
    match classify_clipboard_bytes(copy) {
        ClipboardPayload::Text(t) => CopyAction::Text(t),
        ClipboardPayload::Image(mime_type) => match png_for(bytes.as_slice()) {
            Some(png) => CopyAction::Image { mime_type, png },
            None => CopyAction::Nothing,
        },
        ClipboardPayload::Nothing => CopyAction::Nothing,
    }
}

} // verus!
