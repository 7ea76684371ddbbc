//! QR codes of short links, rendered by the `qrcode` crate.
use vstd::prelude::*;

use crate::cli::cat;
use vstd::string::StringSliceAdditionalSpecFns;

verus! {

/// The mathematical value of a rendering outcome.
pub open spec fn text_result_view(r: Result<String, String>) -> Result<Seq<char>, Seq<char>> {
    match r {
        Ok(s) => Ok(s@),
        Err(e) => Err(e@),
    }
}

/// Name for what `qrcode` makes of `content` rendered as an SVG image of at
/// least `width` x `height` pixels: the SVG text, or the text of the encoding
/// error.
pub uninterp spec fn qr_svg_image(content: Seq<u8>, width: u32, height: u32) -> Result<Seq<char>, Seq<char>>;

/// Name for what `qrcode` makes of `content` rendered as dense unicode block
/// characters (two pixel rows per line): the text, or the text of the encoding
/// error.
pub uninterp spec fn qr_unicode_image(content: Seq<u8>) -> Result<Seq<char>, Seq<char>>;

/// Calls `qrcode::QrCode::new` on `content` and renders the code with the
/// `svg::Color` renderer at minimum dimensions `width` x `height`, or gives
/// the `Display` text of the `QrError`. `min_dimensions` adds each dimension
/// to the code's width in modules in `u32` arithmetic, so both are bounded
/// here. The contract says only that this is the named outcome for these
/// arguments.
#[verifier::external_body]
fn render_svg(content: &[u8], width: u32, height: u32) -> (r: Result<String, String>)
    requires
        width <= 4096,
        height <= 4096,
    ensures
        qr_svg_image(content@, width, height) == text_result_view(r),
{
    match qrcode::QrCode::new(content) {
        Ok(code) => Ok(code.render::<qrcode::render::svg::Color>().min_dimensions(width, height).build()),
        Err(e) => Err(e.to_string()),
    }
}

/// Calls `qrcode::QrCode::new` on `content` and renders the code with the
/// `unicode::Dense1x2` renderer, or gives the `Display` text of the `QrError`.
/// The contract says only that this is the named outcome for `content`.
#[verifier::external_body]
fn render_unicode(content: &[u8]) -> (r: Result<String, String>)
    ensures
        qr_unicode_image(content@) == text_result_view(r),
{
    match qrcode::QrCode::new(content) {
        Ok(code) => Ok(code.render::<qrcode::render::unicode::Dense1x2>().build()),
        Err(e) => Err(e.to_string()),
    }
}

pub open spec fn qr_failure_text(e: Seq<char>) -> Seq<char> {
    "qr encoding failed: "@ + e
}

/// The QR code of `content` as an SVG document at least 256x256 pixels.
pub fn qr_svg(content: &str) -> (r: Result<String, String>)
    ensures
        match qr_svg_image(content.spec_bytes(), 256, 256) {
            Ok(img) => r matches Ok(s) && s@ == img,
            Err(e) => r matches Err(m) && m@ == qr_failure_text(e),
        },
{
    match render_svg(content.as_bytes(), 256, 256) {
        Ok(s) => Ok(s),
        Err(e) => Err(cat("qr encoding failed: ", e.as_str())),
    }
}

/// The QR code of `content` as unicode block characters for a terminal.
pub fn qr_unicode(content: &str) -> (r: Result<String, String>)
    ensures
        match qr_unicode_image(content.spec_bytes()) {
            Ok(img) => r matches Ok(s) && s@ == img,
            Err(e) => r matches Err(m) && m@ == qr_failure_text(e),
        },
{
    match render_unicode(content.as_bytes()) {
        Ok(s) => Ok(s),
        Err(e) => Err(cat("qr encoding failed: ", e.as_str())),
    }
}

} // verus!
