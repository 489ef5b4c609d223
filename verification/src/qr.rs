//! Pictures of links.

use vstd::prelude::*;
use crate::text;

verus! {

/// How many modules a code can have along a side to be drawn.
pub const MAX_WIDTH: i16 = 65;

/// How many modules the QR code of `data` has along a side, where `data` fits
/// in one.
pub uninterp spec fn qr_width(data: Seq<char>) -> Option<i16>;

/// The QR code of `data` in half block characters, where `data` fits in one.
pub uninterp spec fn qr_picture(data: Seq<char>) -> Option<Seq<char>>;

/// The code of `data` is small enough to be drawn.
pub open spec fn drawable(data: Seq<char>) -> bool {
    qr_width(data) matches Some(width) && width <= MAX_WIDTH
}

/// The picture of `data`: its QR code, where that is small enough.
pub open spec fn picture(data: Seq<char>) -> Option<Seq<char>> {
    if drawable(data) {
        qr_picture(data)
    } else {
        None
    }
}

/// `qrcode::bits::encode_auto` at the level that `QrCode::new` uses encodes
/// `data`, if it is not too long, for the smallest code that holds it;
/// `Version::width` is how many modules that has along a side.
#[verifier::external_body]
fn code_width(data: &str) -> (r: Option<i16>)
    ensures
        r == qr_width(data@),
{
    let bits = qrcode::bits::encode_auto(data.as_bytes(), qrcode::EcLevel::M);
    bits.ok().map(|bits| bits.version().width())
}

/// `qrcode::QrCode::new` encodes `data`, if it is not too long, and its
/// rendering draws the code in half block characters with a quiet zone
/// round it. To choose a mask it adds up penalties in sixteen bits, which can
/// overflow where the code is large. With `w` modules along a side, no more
/// than 65, the sum stays below 65536: at most `2 * w * (w - 2)` for runs,
/// `3 * (w - 1) * (w - 1)` for blocks, 100 for the balance, and 40 for each
/// pattern like a finder, of which a line has no more than eight, since the
/// next but one starts at least fifteen modules further on.
#[verifier::external_body]
fn qr_image(data: &str) -> (r: Option<String>)
    requires
        drawable(data@),
    ensures
        text::chars_if_any(r) == qr_picture(data@),
{
    let code = qrcode::QrCode::new(data).ok()?;
    let mut renderer = code.render::<qrcode::render::unicode::Dense1x2>();
    Some(renderer.quiet_zone(true).module_dimensions(1, 1).build())
}

/// Draws the QR code of `data`, where it is small enough.
pub fn draw(data: &str) -> (r: Option<String>)
    ensures
        text::chars_if_any(r) == picture(data@),
{
    match code_width(data) {
        Some(width) if width <= MAX_WIDTH => qr_image(data),
        _ => None,
    }
}

/// The picture is the QR code where that has up to 65 modules along a side,
/// and there is none where it has more or the text is too long for one.
pub proof fn law_picture_up_to_a_width(data: &str, r: Option<String>)
    requires
        call_ensures(draw, (data,), r),
    ensures
        match qr_width(data@) {
            Some(width) if width <= 65 => text::chars_if_any(r) == qr_picture(data@),
            _ => r is None,
        },
{
}

} // verus!
