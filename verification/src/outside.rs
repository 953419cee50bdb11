//! The calls this library makes into std's clock and into the `uuid` and
//! `qrcode` crates, each behind a contract that the library trusts.

use vstd::prelude::*;
use crate::headers::opt_string_view;

verus! {

#[verifier::external_type_specification]
#[verifier::external_body]
pub struct ExSystemTime(std::time::SystemTime);

/// Trusted: calls `std::time::SystemTime::now`. The result is the wall clock,
/// so nothing is promised of it.
#[verifier::external_body]
fn system_now() -> std::time::SystemTime {
    std::time::SystemTime::now()
}

/// Trusted: calls `SystemTime::duration_since` with `UNIX_EPOCH`, which fails when
/// the time lies before the epoch (mapped to `None`). Nothing is promised of the
/// duration: it depends on the clock.
#[verifier::external_body]
fn since_epoch(t: &std::time::SystemTime) -> Option<core::time::Duration> {
    t.duration_since(std::time::UNIX_EPOCH).ok()
}

/// Trusted: calls `Duration::as_secs`, the whole seconds of the duration.
/// A `Duration` is opaque here, so nothing is stated of the number.
#[verifier::external_body]
fn whole_seconds(d: &core::time::Duration) -> u64 {
    d.as_secs()
}

/// The current time in whole seconds since the Unix epoch; 0 when the clock
/// reads a time before the epoch.
pub fn now() -> u64 {
    match since_epoch(&system_now()) {
        Some(d) => whole_seconds(&d),
        None => 0,
    }
}

/// A lowercase hexadecimal digit.
pub open spec fn is_lower_hex(c: char) -> bool {
    ('0' <= c && c <= '9') || ('a' <= c && c <= 'f')
}

/// The hyphenated text form of a UUID: 36 characters, lowercase hexadecimal
/// digits with hyphens at 8, 13, 18 and 23.
pub open spec fn is_hyphenated_uuid(s: Seq<char>) -> bool {
    &&& s.len() == 36
    &&& forall|i: int|
        0 <= i < 36 ==> if i == 8 || i == 13 || i == 18 || i == 23 {
            #[trigger] s[i] == '-'
        } else {
            is_lower_hex(s[i])
        }
}

/// The simple text form of a UUID: 32 lowercase hexadecimal digits.
pub open spec fn is_simple_uuid(s: Seq<char>) -> bool {
    &&& s.len() == 32
    &&& forall|i: int| 0 <= i < 32 ==> is_lower_hex(#[trigger] s[i])
}

/// Trusted: calls `uuid::Uuid::new_v4` for a random UUID and renders it twice:
/// hyphenated (its `Display`, which writes the lowercase hyphenated form,
/// `Hyphenated::LENGTH` = 36 characters) and simple (`Simple::LENGTH` = 32
/// lowercase hexadecimal digits). Both forms are of the same UUID. The value is
/// random, so nothing else is promised, not even that it differs from earlier
/// ones.
#[verifier::external_body]
pub(crate) fn new_uuid() -> (ids: (String, String))
    ensures
        is_hyphenated_uuid(ids.0@),
        is_simple_uuid(ids.1@),
{
    let u = uuid::Uuid::new_v4();
    (u.to_string(), u.simple().to_string())
}

/// The SVG image of the QR code for `data`, drawn at least `min_width` by
/// `min_height`, or `None` when no QR code can hold the data.
pub uninterp spec fn qr_svg_image(data: Seq<u8>, min_width: u32, min_height: u32) -> Option<
    Seq<char>,
>;

/// Trusted: calls `qrcode::QrCode::new` on the bytes (medium error correction,
/// smallest version) and, when that succeeds, renders the code as SVG through the
/// crate's `render::<svg::Color>().min_dimensions(..).build()`. The contract
/// claims only that the outcome is a function of the bytes and the dimensions,
/// named `qr_svg_image`; `None` stands for the crate's error (data too long).
/// The dimensions are bounded: the renderer computes `width + modules - 1` and
/// `modules * module size` in `u32` (at most 185 modules), which overflow for
/// dimensions near `u32::MAX`.
#[verifier::external_body]
pub(crate) fn render_qr_svg(data: &[u8], min_width: u32, min_height: u32) -> (r: Option<String>)
    requires
        min_width <= 1_000_000,
        min_height <= 1_000_000,
    ensures
        opt_string_view(&r) == qr_svg_image(data@, min_width, min_height),
{
    match qrcode::QrCode::new(data) {
        Ok(code) => Some(
            code.render::<qrcode::render::svg::Color>().min_dimensions(min_width, min_height).build(),
        ),
        Err(_) => None,
    }
}

} // verus!
