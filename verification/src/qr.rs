//! QR snapshots of a stored secret: an SVG rendering or a chart URL.
//!
//! Both are assembled by the `google_authenticator` crate from the otpauth
//! parameters alone; the library passes secret, label and issuer through
//! unmodified and names the deterministic results.

use vstd::prelude::*;

verus! {

/// The chart URL assembled for an otpauth URI with the given parameters and
/// medium error correction. Named only: the definition is the renderer's
/// percent-encoded URL format.
pub uninterp spec fn qr_url_of(
    secret: Seq<char>,
    name: Seq<char>,
    title: Seq<char>,
    width: u32,
    height: u32,
) -> Seq<char>;

/// The SVG rendering of the same otpauth URI at medium error correction.
/// Named only: the definition is the QR encoder's output.
pub uninterp spec fn qr_svg_of(
    secret: Seq<char>,
    name: Seq<char>,
    title: Seq<char>,
    width: u32,
    height: u32,
) -> Seq<char>;

/// Whether the QR encoder accepts the otpauth data assembled from these
/// parameters. Named only: the encoder refuses exactly the data too long
/// for the largest QR version at medium error correction, a condition of
/// the assembled bytes alone — dimensions only scale the rendering.
pub uninterp spec fn qr_renders(secret: Seq<char>, name: Seq<char>, title: Seq<char>) -> bool;

/// Relies on `GoogleAuthenticator::qr_code_url` (medium error correction):
/// the URL is assembled from the arguments alone, with a zero width or
/// height replaced by 200.
#[verifier::external_body]
pub(crate) fn ga_qr_code_url(secret: &str, name: &str, title: &str, width: u32, height: u32) -> (r:
    String)
    ensures
        r@ == qr_url_of(
            secret@,
            name@,
            title@,
            (if width == 0 {
                200u32
            } else {
                width
            }),
            (if height == 0 {
                200u32
            } else {
                height
            }),
        ),
{
    google_authenticator::GoogleAuthenticator::new().qr_code_url(
        secret,
        name,
        title,
        width,
        height,
        google_authenticator::ErrorCorrectionLevel::Medium,
    )
}

/// Relies on `GoogleAuthenticator::qr_code` (medium error correction):
/// rendering fails exactly when the encoder refuses the assembled otpauth
/// data, and a successful rendering is the SVG assembled from the arguments
/// alone, with a zero width or height replaced by 200. The renderer adds
/// the module count plus quiet zone — at most 177 + 8 — to the requested
/// size in 32-bit arithmetic; the dimension bound keeps that from
/// overflowing.
#[verifier::external_body]
pub(crate) fn ga_qr_code_svg(secret: &str, name: &str, title: &str, width: u32, height: u32) -> (r:
    Option<String>)
    requires
        width <= u32::MAX - 184,
        height <= u32::MAX - 184,
    ensures
        r is Some <==> qr_renders(secret@, name@, title@),
        r matches Some(s) ==> s@ == qr_svg_of(
            secret@,
            name@,
            title@,
            (if width == 0 {
                200u32
            } else {
                width
            }),
            (if height == 0 {
                200u32
            } else {
                height
            }),
        ),
{
    google_authenticator::GoogleAuthenticator::new().qr_code(
        secret,
        name,
        title,
        width,
        height,
        google_authenticator::ErrorCorrectionLevel::Medium,
    ).ok()
}

} // verus!
