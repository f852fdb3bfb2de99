//! The QR symbol of a payload, as a monochrome bitmap.
//!
//! The symbol is encoded and rendered by the `qrcode` crate. What this
//! library relies on of that crate is stated on `encode`.

use vstd::prelude::*;
use crate::bitmap::{Bitmap, Grid};
use crate::error::RenderError;

verus! {

#[verifier::external_type_specification]
#[verifier::external_body]
pub struct ExQrError(qrcode::types::QrError);

/// The rendered QR symbol of `payload`: one luma sample per pixel, 0 for a
/// dark module and 255 for a light one, without a quiet zone; or `None` where
/// the payload cannot be encoded.
pub uninterp spec fn qr_symbol(payload: Seq<char>) -> Option<Grid>;

/// `qrcode::QrCode::new` on the payload, rendered by `render` as 8-bit luma
/// with `quiet_zone(false)` and built: the size of the image and its samples,
/// row by row. The image holds one sample for each of its pixels. The result
/// is a function of the payload alone; encoding fails where the payload is too
/// long for a symbol.
#[verifier::external_body]
fn encode(payload: &str) -> (symbol: Result<(u32, u32, Vec<u8>), qrcode::types::QrError>)
    ensures
        match symbol {
            Ok((width, height, cells)) => {
                &&& cells@.len() == width * height
                &&& qr_symbol(payload@) == Some(
                    (Grid { width: width as nat, height: height as nat, cells: cells@ }),
                )
            },
            Err(_) => qr_symbol(payload@) is None,
        },
{
    let code = qrcode::QrCode::new(payload)?;
    let image = code.render::<image::Luma<u8>>().quiet_zone(false).build();
    Ok((image.width(), image.height(), image.into_raw()))
}

/// The QR symbol of `payload` as a bitmap, or `QrEncoding` where the payload
/// cannot be encoded.
pub fn qr_bitmap(payload: &str) -> (symbol: Result<Bitmap, RenderError>)
    ensures
        match symbol {
            Ok(bitmap) => qr_symbol(payload@) == Some(bitmap@),
            Err(e) => e == RenderError::QrEncoding && qr_symbol(payload@) is None,
        },
{
    match encode(payload) {
        Ok((width, height, cells)) => {
            match Bitmap::new(width, height, cells) {
                Some(bitmap) => Ok(bitmap),
                None => Err(RenderError::QrEncoding),
            }
        },
        Err(_) => Err(RenderError::QrEncoding),
    }
}

} // verus!
