//! Why a render was given up.

use vstd::prelude::*;

verus! {

/// The failures of a render. Each is fatal to the render that met it: no
/// partial image is produced.
#[derive(Clone, Copy, Debug, PartialEq, Eq, Structural)]
pub enum RenderError {
    /// The text holds no character that places a glyph, so a text block has
    /// no first and last glyph to measure.
    EmptyText,
    /// The payload cannot be encoded as a QR symbol.
    QrEncoding,
    /// An image of the size asked for cannot be described or allocated on
    /// this machine.
    TooLarge,
    /// A block is wider than the width it has to be placed within.
    TooWide,
}

} // verus!
