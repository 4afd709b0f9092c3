//! The fatal errors of a page render and the per-font load failures.

use vstd::prelude::*;

verus! {

/// Why a page render or a font load failed.
#[derive(Debug, Clone, Copy, PartialEq, Eq, Structural)]
pub enum Error {
    /// The requested page number is not in the document.
    MissingPage,
    /// The page's MediaBox is missing or is not an array of four numbers.
    BadMediaBox,
    /// A font dictionary or its embedded font program is malformed.
    BadFont,
    /// A font's W array is not of the form `[0 [w0 w1 ...]]`.
    UnsupportedWidths,
    /// A Q operator found the graphics-state stack empty.
    UnbalancedStack,
    /// A TJ operator ran outside a text object or before any Tf.
    MissingTextState,
    /// An operand could not be read with the shape its operator expects.
    BadOperand,
}

} // verus!
