//! Errors of the overlay host, the Wayland layer-shell surface that draws the
//! overlay.

use vstd::prelude::*;

use crate::text::{chars_of, extend_chars, string_of};

verus! {

/// Errors from the overlay host.
#[derive(Debug, Clone, PartialEq, Eq)]
pub enum OverlayError {
    /// No Wayland compositor (or `libwayland`) is available.
    NoWayland(String),
    /// The overlay is not implemented on this platform yet.
    Unsupported,
    /// A Wayland protocol or setup call failed.
    Wayland(String),
    /// The EGL/OpenGL context could not be created or used.
    Gl(String),
}

/// The user-facing message for an overlay error.
pub open spec fn overlay_error_message(e: OverlayError) -> Seq<char> {
    match e {
        OverlayError::NoWayland(m) => "no Wayland compositor: "@ + m@,
        OverlayError::Unsupported => "the overlay is not implemented on this platform yet"@,
        OverlayError::Wayland(m) => "Wayland error: "@ + m@,
        OverlayError::Gl(m) => "OpenGL error: "@ + m@,
    }
}

/// The characters of `lit` followed by those of `s`, as a `String`.
fn prefixed(lit: &str, s: &str) -> (r: String)
    ensures
        r@ == lit@ + s@,
{
    let mut v = chars_of(lit);
    extend_chars(&mut v, chars_of(s).as_slice());
    string_of(v.as_slice())
}

impl OverlayError {
    /// The user-facing message for this error.
    pub fn message(&self) -> (r: String)
        ensures
            r@ == overlay_error_message(*self),
    {
        match self {
            OverlayError::NoWayland(m) => prefixed("no Wayland compositor: ", m.as_str()),
            OverlayError::Unsupported => string_of(
                chars_of("the overlay is not implemented on this platform yet").as_slice(),
            ),
            OverlayError::Wayland(m) => prefixed("Wayland error: ", m.as_str()),
            OverlayError::Gl(m) => prefixed("OpenGL error: ", m.as_str()),
        }
    }
}

} // verus!
