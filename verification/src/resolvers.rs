//! Text resolvers: turn the user's native text selection into text for the
//! app. Resolvers read the selection buffer and never touch the regular
//! clipboard.

use vstd::prelude::*;

use crate::capture::{Selection, Source};
use crate::text::{
    blank, chars_of, copy_range, decode_utf8_lossy, extend_chars, is_blank, string_of, utf8_lossy,
};

verus! {

/// Errors returned by a [`TextResolver`].
#[derive(Debug)]
pub enum ResolveError {
    /// The resolver is not available on this system.
    Unavailable,
    /// The underlying platform call failed.
    Platform(String),
}

/// The user-facing message for a resolver error.
pub open spec fn resolve_error_message(e: ResolveError) -> Seq<char> {
    match e {
        ResolveError::Unavailable => "resolver unavailable on this system"@,
        ResolveError::Platform(msg) => "platform error: "@ + msg@,
    }
}

impl ResolveError {
    /// The user-facing message for this error.
    pub fn message(&self) -> (r: String)
        ensures
            r@ == resolve_error_message(*self),
    {
        match self {
            ResolveError::Unavailable => string_of(
                chars_of("resolver unavailable on this system").as_slice(),
            ),
            ResolveError::Platform(msg) => {
                let mut v = chars_of("platform error: ");
                let m = chars_of(msg.as_str());
                extend_chars(&mut v, m.as_slice());
                string_of(v.as_slice())
            },
        }
    }
}

/// A source of text from the screen.
///
/// Implementations must never touch the regular clipboard. They may read the
/// selection buffer, and clear the selection so the source app drops its
/// highlight.
pub trait TextResolver: Send + Sync {
    /// Human-readable resolver name (for logs and the UI).
    fn name(&self) -> &'static str;

    /// Whether this resolver can run on the current system.
    fn available(&self) -> bool;

    /// Read the app's current native text selection, if any.
    fn resolve_current_selection(&self) -> Result<Option<Selection>, ResolveError>;

    /// Clear the current native selection so the source app un-highlights it.
    /// Backends that cannot clear keep this no-op.
    fn clear_current_selection(&self) -> (r: Result<(), ResolveError>)
        default_ensures
            r is Ok,
    {
        Ok(())
    }
}

/// `s` without its trailing `\n` and `\r` characters.
pub open spec fn trim_line_breaks(s: Seq<char>) -> Seq<char>
    decreases s.len(),
{
    if s.len() > 0 && (s.last() == '\n' || s.last() == '\r') {
        trim_line_breaks(s.drop_last())
    } else {
        s
    }
}

/// The selection text read from raw selection bytes: lossy UTF-8 without its
/// trailing line breaks.
pub open spec fn selection_text(bytes: Seq<u8>) -> Seq<char> {
    trim_line_breaks(utf8_lossy(bytes))
}

/// Turn raw selection bytes into a [`Selection`], trimming trailing line
/// breaks and treating whitespace-only text as "nothing".
pub fn selection_from_bytes(bytes: &[u8]) -> (r: Option<Selection>)
    ensures
        match r {
            Some(selection) => {
                &&& !is_blank(selection_text(bytes@))
                &&& selection.text@ == selection_text(bytes@)
                &&& selection.source == Source::Selection
                &&& selection.bounds is None
            },
            None => is_blank(selection_text(bytes@)),
        },
        vstd::utf8::valid_utf8(bytes@) ==> selection_text(bytes@) == trim_line_breaks(
            vstd::utf8::decode_utf8(bytes@),
        ),
{
    let text = decode_utf8_lossy(bytes);
    let v = chars_of(text.as_str());
    let mut end = v.len();
    assert(v@.subrange(0, end as int) =~= v@);
    while end > 0 && (v[end - 1] == '\n' || v[end - 1] == '\r')
        invariant
            end <= v@.len(),
            trim_line_breaks(v@) == trim_line_breaks(v@.subrange(0, end as int)),
        decreases end,
    {
        assert(v@.subrange(0, end as int).drop_last() =~= v@.subrange(0, end - 1));
        end -= 1;
    }
    let kept = copy_range(v.as_slice(), 0, end);
    if blank(kept.as_slice()) {
        return None;
    }
    Some(Selection { text: string_of(kept.as_slice()), source: Source::Selection, bounds: None })
}


/// Why the compositor gave no PRIMARY selection contents, one variant per
/// paste error of the Wayland clipboard backend.
#[derive(Debug, Clone, PartialEq, Eq)]
pub enum PasteFailure {
    /// There are no seats.
    NoSeats,
    /// The selection of the requested seat is empty.
    ClipboardEmpty,
    /// No suitable type of content was offered.
    NoMimeType,
    /// The requested seat was not found.
    SeatNotFound,
    /// The compositor does not support the primary selection.
    PrimarySelectionUnsupported,
    /// Any other failure (socket, connection, protocol, pipe), with its
    /// message.
    Other(String),
}

/// What reading the PRIMARY selection gave: the offered bytes, the message of
/// a failed read of the transfer pipe, or the reason nothing was offered.
#[derive(Debug, Clone, PartialEq, Eq)]
pub enum PasteOutcome {
    /// The bytes read from the transfer pipe.
    Read(Vec<u8>),
    /// Reading the transfer pipe failed with this message.
    ReadFailed(String),
    /// The compositor offered nothing.
    Failed(PasteFailure),
}

/// Whether a paste failure only means that there is nothing to capture.
pub open spec fn is_nothing_to_capture(f: PasteFailure) -> bool {
    !(f is Other)
}

/// Reads the Wayland PRIMARY selection (`wl-paste -p`). It holds no state
/// between calls; the compositor round trip is made by the caller, which
/// hands the outcome to [`PrimarySelectionResolver::resolve_from`].
#[derive(Debug, Clone, Copy, PartialEq, Eq, Structural)]
pub struct PrimarySelectionResolver;

impl PrimarySelectionResolver {
    /// Create a PRIMARY-selection resolver.
    pub fn new() -> (r: Self)
        ensures
            r == PrimarySelectionResolver,
    {
        PrimarySelectionResolver
    }

    /// The resolver's name.
    pub fn name(&self) -> (r: &'static str)
        ensures
            r@ == "wayland-primary"@,
    {
        "wayland-primary"
    }

    /// Whether a Wayland session is reachable: `WAYLAND_DISPLAY` or
    /// `WAYLAND_SOCKET` is set.
    pub fn available_with(&self, wayland_display_set: bool, wayland_socket_set: bool) -> (b: bool)
        ensures
            b == (wayland_display_set || wayland_socket_set),
    {
        wayland_display_set || wayland_socket_set
    }

    /// The selection for a paste outcome: the bytes read become a selection
    /// as [`selection_from_bytes`] makes it; a failed read and any failure
    /// other than "nothing offered" are platform errors; nothing offered is
    /// no selection.
    pub fn resolve_from(&self, outcome: PasteOutcome) -> (r: Result<Option<Selection>, ResolveError>)
        ensures
            match outcome {
                PasteOutcome::Read(bytes) => {
                    &&& match r {
                        Ok(Some(selection)) => {
                            &&& !is_blank(selection_text(bytes@))
                            &&& selection.text@ == selection_text(bytes@)
                            &&& selection.source == Source::Selection
                            &&& selection.bounds is None
                        },
                        Ok(None) => is_blank(selection_text(bytes@)),
                        Err(_) => false,
                    }
                    &&& vstd::utf8::valid_utf8(bytes@) ==> selection_text(bytes@) == trim_line_breaks(
                        vstd::utf8::decode_utf8(bytes@),
                    )
                },
                PasteOutcome::ReadFailed(msg) => r matches Err(ResolveError::Platform(m)) && m@ == msg@,
                PasteOutcome::Failed(PasteFailure::Other(msg)) => r matches Err(ResolveError::Platform(m))
                    && m@ == msg@,
                PasteOutcome::Failed(_) => r matches Ok(None),
            },
    {
        match outcome {
            PasteOutcome::Read(bytes) => Ok(selection_from_bytes(bytes.as_slice())),
            PasteOutcome::ReadFailed(msg) => Err(ResolveError::Platform(msg)),
            PasteOutcome::Failed(PasteFailure::Other(msg)) => Err(ResolveError::Platform(msg)),
            PasteOutcome::Failed(_) => Ok(None),
        }
    }
}

} // verus!
