use layanow::capture::Source;
use layanow::resolvers::{
    selection_from_bytes, PasteFailure, PasteOutcome, PrimarySelectionResolver, ResolveError,
};

#[test]
fn trims_trailing_newlines_but_keeps_inner_whitespace() {
    let selection = selection_from_bytes(b"  Which planet?\n\n").expect("text");
    assert_eq!(selection.text, "  Which planet?");
    assert_eq!(selection.source, Source::Selection);
    assert!(selection.bounds.is_none());
}

#[test]
fn whitespace_only_is_no_selection() {
    assert!(selection_from_bytes(b"   \n\t").is_none());
    assert!(selection_from_bytes(b"").is_none());
}

#[test]
fn invalid_utf8_is_lossy_rather_than_an_error() {
    let selection = selection_from_bytes(b"Mars\xff").expect("text");
    assert!(selection.text.starts_with("Mars"));
}

#[test]
fn errors_display_helpfully() {
    assert_eq!(ResolveError::Unavailable.message(), "resolver unavailable on this system");
    assert_eq!(
        ResolveError::Platform("pipe closed".to_string()).message(),
        "platform error: pipe closed"
    );
}

#[test]
fn carriage_returns_before_the_end_are_trimmed_too() {
    let selection = selection_from_bytes(b"Venus\r\n\r\n").expect("text");
    assert_eq!(selection.text, "Venus");
}

#[test]
fn the_primary_resolver_names_itself_and_needs_wayland() {
    let resolver = PrimarySelectionResolver::new();
    assert_eq!(resolver.name(), "wayland-primary");
    assert!(resolver.available_with(true, false));
    assert!(resolver.available_with(false, true));
    assert!(!resolver.available_with(false, false));
}

#[test]
fn read_bytes_become_a_selection() {
    let resolver = PrimarySelectionResolver::new();
    let selection = resolver
        .resolve_from(PasteOutcome::Read(b"Mars\n".to_vec()))
        .expect("no error")
        .expect("a selection");
    assert_eq!(selection.text, "Mars");
    assert!(resolver.resolve_from(PasteOutcome::Read(b" \n".to_vec())).expect("ok").is_none());
}

#[test]
fn nothing_offered_is_no_selection_and_other_failures_are_errors() {
    let resolver = PrimarySelectionResolver::new();
    for failure in [
        PasteFailure::NoSeats,
        PasteFailure::ClipboardEmpty,
        PasteFailure::NoMimeType,
        PasteFailure::SeatNotFound,
        PasteFailure::PrimarySelectionUnsupported,
    ] {
        assert!(resolver.resolve_from(PasteOutcome::Failed(failure)).expect("ok").is_none());
    }
    let error = resolver
        .resolve_from(PasteOutcome::Failed(PasteFailure::Other("no compositor".to_string())))
        .expect_err("an error");
    assert_eq!(error.message(), "platform error: no compositor");
    let error = resolver
        .resolve_from(PasteOutcome::ReadFailed("broken pipe".to_string()))
        .expect_err("an error");
    assert_eq!(error.message(), "platform error: broken pipe");
}
