use layanow::assist::{
    accessibility_available, OverlayError, Quant, ResolveError, Source, StubResolver,
};
use layanow::bundle::ATTRIBUTION;
use layanow::settings::{
    quant_label, settings_path, Palette, Quant as Precision, QuizOptions, UnloadPolicy,
};

#[test]
fn stub_resolver_drains_queued_selections_in_order() {
    let mut resolver = StubResolver::new();
    assert!(resolver.available());
    assert_eq!(resolver.pending(), 0);
    assert!(resolver.resolve_current_selection().unwrap().is_none());

    resolver.queue("first".to_string());
    resolver.queue("second".to_string());
    assert_eq!(resolver.pending(), 2);

    let first = resolver.resolve_current_selection().unwrap().unwrap();
    assert_eq!(first.text, "first");
    assert_eq!(first.source, Source::Selection);
    assert_eq!(resolver.resolve_current_selection().unwrap().unwrap().text, "second");
    assert!(resolver.resolve_current_selection().unwrap().is_none());
    assert!(resolver.watch().is_none());
}

#[test]
fn the_stub_names_itself() {
    assert_eq!(StubResolver::new().name(), "stub");
}

#[test]
fn accessibility_is_not_available_yet() {
    assert!(!accessibility_available());
}

#[test]
fn first_generation_resolver_errors_display_helpfully() {
    assert_eq!(ResolveError::Unavailable.message(), "resolver unavailable on this system");
    assert_eq!(ResolveError::Platform("x".to_string()).message(), "platform error: x");
}

#[test]
fn overlay_errors_display_helpfully() {
    assert_eq!(OverlayError::NoWayland("gone".to_string()).message(), "no Wayland compositor: gone");
    assert_eq!(
        OverlayError::Unsupported.message(),
        "the overlay is not implemented on this platform yet"
    );
    assert_eq!(OverlayError::Wayland("w".to_string()).message(), "Wayland error: w");
    assert_eq!(OverlayError::Gl("g".to_string()).message(), "OpenGL error: g");
}

#[test]
fn first_generation_precisions_are_distinct() {
    assert_ne!(Quant::Int8, Quant::Fp32);
}

#[test]
fn quant_labels_are_distinct() {
    assert_ne!(quant_label(Precision::Fp32), quant_label(Precision::Fp16));
    assert_ne!(quant_label(Precision::Fp16), quant_label(Precision::Int8));
}

#[test]
fn defaults_match_the_documented_settings() {
    assert_eq!(Precision::default(), Precision::Fp32);
    assert_eq!(UnloadPolicy::default(), UnloadPolicy::Hot);
    let palette = Palette::default();
    assert_eq!(palette.low, [0xfb, 0x49, 0x34]);
    assert_eq!(palette.mid, [0xfe, 0x80, 0x19]);
    assert_eq!(palette.high, [0xb8, 0xbb, 0x26]);
}

fn quiz_off() -> QuizOptions {
    QuizOptions {
        quiz_parse: false,
        quiz_option_letters: false,
        quiz_clear_on_enter: false,
        quiz_tab_next: false,
        quiz_tab_decides: false,
    }
}

#[test]
fn legacy_quiz_mode_enables_every_quiz_option() {
    let migrated = quiz_off().with_legacy_quiz_mode(Some(true));
    assert!(migrated.quiz_parse);
    assert!(migrated.quiz_option_letters);
    assert!(migrated.quiz_clear_on_enter);
    assert!(migrated.quiz_tab_next);
    assert!(!migrated.quiz_tab_decides);
}

#[test]
fn absent_legacy_quiz_mode_leaves_the_options_off() {
    assert_eq!(quiz_off().with_legacy_quiz_mode(Some(false)), quiz_off());
    assert_eq!(quiz_off().with_legacy_quiz_mode(None), quiz_off());
}

#[test]
fn the_settings_file_lives_in_the_config_dir() {
    assert_eq!(settings_path(Some("/xdg"), Some("/home/u")), "/xdg/layanow/config.toml");
    assert_eq!(settings_path(Some(""), Some("/home/u")), "/home/u/.config/layanow/config.toml");
    assert_eq!(settings_path(None, None), ".config/layanow/config.toml");
}

#[test]
fn the_attribution_names_both_licences() {
    assert!(ATTRIBUTION.contains("Apache-2.0"));
    assert!(ATTRIBUTION.contains("MIT"));
}

#[test]
fn the_stub_hands_out_selections_in_queue_order_across_interleaved_calls() {
    let mut resolver = StubResolver::new();
    resolver.queue("a".to_string());
    resolver.queue("b".to_string());
    assert_eq!(resolver.resolve_current_selection().unwrap().unwrap().text, "a");
    resolver.queue("c".to_string());
    assert_eq!(resolver.pending(), 2);
    assert_eq!(resolver.resolve_current_selection().unwrap().unwrap().text, "b");
    assert_eq!(resolver.resolve_current_selection().unwrap().unwrap().text, "c");
    assert_eq!(resolver.pending(), 0);
    assert!(resolver.resolve_current_selection().unwrap().is_none());
}
