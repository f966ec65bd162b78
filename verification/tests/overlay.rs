use layanow::capture::{Selection, Source};
use layanow::control::Command;
use layanow::files::{file_paths, file_uri_to_path, percent_decode, truncate_chars, FilePath};
use layanow::overlay::{template_text, upsert_template, CommandEffect, OverlayState, Phase};
use layanow::resolvers::ResolveError;
use layanow::settings::NamedContext;
use layanow::worker::Request;

/// What the platform resolver reports when `Tab` is pressed.
enum Highlight<'a> {
    Text(&'a str),
    Nothing,
    Failure(ResolveError),
}

/// `Tab`: the typed entry if there is one, otherwise the highlight; text that
/// names files (here: `file://` URIs only, with the given readable contents)
/// becomes the context.
fn capture_item(state: &mut OverlayState, highlight: Highlight<'_>, files: &[&str]) {
    let selection = if let Some(text) = state.take_entry() {
        Selection { text, source: Source::Manual, bounds: None }
    } else {
        match highlight {
            Highlight::Text(text) => {
                Selection { text: text.to_string(), source: Source::Selection, bounds: None }
            }
            Highlight::Nothing => {
                state.no_selection();
                return;
            }
            Highlight::Failure(error) => {
                state.selection_failed(&error);
                return;
            }
        }
    };
    let named = file_paths(&selection.text)
        .iter()
        .filter(|path| matches!(path, FilePath::Uri(_)))
        .count();
    let contents: Vec<String> = files.iter().map(|text| (*text).to_string()).collect();
    state.capture(selection, named, &contents);
}

fn decide(state: &mut OverlayState) -> Option<(u64, String, String, Vec<String>)> {
    match state.begin_decision()? {
        Request::Decide { id, context, question, answers } => Some((id, context, question, answers)),
        Request::Configure { .. } => None,
    }
}

#[test]
fn overlay_starts_hidden() {
    let state = OverlayState::new();
    assert!(!state.visible());
    assert!(!state.should_exit());
}

#[test]
fn toggle_command_flips_visibility() {
    let mut state = OverlayState::new();
    assert_eq!(state.handle_command(Command::Toggle), CommandEffect::RefreshContexts);
    assert!(state.visible());
    assert_eq!(state.handle_command(Command::Toggle), CommandEffect::Nothing);
    assert!(!state.visible());
}

#[test]
fn quit_command_requests_exit() {
    let mut state = OverlayState::new();
    state.handle_command(Command::Quit);
    assert!(state.should_exit());
}

#[test]
fn hiding_clears_the_session() {
    let mut state = OverlayState::new();
    state.set_entry("Which planet?".to_string());
    capture_item(&mut state, Highlight::Nothing, &[]);
    state.handle_command(Command::Show);
    assert!(state.visible());
    state.handle_command(Command::Hide);
    assert!(!state.visible());
    assert!(state.session().is_empty());
}

#[test]
fn reload_asks_for_the_settings_and_changes_nothing() {
    let mut state = OverlayState::new();
    assert_eq!(state.handle_command(Command::Reload), CommandEffect::ApplySettings);
    assert!(!state.visible());
    assert!(!state.should_exit());
}

#[test]
fn highlight_captures_build_a_session() {
    let mut state = OverlayState::new();
    capture_item(&mut state, Highlight::Text("Which planet?"), &[]);
    capture_item(&mut state, Highlight::Text("Mars"), &[]);
    assert_eq!(state.session().question_text(), Some("Which planet?"));
    assert_eq!(state.session().answer_texts(), ["Mars"]);
    assert!(state.status().is_none());
}

#[test]
fn typed_entry_is_captured_and_cleared() {
    let mut state = OverlayState::new();
    state.set_entry("Which planet?".to_string());
    capture_item(&mut state, Highlight::Nothing, &[]);
    assert_eq!(state.session().question_text(), Some("Which planet?"));
    assert!(state.entry().is_empty());
    assert!(state.status().is_none());
}

#[test]
fn typed_entry_is_recorded_as_manual() {
    let mut state = OverlayState::new();
    state.set_entry("Which planet?".to_string());
    capture_item(&mut state, Highlight::Nothing, &[]);
    let source = state.session().question().map(|item| item.selection.source);
    assert_eq!(source, Some(Source::Manual));
}

#[test]
fn highlight_is_recorded_as_a_selection() {
    let mut state = OverlayState::new();
    capture_item(&mut state, Highlight::Text("Which planet?"), &[]);
    let source = state.session().question().map(|item| item.selection.source);
    assert_eq!(source, Some(Source::Selection));
}

#[test]
fn typed_entry_takes_precedence_over_a_highlight() {
    let mut state = OverlayState::new();
    state.set_entry("typed".to_string());
    capture_item(&mut state, Highlight::Text("native highlight"), &[]);
    assert_eq!(state.session().question_text(), Some("typed"));
}

#[test]
fn repeated_selection_is_only_captured_once() {
    let mut state = OverlayState::new();
    capture_item(&mut state, Highlight::Text("Which planet?"), &[]);
    capture_item(&mut state, Highlight::Text("Which planet?"), &[]);
    assert_eq!(state.session().len(), 1);
    assert_eq!(state.status().map(String::as_str), Some("already captured"));
}

#[test]
fn nothing_to_add_sets_a_status_and_captures_nothing() {
    let mut state = OverlayState::new();
    capture_item(&mut state, Highlight::Nothing, &[]);
    assert!(state.session().is_empty());
    assert_eq!(
        state.status().map(String::as_str),
        Some("no highlight found — the app may not publish it (type instead)")
    );
}

#[test]
fn a_failed_selection_read_is_reported() {
    let mut state = OverlayState::new();
    capture_item(
        &mut state,
        Highlight::Failure(ResolveError::Platform("no seat".to_string())),
        &[],
    );
    assert!(state.session().is_empty());
    assert_eq!(state.status().map(String::as_str), Some("selection error: platform error: no seat"));
}

#[test]
fn overlay_decide_without_answers_stays_capturing() {
    let mut state = OverlayState::new();
    capture_item(&mut state, Highlight::Text("question only"), &[]);
    assert!(decide(&mut state).is_none());
    assert_eq!(state.phase(), &Phase::Capturing);
    assert_eq!(
        state.status().map(String::as_str),
        Some("capture a question and at least one answer first")
    );
}

#[test]
fn overlay_decide_then_poll_yields_results() {
    let mut state = OverlayState::new();
    for text in ["Which planet?", "Mars", "Venus"] {
        capture_item(&mut state, Highlight::Text(text), &[]);
    }
    let (id, context, question, answers) = decide(&mut state).expect("a decision");
    assert_eq!(id, 0);
    assert_eq!(context, "");
    assert_eq!(question, "Which planet?");
    assert_eq!(answers, ["Mars", "Venus"]);
    assert_eq!(state.phase(), &Phase::Running);
    assert!(state.accept_reply(id, Ok(())));
    assert_eq!(state.phase(), &Phase::Results);
    assert!(state.shows_results());
}

#[test]
fn overlay_dismiss_clears_the_session() {
    let mut state = OverlayState::new();
    capture_item(&mut state, Highlight::Text("q"), &[]);
    state.set_entry("uncommitted".to_string());
    state.dismiss();
    assert!(state.session().is_empty());
    assert!(state.status().is_none());
    assert!(state.entry().is_empty());
    assert_eq!(state.phase(), &Phase::Capturing);
}

#[test]
fn a_stale_reply_is_not_consumed_as_the_current_decision() {
    let mut state = OverlayState::new();
    for text in ["q1", "a1"] {
        capture_item(&mut state, Highlight::Text(text), &[]);
    }
    let (first, ..) = decide(&mut state).expect("first decision");

    // Abandon it, then run a second decision.
    state.dismiss();
    for text in ["q2", "a2"] {
        capture_item(&mut state, Highlight::Text(text), &[]);
    }
    let (second, _, question, _) = decide(&mut state).expect("second decision");
    assert_eq!(question, "q2");
    assert_ne!(first, second);
    assert_eq!(state.phase(), &Phase::Running);

    // The first decision's reply arrives late and is dropped.
    assert!(!state.accept_reply(first, Ok(())));
    assert_eq!(state.phase(), &Phase::Running);
    assert_eq!(state.pending_request(), Some(second));

    assert!(state.accept_reply(second, Ok(())));
    assert_eq!(state.phase(), &Phase::Results);
}

#[test]
fn overlay_a_failing_engine_becomes_an_error_phase() {
    let mut state = OverlayState::new();
    for text in ["q", "a"] {
        capture_item(&mut state, Highlight::Text(text), &[]);
    }
    let (id, ..) = decide(&mut state).expect("a decision");
    assert!(state.accept_reply(id, Err("no model".to_string())));
    assert_eq!(state.phase(), &Phase::Error("no model".to_string()));
}

#[test]
fn a_decision_that_cannot_be_sent_is_an_error() {
    let mut state = OverlayState::new();
    for text in ["q", "a"] {
        capture_item(&mut state, Highlight::Text(text), &[]);
    }
    let (id, ..) = decide(&mut state).expect("a decision");
    state.decision_not_sent("the inference worker has stopped".to_string());
    assert_eq!(state.phase(), &Phase::Error("the inference worker has stopped".to_string()));
    assert_eq!(state.pending_request(), None);
    assert!(!state.accept_reply(id, Ok(())));
}

#[test]
fn while_running_enter_does_nothing() {
    let mut state = OverlayState::new();
    for text in ["q", "a"] {
        capture_item(&mut state, Highlight::Text(text), &[]);
    }
    let (id, ..) = decide(&mut state).expect("a decision");
    assert!(decide(&mut state).is_none());
    assert_eq!(state.pending_request(), Some(id));
}

#[test]
fn decision_ids_advance() {
    let mut state = OverlayState::new();
    let mut seen = Vec::new();
    for round in 0..3 {
        for text in ["q", "a"] {
            capture_item(&mut state, Highlight::Text(&format!("{text}{round}")), &[]);
        }
        let (id, ..) = decide(&mut state).expect("a decision");
        seen.push(id);
        assert!(state.accept_reply(id, Ok(())));
        state.dismiss();
    }
    assert_eq!(seen, [0, 1, 2]);
}

#[test]
fn the_context_reaches_the_decision() {
    let mut state = OverlayState::new();
    state.set_context("the evidence".to_string());
    for text in ["q", "a"] {
        capture_item(&mut state, Highlight::Text(text), &[]);
    }
    let (_, context, ..) = decide(&mut state).expect("a decision");
    assert_eq!(context, "the evidence");
}

#[test]
fn a_file_selection_becomes_context_not_an_item() {
    let mut state = OverlayState::new();
    capture_item(
        &mut state,
        Highlight::Text("file:///tmp/passage.txt"),
        &["Mars is the Red Planet."],
    );
    assert!(state.session().is_empty(), "a file is context, not a question");
    assert_eq!(state.context(), "Mars is the Red Planet.");
    assert_eq!(state.status().map(String::as_str), Some("context loaded from 1 file(s)"));
}

#[test]
fn several_files_are_joined_by_a_blank_line() {
    let mut state = OverlayState::new();
    capture_item(
        &mut state,
        Highlight::Text("file:///a.txt\nfile:///b.txt"),
        &["first", "second"],
    );
    assert_eq!(state.context(), "first\n\nsecond");
    assert_eq!(state.status().map(String::as_str), Some("context loaded from 2 file(s)"));
}

#[test]
fn unreadable_files_leave_the_context() {
    let mut state = OverlayState::new();
    state.set_context("kept".to_string());
    capture_item(&mut state, Highlight::Text("file:///missing.txt"), &[]);
    assert_eq!(state.context(), "kept");
    assert_eq!(state.status().map(String::as_str), Some("could not read the selected file(s)"));
    assert!(state.session().is_empty());
}

#[test]
fn file_uris_are_parsed_and_decoded() {
    assert_eq!(
        file_uri_to_path("file:///tmp/a%20b.txt").map(std::path::PathBuf::from),
        Some(std::path::PathBuf::from("/tmp/a b.txt"))
    );
    assert_eq!(
        file_uri_to_path("file://localhost/tmp/c.txt").map(std::path::PathBuf::from),
        Some(std::path::PathBuf::from("/tmp/c.txt"))
    );
    assert_eq!(file_uri_to_path("https://example.com"), None);
}

#[test]
fn truncation_keeps_character_boundaries() {
    assert_eq!(truncate_chars("héllo", 3), "hél");
    assert_eq!(truncate_chars("hi", 10), "hi");
}

#[test]
fn plain_lines_are_local_path_candidates() {
    let paths = file_paths("  /etc/hostname \n\nfile:///x%41y");
    assert_eq!(
        paths,
        [FilePath::Local("/etc/hostname".to_string()), FilePath::Uri("/xAy".to_string())]
    );
}

#[test]
fn templates_are_saved_selected_and_replaced() {
    let mut state = OverlayState::new();
    state.set_context("billed twice".to_string());
    state.open_template_save();
    state.set_saving_name("  refund  ".to_string());
    let name = state.take_template_name().expect("a name");
    assert_eq!(name, "refund");
    let mut contexts: Vec<NamedContext> = Vec::new();
    upsert_template(&mut contexts, &name, state.context());
    state.template_saved(name, contexts.clone());
    assert_eq!(state.selected_template().map(String::as_str), Some("refund"));
    assert_eq!(state.status().map(String::as_str), Some("saved template \"refund\""));
    assert_eq!(template_text(state.contexts(), "refund").as_deref(), Some("billed twice"));

    upsert_template(&mut contexts, "refund", "billed three times");
    assert_eq!(contexts.len(), 1);
    assert_eq!(contexts[0].text, "billed three times");
}

#[test]
fn a_blank_template_name_is_refused() {
    let mut state = OverlayState::new();
    state.open_template_save();
    state.set_saving_name("   ".to_string());
    assert!(state.take_template_name().is_none());
    assert_eq!(state.status().map(String::as_str), Some("a template needs a name"));
}

#[test]
fn relative_lines_name_no_file() {
    assert!(file_paths("notes.txt").is_empty());
    assert!(file_paths("docs/notes.txt\n  ./a.txt").is_empty());
    assert_eq!(
        file_paths("notes.txt\n/tmp/notes.txt"),
        [FilePath::Local("/tmp/notes.txt".to_string())]
    );
}

#[test]
fn draining_replies_takes_only_the_current_one() {
    let mut state = OverlayState::new();
    for text in ["q", "a"] {
        capture_item(&mut state, Highlight::Text(text), &[]);
    }
    let (old, ..) = decide(&mut state).expect("first");
    state.dismiss();
    for text in ["q2", "a2"] {
        capture_item(&mut state, Highlight::Text(text), &[]);
    }
    let (current, ..) = decide(&mut state).expect("second");
    let replies = [(old, Ok(())), (current, Err("no model".to_string())), (old + 7, Ok(()))];
    let taken: Vec<bool> =
        replies.into_iter().map(|(id, outcome)| state.accept_reply(id, outcome)).collect();
    assert_eq!(taken, [false, true, false]);
    assert_eq!(state.phase(), &Phase::Error("no model".to_string()));
    assert_eq!(state.pending_request(), None);
}

#[test]
fn percent_escapes_decode_to_their_characters() {
    assert_eq!(percent_decode("a%20b"), "a b");
    assert_eq!(percent_decode("caf%C3%A9"), "caf\u{e9}");
    assert_eq!(percent_decode("100%"), "100%");
    assert_eq!(percent_decode("%zz"), "%zz");
}
