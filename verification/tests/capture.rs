use layanow::capture::{non_empty_lines, parse_quiz, split_blocks, Role, Selection, Session, Source};

fn selection(text: &str) -> Selection {
    Selection { text: text.to_string(), source: Source::Selection, bounds: None }
}

#[test]
fn first_item_is_the_question_and_the_rest_are_answers() {
    let mut session = Session::new();
    assert!(session.is_empty());
    assert!(!session.is_ready());

    assert_eq!(session.push(selection("q?")), Role::Question);
    assert_eq!(session.push(selection("a")), Role::Answer);
    assert_eq!(session.push(selection("b")), Role::Answer);

    assert_eq!(session.question_text(), Some("q?"));
    assert_eq!(session.answer_texts(), ["a", "b"]);
    assert!(session.is_ready());
    assert_eq!(session.len(), 3);
}

#[test]
fn answers_without_a_question_are_not_ready() {
    let mut session = Session::new();
    session.push(selection("only"));
    assert!(session.question().is_some());
    assert!(session.answers().is_empty());
    assert!(!session.is_ready());
}

#[test]
fn clear_empties_the_session() {
    let mut session = Session::new();
    session.push(selection("q?"));
    session.push(selection("a"));
    session.clear();
    assert!(session.is_empty());
    assert_eq!(session.question_text(), None);
}

#[test]
fn quiz_parsing_splits_on_blank_lines() {
    let text = "Which stakeholder is external?\n\n\nThe design team\n\n\nThe quality team\n\n\nThe development team";
    let (question, options) = parse_quiz(text).expect("a quiz");
    assert_eq!(question, "Which stakeholder is external?");
    assert_eq!(options, ["The design team", "The quality team", "The development team"]);
}

#[test]
fn quiz_parsing_falls_back_to_single_newlines() {
    let text = "All taxes should be abolished.\nStrongly Agree\nAgree\nNeutral / Not Sure\nDisagree\nStrongly Disagree";
    let (question, options) = parse_quiz(text).expect("a quiz");
    assert_eq!(question, "All taxes should be abolished.");
    assert_eq!(
        options,
        ["Strongly Agree", "Agree", "Neutral / Not Sure", "Disagree", "Strongly Disagree"]
    );
}

#[test]
fn quiz_parsing_keeps_a_wrapped_question() {
    let text = "A wrapped question\nthat continues here\n\nOption one\n\nOption two";
    let (question, options) = parse_quiz(text).expect("a quiz");
    assert_eq!(question, "A wrapped question\nthat continues here");
    assert_eq!(options, ["Option one", "Option two"]);
}

#[test]
fn quiz_parsing_splits_consecutive_option_lines_in_one_block() {
    let text = "Publicly owned research institutions, such as space programs, should receive more public funding.\n\nStrongly Agree\nAgree\nNeutral / Not Sure\nDisagree\nStrongly Disagree";
    let (question, options) = parse_quiz(text).expect("a quiz");
    assert_eq!(
        question,
        "Publicly owned research institutions, such as space programs, should receive more public funding."
    );
    assert_eq!(
        options,
        ["Strongly Agree", "Agree", "Neutral / Not Sure", "Disagree", "Strongly Disagree"]
    );
}

#[test]
fn quiz_parsing_rejects_a_single_line_or_empty_text() {
    assert_eq!(parse_quiz("just one line"), None);
    assert_eq!(parse_quiz("  \n \n"), None);
}

#[test]
fn quiz_options_are_trimmed_single_lines() {
    let text = "  Which is red?  \r\n\r\n  Mars \r\n\tVenus\t\n\n\n  ";
    let (question, options) = parse_quiz(text).expect("a quiz");
    assert_eq!(question, "Which is red?");
    assert_eq!(options, ["Mars", "Venus"]);
    for option in &options {
        assert!(!option.contains('\n'));
        assert_eq!(option.trim(), option);
        assert!(!option.is_empty());
    }
}

#[test]
fn quiz_with_a_question_block_but_no_option_lines_is_rejected() {
    // Two blocks are needed, and the second must hold a non-empty line.
    assert_eq!(parse_quiz("question\n\n   \n\n"), None);
}

#[test]
fn roles_follow_capture_order_in_a_longer_session() {
    let mut session = Session::new();
    let roles: Vec<Role> =
        ["q", "a", "b", "c"].iter().map(|text| session.push(selection(text))).collect();
    assert_eq!(roles, [Role::Question, Role::Answer, Role::Answer, Role::Answer]);
    assert_eq!(session.items()[3].role, Role::Answer);
    assert_eq!(session.answers().len(), 3);
}

#[test]
fn non_empty_lines_trims_and_drops_blank_lines() {
    assert_eq!(non_empty_lines("  a \n\n\t\n b\r\nc"), ["a", "b", "c"]);
    assert!(non_empty_lines("").is_empty());
}

#[test]
fn split_blocks_groups_lines_between_blank_lines() {
    assert_eq!(split_blocks("one\ntwo\n\n \nthree\n"), ["one\ntwo", "three"]);
    assert!(split_blocks(" \n\n").is_empty());
}

#[test]
fn a_wrapped_question_is_trimmed_only_at_its_ends() {
    let text = "  First line  \n  second line \n\n  Option  ";
    let (question, options) = parse_quiz(text).expect("a quiz");
    assert_eq!(question, "First line  \n  second line");
    assert_eq!(options, ["Option"]);
}
