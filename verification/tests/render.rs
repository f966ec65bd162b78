use layanow::render::{build_sequence, render_choice_options, temp_bucket, SpecialIds};

/// A stand-in tokenizer: one id per whitespace-separated word.
fn encode(text: &str) -> Result<Vec<i64>, String> {
    text.split_whitespace()
        .map(|word| i64::try_from(100 + word.len()).map_err(|_| "test word too long".to_string()))
        .collect()
}

fn ids() -> SpecialIds {
    SpecialIds { cls: 1, sep: 2, mask: 3, pad: 0, mask_tok: "[MASK]".to_string() }
}

#[test]
fn render_choice_options_matches_reference() {
    let criteria = vec![("A".to_string(), "first".to_string()), ("B".to_string(), String::new())];
    assert_eq!(render_choice_options(&criteria), ["A: first", "B"]);
}

#[test]
fn build_sequence_layout() {
    let options = vec!["a".to_string(), "bb".to_string()];
    let rendered =
        build_sequence(encode, &ids(), "hello world", "which one", &options, 512, 192).unwrap();
    assert_eq!(rendered.ids[0], 1);
    assert_eq!(rendered.ids[5], 2);
    assert_eq!(rendered.marker_pos, [6, 8]);
    assert_eq!(rendered.ids[6], 3);
    assert_eq!(rendered.ids[8], 3);
    assert_eq!(&rendered.ids[rendered.ids.len() - 4..], [2, 105, 105, 2]);
}

#[test]
fn build_sequence_truncates_state_to_max_len() {
    let long_state = "w ".repeat(1000);
    let options = vec!["yes".to_string(), "no".to_string()];
    let rendered = build_sequence(encode, &ids(), &long_state, "is it", &options, 64, 32).unwrap();
    assert_eq!(rendered.ids.len(), 64);
    assert_eq!(rendered.ids[63], 2);
    assert_eq!(rendered.marker_pos.len(), 2);
}

#[test]
fn build_sequence_scrubs_the_mask_token() {
    let options = vec!["yes".to_string(), "no".to_string()];
    let rendered =
        build_sequence(encode, &ids(), "state [MASK] here", "x [MASK] y", &options, 128, 64)
            .unwrap();
    let masks = rendered.ids.iter().filter(|&&id| id == 3).count();
    assert_eq!(masks, 2);
}

#[test]
fn temp_bucket_boundaries() {
    for (options, size) in
        [(0, "2"), (2, "2"), (3, "3-5"), (5, "3-5"), (6, "6-10"), (10, "6-10"), (11, "11+")]
    {
        assert_eq!(temp_bucket("choice", options), format!("choice:{size}"));
    }
    assert_eq!(temp_bucket("score", 2), "score:2");
    assert_eq!(temp_bucket("noul", 2), "noul:2");
}

#[test]
fn every_marker_points_at_a_mask_token() {
    let options: Vec<String> = (0..6).map(|k| "word ".repeat(k + 1)).collect();
    let rendered =
        build_sequence(encode, &ids(), "some state text", "pick one", &options, 40, 24).unwrap();
    assert!(!rendered.marker_pos.is_empty());
    for &pos in &rendered.marker_pos {
        let pos = usize::try_from(pos).expect("a position");
        assert!(pos < rendered.ids.len());
        assert_eq!(rendered.ids[pos], 3);
    }
}

#[test]
fn tight_budgets_cut_options_but_keep_their_markers() {
    // Four options of 20 words each overflow a 32-token budget, so each is cut
    // to max((32 - 16) / 4, 4) = 4 tokens: its marker and three words.
    let options: Vec<String> = (0..4).map(|_| "w ".repeat(20)).collect();
    let rendered = build_sequence(encode, &ids(), "", "q", &options, 512, 32).unwrap();
    assert_eq!(rendered.marker_pos.len(), 4);
    let first = usize::try_from(rendered.marker_pos[0]).unwrap();
    let second = usize::try_from(rendered.marker_pos[1]).unwrap();
    assert_eq!(second - first, 4);
}

#[test]
fn markers_beyond_max_len_are_dropped() {
    let options = vec!["a".to_string(), "b".to_string(), "c".to_string()];
    // [CLS] choice question: q [SEP] = 5 tokens; markers at 5, 7, 9.
    let rendered = build_sequence(encode, &ids(), "", "q", &options, 8, 192).unwrap();
    assert_eq!(rendered.ids.len(), 8);
    assert_eq!(rendered.marker_pos, [5, 7]);
}

#[test]
fn an_encoder_error_is_returned() {
    let failing = |_: &str| -> Result<Vec<i64>, String> { Err("no tokenizer".to_string()) };
    let options = vec!["a".to_string()];
    let error = build_sequence(failing, &ids(), "", "q", &options, 64, 32).unwrap_err();
    assert_eq!(error, "no tokenizer");
}

#[test]
fn the_first_failing_text_decides_the_error() {
    // The head, then the options in order, then the state: the first text
    // that cannot be encoded is the one whose error comes back.
    let picky = |text: &str| -> Result<Vec<i64>, String> {
        if text.contains("bad") {
            Err(format!("cannot encode {text}"))
        } else {
            encode(text)
        }
    };
    let options = vec!["fine".to_string(), "bad option".to_string(), "bad again".to_string()];
    let error = build_sequence(picky, &ids(), "bad state", "which", &options, 512, 192).unwrap_err();
    assert!(error.contains("bad option"), "{error}");
    let head_error =
        build_sequence(picky, &ids(), "bad state", "bad question", &options, 512, 192).unwrap_err();
    assert!(head_error.contains("bad question"), "{head_error}");
    let state_error =
        build_sequence(picky, &ids(), "bad state", "which", &options[..1], 512, 192).unwrap_err();
    assert!(state_error.contains("bad state"), "{state_error}");
}
