use layanow::model::{
    choice_options, config_lengths, decision_state, intra_threads, option_label, parse_usize, qtype_name,
    required_u32, special_spellings, temperature_slot, token_string, ConfigFieldError,
    TemperatureSlot, TokenSpellings, DEFAULT_INTRA_THREADS,
};
use layanow::render::CHOICE_QTYPE_INDEX;

#[test]
fn token_string_reads_plain_strings_and_objects() {
    // `"cls_token": "[CLS]"` and `"mask_token": { "content": "<mask>" }`.
    assert_eq!(token_string(Some("[CLS]"), None, "?"), "[CLS]");
    assert_eq!(token_string(None, Some("<mask>"), "?"), "<mask>");
    assert_eq!(token_string(None, None, "[PAD]"), "[PAD]");
}

#[test]
fn usize_parsing_follows_from_str() {
    assert_eq!(parse_usize("8"), Some(8));
    assert_eq!(parse_usize("+12"), Some(12));
    assert_eq!(parse_usize("007"), Some(7));
    assert_eq!(parse_usize(""), None);
    assert_eq!(parse_usize("+"), None);
    assert_eq!(parse_usize("-1"), None);
    assert_eq!(parse_usize(" 4"), None);
    assert_eq!(parse_usize("4x"), None);
    assert_eq!(parse_usize("99999999999999999999999999"), None);
    assert_eq!(parse_usize(&usize::MAX.to_string()), Some(usize::MAX));
}

#[test]
fn the_thread_cap_defaults_unless_a_positive_number_is_given() {
    assert_eq!(DEFAULT_INTRA_THREADS, 4);
    assert_eq!(intra_threads(None), 4);
    assert_eq!(intra_threads(Some("")), 4);
    assert_eq!(intra_threads(Some("0")), 4);
    assert_eq!(intra_threads(Some("many")), 4);
    assert_eq!(intra_threads(Some("2")), 2);
}

#[test]
fn required_fields_must_fit_in_32_bits() {
    assert_eq!(required_u32(Some(512), "max_len"), Ok(512));
    assert_eq!(required_u32(None, "max_len"), Err(ConfigFieldError("max_len")));
    assert_eq!(required_u32(Some(1 << 40), "head_max_len"), Err(ConfigFieldError("head_max_len")));
    assert_eq!(
        ConfigFieldError("max_len").message(),
        "laya_config.json is missing or malformed: max_len"
    );
}

#[test]
fn calibration_uses_the_choice_bucket_when_configured() {
    let names = vec!["score:2".to_string(), "choice:3-5".to_string(), "choice:3-5".to_string()];
    assert_eq!(temperature_slot(&names, CHOICE_QTYPE_INDEX, 3), TemperatureSlot::ByOptions(1));
    assert_eq!(temperature_slot(&names, CHOICE_QTYPE_INDEX, 2), TemperatureSlot::ByQtype(0));
    assert_eq!(temperature_slot(&names, 1, 2), TemperatureSlot::ByOptions(0));
    assert_eq!(temperature_slot(&names, 7, 2), TemperatureSlot::Unit);
}

#[test]
fn question_type_names() {
    assert_eq!(qtype_name(0), "choice");
    assert_eq!(qtype_name(1), "score");
    assert_eq!(qtype_name(2), "noul");
    assert_eq!(qtype_name(9), "choice");
}

fn spellings(cls: &str, sep: &str, mask: &str, pad: &str) -> TokenSpellings {
    TokenSpellings {
        cls: cls.to_string(),
        sep: sep.to_string(),
        mask: mask.to_string(),
        pad: pad.to_string(),
    }
}

#[test]
fn special_spellings_fall_back_without_a_config() {
    assert_eq!(special_spellings("tokenizer_config.json", None), Ok(spellings("[CLS]", "[SEP]", "[MASK]", "[PAD]")));
}

#[test]
fn special_spellings_read_strings_and_content_objects() {
    let config = r#"{"cls_token": "<s>", "mask_token": {"content": "<mask>", "lstrip": true}, "pad_token": 7}"#;
    assert_eq!(
        special_spellings("tokenizer_config.json", Some(config)),
        Ok(spellings("<s>", "[SEP]", "<mask>", "[PAD]"))
    );
}

#[test]
fn special_spellings_report_an_unparsable_config() {
    let error = special_spellings("dir/tokenizer_config.json", Some("not json")).unwrap_err();
    assert!(error.starts_with("could not parse dir/tokenizer_config.json: "), "{error}");
    assert!(error.len() > "could not parse dir/tokenizer_config.json: ".len());
}

#[test]
fn option_labels_run_through_the_alphabet_then_count() {
    assert_eq!(option_label(0), "A");
    assert_eq!(option_label(1), "B");
    assert_eq!(option_label(25), "Z");
    assert_eq!(option_label(26), "27");
    assert_eq!(option_label(99), "100");
}

#[test]
fn a_blank_context_is_the_empty_state() {
    assert_eq!(decision_state(""), "{}");
    assert_eq!(decision_state(" \n\t"), "{}");
    assert_eq!(decision_state("{\"turn\": 3}"), "{\"turn\": 3}");
}

#[test]
fn choice_options_label_each_answer() {
    let answers = vec!["first".to_string(), String::new(), "third".to_string()];
    assert_eq!(choice_options(&answers), Ok(vec!["A: first".to_string(), "B".to_string(), "C: third".to_string()]));
    assert_eq!(choice_options(&[]), Err("a choice decision needs at least one answer".to_string()));
}

#[test]
fn config_lengths_read_the_two_budgets() {
    let config = r#"{"max_len": 512, "head_max_len": 192, "temperature": [1.2, 0.9, 1.0], "extra": "ignored"}"#;
    assert_eq!(config_lengths("laya_config.json", config), Ok((512, 192)));
}

#[test]
fn config_lengths_report_the_first_bad_field() {
    assert_eq!(
        config_lengths("c.json", r#"{"head_max_len": 192}"#),
        Err("laya_config.json is missing or malformed: max_len".to_string())
    );
    assert_eq!(
        config_lengths("c.json", r#"{"max_len": 512, "head_max_len": -1}"#),
        Err("laya_config.json is missing or malformed: head_max_len".to_string())
    );
    assert_eq!(
        config_lengths("c.json", r#"{"max_len": 4294967296, "head_max_len": "192"}"#),
        Err("laya_config.json is missing or malformed: max_len".to_string())
    );
    let error = config_lengths("dir/c.json", "{").unwrap_err();
    assert!(error.starts_with("could not parse dir/c.json: "), "{error}");
}
