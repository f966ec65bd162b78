//! The checkpoint settings that carry no floating-point values: the CPU
//! thread cap, the integer fields of the calibration config, the special
//! token spellings, which temperature calibrates a decision, and the labelled
//! options and state of a choice decision.

use vstd::prelude::*;

use serde_json::Value;

use crate::bundle::{non_empty_chars, opt_string_view, opt_view, spec_non_empty};
use crate::render::{bucket_size, temp_bucket};
use crate::text::{chars_of, str_eq, string_of};

verus! {

/// Default CPU thread cap.
pub const DEFAULT_INTRA_THREADS: usize = 4;

/// Whether every character of `s` is an ASCII decimal digit.
pub open spec fn all_digits(s: Seq<char>) -> bool {
    forall|i: int| 0 <= i < s.len() ==> '0' <= #[trigger] s[i] <= '9'
}

/// The value of a string of ASCII decimal digits.
pub open spec fn digits_value(s: Seq<char>) -> nat
    decreases s.len(),
{
    if s.len() == 0 {
        0
    } else {
        digits_value(s.drop_last()) * 10 + (s.last() as nat - '0' as nat) as nat
    }
}

/// What `usize::from_str` accepts: an optional `+` followed by at least one
/// ASCII digit, with a value that fits in a `usize`.
pub open spec fn spec_parse_usize(s: Seq<char>) -> Option<nat> {
    let digits = if s.len() > 0 && s[0] == '+' {
        s.drop_first()
    } else {
        s
    };
    if digits.len() > 0 && all_digits(digits) && digits_value(digits) <= usize::MAX {
        Some(digits_value(digits))
    } else {
        None
    }
}

/// A longer digit string is worth at least as much as its prefix.
proof fn lemma_digits_value_grows(s: Seq<char>, k: int)
    requires
        0 <= k <= s.len(),
        all_digits(s),
    ensures
        digits_value(s.subrange(0, k)) <= digits_value(s),
    decreases s.len() - k,
{
    if k < s.len() {
        lemma_digits_value_grows(s, k + 1);
        let p = s.subrange(0, k + 1);
        assert(p.drop_last() =~= s.subrange(0, k));
        let v = digits_value(s.subrange(0, k));
        assert(v <= v * 10) by (nonlinear_arith);
    } else {
        assert(s.subrange(0, k) =~= s);
    }
}

/// Parse a decimal `usize` the way `usize::from_str` does.
pub fn parse_usize(s: &str) -> (r: Option<usize>)
    ensures
        match r {
            Some(n) => spec_parse_usize(s@) == Some(n as nat),
            None => spec_parse_usize(s@) is None,
        },
{
    let chars = chars_of(s);
    let start: usize = if chars.len() > 0 && chars[0] == '+' {
        1
    } else {
        0
    };
    let ghost digits = if s@.len() > 0 && s@[0] == '+' {
        s@.drop_first()
    } else {
        s@
    };
    assert(digits =~= chars@.subrange(start as int, chars@.len() as int));
    if start >= chars.len() {
        return None;
    }
    let mut value: usize = 0;
    let mut k: usize = start;
    while k < chars.len()
        invariant
            start <= k <= chars@.len(),
            chars@ == s@,
            digits == (if s@.len() > 0 && s@[0] == '+' {
                s@.drop_first()
            } else {
                s@
            }),
            start == (if s@.len() > 0 && s@[0] == '+' { 1usize } else { 0usize }),
            digits == chars@.subrange(start as int, chars@.len() as int),
            all_digits(chars@.subrange(start as int, k as int)),
            value == digits_value(chars@.subrange(start as int, k as int)),
        decreases chars@.len() - k,
    {
        let c = chars[k];
        let ghost sub = chars@.subrange(start as int, k + 1);
        assert(sub.drop_last() =~= chars@.subrange(start as int, k as int));
        if c < '0' || c > '9' {
            assert(digits[k - start] == c);
            return None;
        }
        let d = (c as u32 - '0' as u32) as usize;
        let next = match value.checked_mul(10) {
            Some(m) => m.checked_add(d),
            None => None,
        };
        match next {
            Some(n) => {
                value = n;
            },
            None => {
                proof {
                    assert(all_digits(sub));
                    assert(digits_value(sub) > usize::MAX);
                    assert(digits.subrange(0, k + 1 - start) =~= sub);
                    if all_digits(digits) {
                        lemma_digits_value_grows(digits, k + 1 - start);
                    }
                }
                return None;
            },
        }
        k += 1;
    }
    Some(value)
}

/// The CPU thread cap for a value of `LAYANOW_INTRA_OP_THREADS`: a positive
/// decimal number, else [`DEFAULT_INTRA_THREADS`].
pub open spec fn spec_intra_threads(value: Option<Seq<char>>) -> nat {
    match spec_non_empty(value) {
        Some(v) => match spec_parse_usize(v) {
            Some(n) => if n > 0 {
                n
            } else {
                DEFAULT_INTRA_THREADS as nat
            },
            None => DEFAULT_INTRA_THREADS as nat,
        },
        None => DEFAULT_INTRA_THREADS as nat,
    }
}

/// The CPU thread cap, from the value of `LAYANOW_INTRA_OP_THREADS` if set:
/// a positive decimal number is used as it is; anything else (unset, empty,
/// not a number, zero) gives [`DEFAULT_INTRA_THREADS`].
pub fn intra_threads(value: Option<&str>) -> (r: usize)
    ensures
        r == spec_intra_threads(opt_view(value)),
{
    match non_empty_chars(value) {
        Some(_) => {
            let v = match value {
                Some(v) => v,
                None => "",
            };
            match parse_usize(v) {
                Some(n) => if n > 0 {
                    n
                } else {
                    DEFAULT_INTRA_THREADS
                },
                None => DEFAULT_INTRA_THREADS,
            }
        },
        None => DEFAULT_INTRA_THREADS,
    }
}

/// A required field of the calibration config is missing, is not a
/// non-negative integer, or does not fit in 32 bits.
#[derive(Debug, Clone, Copy, PartialEq, Eq)]
pub struct ConfigFieldError(pub &'static str);

impl ConfigFieldError {
    /// The user-facing message.
    pub fn message(&self) -> (r: String)
        ensures
            r@ == "laya_config.json is missing or malformed: "@ + self.0@,
    {
        let mut v = chars_of("laya_config.json is missing or malformed: ");
        let f = chars_of(self.0);
        crate::text::extend_chars(&mut v, f.as_slice());
        string_of(v.as_slice())
    }
}

/// A required 32-bit field of the calibration config, from its value as a
/// non-negative JSON integer (`None` when absent or of another type).
pub fn required_u32(raw: Option<u64>, field: &'static str) -> (r: Result<u32, ConfigFieldError>)
    ensures
        match raw {
            Some(n) => if n <= u32::MAX {
                r == Ok::<u32, ConfigFieldError>(n as u32)
            } else {
                r == Err::<u32, ConfigFieldError>(ConfigFieldError(field))
            },
            None => r == Err::<u32, ConfigFieldError>(ConfigFieldError(field)),
        },
{
    match raw {
        Some(n) => if n <= u32::MAX as u64 {
            Ok(n as u32)
        } else {
            Err(ConfigFieldError(field))
        },
        None => Err(ConfigFieldError(field)),
    }
}

/// What `serde_json` reads from a config text for each of `fields`: the
/// field's value when it is a non-negative JSON integer that fits in a
/// `u64` (`None` when absent or of another type); or the parser's message
/// when the text is not JSON.
pub uninterp spec fn integer_fields_of(text: Seq<char>, fields: Seq<Seq<char>>) -> Result<
    Seq<Option<u64>>,
    Seq<char>,
>;

/// Parse a config with `serde_json::from_str::<Value>` and read each of
/// `fields` with `Value::get` and `Value::as_u64`. The contract states that
/// the result is the named reading of the text, one value per field; what
/// the parser accepts and its messages are left to the name.
#[verifier::external_body]
fn parse_integer_fields(text: &str, fields: &[&str]) -> (r: Result<Vec<Option<u64>>, String>)
    ensures
        match r {
            Ok(v) => {
                &&& v@.len() == fields@.len()
                &&& integer_fields_of(text@, names_view(fields@)) == Ok::<Seq<Option<u64>>, Seq<char>>(v@)
            },
            Err(m) => integer_fields_of(text@, names_view(fields@)) == Err::<Seq<Option<u64>>, Seq<char>>(m@),
        },
{
    match serde_json::from_str::<Value>(text) {
        Ok(config) => Ok(fields.iter().map(|f| config.get(*f).and_then(Value::as_u64)).collect()),
        Err(error) => Err(error.to_string()),
    }
}

/// A required 32-bit field from its raw value (see [`required_u32`]).
pub open spec fn spec_required_u32(raw: Option<u64>) -> Option<u32> {
    match raw {
        Some(n) => if n <= u32::MAX {
            Some(n as u32)
        } else {
            None
        },
        None => None,
    }
}

/// The message of a missing or malformed config field.
pub open spec fn field_message(field: Seq<char>) -> Seq<char> {
    "laya_config.json is missing or malformed: "@ + field
}

/// The sequence budgets `(max_len, head_max_len)` of the calibration config
/// `text` read from `path`, or the message of the first failure: a text
/// that is not JSON, then a missing or malformed `max_len`, then
/// `head_max_len`.
pub open spec fn spec_config_lengths(path: Seq<char>, text: Seq<char>) -> Result<(u32, u32), Seq<char>> {
    match integer_fields_of(text, seq!["max_len"@, "head_max_len"@]) {
        Err(m) => Err("could not parse "@ + path + ": "@ + m),
        Ok(values) => match spec_required_u32(values[0]) {
            None => Err(field_message("max_len"@)),
            Some(max_len) => match spec_required_u32(values[1]) {
                None => Err(field_message("head_max_len"@)),
                Some(head_max_len) => Ok((max_len, head_max_len)),
            },
        },
    }
}

/// The sequence budgets of a checkpoint's calibration config (the text of
/// `laya_config.json`, read from `config_path`): its `max_len` and
/// `head_max_len`, each a non-negative integer that fits in 32 bits (see
/// [`spec_config_lengths`]).
pub fn config_lengths(config_path: &str, config_text: &str) -> (r: Result<(u32, u32), String>)
    ensures
        match spec_config_lengths(config_path@, config_text@) {
            Ok(lengths) => r == Ok::<(u32, u32), String>(lengths),
            Err(m) => r matches Err(e) && e@ == m,
        },
{
    proof {
        reveal_strlit("max_len");
        reveal_strlit("head_max_len");
    }
    let names = ["max_len", "head_max_len"];
    assert(names_view(names@) =~= seq!["max_len"@, "head_max_len"@]);
    match parse_integer_fields(config_text, &names) {
        Ok(values) => {
            let max_len = match required_u32(values[0], "max_len") {
                Ok(n) => n,
                Err(e) => return Err(e.message()),
            };
            let head_max_len = match required_u32(values[1], "head_max_len") {
                Ok(n) => n,
                Err(e) => return Err(e.message()),
            };
            Ok((max_len, head_max_len))
        },
        Err(m) => {
            let mut v = chars_of("could not parse ");
            crate::text::extend_chars(&mut v, chars_of(config_path).as_slice());
            crate::text::extend_chars(&mut v, chars_of(": ").as_slice());
            crate::text::extend_chars(&mut v, chars_of(m.as_str()).as_slice());
            Err(string_of(v.as_slice()))
        },
    }
}

/// The spelling of a special token from the tokenizer config: the entry
/// itself when it is a string, else its `content` when that is a string,
/// else `fallback`.
pub open spec fn spec_token_string(
    as_text: Option<Seq<char>>,
    content: Option<Seq<char>>,
    fallback: Seq<char>,
) -> Seq<char> {
    match as_text {
        Some(t) => t,
        None => match content {
            Some(c) => c,
            None => fallback,
        },
    }
}

/// The spelling of a special token: `as_text` is the config entry when it is
/// a string, `content` its `content` field when that is a string (an
/// added-token object), and `fallback` the spelling used without either.
pub fn token_string(as_text: Option<&str>, content: Option<&str>, fallback: &str) -> (r: String)
    ensures
        r@ == spec_token_string(opt_view(as_text), opt_view(content), fallback@),
{
    match as_text {
        Some(t) => string_of(chars_of(t).as_slice()),
        None => match content {
            Some(c) => string_of(chars_of(c).as_slice()),
            None => string_of(chars_of(fallback).as_slice()),
        },
    }
}

/// What `serde_json` reads from a tokenizer config for each name in
/// `fields`: the field's value when it is a string, and the `content` of
/// the field's value when that is a string; or the parser's message when the
/// text is not JSON.
pub uninterp spec fn token_fields_of(text: Seq<char>, fields: Seq<Seq<char>>) -> Result<
    Seq<(Option<Seq<char>>, Option<Seq<char>>)>,
    Seq<char>,
>;

/// The view of a pair of optional strings.
pub open spec fn pair_view(p: (Option<String>, Option<String>)) -> (Option<Seq<char>>, Option<Seq<char>>) {
    (opt_string_view(p.0), opt_string_view(p.1))
}

/// The views of a slice of names.
pub open spec fn names_view(fields: Seq<&str>) -> Seq<Seq<char>> {
    fields.map_values(|f: &str| f@)
}

/// Parse a tokenizer config with `serde_json::from_str::<Value>` and read,
/// for each of `fields`, `Value::get(field)` as a string and its `content`
/// as a string. The contract states that the result is the named reading of
/// the text, with one pair per field; what the parser accepts and its
/// messages are left to the name.
#[verifier::external_body]
fn parse_token_fields(text: &str, fields: &[&str]) -> (r: Result<Vec<(Option<String>, Option<String>)>, String>)
    ensures
        match r {
            Ok(v) => {
                &&& v@.len() == fields@.len()
                &&& token_fields_of(text@, names_view(fields@)) == Ok::<
                    Seq<(Option<Seq<char>>, Option<Seq<char>>)>,
                    Seq<char>,
                >(v@.map_values(|p: (Option<String>, Option<String>)| pair_view(p)))
            },
            Err(m) => token_fields_of(text@, names_view(fields@)) == Err::<
                Seq<(Option<Seq<char>>, Option<Seq<char>>)>,
                Seq<char>,
            >(m@),
        },
{
    let text_of = |v: Option<&Value>| v.and_then(Value::as_str).map(str::to_string);
    match serde_json::from_str::<Value>(text) {
        Ok(config) => Ok(fields.iter().map(|f| {
            let entry = config.get(*f);
            (text_of(entry), text_of(entry.and_then(|e| e.get("content"))))
        }).collect()),
        Err(error) => Err(error.to_string()),
    }
}

/// The text of an optional string.
fn str_of(o: &Option<String>) -> (r: Option<&str>)
    ensures
        opt_view(r) == opt_string_view(*o),
{
    match o {
        Some(s) => Some(s.as_str()),
        None => None,
    }
}

/// The spellings of the special tokens the renderer needs.
#[derive(Debug, Clone, PartialEq, Eq)]
pub struct TokenSpellings {
    /// The leading sequence token.
    pub cls: String,
    /// The segment separator.
    pub sep: String,
    /// The option marker.
    pub mask: String,
    /// The padding token.
    pub pad: String,
}

/// The config fields naming the special tokens, in the order cls, sep,
/// mask, pad.
pub open spec fn token_field_names() -> Seq<Seq<char>> {
    seq!["cls_token"@, "sep_token"@, "mask_token"@, "pad_token"@]
}

/// The spellings used without a config: `[CLS]`, `[SEP]`, `[MASK]`, `[PAD]`.
pub open spec fn token_fallbacks() -> Seq<Seq<char>> {
    seq!["[CLS]"@, "[SEP]"@, "[MASK]"@, "[PAD]"@]
}

/// The spellings as a sequence in the order cls, sep, mask, pad.
pub open spec fn spellings_view(t: TokenSpellings) -> Seq<Seq<char>> {
    seq![t.cls@, t.sep@, t.mask@, t.pad@]
}

/// The special-token spellings: with no config, the fallbacks; with a
/// config, each field's string (or its `content`), else its fallback; a
/// config that is not JSON gives `could not parse <path>: <message>`.
pub open spec fn spec_special_spellings(config_path: Seq<char>, config_text: Option<Seq<char>>) -> Result<
    Seq<Seq<char>>,
    Seq<char>,
> {
    match config_text {
        None => Ok(token_fallbacks()),
        Some(t) => match token_fields_of(t, token_field_names()) {
            Ok(fs) => Ok(
                Seq::new(4, |i: int| spec_token_string(fs[i].0, fs[i].1, token_fallbacks()[i])),
            ),
            Err(m) => Err("could not parse "@ + config_path + ": "@ + m),
        },
    }
}

/// `spelling` is what a config field read as `field` (its string value, its
/// `content` string) spells, with `default` when it has neither: the string
/// value first, then the `content`.
pub open spec fn spelled_by(
    spelling: Seq<char>,
    field: (Option<Seq<char>>, Option<Seq<char>>),
    default: Seq<char>,
) -> bool {
    &&& field.0 matches Some(s) ==> spelling == s
    &&& field.0 is None ==> (field.1 matches Some(c) ==> spelling == c)
    &&& (field.0 is None && field.1 is None) ==> spelling == default
}

/// Each special token is spelled by the config field of its own name. With
/// no config the spellings are `[CLS]`, `[SEP]`, `[MASK]` and `[PAD]`. With
/// a config whose fields `cls_token`, `sep_token`, `mask_token` and
/// `pad_token` read as `fields` (in that order), the cls spelling is the one
/// `cls_token` gives (falling back to `[CLS]`), the sep spelling the one
/// `sep_token` gives (falling back to `[SEP]`), and likewise for mask and
/// pad.
pub proof fn law_each_token_is_spelled_by_its_own_field(
    config_path: Seq<char>,
    config_text: Option<Seq<char>>,
    t: TokenSpellings,
)
    requires
        spec_special_spellings(config_path, config_text) == Ok::<Seq<Seq<char>>, Seq<char>>(
            spellings_view(t),
        ),
    ensures
        config_text is None ==> {
            &&& t.cls@ == "[CLS]"@
            &&& t.sep@ == "[SEP]"@
            &&& t.mask@ == "[MASK]"@
            &&& t.pad@ == "[PAD]"@
        },
        config_text matches Some(text) ==> {
            &&& token_fields_of(text, seq!["cls_token"@, "sep_token"@, "mask_token"@, "pad_token"@])
                matches Ok(fields)
            &&& spelled_by(t.cls@, fields[0], "[CLS]"@)
            &&& spelled_by(t.sep@, fields[1], "[SEP]"@)
            &&& spelled_by(t.mask@, fields[2], "[MASK]"@)
            &&& spelled_by(t.pad@, fields[3], "[PAD]"@)
        },
{
    let v = spellings_view(t);
    assert(v[0] == t.cls@ && v[1] == t.sep@ && v[2] == t.mask@ && v[3] == t.pad@);
}

/// The spellings of the special tokens, from the checkpoint's tokenizer
/// config (`config_text`, `None` when there is no config file, read from
/// `config_path`). Each role's spelling is the config field when it is a
/// string or an added-token object with a string `content`, else the
/// default spelling; a config that is not JSON is an error naming the path.
pub fn special_spellings(config_path: &str, config_text: Option<&str>) -> (r: Result<TokenSpellings, String>)
    ensures
        match spec_special_spellings(config_path@, opt_view(config_text)) {
            Ok(names) => r matches Ok(t) && spellings_view(t) == names,
            Err(m) => r matches Err(e) && e@ == m,
        },
{
    proof {
        reveal_strlit("cls_token");
        reveal_strlit("sep_token");
        reveal_strlit("mask_token");
        reveal_strlit("pad_token");
        reveal_strlit("[CLS]");
        reveal_strlit("[SEP]");
        reveal_strlit("[MASK]");
        reveal_strlit("[PAD]");
    }
    let fallbacks = ["[CLS]", "[SEP]", "[MASK]", "[PAD]"];
    let text = match config_text {
        None => {
            let t = TokenSpellings {
                cls: token_string(None, None, fallbacks[0]),
                sep: token_string(None, None, fallbacks[1]),
                mask: token_string(None, None, fallbacks[2]),
                pad: token_string(None, None, fallbacks[3]),
            };
            assert(spellings_view(t) =~= token_fallbacks());
            return Ok(t);
        },
        Some(t) => t,
    };
    let names = ["cls_token", "sep_token", "mask_token", "pad_token"];
    assert(names_view(names@) =~= token_field_names());
    match parse_token_fields(text, &names) {
        Ok(fs) => {
            let t = TokenSpellings {
                cls: token_string(str_of(&fs[0].0), str_of(&fs[0].1), fallbacks[0]),
                sep: token_string(str_of(&fs[1].0), str_of(&fs[1].1), fallbacks[1]),
                mask: token_string(str_of(&fs[2].0), str_of(&fs[2].1), fallbacks[2]),
                pad: token_string(str_of(&fs[3].0), str_of(&fs[3].1), fallbacks[3]),
            };
            let ghost fv = fs@.map_values(|p: (Option<String>, Option<String>)| pair_view(p));
            assert(spellings_view(t) =~= Seq::new(
                4,
                |i: int| spec_token_string(fv[i].0, fv[i].1, token_fallbacks()[i]),
            ));
            Ok(t)
        },
        Err(m) => {
            let mut v = chars_of("could not parse ");
            crate::text::extend_chars(&mut v, chars_of(config_path).as_slice());
            crate::text::extend_chars(&mut v, chars_of(": ").as_slice());
            crate::text::extend_chars(&mut v, chars_of(m.as_str()).as_slice());
            Err(string_of(v.as_slice()))
        },
    }
}

/// The question-type name for an index of the per-type temperatures.
pub open spec fn spec_qtype_name(qtype_index: usize) -> Seq<char> {
    if qtype_index == 1 {
        "score"@
    } else if qtype_index == 2 {
        "noul"@
    } else {
        "choice"@
    }
}

/// The question-type name for an index of the per-type temperatures:
/// `score` for 1, `noul` for 2, and `choice` otherwise.
pub fn qtype_name(qtype_index: usize) -> (r: &'static str)
    ensures
        r@ == spec_qtype_name(qtype_index),
{
    if qtype_index == 1 {
        "score"
    } else if qtype_index == 2 {
        "noul"
    } else {
        "choice"
    }
}

/// Which configured temperature calibrates a decision.
#[derive(Debug, Clone, Copy, PartialEq, Eq, Structural)]
pub enum TemperatureSlot {
    /// The `k`-th per-cardinality bucket temperature.
    ByOptions(usize),
    /// The per-question-type temperature at this index.
    ByQtype(usize),
    /// No temperature applies: use 1.
    Unit,
}

/// The index of the first of `names` equal to `key`, if any.
pub open spec fn first_index(names: Seq<Seq<char>>, key: Seq<char>) -> Option<int>
    decreases names.len(),
{
    if names.len() == 0 {
        None
    } else if names[0] == key {
        Some(0)
    } else {
        match first_index(names.drop_first(), key) {
            Some(i) => Some(i + 1),
            None => None,
        }
    }
}

/// The temperature for a decision of question type `qtype_index` over
/// `options` options, given the names of the per-cardinality buckets in
/// config order: the first bucket named `<qtype>:<size>`, else the
/// per-type temperature when the index has one (there are three), else 1.
pub open spec fn spec_temperature_slot(names: Seq<Seq<char>>, qtype_index: usize, options: usize) -> TemperatureSlot {
    let key = spec_qtype_name(qtype_index) + seq![':'] + bucket_size(options);
    match first_index(names, key) {
        Some(k) => TemperatureSlot::ByOptions(k as usize),
        None => if qtype_index < 3 {
            TemperatureSlot::ByQtype(qtype_index)
        } else {
            TemperatureSlot::Unit
        },
    }
}

/// Which temperature calibrates a decision; see [`spec_temperature_slot`].
pub fn temperature_slot(bucket_names: &[String], qtype_index: usize, options: usize) -> (r: TemperatureSlot)
    ensures
        r == spec_temperature_slot(crate::capture::string_views(bucket_names@), qtype_index, options),
{
    let ghost names = crate::capture::string_views(bucket_names@);
    let key = temp_bucket(qtype_name(qtype_index), options);
    let mut k: usize = 0;
    assert(names.skip(0) =~= names);
    while k < bucket_names.len()
        invariant
            k <= bucket_names@.len(),
            names == crate::capture::string_views(bucket_names@),
            key@ == spec_qtype_name(qtype_index) + seq![':'] + bucket_size(options),
            first_index(names, key@) == match first_index(names.skip(k as int), key@) {
                Some(i) => Some(i + k),
                None => None::<int>,
            },
        decreases bucket_names@.len() - k,
    {
        assert(names.skip(k as int).drop_first() =~= names.skip(k + 1));
        assert(names.skip(k as int)[0] == bucket_names@[k as int]@);
        if str_eq(bucket_names[k].as_str(), key.as_str()) {
            assert(first_index(names.skip(k as int), key@) == Some(0int));
            return TemperatureSlot::ByOptions(k);
        }
        k += 1;
    }
    assert(names.skip(k as int) =~= Seq::<Seq<char>>::empty());
    if qtype_index < 3 {
        TemperatureSlot::ByQtype(qtype_index)
    } else {
        TemperatureSlot::Unit
    }
}


/// The label of the option at `index`: `A` to `Z` for the first 26, then
/// the option's 1-based number.
pub open spec fn spec_option_label(index: nat) -> Seq<char> {
    if index < 26 {
        seq!["ABCDEFGHIJKLMNOPQRSTUVWXYZ"@[index as int]]
    } else {
        crate::text::decimal(index + 1)
    }
}

/// The label of the option at `index` (see [`spec_option_label`]); the
/// 1-based number must fit in a `usize`.
pub fn option_label(index: usize) -> (r: String)
    requires
        index < usize::MAX,
    ensures
        r@ == spec_option_label(index as nat),
{
    proof {
        reveal_strlit("ABCDEFGHIJKLMNOPQRSTUVWXYZ");
    }
    if index < 26 {
        let letters = chars_of("ABCDEFGHIJKLMNOPQRSTUVWXYZ");
        let mut v: Vec<char> = Vec::new();
        v.push(letters[index]);
        assert(v@ =~= seq!["ABCDEFGHIJKLMNOPQRSTUVWXYZ"@[index as int]]);
        string_of(v.as_slice())
    } else {
        let mut v: Vec<char> = Vec::new();
        crate::text::push_decimal(&mut v, index as u64 + 1);
        assert(v@ =~= crate::text::decimal(index as nat + 1));
        string_of(v.as_slice())
    }
}

/// The model's `state` for a decision: the context, or `{}` (the empty
/// state) when the context is blank.
pub open spec fn spec_decision_state(context: Seq<char>) -> Seq<char> {
    if crate::text::is_blank(context) {
        "{}"@
    } else {
        context
    }
}

/// The model's `state` for a decision with `context` (see
/// [`spec_decision_state`]).
pub fn decision_state(context: &str) -> (r: String)
    ensures
        r@ == spec_decision_state(context@),
{
    let c = chars_of(context);
    if crate::text::blank(c.as_slice()) {
        string_of(chars_of("{}").as_slice())
    } else {
        string_of(c.as_slice())
    }
}

/// The rendered options of a `choice` decision over `answers`: the `i`-th
/// answer labelled with [`spec_option_label`]`(i)`. No answers is an error:
/// a choice needs at least one.
pub fn choice_options(answers: &[String]) -> (r: Result<Vec<String>, String>)
    ensures
        answers@.len() == 0 ==> (r matches Err(m) && m@
            == "a choice decision needs at least one answer"@),
        answers@.len() > 0 ==> (r matches Ok(options) && {
            &&& options@.len() == answers@.len()
            &&& forall|i: int|
                0 <= i < options@.len() ==> #[trigger] options@[i]@ == crate::render::choice_option(
                    spec_option_label(i as nat),
                    answers@[i]@,
                )
        }),
{
    if answers.len() == 0 {
        return Err(string_of(chars_of("a choice decision needs at least one answer").as_slice()));
    }
    let mut criteria: Vec<(String, String)> = Vec::new();
    let mut k: usize = 0;
    while k < answers.len()
        invariant
            k <= answers@.len(),
            criteria@.len() == k,
            forall|i: int|
                0 <= i < k ==> (#[trigger] criteria@[i]).0@ == spec_option_label(i as nat)
                    && criteria@[i].1@ == answers@[i]@,
        decreases answers@.len() - k,
    {
        let label = option_label(k);
        let text = string_of(chars_of(answers[k].as_str()).as_slice());
        criteria.push((label, text));
        k += 1;
    }
    Ok(crate::render::render_choice_options(criteria.as_slice()))
}

} // verus!
