//! Persisted user settings that carry no floating-point values: weight
//! precision, model residency, context templates, probability-bar colours and
//! the quiz options.

use vstd::prelude::*;

use crate::bundle::{join, join_path, non_empty_chars, opt_view, spec_non_empty};
use crate::text::{chars_of, string_of};

verus! {

/// Weight precision of a checkpoint graph. The default is [`Quant::Fp32`].
#[derive(Debug, Clone, Copy, PartialEq, Eq, Structural)]
pub enum Quant {
    /// 32-bit floating point weights (largest, highest fidelity); the default.
    Fp32,
    /// 16-bit floating point weights (half the size; slower on CPUs without
    /// native FP16).
    Fp16,
    /// 8-bit quantized weights (smallest, fastest; opt-in, lower accuracy).
    Int8,
}

impl Default for Quant {
    fn default() -> (q: Self)
        ensures
            q == Quant::Fp32,
    {
        Quant::Fp32
    }
}

/// The display label of a weight precision.
pub open spec fn spec_quant_label(quant: Quant) -> Seq<char> {
    match quant {
        Quant::Fp32 => "fp32 — highest fidelity"@,
        Quant::Fp16 => "fp16 — smaller, slower on CPU"@,
        Quant::Int8 => "int8 — smallest, fastest (lower accuracy)"@,
    }
}

/// The display label for a weight precision.
pub fn quant_label(quant: Quant) -> (r: &'static str)
    ensures
        r@ == spec_quant_label(quant),
{
    match quant {
        Quant::Fp32 => "fp32 — highest fidelity",
        Quant::Fp16 => "fp16 — smaller, slower on CPU",
        Quant::Int8 => "int8 — smallest, fastest (lower accuracy)",
    }
}

/// Whether the model stays resident or is unloaded between decisions.
#[derive(Debug, Clone, Copy, PartialEq, Eq, Structural)]
pub enum UnloadPolicy {
    /// Keep the model resident (the default): instant answers.
    Hot,
    /// Drop the model after each decision and reload on the next one.
    OnDemand,
}

impl Default for UnloadPolicy {
    fn default() -> (p: Self)
        ensures
            p == UnloadPolicy::Hot,
    {
        UnloadPolicy::Hot
    }
}

/// A named, reusable context (the Laya `state`) template.
#[derive(Debug, Clone, PartialEq, Eq)]
pub struct NamedContext {
    /// The template's name (unique within the saved templates).
    pub name: String,
    /// The context text sent as the model's `state`.
    pub text: String,
}

/// The three anchor colours of the probability ramp: a bar's colour lerps
/// `low -> mid -> high` as its probability goes `0 -> 0.5 -> 1`.
#[derive(Debug, Clone, Copy, PartialEq, Eq)]
pub struct Palette {
    /// Colour at probability 0.
    pub low: [u8; 3],
    /// Colour at probability 0.5.
    pub mid: [u8; 3],
    /// Colour at probability 1.
    pub high: [u8; 3],
}

impl Default for Palette {
    /// The gruvbox red/orange/green accents.
    fn default() -> (p: Self)
        ensures
            p.low@ == seq![0xfbu8, 0x49u8, 0x34u8],
            p.mid@ == seq![0xfeu8, 0x80u8, 0x19u8],
            p.high@ == seq![0xb8u8, 0xbbu8, 0x26u8],
    {
        let p = Palette { low: [0xfb, 0x49, 0x34], mid: [0xfe, 0x80, 0x19], high: [0xb8, 0xbb, 0x26] };
        assert(p.low@ =~= seq![0xfbu8, 0x49u8, 0x34u8]);
        assert(p.mid@ =~= seq![0xfeu8, 0x80u8, 0x19u8]);
        assert(p.high@ =~= seq![0xb8u8, 0xbbu8, 0x26u8]);
        p
    }
}

/// The quiz-mode switches of the settings.
#[derive(Debug, Clone, Copy, PartialEq, Eq, Structural)]
pub struct QuizOptions {
    /// Split a whole-quiz selection into the question and its options.
    pub quiz_parse: bool,
    /// Draw the captured options as `A.`, `B.`, ….
    pub quiz_option_letters: bool,
    /// Clear the captured question and answers when a decision is sent.
    pub quiz_clear_on_enter: bool,
    /// `Tab` while results are shown loads the next quiz.
    pub quiz_tab_next: bool,
    /// A capturing `Tab` runs the decision immediately.
    pub quiz_tab_decides: bool,
}

impl QuizOptions {
    /// Migrate the old single `quiz_mode` flag: when it was set to `true`,
    /// the parse, letters, clear-on-enter and tab-next options are all turned
    /// on; otherwise the options are kept as read.
    pub fn with_legacy_quiz_mode(self, quiz_mode: Option<bool>) -> (r: Self)
        ensures
            quiz_mode == Some(true) ==> r == (QuizOptions {
                quiz_parse: true,
                quiz_option_letters: true,
                quiz_clear_on_enter: true,
                quiz_tab_next: true,
                quiz_tab_decides: self.quiz_tab_decides,
            }),
            quiz_mode != Some(true) ==> r == self,
    {
        match quiz_mode {
            Some(true) => QuizOptions {
                quiz_parse: true,
                quiz_option_letters: true,
                quiz_clear_on_enter: true,
                quiz_tab_next: true,
                quiz_tab_decides: self.quiz_tab_decides,
            },
            _ => self,
        }
    }
}


/// The settings file: `$XDG_CONFIG_HOME/layanow/config.toml` when that
/// variable is set and not empty, else `$HOME/.config/layanow/config.toml`.
pub open spec fn spec_settings_path(xdg_config_home: Option<Seq<char>>, home: Option<Seq<char>>) -> Seq<
    char,
> {
    match spec_non_empty(xdg_config_home) {
        Some(dir) => join_path(join_path(dir, "layanow"@), "config.toml"@),
        None => {
            let h = match home {
                Some(h) => h,
                None => Seq::<char>::empty(),
            };
            join_path(join_path(join_path(h, ".config"@), "layanow"@), "config.toml"@)
        },
    }
}

/// The path of the settings file, from the values of `XDG_CONFIG_HOME` and
/// `HOME` (each `None` when unset).
pub fn settings_path(xdg_config_home: Option<&str>, home: Option<&str>) -> (r: String)
    ensures
        r@ == spec_settings_path(opt_view(xdg_config_home), opt_view(home)),
{
    proof {
        reveal_strlit("layanow");
        reveal_strlit("config.toml");
        reveal_strlit(".config");
    }
    let layanow = chars_of("layanow");
    let file = chars_of("config.toml");
    match non_empty_chars(xdg_config_home) {
        Some(dir) => {
            let a = join(dir.as_slice(), layanow.as_slice());
            string_of(join(a.as_slice(), file.as_slice()).as_slice())
        },
        None => {
            let h = match home {
                Some(h) => chars_of(h),
                None => Vec::new(),
            };
            let a = join(h.as_slice(), chars_of(".config").as_slice());
            let b = join(a.as_slice(), layanow.as_slice());
            string_of(join(b.as_slice(), file.as_slice()).as_slice())
        },
    }
}

} // verus!
