//! The overlay's capture/decision state machine.
//!
//! The overlay starts hidden; showing or hiding it clears the session. While
//! capturing, `Tab` adds an item (typed text if any, else the native
//! selection; a repeat of the last item is ignored, and a file selection
//! becomes the context), `Enter` sends a decision with a fresh id, and only
//! the reply to the decision in flight is accepted. Drawing, the selection
//! read, file reads and the worker channel belong to the application, which
//! reports their outcomes here.

use vstd::prelude::*;

use crate::capture::{Item, Selection, Session, Source};
use crate::control::Command;
use crate::files::{spec_truncate_chars, truncate_chars, MAX_CONTEXT_CHARS};
use crate::resolvers::{resolve_error_message, ResolveError};
use crate::settings::NamedContext;
use crate::text::{
    chars_of, decimal, extend_chars, join, push_decimal, str_eq, string_of, trim, trimmed,
};
use crate::worker::Request;

verus! {

/// The overlay's current phase.
#[derive(Debug, Clone, PartialEq, Eq)]
pub enum Phase {
    /// Capturing items; `Enter` runs the decision.
    Capturing,
    /// A decision is running on the worker thread.
    Running,
    /// Ranked results are displayed.
    Results,
    /// The last decision failed; the string is user-facing.
    Error(String),
}

/// What the application must do after a control command.
#[derive(Debug, Clone, Copy, PartialEq, Eq, Structural)]
pub enum CommandEffect {
    /// Nothing beyond redrawing.
    Nothing,
    /// The overlay was shown: reload the saved context templates.
    RefreshContexts,
    /// Re-read the settings file and apply it.
    ApplySettings,
}

/// The phase together with the id of the decision in flight.
struct Flight {
    phase: Phase,
    pending_request: Option<u64>,
}

/// The capture/decision state behind the overlay.
pub struct OverlayState {
    session: Session,
    flight: Flight,
    status: Option<String>,
    entry: String,
    context: String,
    contexts: Vec<NamedContext>,
    saving_name: Option<String>,
    selected_template: Option<String>,
    next_request: u64,
    visible: bool,
    exit: bool,
}

/// `"\n\n"`, the separator between the contents of several context files.
pub open spec fn file_separator() -> Seq<char> {
    seq!['\n', '\n']
}

/// The status after reading `count` context files successfully.
pub open spec fn files_loaded_status(count: nat) -> Seq<char> {
    "context loaded from "@ + decimal(count) + " file(s)"@
}

/// The first template named `name` in `contexts`, if any.
pub open spec fn find_template(contexts: Seq<NamedContext>, name: Seq<char>) -> Option<
    NamedContext,
>
    decreases contexts.len(),
{
    if contexts.len() == 0 {
        None
    } else if contexts[0].name@ == name {
        Some(contexts[0])
    } else {
        find_template(contexts.drop_first(), name)
    }
}

impl OverlayState {
    /// A decision is in flight exactly while the phase is `Running`.
    #[verifier::type_invariant]
    closed spec fn running_has_pending(self) -> bool {
        (self.flight.phase == Phase::Running) == (self.flight.pending_request is Some)
    }

    /// The captured items.
    pub closed spec fn items(self) -> Seq<Item> {
        self.session@
    }

    /// The current phase.
    pub closed spec fn spec_phase(self) -> Phase {
        self.flight.phase
    }

    /// The user-facing hint, if any.
    pub closed spec fn spec_status(self) -> Option<String> {
        self.status
    }

    /// The typed, not yet captured item text.
    pub closed spec fn spec_entry(self) -> Seq<char> {
        self.entry@
    }

    /// The context text, sent as the model's `state`.
    pub closed spec fn spec_context(self) -> Seq<char> {
        self.context@
    }

    /// The saved context templates.
    pub closed spec fn spec_contexts(self) -> Seq<NamedContext> {
        self.contexts@
    }

    /// The template name being typed, while the save field is open.
    pub closed spec fn spec_saving_name(self) -> Option<String> {
        self.saving_name
    }

    /// The template chosen in the dropdown.
    pub closed spec fn spec_selected_template(self) -> Option<String> {
        self.selected_template
    }

    /// The id the next decision gets.
    pub closed spec fn spec_next_request(self) -> u64 {
        self.next_request
    }

    /// The id of the decision in flight, if any.
    pub closed spec fn spec_pending(self) -> Option<u64> {
        self.flight.pending_request
    }

    /// Whether the overlay is shown.
    pub closed spec fn spec_visible(self) -> bool {
        self.visible
    }

    /// Whether the applet should quit.
    pub closed spec fn spec_exit(self) -> bool {
        self.exit
    }

    /// `a` and `b` agree on the session, the status and the typed entry.
    pub open spec fn same_capture(a: Self, b: Self) -> bool {
        &&& a.items() == b.items()
        &&& a.spec_status() == b.spec_status()
        &&& a.spec_entry() == b.spec_entry()
    }

    /// `a` and `b` agree on the context, the templates and the template UI.
    pub open spec fn same_context(a: Self, b: Self) -> bool {
        &&& a.spec_context() == b.spec_context()
        &&& a.spec_contexts() == b.spec_contexts()
        &&& a.spec_saving_name() == b.spec_saving_name()
        &&& a.spec_selected_template() == b.spec_selected_template()
    }

    /// `a` and `b` agree on the phase and the decision ids.
    pub open spec fn same_decision(a: Self, b: Self) -> bool {
        &&& a.spec_phase() == b.spec_phase()
        &&& a.spec_next_request() == b.spec_next_request()
        &&& a.spec_pending() == b.spec_pending()
    }

    /// `a` and `b` agree on visibility and the exit request.
    pub open spec fn same_visibility(a: Self, b: Self) -> bool {
        &&& a.spec_visible() == b.spec_visible()
        &&& a.spec_exit() == b.spec_exit()
    }

    /// The state after a dismissal of `a`: capturing an empty session with no
    /// decision in flight, nothing typed, no context and no template UI.
    pub open spec fn dismissed(a: Self, b: Self) -> bool {
        &&& b.spec_phase() == Phase::Capturing
        &&& b.spec_pending() is None
        &&& b.spec_next_request() == a.spec_next_request()
        &&& b.items() == Seq::<Item>::empty()
        &&& b.spec_status() is None
        &&& b.spec_entry() == Seq::<char>::empty()
        &&& b.spec_context() == Seq::<char>::empty()
        &&& b.spec_contexts() == a.spec_contexts()
        &&& b.spec_saving_name() is None
        &&& b.spec_selected_template() is None
    }

    /// `b` is `a` after a decision was sent: running, with the id `a` would
    /// give next in flight, and the counter advanced past it.
    pub open spec fn decision_sent(a: Self, b: Self) -> bool {
        &&& b.spec_phase() == Phase::Running
        &&& b.spec_pending() == Some(a.spec_next_request())
        &&& b.spec_next_request() == next_id(a.spec_next_request())
    }

    /// `b` is `a` after `selection` was offered for capture: a repeat of the
    /// most recent item is ignored and the status says so; anything else is
    /// appended (its role following its position) and clears the status.
    pub open spec fn selection_pushed(a: Self, b: Self, selection: Selection) -> bool {
        &&& if a.items().len() > 0 && a.items().last().selection.text@ == selection.text@ {
            &&& b.items() == a.items()
            &&& b.spec_status() matches Some(s) && s@ == "already captured"@
        } else {
            &&& b.items() == a.items().push(
                Item { role: crate::capture::role_at(a.items().len() as int), selection },
            )
            &&& b.spec_status() is None
        }
        &&& b.spec_entry() == a.spec_entry()
        &&& Self::same_context(a, b)
        &&& Self::same_decision(a, b)
        &&& Self::same_visibility(a, b)
    }

    /// `b` is `a` after a selection named files of which `contents` could be
    /// read: with none read only the status changes; otherwise they become
    /// the context (joined by a blank line and cut to [`MAX_CONTEXT_CHARS`]
    /// characters), any template is deselected, and the status counts them.
    /// Nothing is captured either way.
    pub open spec fn files_loaded(a: Self, b: Self, contents: Seq<String>) -> bool {
        &&& contents.len() == 0 ==> {
            &&& b.spec_status() matches Some(s) && s@ == "could not read the selected file(s)"@
            &&& Self::same_context(a, b)
        }
        &&& contents.len() > 0 ==> {
            &&& b.spec_status() matches Some(s) && s@ == files_loaded_status(contents.len())
            &&& b.spec_context() == spec_truncate_chars(
                join(crate::capture::string_views(contents), file_separator()),
                MAX_CONTEXT_CHARS as int,
            )
            &&& b.spec_selected_template() is None
            &&& b.spec_contexts() == a.spec_contexts()
            &&& b.spec_saving_name() == a.spec_saving_name()
        }
        &&& b.items() == a.items()
        &&& b.spec_entry() == a.spec_entry()
        &&& Self::same_decision(a, b)
        &&& Self::same_visibility(a, b)
    }

    /// `b` is `a` after `outcome` was taken as the reply to the decision in
    /// flight: nothing is in flight any more, the phase shows the results
    /// or the error, and nothing else changes.
    pub open spec fn reply_taken(a: Self, outcome: Result<(), String>, b: Self) -> bool {
        &&& b.spec_pending() is None
        &&& b.spec_phase() == outcome_phase(outcome)
        &&& b.spec_next_request() == a.spec_next_request()
        &&& Self::same_capture(a, b)
        &&& Self::same_context(a, b)
        &&& Self::same_visibility(a, b)
    }

    /// `b` is `a` after a reply for decision `id` arrived: the reply to the
    /// decision in flight is taken; any other reply is stale and changes
    /// nothing.
    pub open spec fn reply_step(a: Self, id: u64, outcome: Result<(), String>, b: Self) -> bool {
        if a.spec_pending() == Some(id) {
            Self::reply_taken(a, outcome, b)
        } else {
            b == a
        }
    }

    /// A hidden overlay, capturing an empty session.
    pub fn new() -> (s: Self)
        ensures
            s.spec_phase() == Phase::Capturing,
            s.spec_pending() is None,
            s.spec_next_request() == 0,
            s.items() == Seq::<Item>::empty(),
            s.spec_status() is None,
            s.spec_entry() == Seq::<char>::empty(),
            s.spec_context() == Seq::<char>::empty(),
            s.spec_contexts() == Seq::<NamedContext>::empty(),
            s.spec_saving_name() is None,
            s.spec_selected_template() is None,
            !s.spec_visible(),
            !s.spec_exit(),
    {
        OverlayState {
            session: Session::new(),
            flight: Flight { phase: Phase::Capturing, pending_request: None },
            status: None,
            entry: String::new(),
            context: String::new(),
            contexts: Vec::new(),
            saving_name: None,
            selected_template: None,
            next_request: 0,
            visible: false,
            exit: false,
        }
    }

    // --- read access ------------------------------------------------------

    /// The capture session.
    pub fn session(&self) -> (r: &Session)
        ensures
            r@ == self.items(),
    {
        &self.session
    }

    /// The current phase.
    pub fn phase(&self) -> (r: &Phase)
        ensures
            *r == self.spec_phase(),
    {
        &self.flight.phase
    }

    /// The user-facing hint, if any.
    pub fn status(&self) -> (r: Option<&String>)
        ensures
            r == match self.spec_status() {
                Some(s) => Some(&s),
                None => None::<&String>,
            },
    {
        match &self.status {
            Some(s) => Some(s),
            None => None,
        }
    }

    /// The typed, not yet captured item text.
    pub fn entry(&self) -> (r: &str)
        ensures
            r@ == self.spec_entry(),
    {
        self.entry.as_str()
    }

    /// The context text.
    pub fn context(&self) -> (r: &str)
        ensures
            r@ == self.spec_context(),
    {
        self.context.as_str()
    }

    /// The saved context templates.
    pub fn contexts(&self) -> (r: &[NamedContext])
        ensures
            r@ == self.spec_contexts(),
    {
        self.contexts.as_slice()
    }

    /// The template name being typed, while the save field is open.
    pub fn saving_name(&self) -> (r: Option<&String>)
        ensures
            r == match self.spec_saving_name() {
                Some(s) => Some(&s),
                None => None::<&String>,
            },
    {
        match &self.saving_name {
            Some(s) => Some(s),
            None => None,
        }
    }

    /// The template chosen in the dropdown.
    pub fn selected_template(&self) -> (r: Option<&String>)
        ensures
            r == match self.spec_selected_template() {
                Some(s) => Some(&s),
                None => None::<&String>,
            },
    {
        match &self.selected_template {
            Some(s) => Some(s),
            None => None,
        }
    }

    /// The id of the decision in flight, if any.
    pub fn pending_request(&self) -> (r: Option<u64>)
        ensures
            r == self.spec_pending(),
    {
        self.flight.pending_request
    }

    /// Whether the overlay is shown.
    pub fn visible(&self) -> (b: bool)
        ensures
            b == self.spec_visible(),
    {
        self.visible
    }

    /// Whether the applet should quit.
    pub fn should_exit(&self) -> (b: bool)
        ensures
            b == self.spec_exit(),
    {
        self.exit
    }

    // --- capture ------------------------------------------------------------

    /// Replace the typed item text (the entry field's contents).
    pub fn set_entry(&mut self, text: String)
        ensures
            final(self).spec_entry() == text@,
            final(self).items() == old(self).items(),
            final(self).spec_status() == old(self).spec_status(),
            Self::same_context(*old(self), *final(self)),
            Self::same_decision(*old(self), *final(self)),
            Self::same_visibility(*old(self), *final(self)),
    {
        proof {
            use_type_invariant(&*self);
        }
        self.entry = text;
    }

    /// `Tab` with typed text: take the trimmed entry and clear the field.
    /// Returns `None`, changing nothing, when the entry is blank.
    pub fn take_entry(&mut self) -> (r: Option<String>)
        ensures
            match r {
                Some(text) => {
                    &&& !is_blank_text(old(self).spec_entry())
                    &&& text@ == trim(old(self).spec_entry())
                    &&& final(self).spec_entry() == Seq::<char>::empty()
                },
                None => is_blank_text(old(self).spec_entry()) && final(self).spec_entry() == old(
                    self,
                ).spec_entry(),
            },
            final(self).items() == old(self).items(),
            final(self).spec_status() == old(self).spec_status(),
            Self::same_context(*old(self), *final(self)),
            Self::same_decision(*old(self), *final(self)),
            Self::same_visibility(*old(self), *final(self)),
    {
        proof {
            use_type_invariant(&*self);
        }
        let chars = chars_of(self.entry.as_str());
        let t = trimmed(chars.as_slice());
        if t.len() == 0 {
            return None;
        }
        self.entry = String::new();
        Some(string_of(t.as_slice()))
    }

    /// Append a captured selection, ignoring a repeat of the most recent item
    /// (the status then says so); a new item clears the status.
    pub fn push_selection(&mut self, selection: Selection)
        ensures
            Self::selection_pushed(*old(self), *final(self), selection),
    {
        proof {
            use_type_invariant(&*self);
        }
        let items = self.session.items();
        let n = items.len();
        let repeated = n > 0 && str_eq(
            items[n - 1].selection.text.as_str(),
            selection.text.as_str(),
        );
        if repeated {
            self.status = Some(string_of(chars_of("already captured").as_slice()));
        } else {
            let mut session = Session::new();
            std::mem::swap(&mut session, &mut self.session);
            session.push(selection);
            self.session = session;
            self.status = None;
        }
    }

    /// Capture typed text as a [`Source::Manual`] item.
    pub fn push_typed(&mut self, text: String)
        ensures
            Self::selection_pushed(
                *old(self),
                *final(self),
                Selection { text, source: Source::Manual, bounds: None },
            ),
    {
        proof {
            use_type_invariant(&*self);
        }
        self.push_selection(Selection { text, source: Source::Manual, bounds: None });
    }

    /// The selection read found nothing to capture.
    pub fn no_selection(&mut self)
        ensures
            final(self).spec_status() matches Some(s) && s@
                == "no highlight found — the app may not publish it (type instead)"@,
            final(self).items() == old(self).items(),
            final(self).spec_entry() == old(self).spec_entry(),
            Self::same_context(*old(self), *final(self)),
            Self::same_decision(*old(self), *final(self)),
            Self::same_visibility(*old(self), *final(self)),
    {
        proof {
            use_type_invariant(&*self);
        }
        self.status = Some(
            string_of(
                chars_of("no highlight found — the app may not publish it (type instead)").as_slice(),
            ),
        );
    }

    /// The selection read failed.
    pub fn selection_failed(&mut self, error: &ResolveError)
        ensures
            final(self).spec_status() matches Some(s) && s@ == "selection error: "@
                + resolve_error_message(*error),
            final(self).items() == old(self).items(),
            final(self).spec_entry() == old(self).spec_entry(),
            Self::same_context(*old(self), *final(self)),
            Self::same_decision(*old(self), *final(self)),
            Self::same_visibility(*old(self), *final(self)),
    {
        proof {
            use_type_invariant(&*self);
        }
        let mut v = chars_of("selection error: ");
        let m = error.message();
        let mc = chars_of(m.as_str());
        extend_chars(&mut v, mc.as_slice());
        self.status = Some(string_of(v.as_slice()));
    }

    /// A selection named files: `contents` holds the text of each one that
    /// could be read. They become the context (joined by a blank line and cut
    /// to [`MAX_CONTEXT_CHARS`] characters) and deselect any template; when
    /// none could be read only the status changes.
    pub fn load_files(&mut self, contents: &[String])
        ensures
            Self::files_loaded(*old(self), *final(self), contents@),
    {
        proof {
            use_type_invariant(&*self);
        }
        if contents.len() == 0 {
            self.status = Some(string_of(chars_of("could not read the selected file(s)").as_slice()));
            return;
        }
        let mut parts: Vec<Vec<char>> = Vec::new();
        let mut k: usize = 0;
        while k < contents.len()
            invariant
                k <= contents@.len(),
                crate::text::views(parts@) == crate::capture::string_views(contents@).take(
                    k as int,
                ),
            decreases contents@.len() - k,
        {
            let c = chars_of(contents[k].as_str());
            let ghost before = crate::text::views(parts@);
            parts.push(c);
            assert(crate::text::views(parts@) =~= before.push(contents@[k as int]@));
            assert(crate::capture::string_views(contents@).take(k + 1) =~= crate::capture::string_views(
                contents@,
            ).take(k as int).push(contents@[k as int]@));
            k += 1;
        }
        assert(crate::capture::string_views(contents@).take(contents@.len() as int)
            =~= crate::capture::string_views(contents@));
        let sep: [char; 2] = ['\n', '\n'];
        assert(sep@ =~= file_separator());
        let joined = crate::text::join_chars(&parts, &sep);
        let text = string_of(joined.as_slice());
        self.context = truncate_chars(text.as_str(), MAX_CONTEXT_CHARS);
        self.selected_template = None;
        let mut v = chars_of("context loaded from ");
        push_decimal(&mut v, contents.len() as u64);
        let tail = chars_of(" file(s)");
        extend_chars(&mut v, tail.as_slice());
        self.status = Some(string_of(v.as_slice()));
    }

    /// `Tab` produced `selection` (typed text as [`Source::Manual`], or the
    /// native highlight). When it named files (`named_files` of them, of
    /// which `contents` could be read) it becomes the context, as
    /// [`OverlayState::load_files`] does, since a file is never a question or
    /// an answer; otherwise it is captured as
    /// [`OverlayState::push_selection`] does.
    pub fn capture(&mut self, selection: Selection, named_files: usize, contents: &[String])
        ensures
            named_files > 0 ==> Self::files_loaded(*old(self), *final(self), contents@),
            named_files == 0 ==> Self::selection_pushed(*old(self), *final(self), selection),
    {
        if named_files > 0 {
            self.load_files(contents);
        } else {
            self.push_selection(selection);
        }
    }

    // --- context templates --------------------------------------------------

    /// Replace the context text (typed or pasted into the context box).
    pub fn set_context(&mut self, text: String)
        ensures
            final(self).spec_context() == text@,
            final(self).spec_contexts() == old(self).spec_contexts(),
            final(self).spec_saving_name() == old(self).spec_saving_name(),
            final(self).spec_selected_template() == old(self).spec_selected_template(),
            Self::same_capture(*old(self), *final(self)),
            Self::same_decision(*old(self), *final(self)),
            Self::same_visibility(*old(self), *final(self)),
    {
        proof {
            use_type_invariant(&*self);
        }
        self.context = text;
    }

    /// Replace the saved templates (after they were reloaded from settings).
    pub fn set_contexts(&mut self, contexts: Vec<NamedContext>)
        ensures
            final(self).spec_contexts() == contexts@,
            final(self).spec_context() == old(self).spec_context(),
            final(self).spec_saving_name() == old(self).spec_saving_name(),
            final(self).spec_selected_template() == old(self).spec_selected_template(),
            Self::same_capture(*old(self), *final(self)),
            Self::same_decision(*old(self), *final(self)),
            Self::same_visibility(*old(self), *final(self)),
    {
        proof {
            use_type_invariant(&*self);
        }
        self.contexts = contexts;
    }

    /// Choose a template in the dropdown. A change of choice loads the
    /// chosen template's text into the context.
    pub fn select_template(&mut self, selected: Option<String>)
        ensures
            ({
                let changed = match (selected, old(self).spec_selected_template()) {
                    (Some(a), Some(b)) => a@ != b@,
                    (None, None) => false,
                    _ => true,
                };
                if !changed {
                    final(self).spec_selected_template() == old(self).spec_selected_template()
                        && final(self).spec_context() == old(self).spec_context()
                } else {
                    &&& final(self).spec_selected_template() == selected
                    &&& final(self).spec_context() == match selected {
                        Some(name) => match find_template(old(self).spec_contexts(), name@) {
                            Some(t) => t.text@,
                            None => old(self).spec_context(),
                        },
                        None => old(self).spec_context(),
                    }
                }
            }),
            final(self).spec_contexts() == old(self).spec_contexts(),
            final(self).spec_saving_name() == old(self).spec_saving_name(),
            Self::same_capture(*old(self), *final(self)),
            Self::same_decision(*old(self), *final(self)),
            Self::same_visibility(*old(self), *final(self)),
    {
        proof {
            use_type_invariant(&*self);
        }
        let changed = match (&selected, &self.selected_template) {
            (Some(a), Some(b)) => !str_eq(a.as_str(), b.as_str()),
            (None, None) => false,
            _ => true,
        };
        if !changed {
            return;
        }
        if let Some(name) = &selected {
            if let Some(text) = template_text(self.contexts.as_slice(), name.as_str()) {
                self.context = text;
            }
        }
        self.selected_template = selected;
    }

    /// Open the field for naming a new template ("Save…").
    pub fn open_template_save(&mut self)
        ensures
            final(self).spec_saving_name() matches Some(s) && s@ == Seq::<char>::empty(),
            final(self).spec_context() == old(self).spec_context(),
            final(self).spec_contexts() == old(self).spec_contexts(),
            final(self).spec_selected_template() == old(self).spec_selected_template(),
            Self::same_capture(*old(self), *final(self)),
            Self::same_decision(*old(self), *final(self)),
            Self::same_visibility(*old(self), *final(self)),
    {
        proof {
            use_type_invariant(&*self);
        }
        self.saving_name = Some(String::new());
    }

    /// Update the template name being typed; ignored while the field is
    /// closed.
    pub fn set_saving_name(&mut self, name: String)
        ensures
            final(self).spec_saving_name() == (if old(self).spec_saving_name() is Some {
                Some(name)
            } else {
                None
            }),
            final(self).spec_context() == old(self).spec_context(),
            final(self).spec_contexts() == old(self).spec_contexts(),
            final(self).spec_selected_template() == old(self).spec_selected_template(),
            Self::same_capture(*old(self), *final(self)),
            Self::same_decision(*old(self), *final(self)),
            Self::same_visibility(*old(self), *final(self)),
    {
        proof {
            use_type_invariant(&*self);
        }
        if self.saving_name.is_some() {
            self.saving_name = Some(name);
        }
    }

    /// Close the template name field without saving.
    pub fn cancel_template_save(&mut self)
        ensures
            final(self).spec_saving_name() is None,
            final(self).spec_context() == old(self).spec_context(),
            final(self).spec_contexts() == old(self).spec_contexts(),
            final(self).spec_selected_template() == old(self).spec_selected_template(),
            Self::same_capture(*old(self), *final(self)),
            Self::same_decision(*old(self), *final(self)),
            Self::same_visibility(*old(self), *final(self)),
    {
        proof {
            use_type_invariant(&*self);
        }
        self.saving_name = None;
    }

    /// Confirm the template name: closes the field and returns the trimmed
    /// name to save the current context under. A blank name sets the status
    /// instead and returns `None`, as does a closed field.
    pub fn take_template_name(&mut self) -> (r: Option<String>)
        ensures
            final(self).spec_saving_name() is None,
            match old(self).spec_saving_name() {
                None => r is None && final(self).spec_status() == old(self).spec_status(),
                Some(name) => if is_blank_text(name@) {
                    &&& r is None
                    &&& final(self).spec_status() matches Some(s) && s@
                        == "a template needs a name"@
                } else {
                    &&& r matches Some(t) && t@ == trim(name@)
                    &&& final(self).spec_status() == old(self).spec_status()
                },
            },
            final(self).items() == old(self).items(),
            final(self).spec_entry() == old(self).spec_entry(),
            final(self).spec_context() == old(self).spec_context(),
            final(self).spec_contexts() == old(self).spec_contexts(),
            final(self).spec_selected_template() == old(self).spec_selected_template(),
            Self::same_decision(*old(self), *final(self)),
            Self::same_visibility(*old(self), *final(self)),
    {
        proof {
            use_type_invariant(&*self);
        }
        let mut taken: Option<String> = None;
        std::mem::swap(&mut taken, &mut self.saving_name);
        let name = match taken {
            Some(name) => name,
            None => return None,
        };
        let chars = chars_of(name.as_str());
        let t = trimmed(chars.as_slice());
        if t.len() == 0 {
            self.status = Some(string_of(chars_of("a template needs a name").as_slice()));
            return None;
        }
        Some(string_of(t.as_slice()))
    }

    /// The templates were saved with the current context under `name`.
    pub fn template_saved(&mut self, name: String, contexts: Vec<NamedContext>)
        ensures
            final(self).spec_contexts() == contexts@,
            final(self).spec_selected_template() == Some(name),
            final(self).spec_status() matches Some(s) && s@ == "saved template "@ + debug_string_of(
                name@,
            ),
            final(self).spec_context() == old(self).spec_context(),
            final(self).spec_saving_name() == old(self).spec_saving_name(),
            final(self).items() == old(self).items(),
            final(self).spec_entry() == old(self).spec_entry(),
            Self::same_decision(*old(self), *final(self)),
            Self::same_visibility(*old(self), *final(self)),
    {
        proof {
            use_type_invariant(&*self);
        }
        let mut v = chars_of("saved template ");
        let quoted = crate::text::debug_quoted(name.as_str());
        let q = chars_of(quoted.as_str());
        extend_chars(&mut v, q.as_slice());
        self.status = Some(string_of(v.as_slice()));
        self.contexts = contexts;
        self.selected_template = Some(name);
    }

    /// Saving the templates failed with `message`.
    pub fn template_save_failed(&mut self, message: &str)
        ensures
            final(self).spec_status() matches Some(s) && s@ == "could not save template: "@
                + message@,
            final(self).items() == old(self).items(),
            final(self).spec_entry() == old(self).spec_entry(),
            Self::same_context(*old(self), *final(self)),
            Self::same_decision(*old(self), *final(self)),
            Self::same_visibility(*old(self), *final(self)),
    {
        proof {
            use_type_invariant(&*self);
        }
        let mut v = chars_of("could not save template: ");
        let m = chars_of(message);
        extend_chars(&mut v, m.as_slice());
        self.status = Some(string_of(v.as_slice()));
    }

    // --- decisions ------------------------------------------------------------

    /// `Enter`: send a decision if a question and at least one answer are
    /// captured and none is in flight. The decision gets the next id, which
    /// then advances (wrapping); the phase becomes `Running`. With nothing to
    /// decide the status says so; while one is in flight nothing changes.
    pub fn begin_decision(&mut self) -> (r: Option<Request>)
        ensures
            old(self).spec_phase() == Phase::Running ==> r is None && *final(self) == *old(self),
            old(self).spec_phase() != Phase::Running && old(self).items().len() < 2 ==> {
                &&& r is None
                &&& final(self).spec_status() matches Some(s) && s@
                    == "capture a question and at least one answer first"@
                &&& final(self).items() == old(self).items()
                &&& final(self).spec_entry() == old(self).spec_entry()
                &&& Self::same_context(*old(self), *final(self))
                &&& Self::same_decision(*old(self), *final(self))
                &&& Self::same_visibility(*old(self), *final(self))
            },
            old(self).spec_phase() != Phase::Running && old(self).items().len() >= 2 ==> {
                &&& r matches Some(Request::Decide { id, context, question, answers }) && {
                    &&& id == old(self).spec_next_request()
                    &&& context@ == old(self).spec_context()
                    &&& question@ == old(self).items()[0].selection.text@
                    &&& answers@.len() == old(self).items().len() - 1
                    &&& forall|i: int|
                        0 <= i < answers@.len() ==> #[trigger] answers@[i] == old(
                            self,
                        ).items()[i + 1].selection.text
                }
                &&& Self::decision_sent(*old(self), *final(self))
                &&& Self::same_capture(*old(self), *final(self))
                &&& Self::same_context(*old(self), *final(self))
                &&& Self::same_visibility(*old(self), *final(self))
            },
    {
        proof {
            use_type_invariant(&*self);
        }
        if let Phase::Running = self.flight.phase {
            return None;
        }
        if !self.session.is_ready() {
            self.status = Some(
                string_of(chars_of("capture a question and at least one answer first").as_slice()),
            );
            return None;
        }
        let question = match self.session.question_text() {
            Some(text) => string_of(chars_of(text).as_slice()),
            None => return None,
        };
        let answers = self.session.answer_texts();
        let id = self.next_request;
        self.next_request = self.next_request.wrapping_add(1);
        self.flight = Flight { phase: Phase::Running, pending_request: Some(id) };
        Some(Request::Decide { id, context: self.context.clone(), question, answers })
    }

    /// The decision could not be handed to the worker: show `message` as the
    /// error and forget the decision.
    pub fn decision_not_sent(&mut self, message: String)
        ensures
            final(self).spec_phase() == Phase::Error(message),
            final(self).spec_pending() is None,
            final(self).spec_next_request() == old(self).spec_next_request(),
            Self::same_capture(*old(self), *final(self)),
            Self::same_context(*old(self), *final(self)),
            Self::same_visibility(*old(self), *final(self)),
    {
        self.flight = Flight { phase: Phase::Error(message), pending_request: None };
    }

    /// A reply arrived for decision `id`: `Ok` when it ranked the answers,
    /// `Err` with a user-facing message when it failed. Only the reply to the
    /// decision in flight is accepted (the phase then shows the results or the
    /// error); any other reply is stale and changes nothing. Returns whether
    /// the reply was accepted.
    pub fn accept_reply(&mut self, id: u64, outcome: Result<(), String>) -> (accepted: bool)
        ensures
            accepted == (old(self).spec_pending() == Some(id)),
            Self::reply_step(*old(self), id, outcome, *final(self)),
    {
        proof {
            use_type_invariant(&*self);
        }
        let accept = match self.flight.pending_request {
            Some(pending) => pending == id,
            None => false,
        };
        if !accept {
            return false;
        }
        let phase = match outcome {
            Ok(()) => Phase::Results,
            Err(message) => Phase::Error(message),
        };
        self.flight = Flight { phase, pending_request: None };
        true
    }

    /// Clear everything and return to capturing (`Esc`, or a click on the
    /// results); a decision still in flight is abandoned.
    pub fn dismiss(&mut self)
        ensures
            Self::dismissed(*old(self), *final(self)),
            Self::same_visibility(*old(self), *final(self)),
    {
        proof {
            use_type_invariant(&*self);
        }
        self.flight = Flight { phase: Phase::Capturing, pending_request: None };
        self.session = Session::new();
        self.status = None;
        self.entry = String::new();
        self.context = String::new();
        self.saving_name = None;
        self.selected_template = None;
    }

    /// Show or hide the overlay. Any change clears the session (a hidden
    /// applet keeps no captured text, and each showing starts fresh); returns
    /// whether the overlay was just shown, in which case the saved templates
    /// should be reloaded.
    pub fn set_visible(&mut self, visible: bool) -> (shown: bool)
        ensures
            shown == (visible && !old(self).spec_visible()),
            old(self).spec_visible() == visible ==> *final(self) == *old(self),
            old(self).spec_visible() != visible ==> {
                &&& Self::dismissed(*old(self), *final(self))
                &&& final(self).spec_visible() == visible
                &&& final(self).spec_exit() == old(self).spec_exit()
            },
    {
        proof {
            use_type_invariant(&*self);
        }
        if self.visible == visible {
            return false;
        }
        self.visible = visible;
        self.dismiss();
        visible
    }

    /// Apply a control command: toggle/show/hide change visibility, quit asks
    /// the applet to exit, and reload asks for the settings to be re-applied.
    pub fn handle_command(&mut self, command: Command) -> (effect: CommandEffect)
        ensures
            match command {
                Command::Toggle | Command::Show | Command::Hide => {
                    let visible = match command {
                        Command::Toggle => !old(self).spec_visible(),
                        Command::Show => true,
                        _ => false,
                    };
                    &&& effect == (if visible && !old(self).spec_visible() {
                        CommandEffect::RefreshContexts
                    } else {
                        CommandEffect::Nothing
                    })
                    &&& old(self).spec_visible() == visible ==> *final(self) == *old(self)
                    &&& old(self).spec_visible() != visible ==> {
                        &&& Self::dismissed(*old(self), *final(self))
                        &&& final(self).spec_visible() == visible
                        &&& final(self).spec_exit() == old(self).spec_exit()
                    }
                },
                Command::Quit => {
                    &&& effect == CommandEffect::Nothing
                    &&& final(self).spec_exit()
                    &&& final(self).spec_visible() == old(self).spec_visible()
                    &&& Self::same_capture(*old(self), *final(self))
                    &&& Self::same_context(*old(self), *final(self))
                    &&& Self::same_decision(*old(self), *final(self))
                },
                Command::Reload => effect == CommandEffect::ApplySettings && *final(self) == *old(
                    self,
                ),
            },
    {
        proof {
            use_type_invariant(&*self);
        }
        let visible = match command {
            Command::Toggle => !self.visible,
            Command::Show => true,
            Command::Hide => false,
            Command::Quit => {
                self.exit = true;
                return CommandEffect::Nothing;
            },
            Command::Reload => return CommandEffect::ApplySettings,
        };
        if self.set_visible(visible) {
            CommandEffect::RefreshContexts
        } else {
            CommandEffect::Nothing
        }
    }

    /// Whether `Tab` and `Enter` act (the overlay is capturing).
    pub fn is_capturing(&self) -> (b: bool)
        ensures
            b == (self.spec_phase() == Phase::Capturing),
    {
        match self.flight.phase {
            Phase::Capturing => true,
            _ => false,
        }
    }

    /// Whether the results are shown (a click then dismisses them).
    pub fn shows_results(&self) -> (b: bool)
        ensures
            b == (self.spec_phase() == Phase::Results),
    {
        match self.flight.phase {
            Phase::Results => true,
            _ => false,
        }
    }

} // impl OverlayState

/// The `Debug` rendering of a template name in the status line.
pub open spec fn debug_string_of(name: Seq<char>) -> Seq<char> {
    crate::text::debug_string(name)
}

/// The text of the first template named `name`, if any.
pub fn template_text(contexts: &[NamedContext], name: &str) -> (r: Option<String>)
    ensures
        match find_template(contexts@, name@) {
            Some(t) => r matches Some(text) && text@ == t.text@,
            None => r is None,
        },
{
    let mut k: usize = 0;
    assert(contexts@.skip(0) =~= contexts@);
    while k < contexts.len()
        invariant
            k <= contexts@.len(),
            find_template(contexts@, name@) == find_template(contexts@.skip(k as int), name@),
        decreases contexts@.len() - k,
    {
        assert(contexts@.skip(k as int).drop_first() =~= contexts@.skip(k + 1));
        if str_eq(contexts[k].name.as_str(), name) {
            return Some(contexts[k].text.clone());
        }
        k += 1;
    }
    None
}

/// The index of the first template named `name`, if any.
pub open spec fn template_index(contexts: Seq<NamedContext>, name: Seq<char>) -> Option<int>
    decreases contexts.len(),
{
    if contexts.len() == 0 {
        None
    } else if contexts[0].name@ == name {
        Some(0)
    } else {
        match template_index(contexts.drop_first(), name) {
            Some(i) => Some(i + 1),
            None => None,
        }
    }
}

/// Save `text` as the template `name`: the first template of that name gets
/// the new text, otherwise a new template is appended.
pub fn upsert_template(contexts: &mut Vec<NamedContext>, name: &str, text: &str)
    ensures
        match template_index(old(contexts)@, name@) {
            Some(i) => {
                &&& final(contexts)@.len() == old(contexts)@.len()
                &&& 0 <= i < old(contexts)@.len()
                &&& final(contexts)@[i].name == old(contexts)@[i].name
                &&& final(contexts)@[i].text@ == text@
                &&& forall|j: int|
                    0 <= j < old(contexts)@.len() && j != i ==> #[trigger] final(contexts)@[j]
                        == old(contexts)@[j]
            },
            None => {
                &&& final(contexts)@.len() == old(contexts)@.len() + 1
                &&& forall|j: int|
                    0 <= j < old(contexts)@.len() ==> #[trigger] final(contexts)@[j] == old(
                        contexts,
                    )@[j]
                &&& final(contexts)@.last().name@ == name@
                &&& final(contexts)@.last().text@ == text@
            },
        },
{
    let mut k: usize = 0;
    let ghost initial = contexts@;
    assert(contexts@.skip(0) =~= contexts@);
    while k < contexts.len()
        invariant
            k <= contexts@.len(),
            contexts@ == initial,
            initial == old(contexts)@,
            template_index(initial, name@) == match template_index(initial.skip(k as int), name@) {
                Some(i) => Some(i + k),
                None => None::<int>,
            },
        decreases contexts@.len() - k,
    {
        assert(initial.skip(k as int).drop_first() =~= initial.skip(k + 1));
        if str_eq(contexts[k].name.as_str(), name) {
            assert(initial.skip(k as int)[0] == initial[k as int]);
            assert(template_index(initial.skip(k as int), name@) == Some(0int));
            let updated = NamedContext {
                name: contexts[k].name.clone(),
                text: string_of(chars_of(text).as_slice()),
            };
            contexts.set(k, updated);
            return;
        }
        k += 1;
    }
    assert(initial.skip(k as int) =~= Seq::<NamedContext>::empty());
    contexts.push(
        NamedContext {
            name: string_of(chars_of(name).as_slice()),
            text: string_of(chars_of(text).as_slice()),
        },
    );
}

/// A reply to a decision that a dismissal abandoned is never taken for the
/// decision sent after it: when a decision is sent from `s` into `a`, `a` is
/// dismissed into `b`, and a new decision is sent from `b` into `c`, the id
/// in flight in `c` is not the abandoned one, so the stale reply is rejected
/// and leaves `c` as it is.
pub proof fn law_abandoned_reply_is_stale(
    s: OverlayState,
    a: OverlayState,
    b: OverlayState,
    c: OverlayState,
)
    requires
        OverlayState::decision_sent(s, a),
        OverlayState::dismissed(a, b),
        OverlayState::decision_sent(b, c),
    ensures
        a.spec_pending() is Some,
        c.spec_pending() is Some,
        c.spec_pending() != a.spec_pending(),
{
}

/// The phase a reply leads to: the results when the answers were ranked,
/// the error otherwise.
pub open spec fn outcome_phase(outcome: Result<(), String>) -> Phase {
    match outcome {
        Ok(()) => Phase::Results,
        Err(message) => Phase::Error(message),
    }
}

/// The replies up to the `m`-th, as the lemma below follows them.
proof fn lemma_replies_prefix(
    states: Seq<OverlayState>,
    ids: Seq<u64>,
    outcomes: Seq<Result<(), String>>,
    k: u64,
    m: int,
)
    requires
        states.len() == ids.len() + 1,
        outcomes.len() == ids.len(),
        0 <= m <= ids.len(),
        forall|i: int|
            0 <= i < ids.len() ==> OverlayState::reply_step(
                #[trigger] states[i],
                ids[i],
                outcomes[i],
                states[i + 1],
            ),
        states[0].spec_pending() == Some(k),
        forall|i: int, j: int|
            0 <= i < ids.len() && 0 <= j < ids.len() && #[trigger] ids[i] == k && #[trigger] ids[j]
                == k ==> i == j,
    ensures
        (forall|i: int| 0 <= i < m ==> #[trigger] ids[i] != k) ==> states[m] == states[0],
        forall|i: int|
            0 <= i < m && #[trigger] ids[i] == k ==> OverlayState::reply_taken(
                states[0],
                outcomes[i],
                states[m],
            ),
    decreases m,
{
    if m > 0 {
        lemma_replies_prefix(states, ids, outcomes, k, m - 1);
        let p = m - 1;
        assert(OverlayState::reply_step(states[p], ids[p], outcomes[p], states[p + 1]));
        if ids[p] == k {
            assert forall|i: int| 0 <= i < p implies #[trigger] ids[i] != k by {
                if ids[i] == k {
                    assert(i == p);
                }
            }
            assert(states[p] == states[0]);
            assert forall|i: int| 0 <= i < m && #[trigger] ids[i] == k implies OverlayState::reply_taken(
                states[0],
                outcomes[i],
                states[m],
            ) by {
                assert(i == p);
            }
        } else {
            if forall|i: int| 0 <= i < p ==> #[trigger] ids[i] != k {
                assert(states[p] == states[0]);
                assert(states[m] == states[p]);
            } else {
                let i0 = choose|i: int| 0 <= i < p && #[trigger] ids[i] == k;
                assert(OverlayState::reply_taken(states[0], outcomes[i0], states[p]));
                assert(states[m] == states[p]);
            }
        }
    }
}

/// Draining the worker's replies while decision `k` is in flight, where at
/// most one reply carries the id `k`: every stale reply changes nothing; if
/// the reply for `k` came, the overlay ends with nothing in flight and the
/// phase that reply leads to, and nothing else changed; if it did not come,
/// the overlay is exactly as before.
pub proof fn law_draining_replies_takes_only_the_current_one(
    states: Seq<OverlayState>,
    ids: Seq<u64>,
    outcomes: Seq<Result<(), String>>,
    k: u64,
)
    requires
        states.len() == ids.len() + 1,
        outcomes.len() == ids.len(),
        forall|i: int|
            0 <= i < ids.len() ==> OverlayState::reply_step(
                #[trigger] states[i],
                ids[i],
                outcomes[i],
                states[i + 1],
            ),
        states[0].spec_pending() == Some(k),
        forall|i: int, j: int|
            0 <= i < ids.len() && 0 <= j < ids.len() && #[trigger] ids[i] == k && #[trigger] ids[j]
                == k ==> i == j,
    ensures
        forall|i: int|
            0 <= i < ids.len() && #[trigger] ids[i] == k ==> OverlayState::reply_taken(
                states[0],
                outcomes[i],
                states[ids.len() as int],
            ),
        (forall|i: int| 0 <= i < ids.len() ==> #[trigger] ids[i] != k) ==> states[ids.len() as int]
            == states[0],
{
    lemma_replies_prefix(states, ids, outcomes, k, ids.len() as int);
}

/// The id after `id`, wrapping to 0 after `u64::MAX`.
pub open spec fn next_id(id: u64) -> u64 {
    if id == u64::MAX {
        0
    } else {
        (id + 1) as u64
    }
}

/// Whether `s` is empty or white space only.
pub open spec fn is_blank_text(s: Seq<char>) -> bool {
    trim(s).len() == 0
}


/// A template is found only by its exact name: the template found for
/// `name` is named `name`, it is in `contexts`, and no template before it is
/// named `name`; when no template is named `name`, none is found.
pub proof fn law_template_found_by_exact_name(contexts: Seq<NamedContext>, name: Seq<char>)
    ensures
        match find_template(contexts, name) {
            Some(t) => {
                &&& t.name@ == name
                &&& exists|i: int|
                    0 <= i < contexts.len() && contexts[i] == t && forall|j: int|
                        0 <= j < i ==> (#[trigger] contexts[j]).name@ != name
            },
            None => forall|i: int| 0 <= i < contexts.len() ==> (#[trigger] contexts[i]).name@ != name,
        },
    decreases contexts.len(),
{
    if contexts.len() > 0 {
        let rest = contexts.drop_first();
        law_template_found_by_exact_name(rest, name);
        if contexts[0].name@ == name {
            assert(contexts[0] == contexts[0]);
        } else {
            match find_template(rest, name) {
                Some(t) => {
                    let i = choose|i: int|
                        0 <= i < rest.len() && rest[i] == t && forall|j: int|
                            0 <= j < i ==> (#[trigger] rest[j]).name@ != name;
                    assert(contexts[i + 1] == t);
                    assert forall|j: int| 0 <= j < i + 1 implies (#[trigger] contexts[j]).name@ != name by {
                        if j > 0 {
                            assert(contexts[j] == rest[j - 1]);
                        }
                    }
                },
                None => {
                    assert forall|i: int| 0 <= i < contexts.len() implies (#[trigger] contexts[i]).name@ != name by {
                        if i > 0 {
                            assert(contexts[i] == rest[i - 1]);
                        }
                    }
                },
            }
        }
    }
}

/// Capturing the same text twice in a row captures it once: when a
/// selection that is not a repeat of the last captured item is pushed from
/// `a` into `b`, it becomes the last item of `b`; pushing it again from `b`
/// into `c` leaves the items as they are and reports that it was already
/// captured. A selection whose text is that of the last captured item is
/// never captured.
pub proof fn law_repeat_of_last_item_is_ignored(
    a: OverlayState,
    b: OverlayState,
    c: OverlayState,
    selection: Selection,
)
    requires
        OverlayState::selection_pushed(a, b, selection),
        OverlayState::selection_pushed(b, c, selection),
    ensures
        b.items().len() > 0,
        b.items().last().selection == selection || a.items().last().selection.text@ == selection.text@,
        c.items() == b.items(),
        c.spec_status() matches Some(m) && m@ == "already captured"@,
        a.items().len() > 0 && a.items().last().selection.text@ == selection.text@ ==> b.items()
            == a.items(),
        !(a.items().len() > 0 && a.items().last().selection.text@ == selection.text@) ==> {
            &&& b.items().len() == a.items().len() + 1
            &&& b.items().last().selection == selection
            &&& b.items().take(a.items().len() as int) == a.items()
        },
{
    if !(a.items().len() > 0 && a.items().last().selection.text@ == selection.text@) {
        assert(b.items().take(a.items().len() as int) =~= a.items());
    }
}

} // verus!
