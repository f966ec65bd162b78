//! The applet control protocol: the commands the CLI and the tray send to the
//! resident applet, their wire form, the tray menu ids, and command-line
//! parsing.

use vstd::prelude::*;

use crate::text::{chars_eq, chars_of, string_of, str_eq, trim, trim_end, trim_start, trimmed};

verus! {

/// `std::io::Error`, carried by [`ControlError::Io`].
#[verifier::external_type_specification]
#[verifier::external_body]
pub struct ExIoError(std::io::Error);

/// The default control-channel identifier.
pub const DEFAULT_ID: &'static str = "layanow";

/// A command sent from the CLI to the resident applet.
#[derive(Debug, Clone, Copy, PartialEq, Eq, Structural)]
pub enum Command {
    /// Show the overlay if hidden, hide it if visible.
    Toggle,
    /// Show the overlay.
    Show,
    /// Hide the overlay.
    Hide,
    /// Quit the applet.
    Quit,
    /// Re-read the settings file and apply it.
    Reload,
}

/// Errors from the applet control channel.
#[derive(Debug)]
pub enum ControlError {
    /// Another applet already owns the control socket.
    AlreadyRunning,
    /// No applet is listening on the control socket.
    NotRunning(String),
    /// The socket could not be created or used.
    Io(std::io::Error),
    /// The peer sent an unknown command.
    InvalidCommand(String),
}

/// The text of an I/O error (`Display` of `std::io::Error`). Nothing is
/// claimed of it: for an operating-system error it is the system's message
/// for the error code, which depends on the platform and its locale.
#[verifier::external_body]
fn io_error_text(error: &std::io::Error) -> (r: String) {
    error.to_string()
}

/// The characters of `lit` followed by those of `s`.
fn prefixed(lit: &str, s: &str) -> (r: Vec<char>)
    ensures
        r@ == lit@ + s@,
{
    let mut v = chars_of(lit);
    let t = chars_of(s);
    let mut k: usize = 0;
    while k < t.len()
        invariant
            k <= t@.len(),
            v@ == lit@ + t@.subrange(0, k as int),
        decreases t@.len() - k,
    {
        v.push(t[k]);
        assert(t@.subrange(0, k + 1) =~= t@.subrange(0, k as int).push(t@[k as int]));
        k += 1;
    }
    assert(t@.subrange(0, t@.len() as int) =~= t@);
    v
}

impl ControlError {
    /// The user-facing message for this error. For an I/O error it is the
    /// prefix followed by the error's own text.
    pub fn message(&self) -> (r: String)
        ensures
            match self {
                ControlError::AlreadyRunning => r@ == "another layanow instance is already running"@,
                ControlError::NotRunning(m) => r@ == "no running layanow instance ("@ + m@ + ")"@,
                ControlError::Io(_) => exists|t: Seq<char>| r@ == "control IPC error: "@ + t,
                ControlError::InvalidCommand(w) => r@ == "unknown control command: "@
                    + crate::text::debug_string(w@),
            },
    {
        match self {
            ControlError::AlreadyRunning => string_of(
                chars_of("another layanow instance is already running").as_slice(),
            ),
            ControlError::NotRunning(m) => {
                let mut v = prefixed("no running layanow instance (", m.as_str());
                v.push(')');
                proof {
                    reveal_strlit(")");
                    assert(v@ =~= "no running layanow instance ("@ + m@ + ")"@);
                }
                string_of(v.as_slice())
            },
            ControlError::Io(e) => {
                let t = io_error_text(e);
                let r = string_of(prefixed("control IPC error: ", t.as_str()).as_slice());
                assert(r@ == "control IPC error: "@ + t@);
                r
            },
            ControlError::InvalidCommand(w) => {
                let q = crate::text::debug_quoted(w.as_str());
                string_of(prefixed("unknown control command: ", q.as_str()).as_slice())
            },
        }
    }
}

/// The wire form of a command (without the trailing newline).
pub open spec fn command_word(c: Command) -> Seq<char> {
    match c {
        Command::Toggle => "toggle"@,
        Command::Show => "show"@,
        Command::Hide => "hide"@,
        Command::Quit => "quit"@,
        Command::Reload => "reload"@,
    }
}

/// The command whose wire form is `line` once trimmed, if any.
pub open spec fn spec_parse_command(line: Seq<char>) -> Option<Command> {
    let t = trim(line);
    if t == "toggle"@ {
        Some(Command::Toggle)
    } else if t == "show"@ {
        Some(Command::Show)
    } else if t == "hide"@ {
        Some(Command::Hide)
    } else if t == "quit"@ {
        Some(Command::Quit)
    } else if t == "reload"@ {
        Some(Command::Reload)
    } else {
        None
    }
}

impl Command {
    /// The wire form of the command (without the trailing newline).
    pub fn as_str(self) -> (r: &'static str)
        ensures
            r@ == command_word(self),
    {
        match self {
            Command::Toggle => "toggle",
            Command::Show => "show",
            Command::Hide => "hide",
            Command::Quit => "quit",
            Command::Reload => "reload",
        }
    }

    /// Parse a wire-form command; surrounding white space is ignored.
    ///
    /// Returns [`ControlError::InvalidCommand`] with the trimmed line for an
    /// unrecognised line.
    pub fn parse(line: &str) -> (r: Result<Command, ControlError>)
        ensures
            match r {
                Ok(c) => spec_parse_command(line@) == Some(c),
                Err(e) => spec_parse_command(line@) is None && (e matches ControlError::InvalidCommand(
                    word,
                ) && word@ == trim(line@)),
            },
    {
        let chars = chars_of(line);
        let t = trimmed(chars.as_slice());
        if chars_eq(t.as_slice(), chars_of("toggle").as_slice()) {
            Ok(Command::Toggle)
        } else if chars_eq(t.as_slice(), chars_of("show").as_slice()) {
            Ok(Command::Show)
        } else if chars_eq(t.as_slice(), chars_of("hide").as_slice()) {
            Ok(Command::Hide)
        } else if chars_eq(t.as_slice(), chars_of("quit").as_slice()) {
            Ok(Command::Quit)
        } else if chars_eq(t.as_slice(), chars_of("reload").as_slice()) {
            Ok(Command::Reload)
        } else {
            Err(ControlError::InvalidCommand(string_of(t.as_slice())))
        }
    }
}

/// Every command reads back from its own wire form.
pub proof fn law_command_round_trip(c: Command)
    ensures
        spec_parse_command(command_word(c)) == Some(c),
{
    reveal_strlit("toggle");
    reveal_strlit("show");
    reveal_strlit("hide");
    reveal_strlit("quit");
    reveal_strlit("reload");
    let w = command_word(c);
    assert(trim_start(w) == w);
    assert(trim_end(w) == w);
}

/// Menu id for "Toggle overlay".
pub const TOGGLE_ID: &'static str = "toggle";

/// Menu id for "Settings…".
pub const SETTINGS_ID: &'static str = "settings";

/// Menu id for "Quit".
pub const QUIT_ID: &'static str = "quit";

/// The command a tray menu item posts: toggle and quit post commands; any
/// other id (including the settings item) posts none.
pub fn command_for_id(id: &str) -> (r: Option<Command>)
    ensures
        r == (if id@ == "toggle"@ {
            Some(Command::Toggle)
        } else if id@ == "quit"@ {
            Some(Command::Quit)
        } else {
            None
        }),
{
    if str_eq(id, TOGGLE_ID) {
        Some(Command::Toggle)
    } else if str_eq(id, QUIT_ID) {
        Some(Command::Quit)
    } else {
        None
    }
}

/// What the command line asked for.
#[derive(Debug, Clone, Copy, PartialEq, Eq, Structural)]
pub enum Invocation {
    /// Run the resident applet.
    Applet,
    /// Open the standalone settings window.
    Settings,
    /// Print the usage text.
    Help,
    /// Forward a command to a running applet.
    Command(Command),
}

/// Why the command line was rejected.
#[derive(Debug, Clone, PartialEq, Eq)]
pub enum ArgsError {
    /// A single word that is not a command.
    UnknownCommand(String),
    /// More than one argument.
    TooManyArguments,
}

/// What the command line `args` (without the program name) asks for.
pub open spec fn spec_invocation(args: Seq<Seq<char>>) -> Option<Invocation> {
    if args.len() == 0 {
        Some(Invocation::Applet)
    } else if args.len() == 1 {
        let word = args[0];
        if word == "-h"@ || word == "--help"@ {
            Some(Invocation::Help)
        } else if word == "settings"@ {
            Some(Invocation::Settings)
        } else {
            match spec_parse_command(word) {
                Some(c) => Some(Invocation::Command(c)),
                None => None,
            }
        }
    } else {
        None
    }
}

/// Parse the command line (without the program name): no argument runs the
/// applet, `-h`/`--help` asks for help, `settings` opens the settings
/// window, and a single command word forwards that command.
pub fn parse_args(args: &[String]) -> (r: Result<Invocation, ArgsError>)
    ensures
        match r {
            Ok(inv) => spec_invocation(crate::capture::string_views(args@)) == Some(inv),
            Err(ArgsError::UnknownCommand(word)) => args@.len() == 1 && word == args@[0]
                && spec_invocation(crate::capture::string_views(args@)) is None,
            Err(ArgsError::TooManyArguments) => args@.len() > 1,
        },
{
    let ghost views = crate::capture::string_views(args@);
    if args.len() == 0 {
        return Ok(Invocation::Applet);
    }
    if args.len() > 1 {
        return Err(ArgsError::TooManyArguments);
    }
    let word = args[0].as_str();
    assert(views[0] == word@);
    if str_eq(word, "-h") || str_eq(word, "--help") {
        Ok(Invocation::Help)
    } else if str_eq(word, "settings") {
        Ok(Invocation::Settings)
    } else {
        match Command::parse(word) {
            Ok(c) => Ok(Invocation::Command(c)),
            Err(_) => Err(ArgsError::UnknownCommand(args[0].clone())),
        }
    }
}


/// Where the control socket lives.
#[derive(Debug, Clone, PartialEq, Eq)]
pub enum RuntimeDir {
    /// `$XDG_RUNTIME_DIR`, already a per-user, mode-0700 directory.
    Trusted(String),
    /// A per-user directory under the temp dir, which the caller must create
    /// (or find as a real directory) and restrict to mode 0700 before use.
    Private(String),
}

/// The directory of the control socket: `$XDG_RUNTIME_DIR` when set and not
/// empty, else `<temp_dir>/layanow-<uid>`.
pub open spec fn spec_runtime_dir(xdg_runtime_dir: Option<Seq<char>>, temp_dir: Seq<char>, uid: u32) -> (
    Seq<char>,
    bool,
) {
    match crate::bundle::spec_non_empty(xdg_runtime_dir) {
        Some(dir) => (dir, true),
        None => (crate::bundle::join_path(temp_dir, "layanow-"@ + crate::text::decimal(uid as nat)), false),
    }
}

/// The directory of the control socket, from the value of
/// `XDG_RUNTIME_DIR` (if set), the temp dir and the user's numeric id.
pub fn runtime_dir(xdg_runtime_dir: Option<&str>, temp_dir: &str, uid: u32) -> (r: RuntimeDir)
    ensures
        ({
            let (dir, trusted) = spec_runtime_dir(crate::bundle::opt_view(xdg_runtime_dir), temp_dir@, uid);
            match r {
                RuntimeDir::Trusted(d) => trusted && d@ == dir,
                RuntimeDir::Private(d) => !trusted && d@ == dir,
            }
        }),
{
    match crate::bundle::non_empty_chars(xdg_runtime_dir) {
        Some(dir) => RuntimeDir::Trusted(string_of(dir.as_slice())),
        None => {
            let mut name = chars_of("layanow-");
            crate::text::push_decimal(&mut name, uid as u64);
            let joined = crate::bundle::join(chars_of(temp_dir).as_slice(), name.as_slice());
            RuntimeDir::Private(string_of(joined.as_slice()))
        },
    }
}

/// The control socket for the channel `id` inside `dir`: `<dir>/<id>.sock`.
pub fn socket_path(dir: &str, id: &str) -> (r: String)
    ensures
        r@ == crate::bundle::join_path(dir@, id@ + ".sock"@),
{
    let name = prefixed_rev(id, ".sock");
    string_of(crate::bundle::join(chars_of(dir).as_slice(), name.as_slice()).as_slice())
}

/// The characters of `s` followed by those of `lit`.
fn prefixed_rev(s: &str, lit: &str) -> (r: Vec<char>)
    ensures
        r@ == s@ + lit@,
{
    let mut v = chars_of(s);
    crate::text::extend_chars(&mut v, chars_of(lit).as_slice());
    v
}

/// The bytes sent for `command`: its wire form and a newline.
pub fn wire_line(command: Command) -> (r: String)
    ensures
        r@ == command_word(command) + "\n"@,
{
    string_of(prefixed_rev(command.as_str(), "\n").as_slice())
}


/// Every command is forwarded from the command line by its own word: a
/// single argument that is the wire form of `c` asks the running applet for
/// `c`.
pub proof fn law_command_line_round_trip(c: Command)
    ensures
        spec_invocation(seq![command_word(c)]) == Some(Invocation::Command(c)),
{
    law_command_round_trip(c);
    reveal_strlit("toggle");
    reveal_strlit("show");
    reveal_strlit("hide");
    reveal_strlit("quit");
    reveal_strlit("reload");
    reveal_strlit("-h");
    reveal_strlit("--help");
    reveal_strlit("settings");
    let w = command_word(c);
    assert(w != "-h"@ && w != "--help"@ && w != "settings"@) by {
        assert(w.len() != 2 || w[0] != '-');
        assert(w[0] != '-');
        assert("settings"@[0] == 's');
        assert(w.len() != 8 || w[0] != 's' || w[1] != 'e');
    }
}

} // verus!
