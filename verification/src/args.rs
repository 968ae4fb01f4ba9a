//! The command line: one mode, one session id, and the few options that go with it.
//!
//! Deliberately minimal — no abbreviations and no `--` handling: the caller is a client
//! that builds the command line itself. Arguments are bytes.
use vstd::prelude::*;
use vstd::utf8::{decode_utf8, encode_utf8, valid_utf8};

use crate::fields::rows;
use crate::launcher::lemma_reads;
use crate::text::{
    chars_of, copy_text, decoded_chars, escaped, escaped_text, integer, lossy, lossy_text,
    parse_i32, put, same_chars, text_of,
};
use crate::trouble::Kind;

verus! {

/// A malformed invocation.
pub const EXIT_USAGE: u8 = 64;

/// The shared command line of every mode that names a session.
#[derive(Debug)]
pub struct SessionArgs {
    /// The session id.
    pub session: Option<String>,
    /// The label it is to have.
    pub label: Option<String>,
    /// Private startup capability, passed only from a spawn to its daemon.
    pub lock_fd: Option<i32>,
}

/// What a [`SessionArgs`] holds.
#[verifier::ext_equal]
pub struct ArgsModel {
    pub session: Option<Seq<char>>,
    pub label: Option<Seq<char>>,
    pub lock_fd: Option<i32>,
}

/// The text in an option of one.
pub open spec fn text_in(text: Option<String>) -> Option<Seq<char>> {
    match text {
        Some(text) => Some(text@),
        None => None,
    }
}

impl View for SessionArgs {
    type V = ArgsModel;

    open spec fn view(&self) -> ArgsModel {
        ArgsModel {
            session: text_in(self.session),
            label: text_in(self.label),
            lock_fd: self.lock_fd,
        }
    }
}

/// What is behind `prefix` in `text`, where it begins with it.
pub open spec fn behind(text: Seq<char>, prefix: Seq<char>) -> Option<Seq<char>> {
    if text.len() >= prefix.len() && text.take(prefix.len() as int) == prefix {
        Some(text.skip(prefix.len() as int))
    } else {
        None
    }
}

impl ArgsModel {
    /// With the descriptor `value` names: it is a number past the standard streams, and
    /// given once.
    pub open spec fn with_lock_fd(self, value: Seq<char>) -> Result<ArgsModel, Seq<char>> {
        match integer(value) {
            Some(fd) if 2 < fd <= i32::MAX => if self.lock_fd is Some {
                Err("`--lock-fd` is given once"@)
            } else {
                Ok(ArgsModel { lock_fd: Some(fd as i32), ..self })
            },
            _ => Err("invalid `--lock-fd`"@),
        }
    }

    /// With the label `value`, given once.
    pub open spec fn with_label(self, value: Seq<char>) -> Result<ArgsModel, Seq<char>> {
        if self.label is Some {
            Err("`--label` is given once: a second would replace the first"@)
        } else {
            Ok(ArgsModel { label: Some(value), ..self })
        }
    }

    /// What the arguments from the `at`th on make of what the ones before it said, or what
    /// is wrong with the first of them that is wrong. The startup handoff is an unknown
    /// option unless `private`.
    pub open spec fn parsed(self, args: Seq<Seq<u8>>, at: nat, private: bool) -> Result<
        ArgsModel,
        Seq<char>,
    >
        decreases args.len() - at,
    {
        if at >= args.len() {
            Ok(self)
        } else if !valid_utf8(args[at as int]) {
            Err("argument `"@ + lossy(args[at as int]) + "` must be valid UTF-8"@)
        } else {
            let text = decode_utf8(args[at as int]);
            if private && behind(text, "--lock-fd="@) is Some {
                match self.with_lock_fd(behind(text, "--lock-fd="@)->0) {
                    Ok(next) => next.parsed(args, at + 1, private),
                    Err(e) => Err(e),
                }
            } else if behind(text, "--label="@) is Some {
                match self.with_label(behind(text, "--label="@)->0) {
                    Ok(next) => next.parsed(args, at + 1, private),
                    Err(e) => Err(e),
                }
            } else if private && text == "--lock-fd"@ {
                if at + 1 >= args.len() {
                    Err("missing `--lock-fd` value"@)
                } else if !valid_utf8(args[at as int + 1]) {
                    Err("non-UTF-8 `--lock-fd`"@)
                } else {
                    match self.with_lock_fd(decode_utf8(args[at as int + 1])) {
                        Ok(next) => next.parsed(args, at + 2, private),
                        Err(e) => Err(e),
                    }
                }
            } else if text == "--label"@ {
                if at + 1 >= args.len() {
                    Err("`--label` requires a value"@)
                } else if !valid_utf8(args[at as int + 1]) {
                    Err("label must be valid UTF-8"@)
                } else {
                    match self.with_label(decode_utf8(args[at as int + 1])) {
                        Ok(next) => next.parsed(args, at + 2, private),
                        Err(e) => Err(e),
                    }
                }
            } else if text.len() > 0 && text[0] == '-' {
                Err("unknown option `"@ + text + "`"@)
            } else if self.session is None {
                (ArgsModel { session: Some(text), ..self }).parsed(args, at + 1, private)
            } else {
                Err("unexpected argument `"@ + text + "`"@)
            }
        }
    }

    /// Nothing said yet.
    pub open spec fn empty() -> ArgsModel {
        ArgsModel { session: None, label: None, lock_fd: None }
    }
}

/// `r` is the arguments or the complaint that `says`.
pub open spec fn reads_as(
    r: Result<SessionArgs, String>,
    says: Result<ArgsModel, Seq<char>>,
) -> bool {
    match (r, says) {
        (Ok(found), Ok(expected)) => found@ == expected,
        (Err(found), Err(expected)) => found@ == expected,
        _ => false,
    }
}

/// What is behind `prefix` in `text`, where it begins with it.
pub(crate) fn strip<'a>(text: &'a [char], prefix: &str) -> (r: Option<&'a [char]>)
    ensures
        match behind(text@, prefix@) {
            Some(rest) => r matches Some(found) && found@ == rest,
            None => r is None,
        },
{
    let wanted: Vec<char> = chars_of(prefix);
    if text.len() < wanted.len() {
        return None;
    }
    let head: &[char] = vstd::slice::slice_subrange(text, 0, wanted.len());
    assert(head@ =~= text@.take(wanted@.len() as int));
    if same_chars(head, wanted.as_slice()) {
        let rest: &[char] = vstd::slice::slice_subrange(text, wanted.len(), text.len());
        assert(rest@ =~= text@.skip(wanted@.len() as int));
        Some(rest)
    } else {
        None
    }
}

/// Whether some characters spell `word`.
fn spells(text: &[char], word: &str) -> (r: bool)
    ensures
        r == (text@ == word@),
{
    let wanted: Vec<char> = chars_of(word);
    same_chars(text, wanted.as_slice())
}

/// A word between back quotes, behind what is said of it.
fn naming(before: &str, word: &[char]) -> (r: String)
    ensures
        r@ == before@ + word@ + "`"@,
{
    let mut message: String = copy_text(before);
    put(&mut message, text_of(word).as_str());
    put(&mut message, "`");
    message
}

impl SessionArgs {
    /// Takes the descriptor passed from a spawn to its daemon.
    fn parse_lock_fd(&mut self, value: &[char]) -> (r: Result<(), String>)
        ensures
            match old(self)@.with_lock_fd(value@) {
                Ok(next) => r is Ok && final(self)@ == next,
                Err(e) => r matches Err(found) && found@ == e,
            },
    {
        let fd: i32 = match parse_i32(value) {
            Some(fd) if fd > 2 => fd,
            _ => {
                return Err(copy_text("invalid `--lock-fd`"));
            },
        };
        if self.lock_fd.is_some() {
            return Err(copy_text("`--lock-fd` is given once"));
        }
        self.lock_fd = Some(fd);
        Ok(())
    }

    /// Takes the label.
    fn take_label(&mut self, value: &[char]) -> (r: Result<(), String>)
        ensures
            match old(self)@.with_label(value@) {
                Ok(next) => r is Ok && final(self)@ == next,
                Err(e) => r matches Err(found) && found@ == e,
            },
    {
        if self.label.is_some() {
            return Err(copy_text("`--label` is given once: a second would replace the first"));
        }
        self.label = Some(text_of(value));
        Ok(())
    }
}

/// Splits a session-mode command line into its id and optional label — and, only where
/// `private_options_ok`, the startup handoff option.
pub fn parse_session_args(args: &[Vec<u8>], private_options_ok: bool) -> (r: Result<
    SessionArgs,
    String,
>)
    ensures
        reads_as(r, ArgsModel::empty().parsed(rows(args@), 0, private_options_ok)),
{
    let ghost all = rows(args@);
    let mut parsed = SessionArgs { session: None, label: None, lock_fd: None };
    assert(parsed@ =~= ArgsModel::empty());
    let mut at: usize = 0;
    while at < args.len()
        invariant
            at <= args@.len(),
            all == rows(args@),
            parsed@.parsed(all, at as nat, private_options_ok) == ArgsModel::empty().parsed(
                all,
                0,
                private_options_ok,
            ),
        decreases args@.len() - at,
    {
        assert(all[at as int] == args@[at as int]@);
        let chars: Vec<char> = match decoded_chars(args[at].as_slice()) {
            Some(chars) => chars,
            None => {
                let mut message: String = copy_text("argument `");
                put(&mut message, lossy_text(args[at].as_slice()).as_str());
                put(&mut message, "` must be valid UTF-8");
                return Err(message);
            },
        };
        let text: &[char] = chars.as_slice();
        if private_options_ok {
            if let Some(value) = strip(text, "--lock-fd=") {
                match parsed.parse_lock_fd(value) {
                    Ok(()) => {},
                    Err(e) => {
                        return Err(e);
                    },
                }
                at += 1;
                continue ;
            }
        }
        if let Some(value) = strip(text, "--label=") {
            match parsed.take_label(value) {
                Ok(()) => {},
                Err(e) => {
                    return Err(e);
                },
            }
            at += 1;
            continue ;
        }
        if private_options_ok && spells(text, "--lock-fd") {
            if args.len() - at < 2 {
                return Err(copy_text("missing `--lock-fd` value"));
            }
            assert(all[at + 1] == args@[at + 1]@);
            match decoded_chars(args[at + 1].as_slice()) {
                None => {
                    return Err(copy_text("non-UTF-8 `--lock-fd`"));
                },
                Some(value) => match parsed.parse_lock_fd(value.as_slice()) {
                    Ok(()) => {},
                    Err(e) => {
                        return Err(e);
                    },
                },
            }
            at += 2;
            continue ;
        }
        if spells(text, "--label") {
            if args.len() - at < 2 {
                return Err(copy_text("`--label` requires a value"));
            }
            assert(all[at + 1] == args@[at + 1]@);
            match decoded_chars(args[at + 1].as_slice()) {
                None => {
                    return Err(copy_text("label must be valid UTF-8"));
                },
                Some(value) => match parsed.take_label(value.as_slice()) {
                    Ok(()) => {},
                    Err(e) => {
                        return Err(e);
                    },
                },
            }
            at += 2;
            continue ;
        }
        if text.len() > 0 && text[0] == '-' {
            return Err(naming("unknown option `", text));
        }
        if parsed.session.is_some() {
            return Err(naming("unexpected argument `", text));
        }
        let ghost before = parsed@;
        parsed.session = Some(text_of(text));
        assert(parsed@ =~= (ArgsModel { session: Some(text@), ..before }));
        at += 1;
    }
    Ok(parsed)
}

// ---------------------------------------------------------------------------
// Modes
// ---------------------------------------------------------------------------

/// What an invocation asks for.
#[derive(Debug)]
pub enum Command {
    /// List live sessions.
    List,
    /// Print the version.
    Version,
    /// Print the usage.
    Help,
    /// Own a session.
    Daemon {
        /// The session id.
        session: String,
        /// Its label.
        label: Option<String>,
        /// The startup capability.
        lock_fd: Option<i32>,
    },
    /// Create a session and relay to it.
    Spawn {
        /// The session id.
        session: String,
        /// Its label.
        label: Option<String>,
    },
    /// Relay to a session that exists.
    Attach {
        /// The session id.
        session: String,
    },
    /// Terminate a session.
    Kill {
        /// The session id.
        session: String,
    },
    /// A malformed invocation, and what is wrong with it where that can be said.
    Usage(Option<String>),
}

/// What a [`Command`] holds.
#[verifier::ext_equal]
pub enum CommandModel {
    List,
    Version,
    Help,
    Daemon { session: Seq<char>, label: Option<Seq<char>>, lock_fd: Option<i32> },
    Spawn { session: Seq<char>, label: Option<Seq<char>> },
    Attach { session: Seq<char> },
    Kill { session: Seq<char> },
    Usage(Option<Seq<char>>),
}

impl View for Command {
    type V = CommandModel;

    open spec fn view(&self) -> CommandModel {
        match *self {
            Command::List => CommandModel::List,
            Command::Version => CommandModel::Version,
            Command::Help => CommandModel::Help,
            Command::Daemon { session, label, lock_fd } => CommandModel::Daemon {
                session: session@,
                label: text_in(label),
                lock_fd,
            },
            Command::Spawn { session, label } => CommandModel::Spawn {
                session: session@,
                label: text_in(label),
            },
            Command::Attach { session } => CommandModel::Attach { session: session@ },
            Command::Kill { session } => CommandModel::Kill { session: session@ },
            Command::Usage(message) => CommandModel::Usage(text_in(message)),
        }
    }
}

/// What a mode that takes no argument makes of the ones it got.
pub open spec fn alone(
    word: Seq<char>,
    args: Seq<Seq<u8>>,
    command: CommandModel,
) -> CommandModel {
    if args.len() > 1 {
        CommandModel::Usage(Some("`"@ + word + "` takes no arguments, got `"@ + lossy(args[1]) + "`"@))
    } else {
        command
    }
}

/// What a mode that names a session makes of the arguments behind it, or the complaint
/// where it cannot: `word` is the mode, carried only so a refusal can name it.
pub open spec fn with_session_of(word: Seq<char>, args: Seq<Seq<u8>>, private: bool) -> Result<
    ArgsModel,
    Seq<char>,
> {
    match ArgsModel::empty().parsed(args.skip(1), 0, private) {
        Err(e) => Err(e),
        Ok(parsed) => if parsed.session is None {
            Err("`"@ + word + "` requires a session id"@)
        } else {
            Ok(parsed)
        },
    }
}

/// What an invocation asks for. The first argument is the mode; the ones behind it are the
/// mode's. A label where none is taken is refused rather than dropped on the floor.
pub open spec fn asked(args: Seq<Seq<u8>>) -> CommandModel {
    if args.len() == 0 {
        CommandModel::Usage(None)
    } else {
        let word = if valid_utf8(args[0]) {
            Some(decode_utf8(args[0]))
        } else {
            None
        };
        if word == Some("list"@) {
            alone("list"@, args, CommandModel::List)
        } else if word == Some("--version"@) {
            alone("--version"@, args, CommandModel::Version)
        } else if word == Some("-V"@) {
            alone("-V"@, args, CommandModel::Version)
        } else if word == Some("--help"@) {
            alone("--help"@, args, CommandModel::Help)
        } else if word == Some("-h"@) {
            alone("-h"@, args, CommandModel::Help)
        } else if word == Some("daemon"@) {
            match with_session_of("daemon"@, args, true) {
                Err(e) => CommandModel::Usage(Some(e)),
                Ok(parsed) => CommandModel::Daemon {
                    session: parsed.session->0,
                    label: parsed.label,
                    lock_fd: parsed.lock_fd,
                },
            }
        } else if word == Some("spawn"@) {
            match with_session_of("spawn"@, args, false) {
                Err(e) => CommandModel::Usage(Some(e)),
                Ok(parsed) => CommandModel::Spawn {
                    session: parsed.session->0,
                    label: parsed.label,
                },
            }
        } else if word == Some("attach"@) {
            match with_session_of("attach"@, args, false) {
                Err(e) => CommandModel::Usage(Some(e)),
                Ok(parsed) => if parsed.label is Some {
                    CommandModel::Usage(
                        Some(
                            "`attach` takes no `--label`: a label is recorded when the session is created, which `spawn` does"@,
                        ),
                    )
                } else {
                    CommandModel::Attach { session: parsed.session->0 }
                },
            }
        } else if word == Some("kill"@) {
            match with_session_of("kill"@, args, false) {
                Err(e) => CommandModel::Usage(Some(e)),
                Ok(parsed) => if parsed.label is Some {
                    CommandModel::Usage(
                        Some(
                            "`kill` takes no `--label`: labels are recorded only when a session is created"@,
                        ),
                    )
                } else {
                    CommandModel::Kill { session: parsed.session->0 }
                },
            }
        } else {
            CommandModel::Usage(Some("unknown mode `"@ + lossy(args[0]) + "`"@))
        }
    }
}

/// Refuses arguments to a mode that takes none.
fn only(word: &str, args: &[Vec<u8>], command: Command) -> (r: Command)
    requires
        args@.len() > 0,
    ensures
        r@ == alone(word@, rows(args@), command@),
{
    if args.len() > 1 {
        assert(rows(args@)[1] == args@[1]@);
        let mut message: String = copy_text("`");
        put(&mut message, word);
        put(&mut message, "` takes no arguments, got `");
        put(&mut message, lossy_text(args[1].as_slice()).as_str());
        put(&mut message, "`");
        return Command::Usage(Some(message));
    }
    command
}

/// What the modes that take a session id share: the arguments, and the id among them.
fn with_session(word: &str, args: &[Vec<u8>], private_options_ok: bool) -> (r: Result<
    (String, Option<String>, Option<i32>),
    String,
>)
    requires
        args@.len() > 0,
    ensures
        match with_session_of(word@, rows(args@), private_options_ok) {
            Ok(parsed) => r matches Ok((session, label, lock_fd)) && parsed.session == Some(
                session@,
            ) && parsed.label == text_in(label) && parsed.lock_fd == lock_fd,
            Err(e) => r matches Err(found) && found@ == e,
        },
{
    let rest: &[Vec<u8>] = vstd::slice::slice_subrange(args, 1, args.len());
    assert(rows(rest@) =~= rows(args@).skip(1));
    match parse_session_args(rest, private_options_ok) {
        Err(e) => Err(e),
        Ok(parsed) => match parsed.session {
            None => {
                let mut message: String = copy_text("`");
                put(&mut message, word);
                put(&mut message, "` requires a session id");
                Err(message)
            },
            Some(session) => Ok((session, parsed.label, parsed.lock_fd)),
        },
    }
}

/// What an invocation asks for, `args` being what stands behind the program's own name.
pub fn command(args: &[Vec<u8>]) -> (r: Command)
    ensures
        r@ == asked(rows(args@)),
{
    if args.len() == 0 {
        return Command::Usage(None);
    }
    assert(rows(args@)[0] == args@[0]@);
    let mode: Vec<char> = match decoded_chars(args[0].as_slice()) {
        Some(mode) => mode,
        None => {
            return Command::Usage(Some(naming_bytes("unknown mode `", args[0].as_slice())));
        },
    };
    let word: &[char] = mode.as_slice();
    if spells(word, "list") {
        return only("list", args, Command::List);
    }
    if spells(word, "--version") {
        return only("--version", args, Command::Version);
    }
    if spells(word, "-V") {
        return only("-V", args, Command::Version);
    }
    if spells(word, "--help") {
        return only("--help", args, Command::Help);
    }
    if spells(word, "-h") {
        return only("-h", args, Command::Help);
    }
    if spells(word, "daemon") {
        return match with_session("daemon", args, true) {
            Err(e) => Command::Usage(Some(e)),
            Ok((session, label, lock_fd)) => Command::Daemon { session, label, lock_fd },
        };
    }
    if spells(word, "spawn") {
        return match with_session("spawn", args, false) {
            Err(e) => Command::Usage(Some(e)),
            Ok((session, label, _)) => Command::Spawn { session, label },
        };
    }
    if spells(word, "attach") {
        return match with_session("attach", args, false) {
            Err(e) => Command::Usage(Some(e)),
            Ok((session, label, _)) => if label.is_some() {
                Command::Usage(
                    Some(
                        copy_text(
                            "`attach` takes no `--label`: a label is recorded when the session is created, which `spawn` does",
                        ),
                    ),
                )
            } else {
                Command::Attach { session }
            },
        };
    }
    if spells(word, "kill") {
        return match with_session("kill", args, false) {
            Err(e) => Command::Usage(Some(e)),
            Ok((session, label, _)) => if label.is_some() {
                Command::Usage(
                    Some(
                        copy_text(
                            "`kill` takes no `--label`: labels are recorded only when a session is created",
                        ),
                    ),
                )
            } else {
                Command::Kill { session }
            },
        };
    }
    Command::Usage(Some(naming_bytes("unknown mode `", args[0].as_slice())))
}

/// A word between back quotes, behind what is said of it.
fn naming_bytes(before: &str, word: &[u8]) -> (r: String)
    ensures
        r@ == before@ + lossy(word@) + "`"@,
{
    let mut message: String = copy_text(before);
    put(&mut message, lossy_text(word).as_str());
    put(&mut message, "`");
    message
}

// ---------------------------------------------------------------------------
// What is reported
// ---------------------------------------------------------------------------

/// The line a failure is reported by: escaped, because what it quotes is another's bytes on
/// their way to a terminal that would act on them.
pub fn complaint(message: &str) -> (r: String)
    ensures
        r@ == "nomux: "@ + escaped(message@),
{
    let mut line: String = copy_text("nomux: ");
    put(&mut line, escaped_text(message).as_str());
    line
}

/// The exit code of a mode that ended with `failure`.
pub open spec fn exits_with(failure: Option<Kind>, failed: u8) -> u8 {
    match failure {
        None => 0,
        Some(kind) => if kind == Kind::InvalidInput {
            EXIT_USAGE
        } else {
            failed
        },
    }
}

/// The exit code of a mode that ended with `failure`, `failed` being what it scores every
/// failure but one: an id that could never have named a session is a malformed invocation.
pub fn exit_code(failure: Option<Kind>, failed: u8) -> (r: u8)
    ensures
        r == exits_with(failure, failed),
        r == match failure {
            None => 0,
            Some(Kind::InvalidInput) => EXIT_USAGE,
            Some(_) => failed,
        },
{
    match failure {
        None => 0,
        Some(Kind::InvalidInput) => EXIT_USAGE,
        Some(_) => failed,
    }
}

// ---------------------------------------------------------------------------
// Laws
// ---------------------------------------------------------------------------

/// The modes are spelled each in its own way.
proof fn lemma_modes()
    ensures
        "spawn"@ != "list"@ && "spawn"@ != "--version"@ && "spawn"@ != "-V"@ && "spawn"@
            != "--help"@ && "spawn"@ != "-h"@ && "spawn"@ != "daemon"@,
        "attach"@ != "list"@ && "attach"@ != "--version"@ && "attach"@ != "-V"@ && "attach"@
            != "--help"@ && "attach"@ != "-h"@ && "attach"@ != "daemon"@ && "attach"@ != "spawn"@,
        "kill"@ != "list"@ && "kill"@ != "--version"@ && "kill"@ != "-V"@ && "kill"@ != "--help"@
            && "kill"@ != "-h"@ && "kill"@ != "daemon"@ && "kill"@ != "spawn"@ && "kill"@
            != "attach"@,
        "daemon"@ != "list"@ && "daemon"@ != "--version"@ && "daemon"@ != "-V"@ && "daemon"@
            != "--help"@ && "daemon"@ != "-h"@,
        "-V"@ != "list"@ && "-V"@ != "--version"@,
        "--version"@ != "list"@,
        "--help"@ != "list"@ && "--help"@ != "--version"@ && "--help"@ != "-V"@,
        "-h"@ != "list"@ && "-h"@ != "--version"@ && "-h"@ != "-V"@ && "-h"@ != "--help"@,
{
    reveal_strlit("spawn");
    reveal_strlit("list");
    reveal_strlit("--version");
    reveal_strlit("-V");
    reveal_strlit("--help");
    reveal_strlit("-h");
    reveal_strlit("daemon");
    reveal_strlit("attach");
    reveal_strlit("kill");
    assert("list"@[0] == 'l' && "kill"@[0] == 'k' && "spawn"@[0] == 's');
    assert("--version"@[0] == '-' && "-V"@[0] == '-' && "--help"@[0] == '-' && "-h"@[0] == '-');
    assert("attach"@[0] == 'a' && "daemon"@[0] == 'd');
    assert("--help"@[2] == 'h' && "attach"@[2] == 't' && "daemon"@[2] == 'e');
    assert("-V"@[1] == 'V' && "-h"@[1] == 'h');
}

/// What does not begin with a dash is none of the options.
proof fn lemma_no_option(text: Seq<char>)
    requires
        text.len() > 0 ==> text[0] != '-',
    ensures
        behind(text, "--lock-fd="@) is None,
        behind(text, "--label="@) is None,
        text != "--lock-fd"@,
        text != "--label"@,
{
    reveal_strlit("--lock-fd");
    reveal_strlit("--lock-fd=");
    reveal_strlit("--label");
    reveal_strlit("--label=");
    assert("--lock-fd="@[0] == '-');
    assert("--label="@[0] == '-');
    if text.len() >= 10 {
        assert(text.take(10)[0] == text[0]);
    }
    if text.len() >= 8 {
        assert(text.take(8)[0] == text[0]);
    }
}

/// The label is asked for in its own way.
proof fn lemma_label_options(label: Seq<char>)
    ensures
        behind("--label"@, "--lock-fd="@) is None,
        behind("--label"@, "--label="@) is None,
        "--label"@ != "--lock-fd"@,
        behind("--label="@ + label, "--label="@) == Some(label),
        behind("--label="@ + label, "--lock-fd="@) is None,
{
    reveal_strlit("--lock-fd");
    reveal_strlit("--lock-fd=");
    reveal_strlit("--label");
    reveal_strlit("--label=");
    let spelled = "--label="@ + label;
    assert(spelled.take(8) =~= "--label="@);
    assert(spelled.skip(8) =~= label);
    assert(spelled[3] == 'a');
    assert("--lock-fd="@[3] == 'o');
    if spelled.len() >= 10 {
        assert(spelled.take(10)[3] == 'a');
    }
}

/// A mode that names a session is given it as it was typed, with no label and no descriptor
/// it was not given.
#[verifier::spinoff_prover]
pub proof fn a_mode_is_given_the_session_it_names(id: Seq<char>)
    requires
        id.len() > 0 ==> id[0] != '-',
    ensures
        ({
            let named = encode_utf8(id);
            &&& asked(seq![encode_utf8("spawn"@), named]) == (CommandModel::Spawn {
                session: id,
                label: None,
            })
            &&& asked(seq![encode_utf8("attach"@), named]) == (CommandModel::Attach { session: id })
            &&& asked(seq![encode_utf8("kill"@), named]) == (CommandModel::Kill { session: id })
            &&& asked(seq![encode_utf8("daemon"@), named]) == (CommandModel::Daemon {
                session: id,
                label: None,
                lock_fd: None,
            })
            &&& asked(seq![encode_utf8("spawn"@)]) is Usage
            &&& asked(seq![encode_utf8("attach"@)]) is Usage
            &&& asked(seq![encode_utf8("kill"@)]) is Usage
            &&& asked(seq![encode_utf8("daemon"@)]) is Usage
        }),
{
    let named = encode_utf8(id);
    lemma_modes();
    lemma_reads("spawn"@);
    lemma_reads("attach"@);
    lemma_reads("kill"@);
    lemma_reads("daemon"@);
    lemma_reads(id);
    lemma_no_option(id);
    assert(seq![encode_utf8("spawn"@), named].skip(1) =~= seq![named]);
    assert(seq![encode_utf8("attach"@), named].skip(1) =~= seq![named]);
    assert(seq![encode_utf8("kill"@), named].skip(1) =~= seq![named]);
    assert(seq![encode_utf8("daemon"@), named].skip(1) =~= seq![named]);
    assert(seq![encode_utf8("spawn"@)].skip(1) =~= Seq::<Seq<u8>>::empty());
    assert(seq![encode_utf8("attach"@)].skip(1) =~= Seq::<Seq<u8>>::empty());
    assert(seq![encode_utf8("kill"@)].skip(1) =~= Seq::<Seq<u8>>::empty());
    assert(seq![encode_utf8("daemon"@)].skip(1) =~= Seq::<Seq<u8>>::empty());
    reveal_with_fuel(ArgsModel::parsed, 3);
}

/// What a row of arguments with a label in it makes.
#[verifier::spinoff_prover]
proof fn lemma_labelled(id: Seq<char>, label: Seq<char>)
    requires
        id.len() > 0 ==> id[0] != '-',
    ensures
        ({
            let named = encode_utf8(id);
            let option = encode_utf8("--label"@);
            let value = encode_utf8(label);
            let whole = ArgsModel { session: Some(id), label: Some(label), lock_fd: None };
            &&& ArgsModel::empty().parsed(seq![named, option, value], 0, false) == Ok::<
                ArgsModel,
                Seq<char>,
            >(whole)
            &&& ArgsModel::empty().parsed(seq![option, value, named], 0, false) == Ok::<
                ArgsModel,
                Seq<char>,
            >(whole)
            &&& ArgsModel::empty().parsed(seq![named, option], 0, false) is Err
        }),
{
    let named = encode_utf8(id);
    let option = encode_utf8("--label"@);
    let value = encode_utf8(label);
    lemma_reads(id);
    lemma_reads(label);
    lemma_reads("--label"@);
    lemma_no_option(id);
    lemma_label_options(label);
    let none = ArgsModel::empty();
    let with_id = ArgsModel { session: Some(id), ..none };
    let with_label = ArgsModel { label: Some(label), ..none };
    let whole = ArgsModel { session: Some(id), label: Some(label), lock_fd: None };
    let behind_id = seq![named, option, value];
    let before_id = seq![option, value, named];
    assert(none.with_label(label) == Ok::<ArgsModel, Seq<char>>(with_label));
    assert(with_id.with_label(label) == Ok::<ArgsModel, Seq<char>>(whole));
    assert(whole.parsed(behind_id, 3, false) == Ok::<ArgsModel, Seq<char>>(whole));
    assert(with_id.parsed(behind_id, 1, false) == whole.parsed(behind_id, 3, false));
    assert(none.parsed(behind_id, 0, false) == with_id.parsed(behind_id, 1, false));
    assert(whole.parsed(before_id, 3, false) == Ok::<ArgsModel, Seq<char>>(whole));
    assert(with_label.parsed(before_id, 2, false) == whole.parsed(before_id, 3, false));
    assert(none.parsed(before_id, 0, false) == with_label.parsed(before_id, 2, false));
    assert(none.parsed(seq![named, option], 0, false) == with_id.parsed(
        seq![named, option],
        1,
        false,
    ));
}

/// The same with the label and its option in one argument.
#[verifier::spinoff_prover]
proof fn lemma_labelled_in_one(id: Seq<char>, label: Seq<char>)
    requires
        id.len() > 0 ==> id[0] != '-',
    ensures
        ({
            let named = encode_utf8(id);
            let both = encode_utf8("--label="@ + label);
            let whole = ArgsModel { session: Some(id), label: Some(label), lock_fd: None };
            &&& ArgsModel::empty().parsed(seq![named, both], 0, false) == Ok::<
                ArgsModel,
                Seq<char>,
            >(whole)
            &&& ArgsModel::empty().parsed(seq![both, named], 0, false) == Ok::<
                ArgsModel,
                Seq<char>,
            >(whole)
            &&& ArgsModel::empty().parsed(seq![named, both, both], 0, false) is Err
        }),
{
    let named = encode_utf8(id);
    let both = encode_utf8("--label="@ + label);
    lemma_reads(id);
    lemma_reads("--label="@ + label);
    lemma_no_option(id);
    lemma_label_options(label);
    let none = ArgsModel::empty();
    let with_id = ArgsModel { session: Some(id), ..none };
    let with_label = ArgsModel { label: Some(label), ..none };
    let whole = ArgsModel { session: Some(id), label: Some(label), lock_fd: None };
    assert(none.with_label(label) == Ok::<ArgsModel, Seq<char>>(with_label));
    assert(with_id.with_label(label) == Ok::<ArgsModel, Seq<char>>(whole));
    let behind_id = seq![named, both];
    let before_id = seq![both, named];
    let twice = seq![named, both, both];
    assert(whole.parsed(behind_id, 2, false) == Ok::<ArgsModel, Seq<char>>(whole));
    assert(with_id.parsed(behind_id, 1, false) == whole.parsed(behind_id, 2, false));
    assert(none.parsed(behind_id, 0, false) == with_id.parsed(behind_id, 1, false));
    assert(whole.parsed(before_id, 2, false) == Ok::<ArgsModel, Seq<char>>(whole));
    assert(with_label.parsed(before_id, 1, false) == whole.parsed(before_id, 2, false));
    assert(none.parsed(before_id, 0, false) == with_label.parsed(before_id, 1, false));
    assert(whole.parsed(twice, 2, false) is Err);
    assert(with_id.parsed(twice, 1, false) == whole.parsed(twice, 2, false));
    assert(none.parsed(twice, 0, false) == with_id.parsed(twice, 1, false));
}

/// A label behind its option is taken as it was typed, on either side of the id, by the mode
/// that records it.
#[verifier::spinoff_prover]
pub proof fn a_label_is_taken_as_it_was_typed(id: Seq<char>, label: Seq<char>)
    requires
        id.len() > 0 ==> id[0] != '-',
    ensures
        ({
            let mode = seq![encode_utf8("spawn"@)];
            let named = encode_utf8(id);
            let option = encode_utf8("--label"@);
            let value = encode_utf8(label);
            let spawned = CommandModel::Spawn { session: id, label: Some(label) };
            &&& asked(mode + seq![named, option, value]) == spawned
            &&& asked(mode + seq![option, value, named]) == spawned
            &&& asked(mode + seq![named, option]) is Usage
        }),
{
    let named = encode_utf8(id);
    let option = encode_utf8("--label"@);
    let value = encode_utf8(label);
    lemma_labelled(id, label);
    lemma_spawn_asks(seq![named, option, value]);
    lemma_spawn_asks(seq![option, value, named]);
    lemma_spawn_asks(seq![named, option]);
}

/// So is one in the same argument as its option, and given once; a mode that does not record
/// it refuses it rather than drop it.
#[verifier::spinoff_prover]
pub proof fn a_label_in_one_argument_is_taken_too(id: Seq<char>, label: Seq<char>)
    requires
        id.len() > 0 ==> id[0] != '-',
    ensures
        ({
            let mode = seq![encode_utf8("spawn"@)];
            let named = encode_utf8(id);
            let both = encode_utf8("--label="@ + label);
            let spawned = CommandModel::Spawn { session: id, label: Some(label) };
            &&& asked(mode + seq![named, both]) == spawned
            &&& asked(mode + seq![both, named]) == spawned
            &&& asked(mode + seq![named, both, both]) is Usage
            &&& asked(seq![encode_utf8("attach"@)] + seq![named, both]) is Usage
            &&& asked(seq![encode_utf8("kill"@)] + seq![named, both]) is Usage
        }),
{
    let named = encode_utf8(id);
    let both = encode_utf8("--label="@ + label);
    lemma_labelled_in_one(id, label);
    lemma_spawn_asks(seq![named, both]);
    lemma_spawn_asks(seq![both, named]);
    lemma_spawn_asks(seq![named, both, both]);
    lemma_attach_and_kill_ask(seq![named, both]);
}

/// What a spawn makes of its arguments.
proof fn lemma_spawn_asks(rest: Seq<Seq<u8>>)
    ensures
        asked(seq![encode_utf8("spawn"@)] + rest) == match ArgsModel::empty().parsed(
            rest,
            0,
            false,
        ) {
            Ok(parsed) => if parsed.session is None {
                asked(seq![encode_utf8("spawn"@)] + rest)
            } else {
                CommandModel::Spawn { session: parsed.session->0, label: parsed.label }
            },
            Err(e) => CommandModel::Usage(Some(e)),
        },
{
    lemma_modes();
    lemma_reads("spawn"@);
    assert((seq![encode_utf8("spawn"@)] + rest).skip(1) =~= rest);
}

/// What an attach and a kill make of arguments with a label among them.
proof fn lemma_attach_and_kill_ask(rest: Seq<Seq<u8>>)
    ensures
        ArgsModel::empty().parsed(rest, 0, false) matches Ok(parsed) ==> (parsed.label is Some ==> {
            &&& asked(seq![encode_utf8("attach"@)] + rest) is Usage
            &&& asked(seq![encode_utf8("kill"@)] + rest) is Usage
        }),
{
    lemma_modes();
    lemma_reads("attach"@);
    lemma_reads("kill"@);
    assert((seq![encode_utf8("attach"@)] + rest).skip(1) =~= rest);
    assert((seq![encode_utf8("kill"@)] + rest).skip(1) =~= rest);
}

/// The modes that take no argument are what they say, and refuse any.
pub proof fn a_mode_without_arguments_refuses_them(more: Seq<u8>)
    ensures
        asked(seq![encode_utf8("list"@)]) is List,
        asked(seq![encode_utf8("--version"@)]) is Version,
        asked(seq![encode_utf8("-V"@)]) is Version,
        asked(seq![encode_utf8("--help"@)]) is Help,
        asked(seq![encode_utf8("-h"@)]) is Help,
        asked(seq![encode_utf8("list"@), more]) is Usage,
        asked(seq![encode_utf8("--version"@), more]) is Usage,
        asked(seq![encode_utf8("--help"@), more]) is Usage,
        asked(Seq::empty()) is Usage,
{
    lemma_modes();
    lemma_reads("list"@);
    lemma_reads("--version"@);
    lemma_reads("-V"@);
    lemma_reads("--help"@);
    lemma_reads("-h"@);
}

/// What is not understood is refused: another mode, a second id, and any option there is
/// none of, the startup handoff among them for every mode but the daemon's.
#[verifier::spinoff_prover]
pub proof fn what_is_not_understood_is_refused(
    mode: Seq<char>,
    id: Seq<char>,
    other: Seq<char>,
    option: Seq<char>,
)
    requires
        id.len() > 0 ==> id[0] != '-',
        other.len() > 0 ==> other[0] != '-',
        option.len() > 0,
        option[0] == '-',
        behind(option, "--label="@) is None,
        option != "--label"@,
    ensures
        mode != "list"@ && mode != "--version"@ && mode != "-V"@ && mode != "--help"@ && mode
            != "-h"@ && mode != "daemon"@ && mode != "spawn"@ && mode != "attach"@ && mode
            != "kill"@ ==> asked(seq![encode_utf8(mode), encode_utf8(id)]) is Usage,
        asked(seq![encode_utf8("spawn"@), encode_utf8(id), encode_utf8(other)]) is Usage,
        asked(seq![encode_utf8("attach"@), encode_utf8(id), encode_utf8(other)]) is Usage,
        asked(seq![encode_utf8("kill"@), encode_utf8(id), encode_utf8(other)]) is Usage,
        asked(seq![encode_utf8("spawn"@), encode_utf8(option), encode_utf8(id)]) is Usage,
        asked(seq![encode_utf8("attach"@), encode_utf8(option), encode_utf8(id)]) is Usage,
        asked(seq![encode_utf8("kill"@), encode_utf8(option), encode_utf8(id)]) is Usage,
{
    lemma_modes();
    lemma_reads("spawn"@);
    lemma_reads("attach"@);
    lemma_reads("kill"@);
    lemma_reads(mode);
    lemma_reads(id);
    lemma_reads(other);
    lemma_reads(option);
    lemma_no_option(id);
    lemma_no_option(other);
    let two = seq![encode_utf8(id), encode_utf8(other)];
    let odd = seq![encode_utf8(option), encode_utf8(id)];
    assert(seq![encode_utf8("spawn"@), two[0], two[1]].skip(1) =~= two);
    assert(seq![encode_utf8("attach"@), two[0], two[1]].skip(1) =~= two);
    assert(seq![encode_utf8("kill"@), two[0], two[1]].skip(1) =~= two);
    assert(seq![encode_utf8("spawn"@), odd[0], odd[1]].skip(1) =~= odd);
    assert(seq![encode_utf8("attach"@), odd[0], odd[1]].skip(1) =~= odd);
    assert(seq![encode_utf8("kill"@), odd[0], odd[1]].skip(1) =~= odd);
    let none = ArgsModel::empty();
    let with_id = ArgsModel { session: Some(id), ..none };
    assert(none.parsed(two, 0, false) == with_id.parsed(two, 1, false));
    assert(with_id.parsed(two, 1, false) is Err);
    assert(none.parsed(odd, 0, false) is Err);
}

/// A mode that did what it was asked exits with zero, one that was asked for a session that
/// could never be with the status of a malformed invocation, and any other failure with the
/// mode's own.
pub proof fn an_exit_code_says_how_it_went(kind: Kind, failed: u8)
    ensures
        exits_with(None, failed) == 0,
        exits_with(Some(Kind::InvalidInput), failed) == 64,
        kind != Kind::InvalidInput ==> exits_with(Some(kind), failed) == failed,
{
}

} // verus!
