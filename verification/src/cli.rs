//! The command line: its options, the messages about them, and how the target is
//! started.

use vstd::prelude::*;

use crate::ipc;
use crate::text;

verus! {

/// What the program says about its use.
pub const USAGE: &'static str = "Usage:
  heap-oracle run [OPTIONS] -- <target> [args...]
  heap-oracle monitor [OPTIONS]

Options:
  --no-ui        CLI-only mode (no GUI window)
  --no-color     Disable ANSI colour output
  --main-only    Only trace events after main() starts (skip libc init noise)
  --no-stack     Disable callstack capture (faster, smaller events)
  --shm-name N   Override shared-memory name
  --hook-lib P   Override hook library path

Examples:
  heap-oracle run -- ./pwn_challenge
  heap-oracle run --no-ui --main-only -- ./heap_vuln
  heap-oracle run --no-ui -- /bin/ls -la
  heap-oracle monitor --shm-name /heap-oracle-demo";

pub fn usage_text() -> (s: &'static str)
    ensures
        s@ == USAGE@,
{
    USAGE
}

////////////////////////////////////////////////////////////////////////////////
// Options
////////////////////////////////////////////////////////////////////////////////
/// What the command line asks for.
pub enum ParseResult {
    Run(Options),
    Help,
}

/// The settings of a session.
pub struct Options {
    pub mode: Mode,
    pub shm_name: String,
    pub no_ui: bool,
    pub main_only: bool,
    pub no_stack: bool,
    pub use_color: bool,
}

/// Whether a target is started or an outside one is watched.
pub enum Mode {
    /// The target is the part of the command line from `command_start` on.
    Run { command_start: usize, hook_library: Option<String> },
    Monitor,
}

/// A flag that takes a value.
#[derive(Clone, Copy, Debug, PartialEq, Eq, Structural)]
pub enum ValueFlag {
    ShmName,
    HookLib,
}

/// What is wrong with a command line.
#[derive(Clone, Copy, Debug, PartialEq, Eq, Structural)]
pub enum UsageError {
    /// The first argument names no command.
    UnknownCommand,
    /// The argument at this place is no flag of the command.
    UnknownFlag(usize),
    /// The command line ends behind this flag.
    MissingValue(ValueFlag),
    /// No target follows.
    MissingTarget,
}

/// The flags met so far.
pub struct Flags {
    pub no_ui: bool,
    pub main_only: bool,
    pub no_color: bool,
    pub no_stack: bool,
    pub shm_name: Option<Seq<char>>,
    pub hook_library: Option<Seq<char>>,
}

/// No flags.
pub open spec fn no_flags() -> Flags {
    Flags {
        no_ui: false,
        main_only: false,
        no_color: false,
        no_stack: false,
        shm_name: None,
        hook_library: None,
    }
}

/// Reads the flags from place `i` on. `run` says whether those that concern a target
/// are among them. Returns the flags and the place where the target starts, which is
/// behind `--`, or the end of the command line where there is none.
pub open spec fn scan(args: Seq<Seq<char>>, i: int, run: bool, flags: Flags) -> Result<
    (Flags, int),
    UsageError,
>
    decreases args.len() - i,
{
    if i >= args.len() {
        Ok((flags, args.len() as int))
    } else if args[i] == "--no-ui"@ {
        scan(args, i + 1, run, Flags { no_ui: true, ..flags })
    } else if args[i] == "--no-color"@ {
        scan(args, i + 1, run, Flags { no_color: true, ..flags })
    } else if args[i] == "--shm-name"@ {
        if i + 1 < args.len() {
            scan(args, i + 2, run, Flags { shm_name: Some(args[i + 1]), ..flags })
        } else {
            Err(UsageError::MissingValue(ValueFlag::ShmName))
        }
    } else if run && args[i] == "--"@ {
        Ok((flags, i + 1))
    } else if run && args[i] == "--main-only"@ {
        scan(args, i + 1, run, Flags { main_only: true, ..flags })
    } else if run && args[i] == "--no-stack"@ {
        scan(args, i + 1, run, Flags { no_stack: true, ..flags })
    } else if run && args[i] == "--hook-lib"@ {
        if i + 1 < args.len() {
            scan(args, i + 2, run, Flags { hook_library: Some(args[i + 1]), ..flags })
        } else {
            Err(UsageError::MissingValue(ValueFlag::HookLib))
        }
    } else {
        Err(UsageError::UnknownFlag(i as usize))
    }
}

/// What a session is set to.
pub struct OptionsView {
    pub target: Option<(int, Option<Seq<char>>)>,
    pub shm_name: Seq<char>,
    pub no_ui: bool,
    pub main_only: bool,
    pub no_stack: bool,
    pub use_color: bool,
}

impl View for Options {
    type V = OptionsView;

    open spec fn view(&self) -> OptionsView {
        OptionsView {
            target: match self.mode {
                Mode::Run { command_start, hook_library } => Some(
                    (
                        command_start as int,
                        match hook_library {
                            Some(path) => Some(path@),
                            None => None,
                        },
                    ),
                ),
                Mode::Monitor => None,
            },
            shm_name: self.shm_name@,
            no_ui: self.no_ui,
            main_only: self.main_only,
            no_stack: self.no_stack,
            use_color: self.use_color,
        }
    }
}

/// Whether an argument asks for help.
pub open spec fn asks_for_help(arg: Seq<char>) -> bool {
    arg == "help"@ || arg == "--help"@ || arg == "-h"@
}

/// The settings that flags make. A name that was not given is the generated one;
/// colours are used on a terminal unless they were turned off.
pub open spec fn options_of(
    flags: Flags,
    target: Option<(int, Option<Seq<char>>)>,
    generated: Seq<char>,
    terminal: bool,
) -> OptionsView {
    OptionsView {
        target,
        shm_name: match flags.shm_name {
            Some(name) => name,
            None => generated,
        },
        no_ui: flags.no_ui,
        main_only: flags.main_only,
        no_stack: flags.no_stack,
        use_color: !flags.no_color && terminal,
    }
}

/// What a command line asks for: `None` for help, else the settings.
pub open spec fn parsed(args: Seq<Seq<char>>, generated: Seq<char>, terminal: bool) -> Result<
    Option<OptionsView>,
    UsageError,
> {
    if args.len() < 2 || asks_for_help(args[1]) {
        Ok(None)
    } else if args[1] == "run"@ {
        match scan(args, 2, true, no_flags()) {
            Err(e) => Err(e),
            Ok((flags, start)) => if start < args.len() {
                Ok(
                    Some(
                        options_of(
                            flags,
                            Some((start, flags.hook_library)),
                            generated,
                            terminal,
                        ),
                    ),
                )
            } else {
                Err(UsageError::MissingTarget)
            },
        }
    } else if args[1] == "monitor"@ {
        match scan(args, 2, false, no_flags()) {
            Err(e) => Err(e),
            Ok((flags, _)) => Ok(Some(options_of(flags, None, generated, terminal))),
        }
    } else {
        Err(UsageError::UnknownCommand)
    }
}

/// The flags met so far, while the command line is read.
struct Scanned {
    no_ui: bool,
    main_only: bool,
    no_color: bool,
    no_stack: bool,
    shm_name: Option<String>,
    hook_library: Option<String>,
}

impl View for Scanned {
    type V = Flags;

    closed spec fn view(&self) -> Flags {
        Flags {
            no_ui: self.no_ui,
            main_only: self.main_only,
            no_color: self.no_color,
            no_stack: self.no_stack,
            shm_name: match self.shm_name {
                Some(name) => Some(name@),
                None => None,
            },
            hook_library: match self.hook_library {
                Some(path) => Some(path@),
                None => None,
            },
        }
    }
}

/// Reads the flags behind the command.
fn scan_flags(args: &Vec<String>, run: bool) -> (r: Result<(Scanned, usize), UsageError>)
    requires
        args@.len() >= 2,
    ensures
        match (r, scan(text::texts(args@), 2, run, no_flags())) {
            (Ok((found, start)), Ok((flags, place))) => found@ == flags && start == place,
            (Err(e), Err(f)) => e == f,
            _ => false,
        },
{
    let mut found = Scanned {
        no_ui: false,
        main_only: false,
        no_color: false,
        no_stack: false,
        shm_name: None,
        hook_library: None,
    };
    let ghost all = text::texts(args@);
    let ghost whole = scan(all, 2, run, no_flags());
    let mut i: usize = 2;
    while i < args.len()
        invariant
            2 <= i <= args@.len(),
            all == text::texts(args@),
            whole == scan(all, 2, run, no_flags()),
            scan(all, i as int, run, found@) == whole,
        decreases args@.len() - i,
    {
        let arg: &str = args[i].as_str();
        assert(arg@ == all[i as int]);
        if text::same_text(arg, "--no-ui") {
            found.no_ui = true;
        } else if text::same_text(arg, "--no-color") {
            found.no_color = true;
        } else if text::same_text(arg, "--shm-name") {
            if i + 1 >= args.len() {
                return Err(UsageError::MissingValue(ValueFlag::ShmName));
            }
            i += 1;
            found.shm_name = Some(args[i].clone());
        } else if run && text::same_text(arg, "--") {
            return Ok((found, i + 1));
        } else if run && text::same_text(arg, "--main-only") {
            found.main_only = true;
        } else if run && text::same_text(arg, "--no-stack") {
            found.no_stack = true;
        } else if run && text::same_text(arg, "--hook-lib") {
            if i + 1 >= args.len() {
                return Err(UsageError::MissingValue(ValueFlag::HookLib));
            }
            i += 1;
            found.hook_library = Some(args[i].clone());
        } else {
            return Err(UsageError::UnknownFlag(i));
        }
        i += 1;
    }
    Ok((found, i))
}

/// Turns flags into settings.
fn to_options(found: Scanned, mode: Mode, generated: String, terminal: bool) -> (options: Options)
    ensures
        options.mode == mode,
        options@ == options_of(found@, options@.target, generated@, terminal),
{
    Options {
        mode,
        shm_name: match found.shm_name {
            Some(name) => name,
            None => generated,
        },
        no_ui: found.no_ui,
        main_only: found.main_only,
        no_stack: found.no_stack,
        use_color: !found.no_color && terminal,
    }
}

/// Reads a command line, the program's own name first. `generated` is the shared
/// memory name to use where none is given, and `terminal` says whether the output
/// goes to a terminal.
pub fn parse_args(args: &Vec<String>, generated: String, terminal: bool) -> (r: Result<
    ParseResult,
    UsageError,
>)
    ensures
        match (r, parsed(text::texts(args@), generated@, terminal)) {
            (Ok(ParseResult::Run(options)), Ok(Some(view))) => {
                &&& options@ == view
                &&& options.shm_name@ == view.shm_name
                &&& options.no_ui == view.no_ui
                &&& options.main_only == view.main_only
                &&& options.no_stack == view.no_stack
                &&& options.use_color == view.use_color
                &&& options.mode is Monitor <==> view.target is None
                &&& options.mode matches Mode::Run { command_start, hook_library } ==> {
                    &&& view.target matches Some((start, hook))
                    &&& start == command_start
                    &&& hook_library is Some <==> hook is Some
                    &&& hook_library matches Some(path) ==> hook == Some(path@)
                }
            },
            (Ok(ParseResult::Help), Ok(None)) => true,
            (Err(e), Err(f)) => e == f,
            _ => false,
        },
{
    if args.len() < 2 {
        return Ok(ParseResult::Help);
    }
    let command: &str = args[1].as_str();
    assert(command@ == text::texts(args@)[1]);
    if text::same_text(command, "help") || text::same_text(command, "--help") || text::same_text(
        command,
        "-h",
    ) {
        return Ok(ParseResult::Help);
    }
    if text::same_text(command, "run") {
        match scan_flags(args, true) {
            Err(e) => Err(e),
            Ok((found, start)) => {
                if start >= args.len() {
                    return Err(UsageError::MissingTarget);
                }
                let hook_library = found.hook_library.clone();
                let mode = Mode::Run { command_start: start, hook_library };
                Ok(ParseResult::Run(to_options(found, mode, generated, terminal)))
            },
        }
    } else if text::same_text(command, "monitor") {
        match scan_flags(args, false) {
            Err(e) => Err(e),
            Ok((found, _)) => Ok(
                ParseResult::Run(to_options(found, Mode::Monitor, generated, terminal)),
            ),
        }
    } else {
        Err(UsageError::UnknownCommand)
    }
}

/// The flag in messages.
pub open spec fn flag_text(flag: ValueFlag) -> Seq<char> {
    match flag {
        ValueFlag::ShmName => "--shm-name"@,
        ValueFlag::HookLib => "--hook-lib"@,
    }
}

/// The message for a command line that is not understood. `quoted` is the argument
/// at fault, where there is one.
pub open spec fn usage_error_text(error: UsageError, quoted: Seq<char>) -> Seq<char> {
    match error {
        UsageError::UnknownCommand => "unknown command "@ + quoted + "\n\n"@ + USAGE@,
        UsageError::UnknownFlag(_) => "unknown flag "@ + quoted + "\n\n"@ + USAGE@,
        UsageError::MissingValue(flag) => flag_text(flag) + " requires a value"@,
        UsageError::MissingTarget => "missing target command\n\n"@ + USAGE@,
    }
}

/// A message about an argument names it and explains the use; which place it stood at
/// does not matter. One about a flag without a value names the flag.
pub proof fn law_usage_error_text(
    error: UsageError,
    quoted: Seq<char>,
    other: Seq<char>,
    at: usize,
)
    ensures
        ({
            let a = usage_error_text(error, quoted);
            &&& !(error is MissingValue) ==> USAGE@.is_suffix_of(a)
            &&& error is MissingTarget || error is MissingValue ==> a == usage_error_text(
                error,
                other,
            )
            &&& error is UnknownFlag ==> {
                &&& a == usage_error_text(UsageError::UnknownFlag(at), quoted)
                &&& a.subrange(13, 13int + quoted.len()) == quoted
                &&& a.len() == 15 + quoted.len() + USAGE@.len()
            }
            &&& error is UnknownCommand ==> {
                &&& a.subrange(16, 16int + quoted.len()) == quoted
                &&& a.len() == 18 + quoted.len() + USAGE@.len()
            }
            &&& error matches UsageError::MissingValue(flag) ==> flag_text(flag).is_prefix_of(a)
        }),
{
    let a = usage_error_text(error, quoted);
    reveal_strlit("unknown flag ");
    reveal_strlit("unknown command ");
    reveal_strlit("\n\n");
    assert(!(error is MissingValue) ==> a.subrange(a.len() - USAGE@.len(), a.len() as int)
        =~= USAGE@);
    assert(error is UnknownFlag ==> a.subrange(13, 13int + quoted.len()) =~= quoted);
    assert(error is UnknownCommand ==> a.subrange(16, 16int + quoted.len()) =~= quoted);
    if let UsageError::MissingValue(flag) = error {
        assert(a.subrange(0, flag_text(flag).len() as int) =~= flag_text(flag));
    }
}

pub fn format_usage_error(error: UsageError, quoted: &str) -> (s: String)
    ensures
        s@ == usage_error_text(error, quoted@),
{
    match error {
        UsageError::UnknownCommand => {
            let mut out = "unknown command ".to_owned();
            out.append(quoted);
            out.append("\n\n");
            out.append(USAGE);
            out
        },
        UsageError::UnknownFlag(_) => {
            let mut out = "unknown flag ".to_owned();
            out.append(quoted);
            out.append("\n\n");
            out.append(USAGE);
            out
        },
        UsageError::MissingValue(flag) => {
            let mut out = match flag {
                ValueFlag::ShmName => "--shm-name".to_owned(),
                ValueFlag::HookLib => "--hook-lib".to_owned(),
            };
            out.append(" requires a value");
            out
        },
        UsageError::MissingTarget => {
            let mut out = "missing target command\n\n".to_owned();
            out.append(USAGE);
            out
        },
    }
}

/// The place of the argument at fault, where there is one.
pub open spec fn fault_place(error: UsageError) -> Option<usize> {
    match error {
        UsageError::UnknownCommand => Some(1usize),
        UsageError::UnknownFlag(i) => Some(i),
        _ => None,
    }
}

/// The argument at fault is the one that is not understood: the word in the place of
/// the command, or a word that is no flag of its command.
pub proof fn law_fault_place(args: Seq<Seq<char>>, generated: Seq<char>, terminal: bool)
    requires
        args.len() <= usize::MAX,
    ensures
        parsed(args, generated, terminal) matches Err(error) ==> {
            &&& fault_place(error) matches Some(at) ==> {
                &&& 1 <= at < args.len()
                &&& at == 1 ==> args[1] != "run"@ && args[1] != "monitor"@
                &&& at > 1 ==> is_flag_place(args, at as int) && !is_known(
                    args[1] == "run"@,
                    args[at as int],
                )
            }
            &&& fault_place(error) is None ==> error is MissingValue || error is MissingTarget
        },
{
    if args.len() >= 2 {
        lemma_commands_differ();
        if args[1] == "run"@ {
            let stop = law_flags_end(args, true);
            law_run_settings(args, generated, terminal, stop);
        } else if args[1] == "monitor"@ {
            law_monitor_settings(args, generated, terminal, args.len() as int);
        }
    }
}

impl UsageError {
    /// The place of the argument at fault, where there is one.
    pub fn argument(self) -> (place: Option<usize>)
        ensures
            place == fault_place(self),
            place == match self {
                UsageError::UnknownCommand => Some(1usize),
                UsageError::UnknownFlag(i) => Some(i),
                _ => None,
            },
    {
        match self {
            UsageError::UnknownCommand => Some(1),
            UsageError::UnknownFlag(i) => Some(i),
            _ => None,
        }
    }
}

proof fn lemma_scan(args: Seq<Seq<char>>, i: int, run: bool, flags: Flags)
    requires
        2 <= i <= args.len() <= usize::MAX,
    ensures
        match scan(args, i, run, flags) {
            Ok((found, start)) => {
                &&& i <= start <= args.len()
                &&& start < args.len() ==> run && i < start && args[start - 1] == "--"@
                &&& !run ==> found.main_only == flags.main_only && found.no_stack == flags.no_stack
            },
            Err(UsageError::UnknownFlag(at)) => i <= at < args.len(),
            Err(UsageError::MissingValue(flag)) => i < args.len() && args.last() == flag_text(flag),
            Err(_) => false,
        },
    decreases args.len() - i,
{
    if i >= args.len() {
    } else if args[i] == "--no-ui"@ {
        lemma_scan(args, i + 1, run, Flags { no_ui: true, ..flags });
    } else if args[i] == "--no-color"@ {
        lemma_scan(args, i + 1, run, Flags { no_color: true, ..flags });
    } else if args[i] == "--shm-name"@ {
        if i + 1 < args.len() {
            lemma_scan(args, i + 2, run, Flags { shm_name: Some(args[i + 1]), ..flags });
        }
    } else if run && args[i] == "--"@ {
    } else if run && args[i] == "--main-only"@ {
        lemma_scan(args, i + 1, run, Flags { main_only: true, ..flags });
    } else if run && args[i] == "--no-stack"@ {
        lemma_scan(args, i + 1, run, Flags { no_stack: true, ..flags });
    } else if run && args[i] == "--hook-lib"@ {
        if i + 1 < args.len() {
            lemma_scan(args, i + 2, run, Flags { hook_library: Some(args[i + 1]), ..flags });
        }
    }
}

/// What holds of every command line. A target is never empty and always stands
/// behind `--`; only `run` has one. Colours need a terminal. A watched target has
/// none of the settings for a started one. An argument at fault is one of the command
/// line, and a value is missing only behind a flag that stands last.
pub proof fn law_parsed(args: Seq<Seq<char>>, generated: Seq<char>, terminal: bool)
    requires
        args.len() <= usize::MAX,
    ensures
        match parsed(args, generated, terminal) {
            Ok(None) => args.len() < 2 || asks_for_help(args[1]),
            Ok(Some(options)) => {
                &&& options.use_color ==> terminal
                &&& match options.target {
                    Some((start, _)) => {
                        &&& args[1] == "run"@
                        &&& 2 < start < args.len()
                        &&& args[start - 1] == "--"@
                    },
                    None => args[1] == "monitor"@ && !options.main_only && !options.no_stack,
                }
            },
            Err(UsageError::UnknownCommand) => args.len() >= 2,
            Err(UsageError::UnknownFlag(at)) => 2 <= at < args.len(),
            Err(UsageError::MissingValue(flag)) => args.len() > 2 && args.last() == flag_text(flag),
            Err(UsageError::MissingTarget) => args.len() >= 2 && args[1] == "run"@,
        },
{
    if args.len() >= 2 {
        lemma_scan(args, 2, true, no_flags());
        lemma_scan(args, 2, false, no_flags());
    }
}

/// What tells the flags apart: their lengths, and two letters of those of one length.
proof fn lemma_flags_differ()
    ensures
        "--"@.len() == 2,
        "--no-ui"@.len() == 7,
        "--main-only"@.len() == 11,
        "--no-color"@.len() == 10 && "--no-color"@[2] == 'n' && "--no-color"@[5] == 'c',
        "--no-stack"@.len() == 10 && "--no-stack"@[2] == 'n' && "--no-stack"@[5] == 's',
        "--shm-name"@.len() == 10 && "--shm-name"@[2] == 's',
        "--hook-lib"@.len() == 10 && "--hook-lib"@[2] == 'h',
{
    reveal_strlit("--no-ui");
    reveal_strlit("--no-color");
    reveal_strlit("--shm-name");
    reveal_strlit("--");
    reveal_strlit("--main-only");
    reveal_strlit("--no-stack");
    reveal_strlit("--hook-lib");
}

/// A flag that has been read stays set, whatever follows.
pub proof fn law_flags_stay(args: Seq<Seq<char>>, i: int, run: bool, flags: Flags)
    requires
        2 <= i <= args.len() <= usize::MAX,
    ensures
        scan(args, i, run, flags) matches Ok((found, _)) ==> {
            &&& flags.no_ui ==> found.no_ui
            &&& flags.no_color ==> found.no_color
            &&& flags.main_only ==> found.main_only
            &&& flags.no_stack ==> found.no_stack
            &&& flags.shm_name is Some ==> found.shm_name is Some
            &&& flags.hook_library is Some ==> found.hook_library is Some
            &&& i < args.len() ==> {
                &&& args[i] == "--no-ui"@ ==> found.no_ui
                &&& args[i] == "--no-color"@ ==> found.no_color
                &&& args[i] == "--main-only"@ ==> found.main_only
                &&& args[i] == "--no-stack"@ ==> found.no_stack
                &&& args[i] == "--shm-name"@ ==> found.shm_name is Some
                &&& args[i] == "--hook-lib"@ ==> found.hook_library is Some
            }
        },
    decreases args.len() - i,
{
    lemma_flags_differ();
    if i >= args.len() {
    } else if args[i] == "--no-ui"@ {
        law_flags_stay(args, i + 1, run, Flags { no_ui: true, ..flags });
    } else if args[i] == "--no-color"@ {
        law_flags_stay(args, i + 1, run, Flags { no_color: true, ..flags });
    } else if args[i] == "--shm-name"@ {
        if i + 1 < args.len() {
            law_flags_stay(args, i + 2, run, Flags { shm_name: Some(args[i + 1]), ..flags });
        }
    } else if run && args[i] == "--"@ {
    } else if run && args[i] == "--main-only"@ {
        law_flags_stay(args, i + 1, run, Flags { main_only: true, ..flags });
    } else if run && args[i] == "--no-stack"@ {
        law_flags_stay(args, i + 1, run, Flags { no_stack: true, ..flags });
    } else if run && args[i] == "--hook-lib"@ {
        if i + 1 < args.len() {
            law_flags_stay(args, i + 2, run, Flags { hook_library: Some(args[i + 1]), ..flags });
        }
    }
}

/// Whether a flag has a value behind it.
pub open spec fn takes_value(word: Seq<char>) -> bool {
    word == "--shm-name"@ || word == "--hook-lib"@
}

/// Whether the word at a place is read as a flag: every word behind the command but
/// those that are the value of the flag before them.
pub open spec fn is_flag_place(args: Seq<Seq<char>>, i: int) -> bool
    decreases i,
{
    i == 2 || i > 2 && !(is_flag_place(args, i - 1) && takes_value(args[i - 1]))
}

/// Whether a word is a flag of the command.
pub open spec fn is_known(run: bool, word: Seq<char>) -> bool {
    ||| word == "--no-ui"@
    ||| word == "--no-color"@
    ||| word == "--shm-name"@
    ||| run && word == "--main-only"@
    ||| run && word == "--no-stack"@
    ||| run && word == "--hook-lib"@
}

/// Whether the flags end at `stop`: at the first `--` that is read as a flag of a run,
/// or at the end of the command line.
pub open spec fn flags_end_at(args: Seq<Seq<char>>, run: bool, stop: int) -> bool {
    &&& 2 <= stop <= args.len()
    &&& stop < args.len() ==> run && is_flag_place(args, stop) && args[stop] == "--"@
    &&& run ==> forall|p: int|
        2 <= p < stop && #[trigger] is_flag_place(args, p) ==> args[p] != "--"@
}

/// Whether a flag stands between two places.
pub open spec fn is_given(args: Seq<Seq<char>>, from: int, stop: int, flag: Seq<char>) -> bool {
    exists|p: int| from <= p < stop && #[trigger] is_flag_place(args, p) && args[p] == flag
}

/// Whether every flag between two places is one of the command.
pub open spec fn all_known(args: Seq<Seq<char>>, run: bool, from: int, stop: int) -> bool {
    forall|p: int|
        from <= p < stop && #[trigger] is_flag_place(args, p) ==> is_known(run, args[p])
}

/// Whether a value is the word behind the last of the flags of its name, or `otherwise`
/// where there is none.
pub open spec fn is_value_of(
    args: Seq<Seq<char>>,
    from: int,
    stop: int,
    flag: Seq<char>,
    otherwise: Option<Seq<char>>,
    value: Option<Seq<char>>,
) -> bool {
    &&& !is_given(args, from, stop, flag) ==> value == otherwise
    &&& forall|p: int|
        from <= p < stop && #[trigger] is_flag_place(args, p) && args[p] == flag && !is_given(
            args,
            p + 1,
            stop,
            flag,
        ) ==> value == Some(args[p + 1])
}

/// Whether a command line ends in a flag that wants a value.
pub open spec fn lacks_value(args: Seq<Seq<char>>) -> bool {
    is_flag_place(args, args.len() - 1) && takes_value(args.last())
}

/// What reading the flags from a place on makes of those read before.
spec fn means(
    args: Seq<Seq<char>>,
    i: int,
    run: bool,
    flags: Flags,
    stop: int,
    r: Result<(Flags, int), UsageError>,
) -> bool {
    match r {
        Ok((found, start)) => {
            &&& all_known(args, run, i, stop)
            &&& start == if stop < args.len() {
                stop + 1
            } else {
                stop
            }
            &&& found.no_ui <==> flags.no_ui || is_given(args, i, stop, "--no-ui"@)
            &&& found.no_color <==> flags.no_color || is_given(args, i, stop, "--no-color"@)
            &&& found.main_only <==> flags.main_only || is_given(args, i, stop, "--main-only"@)
            &&& found.no_stack <==> flags.no_stack || is_given(args, i, stop, "--no-stack"@)
            &&& is_value_of(args, i, stop, "--shm-name"@, flags.shm_name, found.shm_name)
            &&& is_value_of(args, i, stop, "--hook-lib"@, flags.hook_library, found.hook_library)
            &&& !(i < stop == args.len() && lacks_value(args))
        },
        Err(UsageError::UnknownFlag(at)) => {
            &&& i <= at < stop
            &&& is_flag_place(args, at as int)
            &&& !is_known(run, args[at as int])
            &&& all_known(args, run, i, at as int)
        },
        Err(UsageError::MissingValue(flag)) => {
            &&& i < stop
            &&& stop == args.len()
            &&& is_flag_place(args, stop - 1)
            &&& args[stop - 1] == flag_text(flag)
            &&& all_known(args, run, i, stop)
        },
        Err(_) => false,
    }
}

/// One more word in front of those that were read.
#[verifier::rlimit(40)]
#[verifier::spinoff_prover]
proof fn lemma_one_more(
    args: Seq<Seq<char>>,
    i: int,
    next: int,
    run: bool,
    flags: Flags,
    after: Flags,
    stop: int,
    r: Result<(Flags, int), UsageError>,
)
    requires
        2 <= i < next <= stop,
        next == i + 1 || next == i + 2 && !is_flag_place(args, i + 1),
        is_flag_place(args, i),
        is_known(run, args[i]),
        next == i + 1 ==> !takes_value(args[i]),
        stop <= args.len(),
        means(args, next, run, after, stop, r),
        after.no_ui == (flags.no_ui || args[i] == "--no-ui"@),
        after.no_color == (flags.no_color || args[i] == "--no-color"@),
        after.main_only == (flags.main_only || args[i] == "--main-only"@),
        after.no_stack == (flags.no_stack || args[i] == "--no-stack"@),
        after.shm_name == if args[i] == "--shm-name"@ {
            Some(args[i + 1])
        } else {
            flags.shm_name
        },
        after.hook_library == if args[i] == "--hook-lib"@ {
            Some(args[i + 1])
        } else {
            flags.hook_library
        },
    ensures
        means(args, i, run, flags, stop, r),
{
    assert forall|flag: Seq<char>| #[trigger] is_given(args, i, stop, flag) <==> args[i] == flag
        || is_given(args, next, stop, flag) by {
        if is_given(args, i, stop, flag) {
            let p = choose|p: int|
                i <= p < stop && #[trigger] is_flag_place(args, p) && args[p] == flag;
            assert(p == i || p >= next);
        }
        if is_given(args, next, stop, flag) {
            let p = choose|p: int|
                next <= p < stop && #[trigger] is_flag_place(args, p) && args[p] == flag;
            assert(is_flag_place(args, p));
        }
    }
    assert forall|flag: Seq<char>| #[trigger] is_given(args, i + 1, stop, flag) <==> is_given(
        args,
        next,
        stop,
        flag,
    ) by {
        if is_given(args, i + 1, stop, flag) {
            let p = choose|p: int|
                i + 1 <= p < stop && #[trigger] is_flag_place(args, p) && args[p] == flag;
            assert(p >= next);
        }
        if is_given(args, next, stop, flag) {
            let p = choose|p: int|
                next <= p < stop && #[trigger] is_flag_place(args, p) && args[p] == flag;
            assert(is_flag_place(args, p));
        }
    }
    if let Ok((found, _)) = r {
        lemma_value_of(
            args,
            i,
            next,
            stop,
            "--shm-name"@,
            flags.shm_name,
            after.shm_name,
            found.shm_name,
        );
        lemma_value_of(
            args,
            i,
            next,
            stop,
            "--hook-lib"@,
            flags.hook_library,
            after.hook_library,
            found.hook_library,
        );
        assert(is_given(args, i, stop, "--no-ui"@) <==> args[i] == "--no-ui"@ || is_given(
            args,
            next,
            stop,
            "--no-ui"@,
        ));
        assert(is_given(args, i, stop, "--no-color"@) <==> args[i] == "--no-color"@ || is_given(
            args,
            next,
            stop,
            "--no-color"@,
        ));
        assert(is_given(args, i, stop, "--main-only"@) <==> args[i] == "--main-only"@ || is_given(
            args,
            next,
            stop,
            "--main-only"@,
        ));
        assert(is_given(args, i, stop, "--no-stack"@) <==> args[i] == "--no-stack"@ || is_given(
            args,
            next,
            stop,
            "--no-stack"@,
        ));
    }
}

proof fn lemma_value_of(
    args: Seq<Seq<char>>,
    i: int,
    next: int,
    stop: int,
    flag: Seq<char>,
    before: Option<Seq<char>>,
    between: Option<Seq<char>>,
    value: Option<Seq<char>>,
)
    requires
        2 <= i < next <= stop,
        next == i + 1 || next == i + 2 && !is_flag_place(args, i + 1),
        is_flag_place(args, i),
        is_value_of(args, next, stop, flag, between, value),
        between == if args[i] == flag {
            Some(args[i + 1])
        } else {
            before
        },
        is_given(args, i, stop, flag) <==> args[i] == flag || is_given(args, next, stop, flag),
        is_given(args, i + 1, stop, flag) <==> is_given(args, next, stop, flag),
    ensures
        is_value_of(args, i, stop, flag, before, value),
{
    assert forall|p: int|
        i <= p < stop && #[trigger] is_flag_place(args, p) && args[p] == flag && !is_given(
            args,
            p + 1,
            stop,
            flag,
        ) implies value == Some(args[p + 1]) by {
        assert(p == i || p >= next);
    }
}

#[verifier::rlimit(40)]
#[verifier::spinoff_prover]
proof fn lemma_scan_means(args: Seq<Seq<char>>, i: int, run: bool, flags: Flags, stop: int)
    requires
        args.len() <= usize::MAX,
        flags_end_at(args, run, stop),
        2 <= i <= stop,
        is_flag_place(args, i),
    ensures
        means(args, i, run, flags, stop, scan(args, i, run, flags)),
    decreases args.len() - i,
{
    lemma_flags_differ();
    let r = scan(args, i, run, flags);
    if i == stop {
        assert(!is_given(args, i, stop, "--no-ui"@));
        assert(!is_given(args, i, stop, "--no-color"@));
        assert(!is_given(args, i, stop, "--main-only"@));
        assert(!is_given(args, i, stop, "--no-stack"@));
        assert(!is_given(args, i, stop, "--shm-name"@));
        assert(!is_given(args, i, stop, "--hook-lib"@));
    } else {
        let word = args[i];
        if takes_value(word) {
            assert(!is_flag_place(args, i + 1));
            assert(is_flag_place(args, i + 2));
        } else {
            assert(is_flag_place(args, i + 1));
        }
        if word == "--no-ui"@ {
            let after = Flags { no_ui: true, ..flags };
            lemma_scan_means(args, i + 1, run, after, stop);
            lemma_one_more(args, i, i + 1, run, flags, after, stop, r);
        } else if word == "--no-color"@ {
            let after = Flags { no_color: true, ..flags };
            lemma_scan_means(args, i + 1, run, after, stop);
            lemma_one_more(args, i, i + 1, run, flags, after, stop, r);
        } else if word == "--shm-name"@ {
            if i + 1 < args.len() {
                let after = Flags { shm_name: Some(args[i + 1]), ..flags };
                lemma_scan_means(args, i + 2, run, after, stop);
                lemma_one_more(args, i, i + 2, run, flags, after, stop, r);
            }
        } else if run && word == "--main-only"@ {
            let after = Flags { main_only: true, ..flags };
            lemma_scan_means(args, i + 1, run, after, stop);
            lemma_one_more(args, i, i + 1, run, flags, after, stop, r);
        } else if run && word == "--no-stack"@ {
            let after = Flags { no_stack: true, ..flags };
            lemma_scan_means(args, i + 1, run, after, stop);
            lemma_one_more(args, i, i + 1, run, flags, after, stop, r);
        } else if run && word == "--hook-lib"@ {
            if i + 1 < args.len() {
                let after = Flags { hook_library: Some(args[i + 1]), ..flags };
                lemma_scan_means(args, i + 2, run, after, stop);
                lemma_one_more(args, i, i + 2, run, flags, after, stop, r);
            }
        }
    }
}

/// The flags of every command line end somewhere.
pub proof fn law_flags_end(args: Seq<Seq<char>>, run: bool) -> (stop: int)
    requires
        args.len() >= 2,
    ensures
        flags_end_at(args, run, stop),
{
    if run {
        lemma_first_separator(args, args.len() as int)
    } else {
        args.len() as int
    }
}

proof fn lemma_first_separator(args: Seq<Seq<char>>, before: int) -> (stop: int)
    requires
        2 <= before <= args.len(),
    ensures
        2 <= stop <= before,
        stop < before ==> is_flag_place(args, stop) && args[stop] == "--"@,
        forall|p: int| 2 <= p < stop && #[trigger] is_flag_place(args, p) ==> args[p] != "--"@,
    decreases before,
{
    if before == 2 {
        2
    } else {
        let stop = lemma_first_separator(args, before - 1);
        if stop < before - 1 {
            stop
        } else if is_flag_place(args, before - 1) && args[before - 1] == "--"@ {
            before - 1
        } else {
            before
        }
    }
}

/// What a run is set to. Every setting is on exactly if its flag is given before the
/// target; a name is the last one given; colours need a terminal and no flag against
/// them; the target is what stands behind the first `--`. What is refused is the first
/// flag that is none, a flag at the end without its value, or a missing target.
pub proof fn law_run_settings(
    args: Seq<Seq<char>>,
    generated: Seq<char>,
    terminal: bool,
    stop: int,
)
    requires
        2 <= args.len() <= usize::MAX,
        args[1] == "run"@,
        flags_end_at(args, true, stop),
    ensures
        match parsed(args, generated, terminal) {
            Ok(Some(options)) => {
                &&& all_known(args, true, 2, stop)
                &&& options.target matches Some((start, hook)) && start == stop + 1 && start
                    < args.len() && is_value_of(args, 2, stop, "--hook-lib"@, None, hook)
                &&& options.no_ui <==> is_given(args, 2, stop, "--no-ui"@)
                &&& options.main_only <==> is_given(args, 2, stop, "--main-only"@)
                &&& options.no_stack <==> is_given(args, 2, stop, "--no-stack"@)
                &&& options.use_color <==> terminal && !is_given(args, 2, stop, "--no-color"@)
                &&& is_value_of(
                    args,
                    2,
                    stop,
                    "--shm-name"@,
                    Some(generated),
                    Some(options.shm_name),
                )
            },
            Ok(None) => false,
            Err(UsageError::UnknownCommand) => false,
            Err(UsageError::UnknownFlag(at)) => {
                &&& 2 <= at < stop
                &&& is_flag_place(args, at as int)
                &&& !is_known(true, args[at as int])
                &&& all_known(args, true, 2, at as int)
            },
            Err(UsageError::MissingValue(flag)) => {
                &&& 2 < args.len() == stop
                &&& is_flag_place(args, stop - 1)
                &&& args[stop - 1] == flag_text(flag)
                &&& all_known(args, true, 2, stop)
            },
            Err(UsageError::MissingTarget) => {
                &&& stop + 1 >= args.len()
                &&& all_known(args, true, 2, stop)
                &&& !(2 < args.len() == stop && lacks_value(args))
            },
        },
{
    lemma_commands_differ();
    lemma_scan_means(args, 2, true, no_flags(), stop);
    if let Ok((found, _)) = scan(args, 2, true, no_flags()) {
        if is_given(args, 2, stop, "--shm-name"@) {
            lemma_given_value(args, 2, stop, "--shm-name"@, None, found.shm_name);
        }
        lemma_name_of(args, generated, stop, found.shm_name);
    }
}

/// What a monitor is set to: the window, the colours and the name are read as for a
/// run, and there is nothing else to set.
pub proof fn law_monitor_settings(
    args: Seq<Seq<char>>,
    generated: Seq<char>,
    terminal: bool,
    stop: int,
)
    requires
        2 <= args.len() <= usize::MAX,
        args[1] == "monitor"@,
        stop == args.len(),
    ensures
        match parsed(args, generated, terminal) {
            Ok(Some(options)) => {
                &&& all_known(args, false, 2, stop)
                &&& !(2 < stop && lacks_value(args))
                &&& options.target is None
                &&& !options.main_only
                &&& !options.no_stack
                &&& options.no_ui <==> is_given(args, 2, stop, "--no-ui"@)
                &&& options.use_color <==> terminal && !is_given(args, 2, stop, "--no-color"@)
                &&& is_value_of(
                    args,
                    2,
                    stop,
                    "--shm-name"@,
                    Some(generated),
                    Some(options.shm_name),
                )
            },
            Ok(None) => false,
            Err(UsageError::UnknownFlag(at)) => {
                &&& 2 <= at < stop
                &&& is_flag_place(args, at as int)
                &&& !is_known(false, args[at as int])
                &&& all_known(args, false, 2, at as int)
            },
            Err(UsageError::MissingValue(flag)) => {
                &&& 2 < stop
                &&& flag == ValueFlag::ShmName
                &&& is_flag_place(args, stop - 1)
                &&& args[stop - 1] == "--shm-name"@
                &&& all_known(args, false, 2, stop)
            },
            Err(_) => false,
        },
{
    lemma_commands_differ();
    lemma_flags_differ();
    lemma_scan_means(args, 2, false, no_flags(), stop);
    if let Ok((found, _)) = scan(args, 2, false, no_flags()) {
        if is_given(args, 2, stop, "--shm-name"@) {
            lemma_given_value(args, 2, stop, "--shm-name"@, None, found.shm_name);
        }
        lemma_name_of(args, generated, stop, found.shm_name);
    }
    assert forall|p: int|
        2 <= p < stop && #[trigger] is_flag_place(args, p) && all_known(
            args,
            false,
            2,
            stop,
        ) implies args[p] != "--main-only"@ && args[p] != "--no-stack"@ by {
        assert(is_known(false, args[p]));
    }
}

/// The name that a session gets, from what the flags say of it.
proof fn lemma_name_of(
    args: Seq<Seq<char>>,
    generated: Seq<char>,
    stop: int,
    given: Option<Seq<char>>,
)
    requires
        is_value_of(args, 2, stop, "--shm-name"@, None, given),
        given is None ==> !is_given(args, 2, stop, "--shm-name"@),
    ensures
        is_value_of(
            args,
            2,
            stop,
            "--shm-name"@,
            Some(generated),
            Some(
                match given {
                    Some(name) => name,
                    None => generated,
                },
            ),
        ),
{
    if given is None {
        assert forall|p: int|
            2 <= p < stop && #[trigger] is_flag_place(args, p) implies args[p]
            != "--shm-name"@ by {}
    }
}

/// A flag that is given has a last place, so its value is there.
proof fn lemma_given_value(
    args: Seq<Seq<char>>,
    from: int,
    stop: int,
    flag: Seq<char>,
    otherwise: Option<Seq<char>>,
    value: Option<Seq<char>>,
)
    requires
        is_value_of(args, from, stop, flag, otherwise, value),
        is_given(args, from, stop, flag),
    ensures
        value is Some,
    decreases stop - from,
{
    let p = choose|p: int| from <= p < stop && #[trigger] is_flag_place(args, p) && args[p] == flag;
    if is_given(args, p + 1, stop, flag) {
        assert forall|q: int|
            p + 1 <= q < stop && #[trigger] is_flag_place(args, q) && args[q] == flag && !is_given(
                args,
                q + 1,
                stop,
                flag,
            ) implies value == Some(args[q + 1]) by {}
        lemma_given_value(args, p + 1, stop, flag, otherwise, value);
    }
}

/// What tells the commands apart.
proof fn lemma_commands_differ()
    ensures
        "run"@.len() == 3,
        "monitor"@.len() == 7,
        "help"@.len() == 4,
        "--help"@.len() == 6,
        "-h"@.len() == 2,
{
    reveal_strlit("run");
    reveal_strlit("monitor");
    reveal_strlit("help");
    reveal_strlit("--help");
    reveal_strlit("-h");
}

/// Help is given for a command line without a command and for one that asks for it; any
/// other word than the two commands is refused.
pub proof fn law_commands(args: Seq<Seq<char>>, generated: Seq<char>, terminal: bool)
    ensures
        parsed(args, generated, terminal) == Ok::<Option<OptionsView>, UsageError>(None) <==> {
            ||| args.len() < 2
            ||| args[1] == "help"@
            ||| args[1] == "--help"@
            ||| args[1] == "-h"@
        },
        args.len() >= 2 && args[1] != "help"@ && args[1] != "--help"@ && args[1] != "-h"@ && args[1]
            != "run"@ && args[1] != "monitor"@ ==> parsed(args, generated, terminal) == Err::<
            Option<OptionsView>,
            UsageError,
        >(UsageError::UnknownCommand),
{
    lemma_commands_differ();
}

proof fn lemma_scan_prefix(args: Seq<Seq<char>>, other: Seq<Seq<char>>, i: int, flags: Flags)
    requires
        2 <= i <= args.len() <= usize::MAX,
        scan(args, i, true, flags) matches Ok((_, start)) && start < args.len() && start
            <= other.len() && other.take(start) == args.take(start),
    ensures
        scan(other, i, true, flags) == scan(args, i, true, flags),
    decreases args.len() - i,
{
    lemma_scan(args, i, true, flags);
    let start = scan(args, i, true, flags)->Ok_0.1;
    assert(args[i] == args.take(start)[i] && other[i] == other.take(start)[i]);
    if args[i] == "--no-ui"@ {
        lemma_scan_prefix(args, other, i + 1, Flags { no_ui: true, ..flags });
    } else if args[i] == "--no-color"@ {
        lemma_scan_prefix(args, other, i + 1, Flags { no_color: true, ..flags });
    } else if args[i] == "--shm-name"@ {
        let next = Flags { shm_name: Some(args[i + 1]), ..flags };
        lemma_scan(args, i + 2, true, next);
        assert(args[i + 1] == args.take(start)[i + 1] && other[i + 1] == other.take(start)[i + 1]);
        lemma_scan_prefix(args, other, i + 2, next);
    } else if args[i] == "--"@ {
    } else if args[i] == "--main-only"@ {
        lemma_scan_prefix(args, other, i + 1, Flags { main_only: true, ..flags });
    } else if args[i] == "--no-stack"@ {
        lemma_scan_prefix(args, other, i + 1, Flags { no_stack: true, ..flags });
    } else if args[i] == "--hook-lib"@ {
        let next = Flags { hook_library: Some(args[i + 1]), ..flags };
        lemma_scan(args, i + 2, true, next);
        assert(args[i + 1] == args.take(start)[i + 1] && other[i + 1] == other.take(start)[i + 1]);
        lemma_scan_prefix(args, other, i + 2, next);
    }
}

/// The words of the target are its own: whatever stands there, the settings are the
/// same.
pub proof fn law_target_is_opaque(
    args: Seq<Seq<char>>,
    other: Seq<Seq<char>>,
    generated: Seq<char>,
    terminal: bool,
)
    requires
        args.len() <= usize::MAX,
        other.len() <= usize::MAX,
        parsed(args, generated, terminal) matches Ok(Some(options)) && options.target matches Some(
            (start, _),
        ) && start < other.len() && other.take(start) == args.take(start),
    ensures
        parsed(other, generated, terminal) == parsed(args, generated, terminal),
{
    lemma_scan(args, 2, true, no_flags());
    let start = scan(args, 2, true, no_flags())->Ok_0.1;
    assert(args[1] == args.take(start)[1] && other[1] == other.take(start)[1]);
    lemma_scan_prefix(args, other, 2, no_flags());
}

////////////////////////////////////////////////////////////////////////////////
// The shared memory name
////////////////////////////////////////////////////////////////////////////////
/// The name for a session that was given none.
pub open spec fn generated_name(pid: u32, now_ns: u128) -> Seq<char> {
    "/heap-oracle-"@ + text::dec(pid as nat) + "-"@ + text::hex(now_ns as nat)
}

pub fn generate_shm_name(pid: u32, now_ns: u128) -> (s: String)
    ensures
        s@ == generated_name(pid, now_ns),
{
    let mut out = "/heap-oracle-".to_owned();
    text::push_dec(&mut out, pid as u64);
    out.append("-");
    text::push_hex_wide(&mut out, now_ns);
    out
}

/// A generated name holds the process and the moment, and both can be read from it.
pub proof fn law_generated_name_read_back(pid: u32, now_ns: u128)
    ensures
        ({
            let name = generated_name(pid, now_ns);
            let dash: int = 13int + text::dec(pid as nat).len();
            &&& "/heap-oracle-"@.is_prefix_of(name)
            &&& name[dash] == '-'
            &&& text::number(name.subrange(13, dash), 10) == pid
            &&& text::number(name.skip(dash + 1), 16) == now_ns
        }),
{
    reveal_strlit("/heap-oracle-");
    reveal_strlit("-");
    let name = generated_name(pid, now_ns);
    let dash: int = 13int + text::dec(pid as nat).len();
    text::law_digits(pid as nat, 10);
    text::law_digits(now_ns as nat, 16);
    assert(name.subrange(0, 13) =~= "/heap-oracle-"@);
    assert(name.subrange(13, dash) =~= text::dec(pid as nat));
    assert(name.skip(dash + 1) =~= text::hex(now_ns as nat));
}

proof fn lemma_digits_no_nul(n: nat, base: nat)
    requires
        base == 10 || base == 16,
    ensures
        !text::digits(n, base).contains('\0'),
    decreases n,
{
    if n >= base {
        assert(n / base < n) by (nonlinear_arith)
            requires
                n >= base,
                base >= 2,
        ;
        lemma_digits_no_nul(n / base, base);
        assert(n % base < base);
        let whole = text::digits(n, base);
        let front = text::digits(n / base, base);
        assert forall|i: int| 0 <= i < whole.len() implies whole[i] != '\0' by {
            if i < front.len() {
                assert(front[i] != '\0');
            }
        }
    }
}

/// A generated name is one that can be opened, just as it is.
pub proof fn law_generated_name(pid: u32, now_ns: u128)
    ensures
        ipc::normalized(generated_name(pid, now_ns)) == generated_name(pid, now_ns),
        !generated_name(pid, now_ns).contains('\0'),
{
    reveal_strlit("/heap-oracle-");
    reveal_strlit("-");
    lemma_digits_no_nul(pid as nat, 10);
    lemma_digits_no_nul(now_ns as nat, 16);
    let name = generated_name(pid, now_ns);
    let number = text::dec(pid as nat);
    let stamp = text::hex(now_ns as nat);
    assert forall|i: int| 0 <= i < name.len() implies name[i] != '\0' by {
        if 13 <= i < 13 + number.len() {
            assert(name[i] == number[i - 13]);
            assert(number.contains(number[i - 13]));
        } else if i >= 14 + number.len() {
            assert(name[i] == stamp[i - 14 - number.len()]);
            assert(stamp.contains(stamp[i - 14 - number.len()]));
        }
    }
}

////////////////////////////////////////////////////////////////////////////////
// Starting the target
////////////////////////////////////////////////////////////////////////////////
/// The systems that the hook is built for.
#[derive(Clone, Copy, Debug, PartialEq, Eq, Structural)]
pub enum Platform {
    Linux,
    MacOs,
    Windows,
}

/// The file name of the hook.
pub open spec fn hook_file(platform: Platform) -> Seq<char> {
    match platform {
        Platform::Windows => "heap_oracle_hook.dll"@,
        Platform::MacOs => "libheap_oracle_hook.dylib"@,
        Platform::Linux => "libheap_oracle_hook.so"@,
    }
}

/// The variable that makes the loader load the hook.
pub open spec fn loader_variable(platform: Platform) -> Seq<char> {
    match platform {
        Platform::MacOs => "DYLD_INSERT_LIBRARIES"@,
        _ => "LD_PRELOAD"@,
    }
}

impl Platform {
    pub fn hook_library_name(self) -> (s: &'static str)
        ensures
            s@ == hook_file(self),
    {
        match self {
            Platform::Windows => "heap_oracle_hook.dll",
            Platform::MacOs => "libheap_oracle_hook.dylib",
            Platform::Linux => "libheap_oracle_hook.so",
        }
    }

    pub fn preload_variable(self) -> (s: &'static str)
        ensures
            s@ == loader_variable(self),
    {
        match self {
            Platform::MacOs => "DYLD_INSERT_LIBRARIES",
            _ => "LD_PRELOAD",
        }
    }

    /// The byte between two libraries of that variable: a semicolon or a colon.
    pub fn preload_separator(self) -> (b: u8)
        ensures
            b == if self == Platform::Windows {
                0x3bu8
            } else {
                0x3au8
            },
    {
        match self {
            Platform::Windows => 0x3b,
            _ => 0x3a,
        }
    }
}

/// The value of the loader's variable: the hook, and behind it what stood there.
pub open spec fn preloaded(hook: Seq<u8>, existing: Seq<u8>, separator: u8) -> Seq<u8> {
    if existing.len() == 0 {
        hook
    } else {
        hook + seq![separator] + existing
    }
}

/// The hook is loaded first, and nothing that was loaded before is lost.
pub proof fn law_preloaded(hook: Seq<u8>, existing: Seq<u8>, separator: u8)
    ensures
        ({
            let value = preloaded(hook, existing, separator);
            &&& hook.is_prefix_of(value)
            &&& existing.is_suffix_of(value)
            &&& existing.len() == 0 ==> value.len() == hook.len()
            &&& existing.len() > 0 ==> value.len() == hook.len() + 1 + existing.len()
                && value[hook.len() as int] == separator
        }),
{
    let value = preloaded(hook, existing, separator);
    assert(value.subrange(0, hook.len() as int) =~= hook);
    assert(value.subrange(value.len() - existing.len(), value.len() as int) =~= existing);
}

pub fn preload_value(hook: &Vec<u8>, existing: &Option<Vec<u8>>, separator: u8) -> (value: Vec<u8>)
    ensures
        value@ == preloaded(
            hook@,
            match *existing {
                Some(rest) => rest@,
                None => Seq::empty(),
            },
            separator,
        ),
        value@ == match *existing {
            Some(rest) => if rest@.len() > 0 {
                hook@ + seq![separator] + rest@
            } else {
                hook@
            },
            None => hook@,
        },
{
    let mut value: Vec<u8> = Vec::new();
    push_bytes(&mut value, hook);
    assert(value@ =~= hook@);
    if let Some(rest) = existing {
        if rest.len() > 0 {
            value.push(separator);
            push_bytes(&mut value, rest);
            assert(value@ =~= hook@ + seq![separator] + rest@);
        }
    }
    value
}

fn push_bytes(out: &mut Vec<u8>, bytes: &Vec<u8>)
    ensures
        final(out)@ == old(out)@ + bytes@,
{
    let mut i: usize = 0;
    assert(out@ =~= old(out)@ + bytes@.take(0));
    while i < bytes.len()
        invariant
            i <= bytes@.len(),
            out@ == old(out)@ + bytes@.take(i as int),
        decreases bytes@.len() - i,
    {
        out.push(bytes[i]);
        i += 1;
        assert(out@ =~= old(out)@ + bytes@.take(i as int));
    }
    assert(bytes@.take(i as int) =~= bytes@);
}

/// The variables that tell the hook what to do.
pub open spec fn hook_settings(
    platform: Platform,
    shm_name: Seq<char>,
    main_only: bool,
    no_stack: bool,
) -> Seq<(Seq<char>, Seq<char>)> {
    seq![("HEAP_ORACLE_SHM_NAME"@, shm_name)] + (if main_only {
        seq![("HEAP_ORACLE_MAIN_ONLY"@, "1"@)]
    } else {
        Seq::empty()
    }) + (if no_stack {
        seq![("HEAP_ORACLE_NO_STACK"@, "1"@)]
    } else {
        Seq::empty()
    }) + (if platform == Platform::MacOs {
        seq![("DYLD_FORCE_FLAT_NAMESPACE"@, "1"@)]
    } else {
        Seq::empty()
    })
}

/// The hook is told the name of the ring in every case, and each of the other things
/// exactly if it holds; no variable is set twice and none besides these.
pub proof fn law_hook_settings(
    platform: Platform,
    shm_name: Seq<char>,
    main_only: bool,
    no_stack: bool,
)
    ensures
        ({
            let settings = hook_settings(platform, shm_name, main_only, no_stack);
            let main = ("HEAP_ORACLE_MAIN_ONLY"@, "1"@);
            let stack = ("HEAP_ORACLE_NO_STACK"@, "1"@);
            let flat = ("DYLD_FORCE_FLAT_NAMESPACE"@, "1"@);
            let mac = platform == Platform::MacOs;
            &&& settings[0] == ("HEAP_ORACLE_SHM_NAME"@, shm_name)
            &&& settings.contains(main) <==> main_only
            &&& settings.contains(stack) <==> no_stack
            &&& settings.contains(flat) <==> mac
            &&& settings.len() == 1 + (if main_only {
                1int
            } else {
                0
            }) + (if no_stack {
                1int
            } else {
                0
            }) + (if mac {
                1int
            } else {
                0
            })
            &&& forall|i: int, j: int|
                0 <= i < j < settings.len() ==> settings[i].0 != settings[j].0
        }),
{
    let settings = hook_settings(platform, shm_name, main_only, no_stack);
    let main = ("HEAP_ORACLE_MAIN_ONLY"@, "1"@);
    let stack = ("HEAP_ORACLE_NO_STACK"@, "1"@);
    let flat = ("DYLD_FORCE_FLAT_NAMESPACE"@, "1"@);
    reveal_strlit("HEAP_ORACLE_SHM_NAME");
    reveal_strlit("HEAP_ORACLE_MAIN_ONLY");
    reveal_strlit("HEAP_ORACLE_NO_STACK");
    reveal_strlit("DYLD_FORCE_FLAT_NAMESPACE");
    assert("HEAP_ORACLE_SHM_NAME"@.len() == 20 && "HEAP_ORACLE_SHM_NAME"@[12] == 'S');
    assert("HEAP_ORACLE_MAIN_ONLY"@.len() == 21);
    assert("HEAP_ORACLE_NO_STACK"@.len() == 20 && "HEAP_ORACLE_NO_STACK"@[12] == 'N');
    assert("DYLD_FORCE_FLAT_NAMESPACE"@.len() == 25);
    if main_only {
        assert(settings[1] == main);
    }
    if no_stack {
        assert(settings[if main_only {
            2int
        } else {
            1
        }] == stack);
    }
    if platform == Platform::MacOs {
        assert(settings[settings.len() - 1] == flat);
    }
}

/// The texts of a list of variables and values.
pub open spec fn pair_texts(pairs: Seq<(String, String)>) -> Seq<(Seq<char>, Seq<char>)> {
    pairs.map_values(|pair: (String, String)| (pair.0@, pair.1@))
}

fn push_setting(settings: &mut Vec<(String, String)>, name: &str, value: &str)
    ensures
        pair_texts(final(settings)@) == pair_texts(old(settings)@).push((name@, value@)),
{
    settings.push((name.to_owned(), value.to_owned()));
    assert(pair_texts(settings@) =~= pair_texts(old(settings)@).push((name@, value@)));
}

/// The variables to set for the target, besides the loader's.
pub fn target_settings(platform: Platform, shm_name: &str, main_only: bool, no_stack: bool) -> (settings:
    Vec<(String, String)>)
    ensures
        pair_texts(settings@) == hook_settings(platform, shm_name@, main_only, no_stack),
{
    let mut settings: Vec<(String, String)> = Vec::new();
    push_setting(&mut settings, "HEAP_ORACLE_SHM_NAME", shm_name);
    if main_only {
        push_setting(&mut settings, "HEAP_ORACLE_MAIN_ONLY", "1");
    }
    if no_stack {
        push_setting(&mut settings, "HEAP_ORACLE_NO_STACK", "1");
    }
    if platform == Platform::MacOs {
        push_setting(&mut settings, "DYLD_FORCE_FLAT_NAMESPACE", "1");
    }
    assert(pair_texts(settings@) =~= hook_settings(platform, shm_name@, main_only, no_stack));
    settings
}

/// Why a target cannot be started, if it cannot: it needs a command and the hook. `hook`
/// is the hook's path for the message.
pub open spec fn target_fault(command_len: nat, hook_exists: bool, hook: Seq<char>) -> Option<
    Seq<char>,
> {
    if command_len == 0 {
        Some("missing target command"@)
    } else if !hook_exists {
        Some("hook library not found: "@ + hook)
    } else {
        None
    }
}

/// A target with a command and a hook can be started, and no other; a missing hook is
/// named, however long the command is.
pub proof fn law_target_fault(command_len: nat, other: nat, hook_exists: bool, hook: Seq<char>)
    ensures
        target_fault(command_len, hook_exists, hook) is None <==> command_len != 0 && hook_exists,
        command_len > 0 && other > 0 ==> target_fault(command_len, hook_exists, hook)
            == target_fault(other, hook_exists, hook),
        command_len > 0 && !hook_exists ==> hook.is_suffix_of(
            target_fault(command_len, hook_exists, hook)->0,
        ),
        target_fault(0, true, hook) == target_fault(0, false, hook),
{
    let named = "hook library not found: "@ + hook;
    assert(named.subrange(named.len() - hook.len(), named.len() as int) =~= hook);
}

pub fn check_target(command_len: usize, hook_exists: bool, hook: &str) -> (r: Result<(), String>)
    ensures
        r is Ok <==> target_fault(command_len as nat, hook_exists, hook@) is None,
        r matches Err(message) ==> target_fault(command_len as nat, hook_exists, hook@) == Some(
            message@,
        ),
        r is Ok <==> command_len > 0 && hook_exists,
        r matches Err(message) ==> message@ == if command_len == 0 {
            "missing target command"@
        } else {
            "hook library not found: "@ + hook@
        },
{
    if command_len == 0 {
        return Err("missing target command".to_owned());
    }
    if !hook_exists {
        let mut out = "hook library not found: ".to_owned();
        out.append(hook);
        return Err(out);
    }
    Ok(())
}

/// Where the hook's path comes from.
#[derive(Clone, Copy, Debug, PartialEq, Eq, Structural)]
pub enum HookSource {
    /// The command line.
    Given,
    /// The default place.
    Default,
    /// Nowhere: the default place could not be found.
    Unresolved,
}

/// Which hook is used: the one of the command line overrides the default, which then
/// need not be there at all.
pub open spec fn chosen_hook(given: bool, default_found: bool) -> HookSource {
    if given {
        HookSource::Given
    } else if default_found {
        HookSource::Default
    } else {
        HookSource::Unresolved
    }
}

pub fn hook_source(given: bool, default_found: bool) -> (source: HookSource)
    ensures
        source == chosen_hook(given, default_found),
{
    if given {
        HookSource::Given
    } else if default_found {
        HookSource::Default
    } else {
        HookSource::Unresolved
    }
}

/// A run whose flags are understood and that names a hook behind `--hook-lib` uses a
/// hook of the command line, whether a default is found or not.
pub proof fn law_hook_lib_overrides(
    args: Seq<Seq<char>>,
    at: int,
    flags: Flags,
    default_found: bool,
)
    requires
        2 <= at,
        at + 1 < args.len() <= usize::MAX,
        args[at] == "--hook-lib"@,
    ensures
        scan(args, at, true, flags) matches Ok((found, _)) ==> {
            &&& found.hook_library is Some
            &&& chosen_hook(found.hook_library is Some, default_found) == HookSource::Given
        },
{
    law_flags_stay(args, at, true, flags);
}

/// What the system may refuse while the target is started and awaited.
#[derive(Clone, Copy, Debug, PartialEq, Eq, Structural)]
pub enum Failure {
    /// The path of the running program.
    Executable,
    /// The directory of the running program.
    Directory,
    /// The hook in that directory.
    HookBeside,
    /// The start of the target.
    Launch,
    /// The wait for the target.
    Wait,
}

/// The message for a failure; `detail` is the error or the path it is about.
pub open spec fn failure_text(failure: Failure, detail: Seq<char>) -> Seq<char> {
    match failure {
        Failure::Executable => "unable to resolve current executable: "@ + detail,
        Failure::Directory => "unable to determine executable directory from "@ + detail,
        Failure::HookBeside => "hook library not found next to executable: "@ + detail,
        Failure::Launch => "failed to launch target: "@ + detail,
        Failure::Wait => "failed to wait for target: "@ + detail,
    }
}

/// A message ends in what it is about, and what stands before that is the same whatever
/// it is about.
pub proof fn law_failure_text(failure: Failure, detail: Seq<char>, other: Seq<char>)
    ensures
        detail.is_suffix_of(failure_text(failure, detail)),
        failure_text(failure, detail).take(failure_text(failure, detail).len() - detail.len())
            == failure_text(failure, other).take(
            failure_text(failure, other).len() - other.len(),
        ),
{
    let a = failure_text(failure, detail);
    let b = failure_text(failure, other);
    assert(a.subrange(a.len() - detail.len(), a.len() as int) =~= detail);
    assert(a.take(a.len() - detail.len()) =~= b.take(b.len() - other.len()));
}

pub fn format_failure(failure: Failure, detail: &str) -> (s: String)
    ensures
        s@ == failure_text(failure, detail@),
{
    let mut out = match failure {
        Failure::Executable => "unable to resolve current executable: ".to_owned(),
        Failure::Directory => "unable to determine executable directory from ".to_owned(),
        Failure::HookBeside => "hook library not found next to executable: ".to_owned(),
        Failure::Launch => "failed to launch target: ".to_owned(),
        Failure::Wait => "failed to wait for target: ".to_owned(),
    };
    out.append(detail);
    out
}

/// A question in the search for the default hook.
#[derive(Clone, Copy, Debug, PartialEq, Eq, Structural)]
pub enum HookProbe {
    /// Is a path built into the program, and is there a file?
    BuiltIn,
    /// Can the path of the running program be had?
    Executable,
    /// Does that path have a directory?
    Directory,
    /// Is there a hook in that directory?
    Beside,
}

/// What to do with the answer.
#[derive(Clone, Copy, Debug, PartialEq, Eq, Structural)]
pub enum HookStep {
    /// Ask this next.
    Probe(HookProbe),
    /// Use the hook that was just asked for.
    Found,
    /// Give up.
    Fail(Failure),
}

/// The step after an answer: the hook built into the program comes first, then the
/// one beside the program.
pub open spec fn hook_step(probe: HookProbe, yes: bool) -> HookStep {
    match (probe, yes) {
        (HookProbe::BuiltIn, true) => HookStep::Found,
        (HookProbe::BuiltIn, false) => HookStep::Probe(HookProbe::Executable),
        (HookProbe::Executable, true) => HookStep::Probe(HookProbe::Directory),
        (HookProbe::Executable, false) => HookStep::Fail(Failure::Executable),
        (HookProbe::Directory, true) => HookStep::Probe(HookProbe::Beside),
        (HookProbe::Directory, false) => HookStep::Fail(Failure::Directory),
        (HookProbe::Beside, true) => HookStep::Found,
        (HookProbe::Beside, false) => HookStep::Fail(Failure::HookBeside),
    }
}

pub fn next_hook_step(probe: HookProbe, yes: bool) -> (step: HookStep)
    ensures
        step == hook_step(probe, yes),
{
    match probe {
        HookProbe::BuiltIn => {
            if yes {
                HookStep::Found
            } else {
                HookStep::Probe(HookProbe::Executable)
            }
        },
        HookProbe::Executable => {
            if yes {
                HookStep::Probe(HookProbe::Directory)
            } else {
                HookStep::Fail(Failure::Executable)
            }
        },
        HookProbe::Directory => {
            if yes {
                HookStep::Probe(HookProbe::Beside)
            } else {
                HookStep::Fail(Failure::Directory)
            }
        },
        HookProbe::Beside => {
            if yes {
                HookStep::Found
            } else {
                HookStep::Fail(Failure::HookBeside)
            }
        },
    }
}

/// Where the search for the default hook ends, from the answers that each question
/// would get.
pub open spec fn search_end(
    probe: HookProbe,
    answers: spec_fn(HookProbe) -> bool,
    fuel: nat,
) -> Option<(HookProbe, HookStep)>
    decreases fuel,
{
    if fuel == 0 {
        None
    } else {
        match hook_step(probe, answers(probe)) {
            HookStep::Probe(next) => search_end(next, answers, (fuel - 1) as nat),
            end => Some((probe, end)),
        }
    }
}

/// Four questions always settle the search. It finds the built-in hook whenever there
/// is one, else the hook beside the program whenever there is one; otherwise it fails,
/// with the first question that was answered with no.
pub proof fn law_hook_search(answers: spec_fn(HookProbe) -> bool)
    ensures
        search_end(HookProbe::BuiltIn, answers, 4) == Some(
            if answers(HookProbe::BuiltIn) {
                (HookProbe::BuiltIn, HookStep::Found)
            } else if !answers(HookProbe::Executable) {
                (HookProbe::Executable, HookStep::Fail(Failure::Executable))
            } else if !answers(HookProbe::Directory) {
                (HookProbe::Directory, HookStep::Fail(Failure::Directory))
            } else if !answers(HookProbe::Beside) {
                (HookProbe::Beside, HookStep::Fail(Failure::HookBeside))
            } else {
                (HookProbe::Beside, HookStep::Found)
            },
        ),
{
    reveal_with_fuel(search_end, 5);
}

} // verus!
