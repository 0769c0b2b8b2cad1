use heap_oracle::cli::{
    check_target, format_failure, format_usage_error, generate_shm_name, hook_source,
    next_hook_step, parse_args, preload_value, target_settings, usage_text, Failure, HookProbe,
    HookSource, HookStep, Mode, Options, ParseResult, Platform, UsageError, ValueFlag,
};
use heap_oracle::ipc::shm_path;

fn line(words: &[&str]) -> Vec<String> {
    words.iter().map(|word| word.to_string()).collect()
}

fn parse(words: &[&str], terminal: bool) -> Result<ParseResult, UsageError> {
    parse_args(&line(words), "/generated".to_string(), terminal)
}

fn options(words: &[&str]) -> Options {
    match parse(words, true) {
        Ok(ParseResult::Run(options)) => options,
        _ => panic!("no options"),
    }
}

fn error(words: &[&str]) -> UsageError {
    match parse(words, true) {
        Err(error) => error,
        _ => panic!("no error"),
    }
}

fn asks_help(words: &[&str]) -> bool {
    matches!(parse(words, true), Ok(ParseResult::Help))
}

fn pair(name: &str, value: &str) -> (String, String) {
    (name.to_string(), value.to_string())
}

#[test]
fn help_is_given_on_request_and_without_a_command() {
    assert!(asks_help(&[]));
    assert!(asks_help(&["heap-oracle"]));
    assert!(asks_help(&["heap-oracle", "help"]));
    assert!(asks_help(&["heap-oracle", "--help", "run"]));
    assert!(asks_help(&["heap-oracle", "-h"]));
    assert!(!asks_help(&["heap-oracle", "run", "--", "-h"]));
}

#[test]
fn a_plain_run() {
    let options = options(&["heap-oracle", "run", "--", "./target", "--no-ui"]);
    assert!(matches!(options.mode, Mode::Run { command_start: 3, hook_library: None }));
    assert_eq!(options.shm_name, "/generated");
    assert!(!options.no_ui && !options.main_only && !options.no_stack);
    assert!(options.use_color);
}

#[test]
fn a_run_with_every_flag() {
    let options = options(&[
        "heap-oracle", "run", "--no-ui", "--main-only", "--no-color", "--no-stack", "--shm-name",
        "first", "--hook-lib", "./hook.so", "--shm-name", "second", "--", "ls", "--", "-l",
    ]);
    match options.mode {
        Mode::Run { command_start, hook_library } => {
            assert_eq!(command_start, 13);
            assert_eq!(hook_library, Some("./hook.so".to_string()));
        }
        Mode::Monitor => panic!("monitor"),
    }
    assert_eq!(options.shm_name, "second");
    assert!(options.no_ui && options.main_only && options.no_stack);
    assert!(!options.use_color);
}

#[test]
fn values_are_taken_as_they_are() {
    let options = options(&["heap-oracle", "run", "--shm-name", "--", "--", "ls"]);
    assert_eq!(options.shm_name, "--");
    assert!(matches!(options.mode, Mode::Run { command_start: 5, .. }));
}

#[test]
fn a_monitor() {
    let options = options(&["heap-oracle", "monitor", "--no-ui", "--no-color", "--shm-name", "x"]);
    assert!(matches!(options.mode, Mode::Monitor));
    assert_eq!(options.shm_name, "x");
    assert!(options.no_ui && !options.main_only && !options.no_stack && !options.use_color);
}

#[test]
fn colours_need_a_terminal() {
    match parse(&["heap-oracle", "monitor"], false) {
        Ok(ParseResult::Run(options)) => assert!(!options.use_color),
        _ => panic!("no options"),
    }
}

#[test]
fn the_words_of_the_target_change_nothing() {
    let one = options(&["heap-oracle", "run", "--no-stack", "--", "a"]);
    let two = options(&["heap-oracle", "run", "--no-stack", "--", "--no-ui", "--bogus"]);
    assert_eq!((one.no_ui, one.no_stack), (false, true));
    assert_eq!((two.no_ui, two.no_stack), (false, true));
    assert!(matches!(one.mode, Mode::Run { command_start: 4, .. }));
    assert!(matches!(two.mode, Mode::Run { command_start: 4, .. }));
}

#[test]
fn flags_stay_set() {
    let options = options(&[
        "heap-oracle", "run", "--no-color", "--no-ui", "--main-only", "--no-ui", "--shm-name",
        "--no-stack", "--", "ls",
    ]);
    assert!(!options.use_color && options.no_ui && options.main_only && !options.no_stack);
    assert_eq!(options.shm_name, "--no-stack");
}

#[test]
fn unknown_commands_are_refused() {
    let error = error(&["heap-oracle", "watch"]);
    assert_eq!(error, UsageError::UnknownCommand);
    assert_eq!(error.argument(), Some(1));
    assert_eq!(
        format_usage_error(error, "\"watch\""),
        format!("unknown command \"watch\"\n\n{}", usage_text()),
    );
}

#[test]
fn unknown_flags_are_refused() {
    let first = error(&["heap-oracle", "run", "--no-ui", "ls"]);
    assert_eq!(first, UsageError::UnknownFlag(3));
    assert_eq!(first.argument(), Some(3));
    assert_eq!(
        format_usage_error(first, "\"ls\""),
        format!("unknown flag \"ls\"\n\n{}", usage_text()),
    );
    for flag in ["--main-only", "--no-stack", "--hook-lib", "--", "-x"] {
        assert_eq!(error(&["heap-oracle", "monitor", flag, "y"]), UsageError::UnknownFlag(2));
    }
}

#[test]
fn missing_values_are_refused() {
    let name = error(&["heap-oracle", "run", "--shm-name"]);
    assert_eq!(name, UsageError::MissingValue(ValueFlag::ShmName));
    assert_eq!(name.argument(), None);
    assert_eq!(format_usage_error(name, ""), "--shm-name requires a value");
    assert_eq!(error(&["heap-oracle", "monitor", "--no-ui", "--shm-name"]), name);
    let hook = error(&["heap-oracle", "run", "--hook-lib"]);
    assert_eq!(hook, UsageError::MissingValue(ValueFlag::HookLib));
    assert_eq!(format_usage_error(hook, ""), "--hook-lib requires a value");
}

#[test]
fn a_missing_target_is_refused() {
    let nothing = error(&["heap-oracle", "run"]);
    assert_eq!(nothing, UsageError::MissingTarget);
    assert_eq!(nothing.argument(), None);
    assert_eq!(error(&["heap-oracle", "run", "--no-ui", "--"]), nothing);
    assert_eq!(
        format_usage_error(nothing, ""),
        format!("missing target command\n\n{}", usage_text()),
    );
}

#[test]
fn the_usage_text() {
    let lines: Vec<&str> = usage_text().lines().collect();
    assert_eq!(lines.len(), 17);
    assert_eq!(lines[0], "Usage:");
    assert_eq!(lines[1], "  heap-oracle run [OPTIONS] -- <target> [args...]");
    assert_eq!(lines[2], "  heap-oracle monitor [OPTIONS]");
    assert_eq!(lines[5], "  --no-ui        CLI-only mode (no GUI window)");
    assert_eq!(
        lines[7],
        "  --main-only    Only trace events after main() starts (skip libc init noise)",
    );
    assert_eq!(lines[16], "  heap-oracle monitor --shm-name /heap-oracle-demo");
}

#[test]
fn generated_names_can_be_opened() {
    let name = generate_shm_name(4321, 0xdead_beef_0000_0000_1);
    assert_eq!(name, "/heap-oracle-4321-deadbeef000000001");
    assert_eq!(shm_path(&name), Some(name.clone()));
    assert_eq!(generate_shm_name(0, 0), "/heap-oracle-0-0");
}

#[test]
fn platforms_differ() {
    assert_eq!(Platform::Linux.hook_library_name(), "libheap_oracle_hook.so");
    assert_eq!(Platform::MacOs.hook_library_name(), "libheap_oracle_hook.dylib");
    assert_eq!(Platform::Windows.hook_library_name(), "heap_oracle_hook.dll");
    assert_eq!(Platform::Linux.preload_variable(), "LD_PRELOAD");
    assert_eq!(Platform::MacOs.preload_variable(), "DYLD_INSERT_LIBRARIES");
    assert_eq!(Platform::Windows.preload_variable(), "LD_PRELOAD");
    assert_eq!(Platform::Linux.preload_separator(), b':');
    assert_eq!(Platform::MacOs.preload_separator(), b':');
    assert_eq!(Platform::Windows.preload_separator(), b';');
}

#[test]
fn the_hook_goes_before_other_libraries() {
    let hook = b"/lib/hook.so".to_vec();
    assert_eq!(preload_value(&hook, &None, b':'), hook);
    assert_eq!(preload_value(&hook, &Some(Vec::new()), b':'), hook);
    assert_eq!(
        preload_value(&hook, &Some(b"/lib/other.so".to_vec()), b':'),
        b"/lib/hook.so:/lib/other.so".to_vec(),
    );
}

#[test]
fn the_hook_is_told_its_settings() {
    assert_eq!(
        target_settings(Platform::Linux, "/x", false, false),
        vec![pair("HEAP_ORACLE_SHM_NAME", "/x")],
    );
    assert_eq!(
        target_settings(Platform::MacOs, "/x", true, true),
        vec![
            pair("HEAP_ORACLE_SHM_NAME", "/x"),
            pair("HEAP_ORACLE_MAIN_ONLY", "1"),
            pair("HEAP_ORACLE_NO_STACK", "1"),
            pair("DYLD_FORCE_FLAT_NAMESPACE", "1"),
        ],
    );
    assert_eq!(
        target_settings(Platform::Windows, "/x", false, true),
        vec![pair("HEAP_ORACLE_SHM_NAME", "/x"), pair("HEAP_ORACLE_NO_STACK", "1")],
    );
}

#[test]
fn a_target_needs_a_command_and_the_hook() {
    assert!(check_target(1, true, "h").is_ok());
    assert_eq!(check_target(0, true, "h").unwrap_err(), "missing target command");
    assert_eq!(check_target(0, false, "h").unwrap_err(), "missing target command");
    assert_eq!(check_target(2, false, "/h.so").unwrap_err(), "hook library not found: /h.so");
}

#[test]
fn a_given_hook_overrides_the_default() {
    assert_eq!(hook_source(true, true), HookSource::Given);
    assert_eq!(hook_source(true, false), HookSource::Given);
    assert_eq!(hook_source(false, true), HookSource::Default);
    assert_eq!(hook_source(false, false), HookSource::Unresolved);
}

#[test]
fn a_given_hook_is_used_without_a_default() {
    let words = ["heap-oracle", "run", "--hook-lib", "/h.so", "--shm-name", "/s", "--", "./t"];
    let options = match parse(&words, false) {
        Ok(ParseResult::Run(options)) => options,
        _ => panic!("no options"),
    };
    match options.mode {
        Mode::Run { command_start, hook_library } => {
            assert_eq!(&words[command_start..], &["./t"]);
            assert_eq!(hook_source(hook_library.is_some(), false), HookSource::Given);
            assert_eq!(hook_library, Some("/h.so".to_string()));
        }
        Mode::Monitor => panic!("monitor"),
    }
    assert_eq!(options.shm_name, "/s");
    assert!(!options.no_ui && !options.main_only && !options.no_stack && !options.use_color);
}

#[test]
fn the_search_for_the_hook() {
    assert_eq!(next_hook_step(HookProbe::BuiltIn, true), HookStep::Found);
    let mut probe = HookProbe::BuiltIn;
    let mut asked = Vec::new();
    let mut answer = false;
    let end = loop {
        asked.push(probe);
        match next_hook_step(probe, answer) {
            HookStep::Probe(next) => probe = next,
            end => break end,
        }
        answer = true;
    };
    assert_eq!(end, HookStep::Found);
    assert_eq!(
        asked,
        vec![HookProbe::BuiltIn, HookProbe::Executable, HookProbe::Directory, HookProbe::Beside],
    );
    assert_eq!(
        next_hook_step(HookProbe::Executable, false),
        HookStep::Fail(Failure::Executable),
    );
    assert_eq!(next_hook_step(HookProbe::Directory, false), HookStep::Fail(Failure::Directory));
    assert_eq!(next_hook_step(HookProbe::Beside, false), HookStep::Fail(Failure::HookBeside));
}

#[test]
fn failures_in_words() {
    assert_eq!(
        format_failure(Failure::Executable, "no"),
        "unable to resolve current executable: no",
    );
    assert_eq!(
        format_failure(Failure::Directory, "/"),
        "unable to determine executable directory from /",
    );
    assert_eq!(
        format_failure(Failure::HookBeside, "/h"),
        "hook library not found next to executable: /h",
    );
    assert_eq!(format_failure(Failure::Launch, "no"), "failed to launch target: no");
    assert_eq!(format_failure(Failure::Wait, "no"), "failed to wait for target: no");
}
