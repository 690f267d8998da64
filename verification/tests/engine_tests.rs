use sniff::config::{decode, Config};
use sniff::engine::{dispatch, Action, Engine};
use sniff::error::ConfigError;
use sniff::json::parse_document;
use sniff::rules::{Batch, MatchMode, Rule, RuleEntry, RuleSet};
use sniff::settings::FilterSettings;

fn strings(items: &[&str]) -> Vec<String> {
    items.iter().map(|s| String::from(*s)).collect()
}

fn spawn(command: &str, dir: Option<&str>) -> Action {
    Action::Spawn { command: String::from(command), working_dir: dir.map(String::from) }
}

fn batch(commands: &[&str], dir: Option<&str>) -> Batch {
    Batch { commands: strings(commands), working_dir: dir.map(String::from) }
}

fn engine_from(text: &str, mode: MatchMode, now: u64) -> Engine {
    let document = parse_document(text).unwrap();
    let config = decode(&document, mode).unwrap();
    Engine::new(config, now).unwrap()
}

fn settings(files: &[&str], dirs: &[&str], cooldown_ms: u64) -> FilterSettings {
    FilterSettings {
        ignored_files: strings(files),
        ignored_dirs: strings(dirs),
        cooldown_ms,
        clear_terminal: false,
    }
}

fn rust_rules() -> RuleSet {
    RuleSet {
        mode: MatchMode::Extension,
        entries: vec![RuleEntry {
            key: String::from("rs"),
            rule: Rule::Simple { commands: strings(&["cargo build"]) },
        }],
    }
}

#[test]
fn scenario_a_cooldown_collapses_a_burst() {
    let mut engine = engine_from("{\"rs\": [\"cargo build\"]}", MatchMode::Extension, 0);
    assert_eq!(engine.settings().cooldown_ms, 650);
    let start = 1000;
    assert_eq!(
        engine.check_and_run("src/main.rs", start),
        vec![Action::ReapFinished, spawn("cargo build", None)]
    );
    assert_eq!(engine.last_accepted_at(), start);
    assert_eq!(engine.check_and_run("src/lib.rs", start + 100), Vec::<Action>::new());
    assert_eq!(engine.last_accepted_at(), start);
    assert_eq!(
        engine.check_and_run("src/lib.rs", start + 700),
        vec![Action::ReapFinished, spawn("cargo build", None)]
    );
    assert_eq!(engine.last_accepted_at(), start + 700);
}

#[test]
fn scenario_b_scoped_rule_runs_in_its_directory() {
    let mut engine = engine_from(
        "{\"ext\": {\"relative_dir\": \"build\", \"commands\": [\"make %sniff_file_name%\"]}}",
        MatchMode::Extension,
        0,
    );
    assert_eq!(
        engine.check_and_run("/home/u/proj/foo.ext", 5000),
        vec![Action::ReapFinished, spawn("make /home/u/proj/foo.ext", Some("build"))]
    );
}

#[test]
fn scenario_c_ignored_directory_never_dispatches() {
    let mut engine = engine_from(
        "{\"sniff_ignore_dir\": [\"node_modules\"], \"js\": [\"npm test\"]}",
        MatchMode::Extension,
        0,
    );
    assert_eq!(engine.check_and_run("proj/node_modules/pkg/index.js", 10_000), Vec::<Action>::new());
    assert_eq!(engine.check_and_run("proj/node_modules/pkg/index.js", 20_000), Vec::<Action>::new());
    assert_eq!(engine.last_accepted_at(), 0);
    assert_eq!(
        engine.check_and_run("proj/src/index.js", 30_000),
        vec![Action::ReapFinished, spawn("npm test", None)]
    );
}

#[test]
fn scenario_c_holds_in_pattern_mode_too() {
    let mut engine = engine_from(
        "{\"sniff_ignore_dir\": [\"node_modules\"], \".*\": [\"echo %sniff_file_name%\"]}",
        MatchMode::Pattern,
        0,
    );
    assert_eq!(engine.check_and_run("proj/node_modules/pkg/index.js", 10_000), Vec::<Action>::new());
    assert_eq!(
        engine.check_and_run("proj/pkg/index.js", 10_000),
        vec![Action::ReapFinished, spawn("echo proj/pkg/index.js", None)]
    );
}

#[test]
fn a_new_engine_has_what_it_was_given() {
    let config = Config { rules: rust_rules(), settings: settings(&["a"], &["b"], 5) };
    let engine = Engine::new(config, 42).unwrap();
    assert_eq!(engine.rules(), &rust_rules());
    assert_eq!(engine.settings(), &settings(&["a"], &["b"], 5));
    assert_eq!(engine.last_accepted_at(), 42);
}

#[test]
fn the_cooldown_runs_from_the_making_of_the_engine() {
    let config = Config { rules: rust_rules(), settings: settings(&[], &[], 650) };
    let mut engine = Engine::new(config, 1000).unwrap();
    assert!(!engine.should_process("main.rs", 1000));
    assert!(!engine.should_process("main.rs", 1649));
    assert_eq!(engine.last_accepted_at(), 1000);
    assert!(engine.should_process("main.rs", 1650));
    assert_eq!(engine.last_accepted_at(), 1650);
}

#[test]
fn the_cooldown_is_measured_from_the_last_accepted_event() {
    let config = Config { rules: rust_rules(), settings: settings(&[], &[], 100) };
    let mut engine = Engine::new(config, 0).unwrap();
    assert!(engine.should_process("a.rs", 100));
    assert!(!engine.should_process("a.rs", 150));
    assert!(!engine.should_process("a.rs", 199));
    assert!(engine.should_process("a.rs", 200));
    assert!(!engine.should_process("a.rs", 299));
    assert!(engine.should_process("a.rs", 300));
    assert_eq!(engine.last_accepted_at(), 300);
}

#[test]
fn a_cooldown_of_zero_accepts_events_at_the_same_instant() {
    let config = Config { rules: rust_rules(), settings: settings(&[], &[], 0) };
    let mut engine = Engine::new(config, 7).unwrap();
    assert!(engine.should_process("a.rs", 7));
    assert!(engine.should_process("a.rs", 7));
}

#[test]
fn a_clock_that_runs_backwards_suppresses() {
    let config = Config { rules: rust_rules(), settings: settings(&[], &[], 0) };
    let mut engine = Engine::new(config, 100).unwrap();
    assert!(!engine.should_process("a.rs", 99));
    assert_eq!(engine.last_accepted_at(), 100);
}

#[test]
fn a_large_clock_does_not_overflow() {
    let config = Config { rules: rust_rules(), settings: settings(&[], &[], u64::MAX) };
    let mut engine = Engine::new(config, 0).unwrap();
    assert!(!engine.should_process("a.rs", u64::MAX - 1));
    assert!(engine.should_process("a.rs", u64::MAX));
    assert_eq!(engine.last_accepted_at(), u64::MAX);
}

#[test]
fn an_ignored_file_is_suppressed_whatever_the_cooldown() {
    let config = Config { rules: rust_rules(), settings: settings(&["lib.rs"], &[], 0) };
    let mut engine = Engine::new(config, 0).unwrap();
    assert!(!engine.should_process("src/lib.rs", 1_000_000));
    assert!(!engine.should_process("lib.rs", 2_000_000));
    assert!(engine.should_process("src/lib.rs.bak", 3_000_000));
    assert!(engine.should_process("src/mylib.rs", 4_000_000));
    assert!(engine.should_process("lib.rs/main.rs", 5_000_000));
}

#[test]
fn an_ignored_dir_is_a_substring_of_the_parent() {
    let config = Config { rules: rust_rules(), settings: settings(&[], &["target", "x/y"], 0) };
    let mut engine = Engine::new(config, 0).unwrap();
    assert!(!engine.should_process("target/debug/main.rs", 1));
    assert!(!engine.should_process("proj/mytargets/a.rs", 2));
    assert!(!engine.should_process("a/x/y/b.rs", 3));
    assert!(engine.should_process("src/target.rs", 4));
    assert!(engine.should_process("target", 5));
    assert!(engine.should_process("a/x/z/y/b.rs", 6));
}

#[test]
fn a_bare_file_name_is_in_no_named_directory() {
    let config = Config { rules: rust_rules(), settings: settings(&[], &["src"], 0) };
    let mut engine = Engine::new(config, 0).unwrap();
    assert!(engine.should_process("src.rs", 1));
    assert!(engine.should_process("src", 2));
}

#[test]
fn an_empty_ignored_dir_suppresses_every_path() {
    let config = Config { rules: rust_rules(), settings: settings(&[], &[""], 0) };
    let mut engine = Engine::new(config, 0).unwrap();
    assert!(!engine.should_process("main.rs", 1));
    assert!(!engine.should_process("src/main.rs", 2));
}

#[test]
fn a_suppressed_event_does_not_restart_the_cooldown() {
    let config = Config { rules: rust_rules(), settings: settings(&["skip.rs"], &[], 100) };
    let mut engine = Engine::new(config, 0).unwrap();
    assert!(engine.should_process("a.rs", 100));
    assert!(!engine.should_process("skip.rs", 250));
    assert_eq!(engine.last_accepted_at(), 100);
    assert!(!engine.should_process("a.rs", 150));
    assert_eq!(engine.last_accepted_at(), 100);
    assert!(engine.should_process("a.rs", 200));
}

#[test]
fn an_accepted_event_without_a_matching_rule_gives_nothing_and_still_counts() {
    let config = Config { rules: rust_rules(), settings: settings(&[], &[], 100) };
    let mut engine = Engine::new(config, 0).unwrap();
    assert_eq!(engine.check_and_run("README", 500), Vec::<Action>::new());
    assert_eq!(engine.last_accepted_at(), 500);
    assert_eq!(engine.check_and_run("notes.md", 700), Vec::<Action>::new());
    assert_eq!(engine.last_accepted_at(), 700);
    assert_eq!(engine.check_and_run("main.rs", 750), Vec::<Action>::new());
    assert_eq!(engine.last_accepted_at(), 700);
}

#[test]
fn the_terminal_is_cleared_once_before_the_commands() {
    let mut engine = engine_from(
        "{\"sniff_clear_term\": true, \"rs$\": [\"a\", \"b\"], \"main\": {\"relative_dir\": \"d\", \"commands\": [\"c\"]}}",
        MatchMode::Pattern,
        0,
    );
    assert_eq!(
        engine.check_and_run("src/main.rs", 1000),
        vec![
            Action::ReapFinished,
            Action::ClearTerminal,
            spawn("a", None),
            spawn("b", None),
            spawn("c", Some("d")),
        ]
    );
}

#[test]
fn rules_fire_in_the_order_of_the_document() {
    let mut engine = engine_from(
        "{\"z\": [\"last key first\"], \"a\": [\"second\"], \"m\": [\"third\"]}",
        MatchMode::Pattern,
        0,
    );
    assert_eq!(
        engine.check_and_run("a/m/z", 1000),
        vec![
            Action::ReapFinished,
            spawn("last key first", None),
            spawn("second", None),
            spawn("third", None),
        ]
    );
}

#[test]
fn dispatch_of_no_batch_is_nothing() {
    assert_eq!(dispatch(&Vec::new(), false), Vec::<Action>::new());
    assert_eq!(dispatch(&Vec::new(), true), Vec::<Action>::new());
}

#[test]
fn dispatch_of_a_batch_without_commands_still_reaps_and_clears() {
    assert_eq!(dispatch(&vec![batch(&[], None)], false), vec![Action::ReapFinished]);
    assert_eq!(
        dispatch(&vec![batch(&[], Some("d"))], true),
        vec![Action::ReapFinished, Action::ClearTerminal]
    );
}

#[test]
fn dispatch_keeps_batches_and_commands_in_order() {
    let batches = vec![
        batch(&["a1", "a2"], Some("x")),
        batch(&[], Some("y")),
        batch(&["c1"], None),
        batch(&["d1", "d2", "d3"], Some("z")),
    ];
    assert_eq!(
        dispatch(&batches, false),
        vec![
            Action::ReapFinished,
            spawn("a1", Some("x")),
            spawn("a2", Some("x")),
            spawn("c1", None),
            spawn("d1", Some("z")),
            spawn("d2", Some("z")),
            spawn("d3", Some("z")),
        ]
    );
}

#[test]
fn an_engine_is_not_made_of_a_pattern_that_does_not_compile() {
    let rules = RuleSet {
        mode: MatchMode::Pattern,
        entries: vec![
            RuleEntry { key: String::from("ok"), rule: Rule::Simple { commands: Vec::new() } },
            RuleEntry { key: String::from("a{2}"), rule: Rule::Simple { commands: Vec::new() } },
            RuleEntry { key: String::from("(("), rule: Rule::Simple { commands: Vec::new() } },
        ],
    };
    let config = Config { rules, settings: FilterSettings::default() };
    assert!(matches!(Engine::new(config, 0), Err(ConfigError::Pattern { rule: 2 })));
}

#[test]
fn the_same_keys_make_an_engine_in_extension_mode() {
    let rules = RuleSet {
        mode: MatchMode::Extension,
        entries: vec![RuleEntry {
            key: String::from("(("),
            rule: Rule::Simple { commands: strings(&["x"]) },
        }],
    };
    let config = Config { rules, settings: FilterSettings::default() };
    let mut engine = Engine::new(config, 0).unwrap();
    assert_eq!(
        engine.check_and_run("a.((", 650),
        vec![Action::ReapFinished, spawn("x", None)]
    );
}

#[test]
fn the_filter_settings_answer_by_themselves() {
    let s = settings(&["Cargo.lock"], &["target"], 650);
    assert!(s.ignores_file("proj/Cargo.lock"));
    assert!(!s.ignores_file("proj/Cargo.toml"));
    assert!(s.ignores_dir("proj/target/x"));
    assert!(!s.ignores_dir("proj/src/x"));
    assert!(s.cooling_down(0, 649));
    assert!(!s.cooling_down(0, 650));
    assert!(s.cooling_down(10, 5));
    assert!(s.accepts(0, "proj/src/x", 650));
    assert!(!s.accepts(0, "proj/src/x", 649));
    assert!(!s.accepts(0, "proj/target/x", 650));
    assert!(!s.accepts(0, "proj/Cargo.lock", 650));
}
