use sniff::error::ConfigError;
use sniff::pattern::{compiles, pattern_matches};
use sniff::rules::{copy_optional, resolve_command, Batch, MatchMode, Rule, RuleEntry, RuleSet};

fn strings(items: &[&str]) -> Vec<String> {
    items.iter().map(|s| String::from(*s)).collect()
}

fn simple(key: &str, commands: &[&str]) -> RuleEntry {
    RuleEntry { key: String::from(key), rule: Rule::Simple { commands: strings(commands) } }
}

fn scoped(key: &str, commands: &[&str], dir: Option<&str>) -> RuleEntry {
    RuleEntry {
        key: String::from(key),
        rule: Rule::Scoped { commands: strings(commands), working_dir: dir.map(String::from) },
    }
}

fn batch(commands: &[&str], dir: Option<&str>) -> Batch {
    Batch { commands: strings(commands), working_dir: dir.map(String::from) }
}

#[test]
fn a_pattern_is_searched_not_anchored() {
    assert!(pattern_matches("main", "src/main.rs"));
    assert!(pattern_matches("\\.rs$", "src/main.rs"));
    assert!(pattern_matches("^src/", "src/main.rs"));
    assert!(!pattern_matches("^main", "src/main.rs"));
    assert!(!pattern_matches("\\.js$", "src/main.rs"));
    assert!(pattern_matches("", "src/main.rs"));
}

#[test]
fn a_pattern_that_does_not_compile_matches_nothing() {
    assert!(!pattern_matches("(", "("));
    assert!(!pattern_matches("[a-", "a"));
}

#[test]
fn compiles_tells_patterns_from_other_text() {
    assert!(compiles("\\.rs$"));
    assert!(compiles(""));
    assert!(compiles("a|b"));
    assert!(!compiles("("));
    assert!(!compiles("*a"));
}

#[test]
fn the_placeholder_becomes_the_path() {
    assert_eq!(
        resolve_command("make %sniff_file_name%", "/home/u/proj/foo.ext"),
        "make /home/u/proj/foo.ext"
    );
}

#[test]
fn both_placeholders_become_the_same_path() {
    assert_eq!(
        resolve_command("cp %sniff_file_name% %sniff_file_name%.bak", "a b.txt"),
        "cp a b.txt a b.txt.bak"
    );
}

#[test]
fn a_command_without_placeholder_is_unchanged() {
    assert_eq!(resolve_command("cargo build", "src/main.rs"), "cargo build");
    assert_eq!(resolve_command("echo %sniff_file_name", "src/main.rs"), "echo %sniff_file_name");
    assert_eq!(resolve_command("echo sniff_file_name%", "x"), "echo sniff_file_name%");
}

#[test]
fn the_path_is_not_escaped() {
    assert_eq!(resolve_command("cat %sniff_file_name%", "a;rm b"), "cat a;rm b");
    assert_eq!(
        resolve_command("%sniff_file_name%", "%sniff_file_name%"),
        "%sniff_file_name%"
    );
}

#[test]
fn copy_optional_copies() {
    assert_eq!(copy_optional(&None), None);
    assert_eq!(copy_optional(&Some(String::from("build"))), Some(String::from("build")));
}

#[test]
fn a_rule_gives_its_commands_and_working_dir() {
    let rule = Rule::Simple { commands: strings(&["a", "b"]) };
    assert_eq!(rule.commands(), &strings(&["a", "b"]));
    assert_eq!(rule.working_dir(), None);
    let rule = Rule::Scoped { commands: strings(&["c"]), working_dir: Some(String::from("d")) };
    assert_eq!(rule.commands(), &strings(&["c"]));
    assert_eq!(rule.working_dir(), Some(String::from("d")));
    let rule = Rule::Scoped { commands: Vec::new(), working_dir: None };
    assert_eq!(rule.commands(), &Vec::<String>::new());
    assert_eq!(rule.working_dir(), None);
}

#[test]
fn a_batch_holds_the_resolved_commands_in_order() {
    let rule = Rule::Scoped {
        commands: strings(&["echo %sniff_file_name%", "make", "touch %sniff_file_name%.done"]),
        working_dir: Some(String::from("build")),
    };
    assert_eq!(
        rule.batch("x.c"),
        batch(&["echo x.c", "make", "touch x.c.done"], Some("build"))
    );
    let rule = Rule::Simple { commands: Vec::new() };
    assert_eq!(rule.batch("x.c"), batch(&[], None));
}

#[test]
fn extension_mode_matches_the_key_that_is_the_extension() {
    let rules = RuleSet {
        mode: MatchMode::Extension,
        entries: vec![
            simple("rs", &["cargo build"]),
            simple("ext", &["make"]),
            simple("file", &["no"]),
            simple("file.ext", &["no"]),
            simple("EXT", &["no"]),
            simple(".ext", &["no"]),
            simple("", &["no"]),
        ],
    };
    assert_eq!(
        rules.hits("a/b/file.ext"),
        vec![false, true, false, false, false, false, false]
    );
    assert_eq!(rules.resolve("a/b/file.ext"), vec![batch(&["make"], None)]);
}

#[test]
fn extension_mode_does_not_read_keys_as_patterns() {
    let rules = RuleSet {
        mode: MatchMode::Extension,
        entries: vec![simple(".*", &["no"]), simple("r.", &["no"]), simple("(", &["no"])],
    };
    assert_eq!(rules.hits("src/main.rs"), vec![false, false, false]);
    assert_eq!(rules.check_keys(), Ok(()));
}

#[test]
fn a_path_without_extension_matches_no_extension_key() {
    let rules = RuleSet {
        mode: MatchMode::Extension,
        entries: vec![simple("rs", &["cargo build"]), simple("", &["no"]), simple("Makefile", &["no"])],
    };
    assert_eq!(rules.hits("src/Makefile"), vec![false, false, false]);
    assert_eq!(rules.resolve("src/Makefile"), Vec::<Batch>::new());
}

#[test]
fn every_rule_with_the_same_key_fires() {
    let rules = RuleSet {
        mode: MatchMode::Extension,
        entries: vec![
            simple("rs", &["first"]),
            scoped("rs", &["second"], Some("d")),
            simple("js", &["other"]),
        ],
    };
    assert_eq!(
        rules.resolve("main.rs"),
        vec![batch(&["first"], None), batch(&["second"], Some("d"))]
    );
}

#[test]
fn pattern_mode_fires_every_matching_rule_in_order() {
    let rules = RuleSet {
        mode: MatchMode::Pattern,
        entries: vec![
            simple("\\.rs$", &["cargo build"]),
            simple("\\.js$", &["npm test"]),
            scoped("^src/", &["echo %sniff_file_name%", "date"], Some("logs")),
            simple("main", &["ctags %sniff_file_name%"]),
        ],
    };
    assert_eq!(rules.hits("src/main.rs"), vec![true, false, true, true]);
    assert_eq!(
        rules.resolve("src/main.rs"),
        vec![
            batch(&["cargo build"], None),
            batch(&["echo src/main.rs", "date"], Some("logs")),
            batch(&["ctags src/main.rs"], None),
        ]
    );
}

#[test]
fn pattern_mode_may_match_one_rule_or_none() {
    let rules = RuleSet {
        mode: MatchMode::Pattern,
        entries: vec![simple("\\.rs$", &["cargo build"]), simple("\\.js$", &["npm test"])],
    };
    assert_eq!(rules.resolve("web/app.js"), vec![batch(&["npm test"], None)]);
    assert_eq!(rules.resolve("README.md"), Vec::<Batch>::new());
}

#[test]
fn pattern_mode_searches_the_whole_path() {
    let rules = RuleSet {
        mode: MatchMode::Pattern,
        entries: vec![simple("proj/lib", &["build"]), simple("^lib", &["no"])],
    };
    assert_eq!(rules.hits("/home/u/proj/lib/a.c"), vec![true, false]);
}

#[test]
fn batches_follow_the_marks() {
    let rules = RuleSet {
        mode: MatchMode::Extension,
        entries: vec![simple("a", &["one"]), simple("b", &["two %sniff_file_name%"]), simple("c", &["three"])],
    };
    assert_eq!(
        rules.batches(&vec![true, false, true], "p"),
        vec![batch(&["one"], None), batch(&["three"], None)]
    );
    assert_eq!(
        rules.batches(&vec![false, true, false], "p"),
        vec![batch(&["two p"], None)]
    );
    assert_eq!(rules.batches(&vec![false, false, false], "p"), Vec::<Batch>::new());
}

#[test]
fn an_entry_without_a_mark_does_not_fire() {
    let rules = RuleSet {
        mode: MatchMode::Extension,
        entries: vec![simple("a", &["one"]), simple("b", &["two"])],
    };
    assert_eq!(rules.batches(&vec![true], "p"), vec![batch(&["one"], None)]);
    assert_eq!(rules.batches(&Vec::new(), "p"), Vec::<Batch>::new());
    assert_eq!(
        rules.batches(&vec![true, true, true, true], "p"),
        vec![batch(&["one"], None), batch(&["two"], None)]
    );
}

#[test]
fn check_keys_names_the_first_key_that_does_not_compile() {
    let rules = RuleSet {
        mode: MatchMode::Pattern,
        entries: vec![simple("\\.rs$", &["a"]), simple("(", &["b"]), simple("[", &["c"])],
    };
    assert_eq!(rules.check_keys(), Err(ConfigError::Pattern { rule: 1 }));
    let rules = RuleSet {
        mode: MatchMode::Pattern,
        entries: vec![simple("\\.rs$", &["a"]), simple("js", &["b"])],
    };
    assert_eq!(rules.check_keys(), Ok(()));
    let rules = RuleSet { mode: MatchMode::Pattern, entries: Vec::new() };
    assert_eq!(rules.check_keys(), Ok(()));
}
