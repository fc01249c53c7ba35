use rackup::{default_rules, evaluate, ignore_check_decision, ignore_check_dir, Decision, Entry, EntryKind, Rule, RuleCheck, RuleOutcome, WalkConfig};

fn entry(path: &str, kind: EntryKind, under_vcs: bool) -> Entry {
    Entry { path: path.to_string(), kind, under_vcs }
}

fn decided(o: RuleOutcome) -> Option<Decision> {
    match o {
        RuleOutcome::Decided(d) => Some(d),
        RuleOutcome::NeedsIgnoreCheck => None,
    }
}

#[test]
fn exe_file_is_excluded_outside_a_repository() {
    let rules = default_rules();
    let e = entry("/home/bob/x.exe", EntryKind::File, false);
    assert_eq!(decided(evaluate(&rules, &e)), Some(Decision::Exclude));
}

#[test]
fn exe_file_is_excluded_before_the_ignore_query() {
    let rules = default_rules();
    let e = entry("/repo/bin/x.exe", EntryKind::File, true);
    assert_eq!(decided(evaluate(&rules, &e)), Some(Decision::Exclude));
}

#[test]
fn extension_match_is_case_sensitive() {
    let rules = default_rules();
    let e = entry("/home/bob/x.Exe", EntryKind::File, false);
    assert_eq!(decided(evaluate(&rules, &e)), Some(Decision::Include));
}

#[test]
fn plain_file_outside_a_repository_is_included() {
    let rules = default_rules();
    let e = entry("/home/bob/notes.txt", EntryKind::File, false);
    assert_eq!(decided(evaluate(&rules, &e)), Some(Decision::Include));
}

#[test]
fn dot_name_has_no_extension() {
    let rules = default_rules();
    let e = entry("/home/bob/.exe", EntryKind::File, false);
    assert_eq!(decided(evaluate(&rules, &e)), Some(Decision::Include));
}

#[test]
fn last_dot_gives_the_extension() {
    let rules = default_rules();
    let e = entry("/home/bob/setup.tar.exe", EntryKind::File, false);
    assert_eq!(decided(evaluate(&rules, &e)), Some(Decision::Exclude));
    let f = entry("/home/bob/setup.exe.txt", EntryKind::File, false);
    assert_eq!(decided(evaluate(&rules, &f)), Some(Decision::Include));
}

#[test]
fn directory_named_like_exe_is_not_blocked() {
    let rules = default_rules();
    let e = entry("/home/bob/tools.exe", EntryKind::Directory, false);
    assert_eq!(decided(evaluate(&rules, &e)), Some(Decision::Include));
}

#[test]
fn entries_in_a_repository_need_the_ignore_query() {
    let rules = default_rules();
    let f = entry("/repo/src/main.rs", EntryKind::File, true);
    assert!(matches!(evaluate(&rules, &f), RuleOutcome::NeedsIgnoreCheck));
    let d = entry("/repo/target", EntryKind::Directory, true);
    assert!(matches!(evaluate(&rules, &d), RuleOutcome::NeedsIgnoreCheck));
}

#[test]
fn first_applicable_rule_decides() {
    // With the ignore rule first, it decides for the exe file and the
    // blocking rule after it is never consulted.
    let rules = vec![Rule::gitignore(), Rule::noexe()];
    let e = entry("/repo/x.exe", EntryKind::File, true);
    assert!(matches!(evaluate(&rules, &e), RuleOutcome::NeedsIgnoreCheck));
    assert_eq!(ignore_check_decision(false), Decision::Include);
}

#[test]
fn empty_chain_includes() {
    let rules: Vec<Rule> = Vec::new();
    let e = entry("/x.exe", EntryKind::File, true);
    assert_eq!(decided(evaluate(&rules, &e)), Some(Decision::Include));
}

#[test]
fn kind_restriction_is_honoured() {
    let rules = vec![Rule::blocked_extension("nolog", None, "log")];
    let f = entry("/var/app.log", EntryKind::File, false);
    assert_eq!(decided(evaluate(&rules, &f)), Some(Decision::Exclude));
    let s = entry("/var/app.log", EntryKind::Symlink, false);
    assert_eq!(decided(evaluate(&rules, &s)), Some(Decision::Include));
}

#[test]
fn ignore_query_answer_decides() {
    assert_eq!(ignore_check_decision(true), Decision::Exclude);
    assert_eq!(ignore_check_decision(false), Decision::Include);
}

#[test]
fn ignore_query_runs_in_the_entry_directory() {
    let d = entry("/repo/target", EntryKind::Directory, true);
    assert_eq!(ignore_check_dir(&d), Some("/repo/target".to_string()));
    let f = entry("/repo/src/main.rs", EntryKind::File, true);
    assert_eq!(ignore_check_dir(&f), Some("/repo/src/".to_string()));
    let bare = entry("main.rs", EntryKind::File, true);
    assert_eq!(ignore_check_dir(&bare), None);
}

#[test]
fn default_chain_order() {
    let rules = default_rules();
    assert_eq!(rules.len(), 2);
    assert_eq!(rules[0].name, "noexe");
    assert_eq!(rules[0].description.as_deref(), Some("Do not backup exe files"));
    assert_eq!(rules[0].only_for, Some(EntryKind::File));
    assert!(matches!(&rules[0].check, RuleCheck::BlockedExtension(x) if x == "exe"));
    assert_eq!(rules[1].name, "gitignore");
    assert!(matches!(rules[1].check, RuleCheck::VcsIgnore));
}

#[test]
fn ignored_directory_is_excluded_whatever_follows() {
    let rules = vec![Rule::gitignore(), Rule::blocked_extension("keep", None, "txt")];
    let d = entry("/repo/target", EntryKind::Directory, true);
    match evaluate(&rules, &d) {
        RuleOutcome::NeedsIgnoreCheck => assert_eq!(ignore_check_decision(true), Decision::Exclude),
        RuleOutcome::Decided(_) => panic!("the ignore rule should decide"),
    }
}

#[test]
fn walk_defaults_keep_empty_dirs_and_skip_links() {
    let config = WalkConfig::new(default_rules());
    assert!(!config.follow_symlinks);
    assert!(!config.drop_empty_dirs);
    assert_eq!(config.rules.len(), 2);
}
