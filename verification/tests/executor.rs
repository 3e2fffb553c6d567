use punktf::{
    Action, DeployedItem, DeployedItemKind, Deployment, Executor, ExecutorOptions, Item,
    ItemStatus, LayeredProfile, MergeAction, MergeStrategy, Priority, SimpleProfile, SourceKind,
};

fn entry(path: &str, target: Option<&str>, priority: Option<i64>, merge: Option<MergeStrategy>) -> Item {
    Item::new(
        String::from(path),
        target.map(String::from),
        priority.map(Priority::new),
        merge,
    )
}

fn effective(target: Option<&str>, dotfiles: Vec<Item>) -> LayeredProfile {
    let mut builder = LayeredProfile::build();
    builder.add(
        String::from("only"),
        SimpleProfile {
            target: target.map(String::from),
            variables: Vec::new(),
            dotfiles,
            imports: Vec::new(),
            pre_hook: None,
            post_hook: None,
        },
    );
    builder.finish()
}

fn strings(values: &[&str]) -> Vec<String> {
    values.iter().map(|s| String::from(*s)).collect()
}

/// The last record written for a target path, which is the one the ledger
/// stands by.
fn record_for<'a>(record: &'a Deployment, path: &str) -> Option<&'a DeployedItem> {
    record.items().iter().rev().find(|(p, _)| p == path).map(|(_, d)| d)
}

fn run(
    profile: &LayeredProfile,
    kinds: Vec<SourceKind>,
    existing: &[&str],
    failures: &[(&str, &str)],
    answers: Vec<MergeAction>,
) -> punktf::DeployOutcome {
    let executor = Executor::new(ExecutorOptions { dry_run: false });
    let failures: Vec<(String, String)> = failures
        .iter()
        .map(|(p, r)| (String::from(*p), String::from(*r)))
        .collect();
    executor.deploy(profile, &kinds, &strings(existing), &failures, &answers)
}

#[test]
fn plain_file_deploys() {
    let profile = effective(Some("/t"), vec![entry("a.conf", None, None, None)]);
    let outcome = run(&profile, vec![SourceKind::File], &[], &[], vec![]);
    assert!(outcome.record.status().is_success());
    assert_eq!(outcome.actions.len(), 1);
    assert!(
        matches!(&outcome.actions[0], Action::WriteFile(target, source) if target == "/t/a.conf" && source == "a.conf")
    );
    let rec = record_for(&outcome.record, "/t/a.conf").expect("recorded");
    assert!(rec.status.is_success());
    assert!(matches!(&rec.kind, DeployedItemKind::Item(it) if it.path == "a.conf"));
}

#[test]
fn missing_target_root_fails_without_actions() {
    let profile = effective(None, vec![entry("a.conf", None, None, None)]);
    let outcome = run(&profile, vec![SourceKind::File], &[], &[], vec![]);
    assert!(outcome.record.status().is_failed());
    assert!(outcome.actions.is_empty());
    assert!(outcome.record.items().is_empty());
}

#[test]
fn higher_priority_first_supersedes_later() {
    // Priorities 5 and 3 for the same path: the priority-5 entry deploys and
    // the priority-3 entry is recorded as superseded.
    let profile = effective(
        Some("/t"),
        vec![
            entry("five.conf", Some("/t/shared"), Some(5), None),
            entry("three.conf", Some("/t/shared"), Some(3), None),
        ],
    );
    let outcome = run(
        &profile,
        vec![SourceKind::File, SourceKind::File],
        &[],
        &[],
        vec![],
    );
    assert!(outcome.record.status().is_success());
    assert_eq!(outcome.actions.len(), 1);
    assert!(
        matches!(&outcome.actions[0], Action::WriteFile(_, source) if source == "five.conf")
    );
    let rec = record_for(&outcome.record, "/t/shared").expect("recorded");
    assert!(matches!(&rec.kind, DeployedItemKind::Item(it) if it.path == "three.conf"));
    assert!(
        matches!(&rec.status, ItemStatus::Failed(reason) if reason == "superseded by higher-priority entry")
    );
}

#[test]
fn higher_priority_later_replaces_earlier() {
    // Declared the other way round, the priority-5 entry still ends up the
    // one deployed: its write comes last and its record stands.
    let profile = effective(
        Some("/t"),
        vec![
            entry("three.conf", Some("/t/shared"), Some(3), None),
            entry("five.conf", Some("/t/shared"), Some(5), None),
        ],
    );
    let outcome = run(
        &profile,
        vec![SourceKind::File, SourceKind::File],
        &[],
        &[],
        vec![],
    );
    assert_eq!(outcome.actions.len(), 2);
    assert!(
        matches!(&outcome.actions[1], Action::WriteFile(_, source) if source == "five.conf")
    );
    let rec = record_for(&outcome.record, "/t/shared").expect("recorded");
    assert!(matches!(&rec.kind, DeployedItemKind::Item(it) if it.path == "five.conf"));
    assert!(rec.status.is_success());
}

#[test]
fn equal_priority_first_declared_wins() {
    let profile = effective(
        Some("/t"),
        vec![
            entry("first.conf", Some("/t/shared"), None, None),
            entry("second.conf", Some("/t/shared"), None, None),
        ],
    );
    let outcome = run(
        &profile,
        vec![SourceKind::File, SourceKind::File],
        &[],
        &[],
        vec![],
    );
    assert_eq!(outcome.actions.len(), 1);
    assert!(
        matches!(&outcome.actions[0], Action::WriteFile(_, source) if source == "first.conf")
    );
    let rec = record_for(&outcome.record, "/t/shared").expect("recorded");
    assert!(matches!(&rec.kind, DeployedItemKind::Item(it) if it.path == "second.conf"));
    assert!(rec.status.is_failed());
}

#[test]
fn directory_expands_into_children() {
    // Directory entry "base" with files x and y: the ledger holds an item
    // record for base's target path and child records for x and y pointing
    // back at it.
    let profile = effective(Some("/t"), vec![entry("base", None, None, None)]);
    let outcome = run(
        &profile,
        vec![SourceKind::Directory(strings(&["x", "y"]))],
        &[],
        &[],
        vec![],
    );
    assert!(outcome.record.status().is_success());
    assert_eq!(outcome.actions.len(), 3);
    assert!(matches!(&outcome.actions[0], Action::CreateDir(target) if target == "/t/base"));
    assert!(
        matches!(&outcome.actions[1], Action::WriteFile(target, source) if target == "/t/base/x" && source == "base/x")
    );
    assert!(
        matches!(&outcome.actions[2], Action::WriteFile(target, source) if target == "/t/base/y" && source == "base/y")
    );
    let parent = record_for(&outcome.record, "/t/base").expect("parent recorded");
    assert!(matches!(&parent.kind, DeployedItemKind::Item(it) if it.path == "base"));
    for child in ["/t/base/x", "/t/base/y"] {
        let rec = record_for(&outcome.record, child).expect("child recorded");
        assert!(rec.status.is_success());
        assert!(matches!(&rec.kind, DeployedItemKind::Child(parent) if parent == "/t/base"));
    }
}

#[test]
fn keep_strategy_skips_existing_target() {
    let profile = effective(
        Some("/t"),
        vec![entry("a.conf", None, None, Some(MergeStrategy::Keep))],
    );
    let outcome = run(&profile, vec![SourceKind::File], &["/t/a.conf"], &[], vec![]);
    assert!(outcome.actions.is_empty());
    let rec = record_for(&outcome.record, "/t/a.conf").expect("recorded");
    assert!(rec.status.is_success());
}

#[test]
fn overwrite_strategy_replaces_existing_target() {
    let profile = effective(
        Some("/t"),
        vec![entry("a.conf", None, None, Some(MergeStrategy::Overwrite))],
    );
    let outcome = run(&profile, vec![SourceKind::File], &["/t/a.conf"], &[], vec![]);
    assert_eq!(outcome.actions.len(), 1);
}

#[test]
fn ask_replace_writes_and_ask_keep_does_not() {
    let profile = effective(
        Some("/t"),
        vec![
            entry("a.conf", None, None, Some(MergeStrategy::Ask)),
            entry("b.conf", None, None, Some(MergeStrategy::Ask)),
        ],
    );
    let outcome = run(
        &profile,
        vec![SourceKind::File, SourceKind::File],
        &["/t/a.conf", "/t/b.conf"],
        &[],
        vec![MergeAction::Replace, MergeAction::Keep],
    );
    assert!(outcome.record.status().is_success());
    assert_eq!(outcome.actions.len(), 1);
    assert!(matches!(&outcome.actions[0], Action::WriteFile(target, _) if target == "/t/a.conf"));
    assert!(record_for(&outcome.record, "/t/b.conf").expect("kept").status.is_success());
}

#[test]
fn abort_all_halts_run_and_keeps_earlier_statuses() {
    let profile = effective(
        Some("/t"),
        vec![
            entry("first.conf", None, None, None),
            entry("asked.conf", None, None, Some(MergeStrategy::Ask)),
            entry("never.conf", None, None, None),
        ],
    );
    let outcome = run(
        &profile,
        vec![SourceKind::File, SourceKind::File, SourceKind::File],
        &["/t/asked.conf"],
        &[],
        vec![MergeAction::AbortAll],
    );
    assert!(outcome.record.status().is_failed());
    assert!(
        matches!(outcome.record.status(), punktf::DeploymentStatus::Failed(reason) if reason == "deployment aborted by user")
    );
    // The entry processed before the abort keeps its status ...
    let first = record_for(&outcome.record, "/t/first.conf").expect("recorded");
    assert!(first.status.is_success());
    // ... and later entries were never processed.
    assert!(record_for(&outcome.record, "/t/never.conf").is_none());
    assert_eq!(outcome.actions.len(), 1);
}

#[test]
fn reported_failure_lands_in_ledger_not_in_status() {
    let profile = effective(
        Some("/t"),
        vec![entry("a.conf", None, None, None), entry("b.conf", None, None, None)],
    );
    let outcome = run(
        &profile,
        vec![SourceKind::File, SourceKind::File],
        &[],
        &[("/t/a.conf", "disk full")],
        vec![],
    );
    // Per-item failures are isolated: the sibling still deploys and the run
    // as a whole is not aborted.
    assert!(outcome.record.status().is_success());
    let failed = record_for(&outcome.record, "/t/a.conf").expect("recorded");
    assert!(matches!(&failed.status, ItemStatus::Failed(reason) if reason == "disk full"));
    let ok = record_for(&outcome.record, "/t/b.conf").expect("recorded");
    assert!(ok.status.is_success());
}

#[test]
fn dry_run_produces_same_ledger_shape() {
    let entries = || {
        vec![
            entry("a.conf", None, None, None),
            entry("base", None, None, None),
            entry("kept.conf", None, None, Some(MergeStrategy::Keep)),
        ]
    };
    let kinds = || {
        vec![
            SourceKind::File,
            SourceKind::Directory(strings(&["x"])),
            SourceKind::File,
        ]
    };
    let profile_dry = effective(Some("/t"), entries());
    let profile_real = effective(Some("/t"), entries());
    let dry = Executor::new(ExecutorOptions { dry_run: true }).deploy(
        &profile_dry,
        &kinds(),
        &strings(&["/t/kept.conf"]),
        &Vec::new(),
        &Vec::new(),
    );
    let real = Executor::new(ExecutorOptions { dry_run: false }).deploy(
        &profile_real,
        &kinds(),
        &strings(&["/t/kept.conf"]),
        &Vec::new(),
        &Vec::new(),
    );
    assert_eq!(dry.record.status().is_success(), real.record.status().is_success());
    assert_eq!(dry.record.items().len(), real.record.items().len());
    for ((dp, dr), (rp, rr)) in dry.record.items().iter().zip(real.record.items().iter()) {
        assert_eq!(dp, rp);
        assert_eq!(dr.status.is_success(), rr.status.is_success());
    }
    assert_eq!(dry.actions.len(), real.actions.len());
}

#[test]
fn exhausted_answers_default_to_keep() {
    let profile = effective(
        Some("/t"),
        vec![entry("a.conf", None, None, Some(MergeStrategy::Ask))],
    );
    let outcome = run(&profile, vec![SourceKind::File], &["/t/a.conf"], &[], vec![]);
    assert!(outcome.actions.is_empty());
    assert!(record_for(&outcome.record, "/t/a.conf").expect("kept").status.is_success());
}
