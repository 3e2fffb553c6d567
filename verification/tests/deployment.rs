use punktf::{Deployment, DeploymentStatus, Item, ItemStatus, Priority};

fn item(path: &str) -> Item {
    Item::new(String::from(path), None, None, None)
}

fn item_with_priority(path: &str, priority: i64) -> Item {
    Item::new(String::from(path), None, Some(Priority::new(priority)), None)
}

#[test]
fn deployment_builder() {
    let builder = Deployment::build();
    let deployment = builder.success();

    assert!(deployment.status().is_success());
    assert!(deployment.duration() >= 0);
}

#[test]
fn deployment_status_constructors() {
    assert!(DeploymentStatus::success().is_success());
    assert!(!DeploymentStatus::success().is_failed());
    let failed = DeploymentStatus::failed(String::from("went wrong"));
    assert!(failed.is_failed());
    assert!(!failed.is_success());
    assert!(matches!(failed, DeploymentStatus::Failed(reason) if reason == "went wrong"));
}

#[test]
fn item_status_constructors() {
    assert!(ItemStatus::success().is_success());
    let failed = ItemStatus::failed(String::from("no permission"));
    assert!(failed.is_failed());
    assert!(matches!(failed, ItemStatus::Failed(reason) if reason == "no permission"));
}

#[test]
fn deployment_status_message() {
    assert_eq!(DeploymentStatus::success().message(), "Success");
    assert_eq!(
        DeploymentStatus::failed(String::from("disk full")).message(),
        "Failed: disk full"
    );
}

#[test]
fn failed_deployment_keeps_reason() {
    let builder = Deployment::build();
    let deployment = builder.failed(String::from("aborted"));
    assert!(deployment.status().is_failed());
    assert!(deployment.time_end() >= deployment.time_start());
}

#[test]
fn get_item_follows_child_chain() {
    let mut builder = Deployment::build();
    builder.add_item(String::from("/t/base"), item("base"), ItemStatus::success());
    builder.add_child(
        String::from("/t/base/x"),
        String::from("/t/base"),
        ItemStatus::success(),
    );
    builder.add_child(
        String::from("/t/base/deep/y"),
        String::from("/t/base/x"),
        ItemStatus::success(),
    );

    let direct = builder.get_item(&String::from("/t/base")).expect("item record");
    assert_eq!(direct.path, "base");
    let via_child = builder.get_item(&String::from("/t/base/x")).expect("one link");
    assert_eq!(via_child.path, "base");
    let via_two = builder.get_item(&String::from("/t/base/deep/y")).expect("two links");
    assert_eq!(via_two.path, "base");
}

#[test]
fn get_item_missing_link_is_none() {
    let mut builder = Deployment::build();
    builder.add_child(
        String::from("/t/orphan"),
        String::from("/t/never-recorded"),
        ItemStatus::success(),
    );
    assert!(builder.get_item(&String::from("/t/orphan")).is_none());
    assert!(builder.get_item(&String::from("/t/unknown")).is_none());
}

#[test]
fn get_item_cyclic_chain_is_none() {
    let mut builder = Deployment::build();
    builder.add_child(String::from("/t/a"), String::from("/t/b"), ItemStatus::success());
    builder.add_child(String::from("/t/b"), String::from("/t/a"), ItemStatus::success());
    assert!(builder.get_item(&String::from("/t/a")).is_none());
    assert!(builder.get_item(&String::from("/t/b")).is_none());
}

#[test]
fn get_deployed_item_needs_every_link_successful() {
    let mut builder = Deployment::build();
    builder.add_item(String::from("/t/base"), item("base"), ItemStatus::success());
    builder.add_child(
        String::from("/t/base/x"),
        String::from("/t/base"),
        ItemStatus::success(),
    );
    builder.add_child(
        String::from("/t/base/bad"),
        String::from("/t/base"),
        ItemStatus::failed(String::from("copy failed")),
    );

    assert!(builder.get_deployed_item(&String::from("/t/base/x")).is_some());
    assert!(builder.get_deployed_item(&String::from("/t/base/bad")).is_none());
    assert!(builder.get_item(&String::from("/t/base/bad")).is_some());
}

#[test]
fn get_deployed_item_failed_root_is_none() {
    let mut builder = Deployment::build();
    builder.add_item(
        String::from("/t/base"),
        item("base"),
        ItemStatus::failed(String::from("mkdir failed")),
    );
    builder.add_child(
        String::from("/t/base/x"),
        String::from("/t/base"),
        ItemStatus::success(),
    );
    assert!(builder.get_deployed_item(&String::from("/t/base/x")).is_none());
    assert!(builder.get_item(&String::from("/t/base/x")).is_some());
}

#[test]
fn priority_and_deployed_queries() {
    let mut builder = Deployment::build();
    builder.add_item(
        String::from("/t/a"),
        item_with_priority("a", 7),
        ItemStatus::success(),
    );
    builder.add_item(
        String::from("/t/b"),
        item("b"),
        ItemStatus::failed(String::from("oops")),
    );

    assert!(builder.contains(&String::from("/t/a")));
    assert!(!builder.contains(&String::from("/t/c")));
    let priority = builder.get_priority(&String::from("/t/a")).expect("deployed");
    assert_eq!(priority.map(|p| p.value), Some(7));
    assert_eq!(builder.is_deployed(&String::from("/t/a")), Some(true));
    assert_eq!(builder.is_deployed(&String::from("/t/b")), Some(false));
    assert_eq!(builder.is_deployed(&String::from("/t/c")), None);
    assert!(builder.get_priority(&String::from("/t/b")).is_none());
}

#[test]
fn later_record_supersedes_earlier() {
    let mut builder = Deployment::build();
    builder.add_item(String::from("/t/a"), item("first"), ItemStatus::success());
    builder.add_item(
        String::from("/t/a"),
        item("second"),
        ItemStatus::failed(String::from("superseded by higher-priority entry")),
    );
    let resolved = builder.get_item(&String::from("/t/a")).expect("record");
    assert_eq!(resolved.path, "second");
    assert_eq!(builder.is_deployed(&String::from("/t/a")), Some(false));
}
