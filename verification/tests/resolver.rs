use punktf::{Item, LayeredProfile, ResolutionError, SimpleProfile, resolve_profile};

fn profile(
    target: Option<&str>,
    variables: &[(&str, &str)],
    dotfiles: &[&str],
    imports: &[&str],
) -> SimpleProfile {
    SimpleProfile {
        target: target.map(String::from),
        variables: variables
            .iter()
            .map(|(k, v)| (String::from(*k), String::from(*v)))
            .collect(),
        dotfiles: dotfiles
            .iter()
            .map(|p| Item::new(String::from(*p), None, None, None))
            .collect(),
        imports: imports.iter().map(|n| String::from(*n)).collect(),
        pre_hook: None,
        post_hook: None,
    }
}

#[test]
fn cli_target_wins_over_profile_and_environment() {
    // Profile chain: cli(target=/a), windows(imports=[base]), env(target=/c),
    // with base defining no target: the effective target is /a.
    let sources = vec![
        (
            String::from("windows"),
            profile(Some("/b"), &[], &["win.conf"], &["base"]),
        ),
        (String::from("base"), profile(None, &[], &["base.conf"], &[])),
    ];
    let mut builder = LayeredProfile::build();
    builder.add(String::from("target_cli_argument"), profile(Some("/a"), &[], &[], &[]));
    resolve_profile(&mut builder, &sources, &String::from("windows")).expect("resolves");
    builder.add(
        String::from("target_environment_variable"),
        profile(Some("/c"), &[], &[], &[]),
    );
    let effective = builder.finish();
    assert_eq!(effective.target_path().map(String::as_str), Some("/a"));
}

#[test]
fn profile_target_used_when_cli_absent() {
    let sources = vec![(String::from("linux"), profile(Some("/home"), &[], &[], &[]))];
    let mut builder = LayeredProfile::build();
    builder.add(String::from("target_cli_argument"), profile(None, &[], &[], &[]));
    resolve_profile(&mut builder, &sources, &String::from("linux")).expect("resolves");
    builder.add(
        String::from("target_environment_variable"),
        profile(Some("/env"), &[], &[], &[]),
    );
    let effective = builder.finish();
    assert_eq!(effective.target_path().map(String::as_str), Some("/home"));
}

#[test]
fn higher_layer_variable_never_overwritten() {
    let sources = vec![
        (
            String::from("top"),
            profile(Some("/t"), &[("OS", "windows"), ("EDITOR", "code")], &[], &["base"]),
        ),
        (
            String::from("base"),
            profile(None, &[("OS", "linux"), ("SHELL", "bash")], &[], &[]),
        ),
    ];
    let mut builder = LayeredProfile::build();
    resolve_profile(&mut builder, &sources, &String::from("top")).expect("resolves");
    let effective = builder.finish();
    // A key of the higher-priority layer keeps its value ...
    assert_eq!(
        effective.variable(&String::from("OS")).map(String::as_str),
        Some("windows")
    );
    assert_eq!(
        effective.variable(&String::from("EDITOR")).map(String::as_str),
        Some("code")
    );
    // ... and undefined keys are filled from the next layer.
    assert_eq!(
        effective.variable(&String::from("SHELL")).map(String::as_str),
        Some("bash")
    );
    assert_eq!(effective.variable(&String::from("UNSET")), None);
}

#[test]
fn imported_profile_layers_below_importer() {
    let sources = vec![
        (String::from("top"), profile(None, &[], &["top.conf"], &["mid"])),
        (String::from("mid"), profile(Some("/mid"), &[], &["mid.conf"], &["leaf"])),
        (String::from("leaf"), profile(Some("/leaf"), &[], &["leaf.conf"], &[])),
    ];
    let mut builder = LayeredProfile::build();
    resolve_profile(&mut builder, &sources, &String::from("top")).expect("resolves");
    let effective = builder.finish();
    // The importer has no target, so the first imported profile's wins.
    assert_eq!(effective.target_path().map(String::as_str), Some("/mid"));
    let paths: Vec<&str> = effective.dotfiles().iter().map(|i| i.path.as_str()).collect();
    assert_eq!(paths, vec!["top.conf", "mid.conf", "leaf.conf"]);
}

#[test]
fn duplicate_entries_are_deduplicated() {
    let sources = vec![
        (String::from("top"), profile(Some("/t"), &[], &["shared.conf", "own.conf"], &["base"])),
        (String::from("base"), profile(None, &[], &["shared.conf"], &[])),
    ];
    let mut builder = LayeredProfile::build();
    resolve_profile(&mut builder, &sources, &String::from("top")).expect("resolves");
    let effective = builder.finish();
    let paths: Vec<&str> = effective.dotfiles().iter().map(|i| i.path.as_str()).collect();
    assert_eq!(paths, vec!["shared.conf", "own.conf"]);
}

#[test]
fn unknown_profile_is_not_found() {
    let sources = vec![(String::from("base"), profile(None, &[], &[], &[]))];
    let mut builder = LayeredProfile::build();
    let err = resolve_profile(&mut builder, &sources, &String::from("missing")).unwrap_err();
    assert!(matches!(err, ResolutionError::NotFound(name) if name == "missing"));
}

#[test]
fn missing_import_is_not_found() {
    let sources = vec![(String::from("top"), profile(None, &[], &[], &["ghost"]))];
    let mut builder = LayeredProfile::build();
    let err = resolve_profile(&mut builder, &sources, &String::from("top")).unwrap_err();
    assert!(matches!(err, ResolutionError::NotFound(name) if name == "ghost"));
}

#[test]
fn import_cycle_is_detected() {
    let sources = vec![
        (String::from("a"), profile(None, &[], &[], &["b"])),
        (String::from("b"), profile(None, &[], &[], &["a"])),
    ];
    let mut builder = LayeredProfile::build();
    let err = resolve_profile(&mut builder, &sources, &String::from("a")).unwrap_err();
    assert!(matches!(err, ResolutionError::Cycle(name) if name == "a"));
}

#[test]
fn self_import_is_a_cycle() {
    let sources = vec![(String::from("me"), profile(None, &[], &[], &["me"]))];
    let mut builder = LayeredProfile::build();
    let err = resolve_profile(&mut builder, &sources, &String::from("me")).unwrap_err();
    assert!(matches!(err, ResolutionError::Cycle(name) if name == "me"));
}

#[test]
fn diamond_import_is_no_cycle() {
    let sources = vec![
        (String::from("top"), profile(None, &[], &[], &["left", "right"])),
        (String::from("left"), profile(None, &[], &["l.conf"], &["shared"])),
        (String::from("right"), profile(None, &[], &["r.conf"], &["shared"])),
        (String::from("shared"), profile(None, &[], &["s.conf"], &[])),
    ];
    let mut builder = LayeredProfile::build();
    resolve_profile(&mut builder, &sources, &String::from("top")).expect("diamond resolves");
    let effective = builder.finish();
    let paths: Vec<&str> = effective.dotfiles().iter().map(|i| i.path.as_str()).collect();
    assert_eq!(paths, vec!["l.conf", "s.conf", "r.conf"]);
}

#[test]
fn hooks_merge_first_defined() {
    let mut top = profile(Some("/t"), &[], &[], &["base"]);
    top.post_hook = Some(String::from("top-post"));
    let mut base = profile(None, &[], &[], &[]);
    base.pre_hook = Some(String::from("base-pre"));
    base.post_hook = Some(String::from("base-post"));
    let sources = vec![(String::from("top"), top), (String::from("base"), base)];
    let mut builder = LayeredProfile::build();
    resolve_profile(&mut builder, &sources, &String::from("top")).expect("resolves");
    let effective = builder.finish();
    assert_eq!(effective.pre_hook().map(String::as_str), Some("base-pre"));
    assert_eq!(effective.post_hook().map(String::as_str), Some("top-post"));
}

#[test]
fn invalid_error_keeps_detail() {
    let err = ResolutionError::Invalid(String::from("bad yaml at line 3"));
    assert!(matches!(err, ResolutionError::Invalid(detail) if detail.contains("line 3")));
}
