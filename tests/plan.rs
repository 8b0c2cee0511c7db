use inix::plan::{describe, plan_actions, Action};
use inix::reconcile::{decide, inspect, ConflictBehavior, InixDir};
use inix::render::plan;
use inix::template::{resolve_templates, template_names, Template2, NODE_ENVRC, NODE_SHELL_NIX, RUST_SHELL_NIX};

fn strings(v: &[&str]) -> Vec<String> {
    v.iter().map(|s| s.to_string()).collect()
}

fn builtins(names: &[&str]) -> Vec<Template2> {
    let names = strings(names);
    let found = names.iter().map(|_| None).collect();
    resolve_templates(&names, found).ok().expect("built-in templates")
}

/// Inspects `target/inix`, which exists with the subdirectories `existing`
/// when that is `Some`, against the built-in templates `requested`.
fn setup(target: &str, existing: Option<&[&str]>, requested: &[&str]) -> (InixDir, Vec<Template2>) {
    let templates = builtins(requested);
    let inix = format!("{}/inix", target);
    let dir = match existing {
        Some(subdirs) => inspect(inix, true, &template_names(&templates), &strings(subdirs)),
        None => inspect(inix, false, &template_names(&templates), &strings(&[])),
    };
    (dir, templates)
}

/// The plan's actions, with `N` and `E` standing for the rendered top-level
/// files.
fn actions(target: &str, existing: Option<&[&str]>, requested: &[&str], b: ConflictBehavior) -> Vec<Action> {
    let (dir, templates) = setup(target, existing, requested);
    plan_actions(target, &dir, b, &templates, "N", "E")
}

fn write(path: &str, contents: &str) -> Action {
    Action::WriteFile { path: path.into(), contents: contents.into() }
}

fn create_template(name: &str, path: &str) -> Action {
    Action::CreateTemplate { name: name.into(), path: path.into() }
}

fn base(target: &str) -> Vec<Action> {
    vec![write(&format!("{}/shell.nix", target), "N"), write(&format!("{}/.envrc", target), "E")]
}

fn touches_scaffold(a: &Action) -> bool {
    !matches!(a, Action::WriteFile { path, .. } if !path.contains("/inix"))
}

#[test]
fn scenario_fresh_directory_creates_requested_template() {
    let (dir, templates) = setup("proj", None, &["rust"]);
    let b = decide(&dir.state, None).behavior().unwrap();
    assert_eq!(b, ConflictBehavior::Cancel);
    let got = plan_actions("proj", &dir, b, &templates, "N", "E");
    let mut want = vec![
        Action::CreateScaffold { path: "proj/inix".into() },
        create_template("rust", "proj/inix/rust"),
        write("proj/inix/rust/shell.nix", RUST_SHELL_NIX),
    ];
    want.extend(base("proj"));
    assert_eq!(got, want);
}

#[test]
fn scenario_merge_keep_with_all_colliding_does_nothing() {
    let got = actions("proj", Some(&["node", "rust"]), &["rust"], ConflictBehavior::MergeKeep);
    assert!(got.is_empty());
    let (dir, templates) = setup("proj", Some(&["node", "rust"]), &["rust"]);
    assert!(describe(&dir, ConflictBehavior::MergeKeep, &templates).ends_with("so I will not do anything."));
}

#[test]
fn scenario_merge_keep_adds_only_new_templates() {
    let got = actions("proj", Some(&["node"]), &["node", "rust"], ConflictBehavior::MergeKeep);
    let mut want = vec![create_template("rust", "proj/inix/rust"), write("proj/inix/rust/shell.nix", RUST_SHELL_NIX)];
    want.extend(base("proj"));
    assert_eq!(got, want);
}

#[test]
fn scenario_overwrite_recreates_the_directory() {
    let got = actions("proj", Some(&["node"]), &["node"], ConflictBehavior::Overwrite);
    let mut want = vec![
        Action::RemoveScaffold { path: "proj/inix".into() },
        Action::CreateScaffold { path: "proj/inix".into() },
        create_template("node", "proj/inix/node"),
        write("proj/inix/node/.envrc", NODE_ENVRC),
        write("proj/inix/node/shell.nix", NODE_SHELL_NIX),
    ];
    want.extend(base("proj"));
    assert_eq!(got, want);
}

#[test]
fn scenario_empty_request_never_destroys_the_directory() {
    let got = actions("proj", Some(&["template"]), &[], ConflictBehavior::Overwrite);
    assert_eq!(got, base("proj"));
}

#[test]
fn merge_replace_removes_colliding_templates_first() {
    let got = actions("proj", Some(&["node", "go"]), &["node", "rust"], ConflictBehavior::MergeReplace);
    let mut want = vec![
        Action::RemoveTemplate { name: "node".into(), path: "proj/inix/node".into() },
        create_template("node", "proj/inix/node"),
        write("proj/inix/node/.envrc", NODE_ENVRC),
        write("proj/inix/node/shell.nix", NODE_SHELL_NIX),
        create_template("rust", "proj/inix/rust"),
        write("proj/inix/rust/shell.nix", RUST_SHELL_NIX),
    ];
    want.extend(base("proj"));
    assert_eq!(got, want);
}

#[test]
fn cancel_on_existing_directory_twice_changes_nothing() {
    for _ in 0..2 {
        let got = actions("proj", Some(&["node"]), &["node", "rust"], ConflictBehavior::Cancel);
        assert!(got.is_empty());
    }
}

#[test]
fn explicit_behavior_on_missing_directory_still_creates() {
    let got = actions("proj", None, &["node"], ConflictBehavior::Overwrite);
    assert_eq!(got[0], Action::CreateScaffold { path: "proj/inix".into() });
    assert!(!got.iter().any(|a| matches!(a, Action::RemoveScaffold { .. })));
}

#[test]
fn it_works_without_provided_templates() {
    let got = actions("tmp", None, &[], ConflictBehavior::Cancel);
    assert_eq!(got, base("tmp"));
    assert!(!got.iter().any(touches_scaffold));
}

#[test]
fn it_creates_files() {
    for requested in [&["rust", "node"][..], &["node"][..]] {
        let got = actions("my/project", None, requested, ConflictBehavior::Cancel);
        for file in ["my/project/shell.nix", "my/project/.envrc", "my/project/inix/node/shell.nix", "my/project/inix/node/.envrc"] {
            assert!(
                got.iter().any(|a| matches!(a, Action::WriteFile { path, .. } if path == file)),
                "the file \"{}\" is not written",
                file
            );
        }
    }
}

#[test]
fn merge_replace() {
    for existing in [&[][..], &["node"][..], &["rust"][..], &["node", "rust"][..]] {
        let got = actions("tmp", Some(existing), &["node"], ConflictBehavior::MergeReplace);
        for file in ["tmp/inix/node/shell.nix", "tmp/inix/node/.envrc"] {
            assert!(got.iter().any(|a| matches!(a, Action::WriteFile { path, .. } if path == file)));
        }
        let created: Vec<_> = got.iter().filter(|a| matches!(a, Action::CreateTemplate { .. })).collect();
        assert_eq!(created.len(), 1);
        assert!(!got.iter().any(|a| matches!(a, Action::RemoveScaffold { .. })));
    }
}

#[test]
fn it_overwrites_files() {
    for existing in [&[][..], &["abc", "node"][..], &["x1", "Y2", "z3"][..]] {
        let got = actions("tmp", Some(existing), &["node"], ConflictBehavior::Overwrite);
        assert_eq!(got[0], Action::RemoveScaffold { path: "tmp/inix".into() });
        assert_eq!(got[1], Action::CreateScaffold { path: "tmp/inix".into() });
        let created: Vec<_> = got.iter().filter(|a| matches!(a, Action::CreateTemplate { .. })).collect();
        assert_eq!(created, vec![&create_template("node", "tmp/inix/node")]);
    }
}

#[test]
fn it_doesnt_overwrite_inix_dir_if_it_has_nothing_to_write() {
    let got = actions("tmp", Some(&["template"]), &[], ConflictBehavior::Overwrite);
    assert!(!got.iter().any(touches_scaffold));
}

#[test]
fn describe_fresh_directory() {
    let (dir, templates) = setup("proj", None, &["rust", "node"]);
    assert_eq!(
        describe(&dir, ConflictBehavior::Cancel, &templates),
        "So here's the plan:\nI will create the \"proj/inix\" directory.\nI will then add the \"rust\" and \"node\" template(s) to that directory.\nIf the directory were to be created in the meantime, I would \"cancel the operation and exit\".\nI will also write the project's shell.nix and .envrc files."
    );
}

#[test]
fn describe_merge_keep_lists_only_new_templates() {
    let (dir, templates) = setup("proj", Some(&["node"]), &["node", "rust"]);
    assert_eq!(
        describe(&dir, ConflictBehavior::MergeKeep, &templates),
        "So here's the plan:\nThe inix directory (\"proj/inix\") already exists, and the following templates you're trying to add already exist in the inix directory: \"node\".\nBecause you have chosen the merge (keep) option, I will merge the old and the new directories. These new templates will be added: \"rust\"\nI will also write the project's shell.nix and .envrc files."
    );
}

#[test]
fn describe_cancel_and_overwrite() {
    let (dir, templates) = setup("proj", Some(&["node"]), &["node"]);
    assert_eq!(
        describe(&dir, ConflictBehavior::Cancel, &templates),
        "So here's the plan:\nThe inix directory (\"proj/inix\") already exists, and it contains all of the templates that you're trying to add (\"node\").\nBecause you have chosen the cancel option and the inix directory (\"proj/inix\") already exists, I will not do anything."
    );
    assert!(describe(&dir, ConflictBehavior::Overwrite, &templates).contains(
        "I will delete the existing directory (\"proj/inix\") and recreate it with the templates you have chosen (\"node\")."
    ));
}

#[test]
fn describe_merge_replace_names_overwritten_and_added() {
    let (dir, templates) = setup("proj", Some(&["node"]), &["node", "rust"]);
    assert!(describe(&dir, ConflictBehavior::MergeReplace, &templates).contains(
        "These templates will be overwritten: \"node\". When I'm done, all these templates will have been added or updated: \"node\" and \"rust\""
    ));
}

#[test]
fn describe_empty_request() {
    let (dir, templates) = setup("proj", Some(&["node"]), &[]);
    assert!(describe(&dir, ConflictBehavior::Overwrite, &templates)
        .contains("There are no templates to add, so I will leave the inix directory as it is."));
}

#[test]
fn plan_renders_top_level_files_with_template_names() {
    let (dir, templates) = setup("proj", None, &["rust", "node"]);
    let got = plan("proj", &dir, ConflictBehavior::Cancel, &templates).ok().expect("renders");
    let n = got.len();
    match (&got[n - 2], &got[n - 1]) {
        (Action::WriteFile { path: p1, contents: nix }, Action::WriteFile { path: p2, contents: envrc }) => {
            assert_eq!(p1, "proj/shell.nix");
            assert_eq!(p2, "proj/.envrc");
            assert!(nix.contains("./inix/rust/shell.nix") && nix.contains("./inix/node/shell.nix"));
            assert!(envrc.contains("source_env_if_exists ./inix/node/.envrc"));
            assert!(!nix.contains("{{") && !envrc.contains("{{"));
        }
        other => panic!("unexpected {:?}", other),
    }
}

#[test]
fn merge_replace_removes_a_repeated_template_once() {
    let got = actions("proj", Some(&["node"]), &["node", "node"], ConflictBehavior::MergeReplace);
    let removals: Vec<_> = got.iter().filter(|a| matches!(a, Action::RemoveTemplate { .. })).collect();
    assert_eq!(removals, vec![&Action::RemoveTemplate { name: "node".into(), path: "proj/inix/node".into() }]);
    let (dir, templates) = setup("proj", Some(&["node"]), &["node", "node"]);
    assert!(describe(&dir, ConflictBehavior::MergeReplace, &templates)
        .contains("and I will overwrite all of them: \"node\"\n"));
}
