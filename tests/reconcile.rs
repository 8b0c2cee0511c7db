use inix::collisions::TemplateCollisions;
use inix::reconcile::{decide, inspect, ConflictBehavior, Decision, InixDirState};

fn strings(v: &[&str]) -> Vec<String> {
    v.iter().map(|s| s.to_string()).collect()
}

#[test]
fn default_behavior_is_cancel() {
    assert_eq!(ConflictBehavior::default(), ConflictBehavior::Cancel);
}

#[test]
fn inspect_missing_directory() {
    let d = inspect("p/inix".into(), false, &strings(&["rust"]), &strings(&[]));
    assert_eq!(d.path, "p/inix");
    assert!(matches!(d.state, InixDirState::DoesNotExist));
    assert_eq!(d.conflict_description(), "The inix directory (p/inix) does not exist.");
}

#[test]
fn inspect_existing_directory_descriptions() {
    let d = inspect("p/inix".into(), true, &strings(&["rust"]), &strings(&["node"]));
    assert!(matches!(
        d.state,
        InixDirState::AlreadyExists { template_collisions: TemplateCollisions::Disjoint }
    ));
    assert_eq!(
        d.conflict_description(),
        "The inix directory (\"p/inix\") already exists, but none of the new templates conflict with existing subdirectories."
    );
    let d = inspect("p/inix".into(), true, &strings(&["rust", "node"]), &strings(&["node", "rust"]));
    assert_eq!(
        d.conflict_description(),
        "The inix directory (\"p/inix\") already exists, and it contains all of the templates that you're trying to add (\"rust\" and \"node\")."
    );
    let d = inspect("p/inix".into(), true, &strings(&["rust", "node"]), &strings(&["node"]));
    assert_eq!(
        d.conflict_description(),
        "The inix directory (\"p/inix\") already exists, and the following templates you're trying to add already exist in the inix directory: \"node\"."
    );
}

#[test]
fn explicit_behavior_always_wins() {
    let missing = InixDirState::DoesNotExist;
    assert_eq!(
        decide(&missing, Some(ConflictBehavior::Overwrite)),
        Decision::Explicit(ConflictBehavior::Overwrite)
    );
    let present = InixDirState::AlreadyExists { template_collisions: TemplateCollisions::Disjoint };
    assert_eq!(
        decide(&present, Some(ConflictBehavior::MergeKeep)),
        Decision::Explicit(ConflictBehavior::MergeKeep)
    );
}

#[test]
fn missing_directory_needs_no_prompt() {
    let d = decide(&InixDirState::DoesNotExist, None);
    assert_eq!(d, Decision::NoConflict);
    assert_eq!(d.behavior(), Some(ConflictBehavior::Cancel));
}

#[test]
fn existing_directory_asks_the_user() {
    let present = InixDirState::AlreadyExists { template_collisions: TemplateCollisions::Disjoint };
    let d = decide(&present, None);
    assert_eq!(d, Decision::AskUser);
    assert_eq!(d.behavior(), None);
}
