use inix::collisions::TemplateCollisions;
use inix::prompt::{options_for, InputEvent, Prompt, PromptStep};
use inix::reconcile::{inspect, ConflictBehavior};

fn strings(v: &[&str]) -> Vec<String> {
    v.iter().map(|s| s.to_string()).collect()
}

fn prompt(requested: &[&str], existing: &[&str]) -> Prompt {
    let d = inspect("p/inix".into(), true, &strings(requested), &strings(existing));
    Prompt::for_dir(&d).expect("the directory exists")
}

fn table(c: &TemplateCollisions) -> Vec<(&'static str, &'static str, ConflictBehavior)> {
    options_for(c)
        .iter()
        .map(|o| (o.key, o.short_description, o.conflict_behavior))
        .collect()
}

#[test]
fn no_prompt_for_a_missing_directory() {
    let d = inspect("p/inix".into(), false, &strings(&["rust"]), &strings(&[]));
    assert!(Prompt::for_dir(&d).is_none());
}

#[test]
fn options_without_collisions() {
    assert_eq!(
        table(&TemplateCollisions::Disjoint),
        vec![("A", "merge", ConflictBehavior::MergeKeep), ("B", "overwrite", ConflictBehavior::Overwrite), ("C", "cancel", ConflictBehavior::Cancel)]
    );
}

#[test]
fn options_when_all_collide() {
    let p = prompt(&["rust"], &["rust"]);
    let got: Vec<_> = p.options.iter().map(|o| (o.key, o.short_description, o.conflict_behavior)).collect();
    assert_eq!(
        got,
        vec![("A", "overwrite", ConflictBehavior::Overwrite), ("B", "merge-replace", ConflictBehavior::MergeReplace), ("C", "cancel", ConflictBehavior::Cancel)]
    );
}

#[test]
fn options_when_some_collide() {
    let p = prompt(&["rust", "node"], &["rust"]);
    let got: Vec<_> = p.options.iter().map(|o| (o.key, o.short_description, o.conflict_behavior)).collect();
    assert_eq!(
        got,
        vec![
            ("A", "overwrite", ConflictBehavior::Overwrite),
            ("B", "merge-replace", ConflictBehavior::MergeReplace),
            ("C", "merge-keep", ConflictBehavior::MergeKeep),
            ("D", "cancel", ConflictBehavior::Cancel)
        ]
    );
}

#[test]
fn prompt_renders_text_options_and_labels() {
    let p = prompt(&["rust"], &[]);
    assert_eq!(
        p.render(),
        "The inix directory (\"p/inix\") already exists, but none of the new templates conflict with existing subdirectories.\n\nHow would you like to proceed?\n- A: Merge the two inix directories, adding your new templates to the existing directory? (merge)\n- B: Overwrite the whole directory, removing everything that's in it and replacing it with the new templates? (overwrite)\n- C: Cancel the operation (cancel)\n\nPlease enter exactly one option (one of \"A\", \"B\", and \"C\" [case-insensitive])."
    );
}

#[test]
fn answers_are_case_insensitive_labels() {
    let p = prompt(&["rust", "node"], &["rust"]);
    assert_eq!(p.answer("c"), PromptStep::Choose(ConflictBehavior::MergeKeep));
    assert_eq!(p.answer("C"), PromptStep::Choose(ConflictBehavior::MergeKeep));
    assert_eq!(p.answer("a"), PromptStep::Choose(ConflictBehavior::Overwrite));
    assert_eq!(p.answer("D"), PromptStep::Choose(ConflictBehavior::Cancel));
}

#[test]
fn unknown_answers_are_not_decisions() {
    let p = prompt(&["rust"], &["rust"]);
    assert_eq!(p.answer("D"), PromptStep::Unrecognized);
    assert_eq!(p.answer("AB"), PromptStep::Unrecognized);
    assert_eq!(p.answer(""), PromptStep::Unrecognized);
    assert_eq!(p.answer("overwrite"), PromptStep::Unrecognized);
}

#[test]
fn question_mark_shows_the_options_again() {
    let p = prompt(&["rust"], &[]);
    assert_eq!(p.answer("?"), PromptStep::ShowOptions);
    assert_eq!(p.step(&InputEvent::Line("  ?  ".into())), PromptStep::ShowOptions);
}

#[test]
fn lines_are_trimmed_before_they_are_read() {
    let p = prompt(&["rust"], &[]);
    assert_eq!(p.step(&InputEvent::Line(" b\n".into())), PromptStep::Choose(ConflictBehavior::Overwrite));
    assert_eq!(p.step(&InputEvent::Line("\tA ".into())), PromptStep::Choose(ConflictBehavior::MergeKeep));
}

#[test]
fn closed_input_cancels_and_failures_retry() {
    let p = prompt(&["rust"], &[]);
    assert_eq!(p.step(&InputEvent::Closed), PromptStep::Cancelled);
    assert_eq!(p.step(&InputEvent::Failed), PromptStep::Retry);
}

#[test]
fn unicode_white_space_is_trimmed_too() {
    let p = prompt(&["rust"], &[]);
    assert_eq!(
        p.step(&InputEvent::Line("\u{3000}c\u{a0}\r\n".into())),
        PromptStep::Choose(ConflictBehavior::Cancel)
    );
    assert_eq!(p.step(&InputEvent::Line("c x".into())), PromptStep::Unrecognized);
}
