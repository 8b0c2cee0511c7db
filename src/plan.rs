use vstd::prelude::*;

use crate::collisions::{contains_name, distinct, distinct_names, names_of, TemplateCollisions};
use crate::reconcile::{conflict_text, ConflictBehavior, InixDir, InixDirState};
use crate::template::{file_list, template_names_of, Template2};
use crate::text::{combine_strings, combined, join_path, path_join};

verus! {

/// One filesystem step of a plan, as a value.
pub enum Step {
    RemoveScaffold(Seq<char>),
    CreateScaffold(Seq<char>),
    /// A template's subdirectory: the template's name, then the path.
    RemoveTemplate(Seq<char>, Seq<char>),
    CreateTemplate(Seq<char>, Seq<char>),
    /// A file's path, then its contents.
    WriteFile(Seq<char>, Seq<char>),
}

/// One filesystem step of a plan. Removing a directory removes it with
/// everything inside; creating one creates its missing parents too.
#[derive(Clone, Debug, PartialEq, Eq)]
pub enum Action {
    RemoveScaffold { path: String },
    CreateScaffold { path: String },
    RemoveTemplate { name: String, path: String },
    CreateTemplate { name: String, path: String },
    WriteFile { path: String, contents: String },
}

impl View for Action {
    type V = Step;

    open spec fn view(&self) -> Step {
        match self {
            Action::RemoveScaffold { path } => Step::RemoveScaffold(path@),
            Action::CreateScaffold { path } => Step::CreateScaffold(path@),
            Action::RemoveTemplate { name, path } => Step::RemoveTemplate(name@, path@),
            Action::CreateTemplate { name, path } => Step::CreateTemplate(name@, path@),
            Action::WriteFile { path, contents } => Step::WriteFile(path@, contents@),
        }
    }
}

/// What a plan does to the scaffold directory: whether it removes it,
/// whether it creates it, which template subdirectories it removes and
/// which it creates, and whether it does nothing at all.
#[verifier::ext_equal]
pub struct Effects {
    pub removes_scaffold: bool,
    pub creates_scaffold: bool,
    pub removed: Seq<Seq<char>>,
    pub created: Seq<Seq<char>>,
    pub idle: bool,
}

/// Whether the run writes nothing at all: the user cancelled on an existing
/// directory, or chose to keep a directory that already holds every
/// requested template.
pub open spec fn is_noop(state: InixDirState, b: ConflictBehavior) -> bool {
    match state {
        InixDirState::DoesNotExist => false,
        InixDirState::AlreadyExists { template_collisions } => b == ConflictBehavior::Cancel || (b
            == ConflictBehavior::MergeKeep && template_collisions is All),
    }
}

/// Whether the template called `name` is written.
pub open spec fn writes_template(state: InixDirState, b: ConflictBehavior, name: Seq<char>) -> bool {
    match state {
        InixDirState::DoesNotExist => true,
        InixDirState::AlreadyExists { template_collisions } => match b {
            ConflictBehavior::Overwrite => true,
            ConflictBehavior::MergeReplace => true,
            ConflictBehavior::Cancel => false,
            ConflictBehavior::MergeKeep => match template_collisions {
                TemplateCollisions::Disjoint => true,
                TemplateCollisions::All(_) => false,
                TemplateCollisions::Partial(_) => !template_collisions.names().contains(name),
            },
        },
    }
}

/// The names, in order, of the templates that are written.
pub open spec fn kept_names(names: Seq<Seq<char>>, state: InixDirState, b: ConflictBehavior) -> Seq<
    Seq<char>,
>
    decreases names.len(),
{
    if names.len() == 0 {
        Seq::empty()
    } else {
        let rest = kept_names(names.drop_last(), state, b);
        if writes_template(state, b, names.last()) {
            rest.push(names.last())
        } else {
            rest
        }
    }
}

/// The templates, in order, that are written.
pub open spec fn kept(templates: Seq<Template2>, state: InixDirState, b: ConflictBehavior) -> Seq<
    Template2,
>
    decreases templates.len(),
{
    if templates.len() == 0 {
        Seq::empty()
    } else {
        let rest = kept(templates.drop_last(), state, b);
        if writes_template(state, b, templates.last().name@) {
            rest.push(templates.last())
        } else {
            rest
        }
    }
}

/// What a run does to the scaffold directory, for the requested names. A
/// template subdirectory that is replaced is removed once, however often
/// its name was requested.
/// With nothing requested the directory is left alone: it is neither
/// created nor removed.
pub open spec fn intended(state: InixDirState, b: ConflictBehavior, names: Seq<Seq<char>>) -> Effects {
    Effects {
        removes_scaffold: names.len() > 0 && state is AlreadyExists && b == ConflictBehavior::Overwrite,
        creates_scaffold: names.len() > 0 && !is_noop(state, b) && (state is DoesNotExist || b
            == ConflictBehavior::Overwrite),
        removed: if names.len() > 0 && state is AlreadyExists && b == ConflictBehavior::MergeReplace {
            distinct(state->template_collisions.names())
        } else {
            Seq::empty()
        },
        created: kept_names(names, state, b),
        idle: is_noop(state, b),
    }
}

/// The steps that remove the named template subdirectories.
pub open spec fn removals(inix: Seq<char>, names: Seq<Seq<char>>) -> Seq<Step>
    decreases names.len(),
{
    if names.len() == 0 {
        Seq::empty()
    } else {
        removals(inix, names.drop_last()).push(
            Step::RemoveTemplate(names.last(), join_path(inix, names.last())),
        )
    }
}

/// The steps that write one template's files into its subdirectory.
pub open spec fn file_steps(dir: Seq<char>, files: Seq<(Seq<char>, Seq<char>)>) -> Seq<Step> {
    files.map_values(|f: (Seq<char>, Seq<char>)| Step::WriteFile(join_path(dir, f.0), f.1))
}

/// The steps that create one template's subdirectory and write its files.
pub open spec fn template_steps(inix: Seq<char>, t: Template2) -> Seq<Step> {
    let dir = join_path(inix, t.name@);
    seq![Step::CreateTemplate(t.name@, dir)] + file_steps(dir, file_list(t.files))
}

/// The steps that write the templates, one after the other.
pub open spec fn writes(inix: Seq<char>, templates: Seq<Template2>) -> Seq<Step>
    decreases templates.len(),
{
    if templates.len() == 0 {
        Seq::empty()
    } else {
        writes(inix, templates.drop_last()) + template_steps(inix, templates.last())
    }
}

/// The steps that write the project's top-level `shell.nix` and `.envrc`.
pub open spec fn base_steps(target: Seq<char>, nix: Seq<char>, envrc: Seq<char>) -> Seq<Step> {
    seq![
        Step::WriteFile(join_path(target, "shell.nix"@), nix),
        Step::WriteFile(join_path(target, ".envrc"@), envrc),
    ]
}

/// The plan: remove the scaffold directory where it is overwritten, create
/// it where needed, remove the template subdirectories that are replaced,
/// write the templates, and last write the top-level files (unless the run
/// does nothing).
pub open spec fn planned(
    inix: Seq<char>,
    target: Seq<char>,
    state: InixDirState,
    b: ConflictBehavior,
    templates: Seq<Template2>,
    nix: Seq<char>,
    envrc: Seq<char>,
) -> Seq<Step> {
    let e = intended(state, b, template_names_of(templates));
    (if e.removes_scaffold {
        seq![Step::RemoveScaffold(inix)]
    } else {
        Seq::empty()
    }) + (if e.creates_scaffold {
        seq![Step::CreateScaffold(inix)]
    } else {
        Seq::empty()
    }) + removals(inix, e.removed) + writes(inix, kept(templates, state, b)) + (if e.idle {
        Seq::empty()
    } else {
        base_steps(target, nix, envrc)
    })
}

} // verus!

verus! {

/// The steps of a sequence of actions.
pub open spec fn steps_of(v: Seq<Action>) -> Seq<Step> {
    v.map_values(|a: Action| a@)
}

fn push_action(acts: &mut Vec<Action>, a: Action)
    ensures
        steps_of(final(acts)@) == steps_of(old(acts)@).push(a@),
{
    acts.push(a);
    assert(steps_of(acts@) =~= steps_of(old(acts)@).push(a@));
}

fn push_removals(acts: &mut Vec<Action>, inix: &str, names: &Vec<String>)
    ensures
        steps_of(final(acts)@) == steps_of(old(acts)@) + removals(inix@, names_of(names@)),
{
    let ghost start = steps_of(acts@);
    let ghost all = names_of(names@);
    let mut i: usize = 0;
    while i < names.len()
        invariant
            i <= names.len(),
            all == names_of(names@),
            steps_of(acts@) == start + removals(inix@, all.subrange(0, i as int)),
        decreases names.len() - i,
    {
        let path = path_join(inix, names[i].as_str());
        push_action(acts, Action::RemoveTemplate { name: names[i].clone(), path });
        assert(all.subrange(0, i + 1).drop_last() =~= all.subrange(0, i as int));
        assert(all.subrange(0, i + 1).last() == names@[i as int]@);
        i += 1;
    }
    assert(all.subrange(0, i as int) =~= all);
}

fn push_template(acts: &mut Vec<Action>, inix: &str, t: &Template2)
    ensures
        steps_of(final(acts)@) == steps_of(old(acts)@) + template_steps(inix@, *t),
{
    let ghost start = steps_of(acts@);
    let dir = path_join(inix, t.name.as_str());
    push_action(acts, Action::CreateTemplate { name: t.name.clone(), path: dir.clone() });
    let files = t.files();
    let ghost fl = file_list(t.files);
    let ghost fs = file_steps(dir@, fl);
    let mut j: usize = 0;
    while j < files.len()
        invariant
            j <= files.len(),
            files@.map_values(|p: (&str, &str)| (p.0@, p.1@)) == fl,
            fs == file_steps(dir@, fl),
            steps_of(acts@) == start + seq![Step::CreateTemplate(t.name@, dir@)] + fs.subrange(
                0,
                j as int,
            ),
        decreases files.len() - j,
    {
        let (f, c) = files[j];
        assert(fl[j as int] == (f@, c@));
        let path = path_join(dir.as_str(), f);
        let ghost before = steps_of(acts@);
        push_action(acts, Action::WriteFile { path, contents: String::from_str(c) });
        assert(fs.subrange(0, j + 1) =~= fs.subrange(0, j as int).push(fs[j as int]));
        j += 1;
    }
    assert(fs.subrange(0, j as int) =~= fs);
    assert(steps_of(acts@) =~= start + template_steps(inix@, *t));
}

fn is_noop_exec(state: &InixDirState, b: ConflictBehavior) -> (r: bool)
    ensures
        r == is_noop(*state, b),
{
    match state {
        InixDirState::DoesNotExist => false,
        InixDirState::AlreadyExists { template_collisions } => b == ConflictBehavior::Cancel || (b
            == ConflictBehavior::MergeKeep && match template_collisions {
            TemplateCollisions::All(_) => true,
            _ => false,
        }),
    }
}

fn writes_template_exec(state: &InixDirState, b: ConflictBehavior, name: &String) -> (r: bool)
    ensures
        r == writes_template(*state, b, name@),
{
    match state {
        InixDirState::DoesNotExist => true,
        InixDirState::AlreadyExists { template_collisions } => match b {
            ConflictBehavior::Overwrite => true,
            ConflictBehavior::MergeReplace => true,
            ConflictBehavior::Cancel => false,
            ConflictBehavior::MergeKeep => match template_collisions {
                TemplateCollisions::Disjoint => true,
                TemplateCollisions::All(_) => false,
                TemplateCollisions::Partial(_) => !contains_name(
                    &template_collisions.colliding_names(),
                    name,
                ),
            },
        },
    }
}

/// The actions that carry out a run: `dir` is the scaffold directory as
/// inspected, `target` the project directory, `templates` the requested
/// templates, and `nix` and `envrc` the rendered top-level files.
pub fn plan_actions(
    target: &str,
    dir: &InixDir,
    b: ConflictBehavior,
    templates: &Vec<Template2>,
    nix: &str,
    envrc: &str,
) -> (r: Vec<Action>)
    ensures
        steps_of(r@) == planned(dir.path@, target@, dir.state, b, templates@, nix@, envrc@),
{
    let ghost e = intended(dir.state, b, template_names_of(templates@));
    let inix = dir.path.as_str();
    let n = templates.len();
    let noop = is_noop_exec(&dir.state, b);
    let present = match &dir.state {
        InixDirState::DoesNotExist => false,
        InixDirState::AlreadyExists { .. } => true,
    };
    assert(template_names_of(templates@).len() == n);
    let mut acts: Vec<Action> = Vec::new();
    assert(steps_of(acts@) =~= Seq::empty());
    if n > 0 && present && b == ConflictBehavior::Overwrite {
        push_action(&mut acts, Action::RemoveScaffold { path: dir.path.clone() });
    }
    if n > 0 && !noop && (!present || b == ConflictBehavior::Overwrite) {
        push_action(&mut acts, Action::CreateScaffold { path: dir.path.clone() });
    }
    let ghost head = steps_of(acts@);
    assert(head =~= (if e.removes_scaffold {
        seq![Step::RemoveScaffold(dir.path@)]
    } else {
        Seq::empty()
    }) + (if e.creates_scaffold {
        seq![Step::CreateScaffold(dir.path@)]
    } else {
        Seq::empty()
    }));
    let replaced: Vec<String> = match &dir.state {
        InixDirState::AlreadyExists { template_collisions } => {
            if n > 0 && b == ConflictBehavior::MergeReplace {
                distinct_names(&template_collisions.colliding_names())
            } else {
                Vec::new()
            }
        },
        InixDirState::DoesNotExist => Vec::new(),
    };
    assert(names_of(replaced@) =~= e.removed);
    push_removals(&mut acts, inix, &replaced);
    let ghost mid = steps_of(acts@);
    let mut i: usize = 0;
    while i < n
        invariant
            i <= n,
            n == templates.len(),
            inix@ == dir.path@,
            steps_of(acts@) == mid + writes(inix@, kept(templates@.subrange(0, i as int), dir.state, b)),
        decreases n - i,
    {
        let ghost pre = templates@.subrange(0, i as int);
        let ghost next = templates@.subrange(0, i + 1);
        assert(next.drop_last() =~= pre);
        assert(next.last() == templates@[i as int]);
        if writes_template_exec(&dir.state, b, &templates[i].name) {
            push_template(&mut acts, inix, &templates[i]);
            let ghost k = kept(next, dir.state, b);
            assert(k.drop_last() =~= kept(pre, dir.state, b));
            assert(steps_of(acts@) =~= mid + writes(inix@, kept(next, dir.state, b)));
        }
        i += 1;
    }
    assert(templates@.subrange(0, n as int) =~= templates@);
    if !noop {
        push_action(
            &mut acts,
            Action::WriteFile { path: path_join(target, "shell.nix"), contents: String::from_str(nix) },
        );
        push_action(
            &mut acts,
            Action::WriteFile { path: path_join(target, ".envrc"), contents: String::from_str(envrc) },
        );
    }
    assert(steps_of(acts@) =~= planned(dir.path@, target@, dir.state, b, templates@, nix@, envrc@));
    acts
}

} // verus!

verus! {

/// Effects from their parts.
pub open spec fn effects(
    removes_scaffold: bool,
    creates_scaffold: bool,
    removed: Seq<Seq<char>>,
    created: Seq<Seq<char>>,
    idle: bool,
) -> Effects {
    Effects { removes_scaffold, creates_scaffold, removed, created, idle }
}

/// The effects of an empty plan.
pub open spec fn no_effects() -> Effects {
    Effects {
        removes_scaffold: false,
        creates_scaffold: false,
        removed: Seq::empty(),
        created: Seq::empty(),
        idle: true,
    }
}

/// The effects of `e` followed by one more step.
pub open spec fn after(e: Effects, s: Step) -> Effects {
    match s {
        Step::RemoveScaffold(_) => Effects {
            removes_scaffold: true,
            creates_scaffold: e.creates_scaffold,
            removed: e.removed,
            created: e.created,
            idle: false,
        },
        Step::CreateScaffold(_) => Effects {
            removes_scaffold: e.removes_scaffold,
            creates_scaffold: true,
            removed: e.removed,
            created: e.created,
            idle: false,
        },
        Step::RemoveTemplate(n, _) => Effects {
            removes_scaffold: e.removes_scaffold,
            creates_scaffold: e.creates_scaffold,
            removed: e.removed.push(n),
            created: e.created,
            idle: false,
        },
        Step::CreateTemplate(n, _) => Effects {
            removes_scaffold: e.removes_scaffold,
            creates_scaffold: e.creates_scaffold,
            removed: e.removed,
            created: e.created.push(n),
            idle: false,
        },
        Step::WriteFile(..) => Effects {
            removes_scaffold: e.removes_scaffold,
            creates_scaffold: e.creates_scaffold,
            removed: e.removed,
            created: e.created,
            idle: false,
        },
    }
}

/// What a sequence of steps does, read off the steps themselves.
pub open spec fn effects_of(steps: Seq<Step>) -> Effects
    decreases steps.len(),
{
    if steps.len() == 0 {
        no_effects()
    } else {
        after(effects_of(steps.drop_last()), steps.last())
    }
}

/// The effects of one plan followed by another.
pub open spec fn merged(a: Effects, b: Effects) -> Effects {
    Effects {
        removes_scaffold: a.removes_scaffold || b.removes_scaffold,
        creates_scaffold: a.creates_scaffold || b.creates_scaffold,
        removed: a.removed + b.removed,
        created: a.created + b.created,
        idle: a.idle && b.idle,
    }
}

proof fn lemma_effects_concat(x: Seq<Step>, y: Seq<Step>)
    ensures
        effects_of(x + y) =~= merged(effects_of(x), effects_of(y)),
    decreases y.len(),
{
    if y.len() == 0 {
        assert(x + y =~= x);
    } else {
        lemma_effects_concat(x, y.drop_last());
        assert((x + y).drop_last() =~= x + y.drop_last());
        assert((x + y).last() == y.last());
        let a = effects_of(x);
        let b = effects_of(y.drop_last());
        assert(a.removed + b.removed.push(y.last()->RemoveTemplate_0) =~= (a.removed
            + b.removed).push(y.last()->RemoveTemplate_0));
        assert(a.created + b.created.push(y.last()->CreateTemplate_0) =~= (a.created
            + b.created).push(y.last()->CreateTemplate_0));
    }
}

proof fn lemma_effects_removals(inix: Seq<char>, names: Seq<Seq<char>>)
    ensures
        effects_of(removals(inix, names)) =~= effects(false, false, names, Seq::empty(), names.len() == 0),
    decreases names.len(),
{
    if names.len() > 0 {
        lemma_effects_removals(inix, names.drop_last());
        let r = removals(inix, names);
        assert(r.drop_last() =~= removals(inix, names.drop_last()));
        assert(names.drop_last().push(names.last()) =~= names);
    }
}

proof fn lemma_effects_files(dir: Seq<char>, files: Seq<(Seq<char>, Seq<char>)>)
    ensures
        effects_of(file_steps(dir, files)) =~= effects(false, false, Seq::empty(), Seq::empty(), files.len() == 0),
    decreases files.len(),
{
    if files.len() > 0 {
        lemma_effects_files(dir, files.drop_last());
        assert(file_steps(dir, files).drop_last() =~= file_steps(dir, files.drop_last()));
    }
}

proof fn lemma_effects_writes(inix: Seq<char>, templates: Seq<Template2>)
    ensures
        effects_of(writes(inix, templates)) =~= effects(false, false, Seq::empty(), template_names_of(templates), templates.len() == 0),
    decreases templates.len(),
{
    if templates.len() > 0 {
        let t = templates.last();
        let dir = join_path(inix, t.name@);
        lemma_effects_writes(inix, templates.drop_last());
        lemma_effects_concat(writes(inix, templates.drop_last()), template_steps(inix, t));
        lemma_effects_concat(
            seq![Step::CreateTemplate(t.name@, dir)],
            file_steps(dir, file_list(t.files)),
        );
        lemma_effects_files(dir, file_list(t.files));
        let c = seq![Step::CreateTemplate(t.name@, dir)];
        assert(c.drop_last() =~= Seq::<Step>::empty());
        assert(c.len() == 1 && c.last() == Step::CreateTemplate(t.name@, dir));
        assert(effects_of(c.drop_last()) == no_effects());
        assert(Seq::<Seq<char>>::empty().push(t.name@) =~= seq![t.name@]);
        assert(effects_of(c) =~= effects(false, false, Seq::empty(), seq![t.name@], false));
        let prev = template_names_of(templates.drop_last());
        assert(prev + (seq![t.name@] + Seq::empty()) =~= prev.push(t.name@));
        assert(Seq::<Seq<char>>::empty() + (Seq::<Seq<char>>::empty() + Seq::empty()) =~= Seq::<Seq<char>>::empty());
        assert(template_names_of(templates) =~= template_names_of(templates.drop_last()).push(
            t.name@,
        ));
    } else {
        assert(template_names_of(templates) =~= Seq::empty());
    }
}

proof fn lemma_kept_names(templates: Seq<Template2>, state: InixDirState, b: ConflictBehavior)
    ensures
        template_names_of(kept(templates, state, b)) =~= kept_names(
            template_names_of(templates),
            state,
            b,
        ),
        is_noop(state, b) ==> kept(templates, state, b).len() == 0,
    decreases templates.len(),
{
    if templates.len() > 0 {
        lemma_kept_names(templates.drop_last(), state, b);
        assert(template_names_of(templates).drop_last() =~= template_names_of(
            templates.drop_last(),
        ));
        assert(template_names_of(templates).last() == templates.last().name@);
        let k = kept(templates.drop_last(), state, b);
        assert(template_names_of(k.push(templates.last())) =~= template_names_of(k).push(
            templates.last().name@,
        ));
    }
}

/// The plan does exactly what its description announces: it removes and
/// creates the scaffold directory, removes and creates template
/// subdirectories, and does nothing at all, exactly as `intended` says for
/// the state, the behavior and the requested names.
pub proof fn lemma_plan_matches_intent(
    inix: Seq<char>,
    target: Seq<char>,
    state: InixDirState,
    b: ConflictBehavior,
    templates: Seq<Template2>,
    nix: Seq<char>,
    envrc: Seq<char>,
)
    ensures
        effects_of(planned(inix, target, state, b, templates, nix, envrc)) == intended(
            state,
            b,
            template_names_of(templates),
        ),
{
    let e = intended(state, b, template_names_of(templates));
    let s1: Seq<Step> = if e.removes_scaffold {
        seq![Step::RemoveScaffold(inix)]
    } else {
        Seq::empty()
    };
    let s2: Seq<Step> = if e.creates_scaffold {
        seq![Step::CreateScaffold(inix)]
    } else {
        Seq::empty()
    };
    let s3 = removals(inix, e.removed);
    let s4 = writes(inix, kept(templates, state, b));
    let s5: Seq<Step> = if e.idle {
        Seq::empty()
    } else {
        base_steps(target, nix, envrc)
    };
    assert(seq![Step::RemoveScaffold(inix)].drop_last() =~= Seq::<Step>::empty());
    assert(seq![Step::CreateScaffold(inix)].drop_last() =~= Seq::<Step>::empty());
    assert(base_steps(target, nix, envrc).drop_last().drop_last() =~= Seq::<Step>::empty());
    lemma_effects_concat(s1, s2);
    lemma_effects_concat(s1 + s2, s3);
    lemma_effects_concat(s1 + s2 + s3, s4);
    lemma_effects_concat(s1 + s2 + s3 + s4, s5);
    lemma_effects_removals(inix, e.removed);
    lemma_effects_writes(inix, kept(templates, state, b));
    lemma_kept_names(templates, state, b);
    assert(effects_of(s1) =~= effects(e.removes_scaffold, false, Seq::empty(), Seq::empty(), !e.removes_scaffold));
    assert(effects_of(s2) =~= effects(false, e.creates_scaffold, Seq::empty(), Seq::empty(), !e.creates_scaffold));
    let bs = base_steps(target, nix, envrc);
    assert(bs.drop_last().drop_last().len() == 0);
    assert(effects_of(bs.drop_last()).idle == false);
    assert(effects_of(s5) =~= effects(false, false, Seq::empty(), Seq::empty(), e.idle));
    if e.idle {
        assert(!e.removes_scaffold && !e.creates_scaffold && e.removed.len() == 0);
    }
    assert(planned(inix, target, state, b, templates, nix, envrc) == s1 + s2 + s3 + s4 + s5);
    assert(effects_of(planned(inix, target, state, b, templates, nix, envrc)) =~= e);
}

} // verus!

verus! {

/// How a behavior is put in words.
pub open spec fn behavior_phrase(b: ConflictBehavior) -> Seq<char> {
    match b {
        ConflictBehavior::Overwrite => "completely overwrite the existing directory"@,
        ConflictBehavior::MergeKeep => "merge the two directories, keeping existing files on collisions"@,
        ConflictBehavior::MergeReplace => "merge the two directories, replacing existing files on collisions"@,
        ConflictBehavior::Cancel => "cancel the operation and exit"@,
    }
}

/// The closing note on the top-level files, which every run but one that
/// does nothing writes.
pub open spec fn base_note(e: Effects) -> Seq<char> {
    if e.idle {
        Seq::empty()
    } else {
        "\nI will also write the project's shell.nix and .envrc files."@
    }
}

/// The announcement for a run with no templates.
pub open spec fn nothing_to_add() -> Seq<char> {
    "There are no templates to add, so I will leave the inix directory as it is."@
}

/// What a run on an existing scaffold directory announces, before the note
/// on the top-level files.
pub open spec fn merge_story(path: Seq<char>, c: TemplateCollisions, b: ConflictBehavior, names: Seq<Seq<char>>, e: Effects) -> Seq<char> {
    match b {
        ConflictBehavior::Cancel =>
            "Because you have chosen the cancel option and the inix directory (\""@ + path
                + "\") already exists, I will not do anything."@,
        ConflictBehavior::Overwrite =>
            "Because you have chosen to overwrite the inix directory on conflicts, I will delete the existing directory (\""@
                + path + "\") and recreate it with the templates you have chosen ("@ + combined(e.created)
                + ")."@,
        ConflictBehavior::MergeKeep => match c {
            TemplateCollisions::Partial(_) =>
                "Because you have chosen the merge (keep) option, I will merge the old and the new directories. These new templates will be added: "@
                    + combined(e.created),
            TemplateCollisions::Disjoint =>
                "Because you have chosen the merge (keep) option, I will merge the old and the new directories. There are no template collisions, so I will add these new templates: "@
                    + combined(e.created),
            TemplateCollisions::All(_) =>
                "Because you have chosen the merge (keep) option, I will merge the old and the new directories. However, all the templates you are trying to add ("@
                    + combined(names) + ") already exist in the inix directory (\""@ + path
                    + "\"), so I will not do anything."@,
        },
        ConflictBehavior::MergeReplace => match c {
            TemplateCollisions::Partial(_) =>
                "Because you have chosen the merge (replace) option, I will merge the old and the new directories. These templates will be overwritten: "@
                    + combined(e.removed)
                    + ". When I'm done, all these templates will have been added or updated: "@
                    + combined(e.created),
            TemplateCollisions::Disjoint =>
                "Because you have chosen the merge (replace) option, I will merge the old and the new directories. There are no template collisions, so I will add these new templates: "@
                    + combined(e.created),
            TemplateCollisions::All(_) =>
                "Because you have chosen the merge (replace) option, I will merge the old and the new directories. All the templates you are trying to add already exist in the inix directory (\""@
                    + path + "\"), and I will overwrite all of them: "@ + combined(e.removed),
        },
    }
}

/// The dry-run description of a run: what `intended` says the run does,
/// in words.
pub open spec fn narrative(path: Seq<char>, state: InixDirState, b: ConflictBehavior, names: Seq<Seq<char>>) -> Seq<char> {
    let e = intended(state, b, names);
    "So here's the plan:\n"@ + match state {
        InixDirState::DoesNotExist => if names.len() == 0 {
            nothing_to_add()
        } else {
            "I will create the \""@ + path + "\" directory.\nI will then add the "@ + combined(e.created)
                + " template(s) to that directory.\nIf the directory were to be created in the meantime, I would \""@
                + behavior_phrase(b) + "\"."@
        },
        InixDirState::AlreadyExists { template_collisions } => conflict_text(path, state) + "\n"@ + (
        if b != ConflictBehavior::Cancel && names.len() == 0 {
            nothing_to_add()
        } else {
            merge_story(path, template_collisions, b, names, e)
        }),
    } + base_note(e)
}

fn kept_names_exec(names: &Vec<String>, state: &InixDirState, b: ConflictBehavior) -> (r: Vec<String>)
    ensures
        names_of(r@) == kept_names(names_of(names@), *state, b),
{
    let ghost all = names_of(names@);
    let mut r: Vec<String> = Vec::new();
    let mut i: usize = 0;
    while i < names.len()
        invariant
            i <= names.len(),
            all == names_of(names@),
            names_of(r@) == kept_names(all.subrange(0, i as int), *state, b),
        decreases names.len() - i,
    {
        let ghost next = all.subrange(0, i + 1);
        assert(next.drop_last() =~= all.subrange(0, i as int));
        assert(next.last() == names@[i as int]@);
        if writes_template_exec(state, b, &names[i]) {
            let ghost before = r@;
            r.push(names[i].clone());
            assert(names_of(r@) =~= names_of(before).push(names@[i as int]@));
        }
        i += 1;
    }
    assert(all.subrange(0, i as int) =~= all);
    r
}

fn behavior_text(b: ConflictBehavior) -> (r: &'static str)
    ensures
        r@ == behavior_phrase(b),
{
    match b {
        ConflictBehavior::Overwrite => "completely overwrite the existing directory",
        ConflictBehavior::MergeKeep => "merge the two directories, keeping existing files on collisions",
        ConflictBehavior::MergeReplace => "merge the two directories, replacing existing files on collisions",
        ConflictBehavior::Cancel => "cancel the operation and exit",
    }
}

} // verus!

verus! {

/// The dry-run description of a run on the scaffold directory `dir` with
/// behavior `b` and the requested `templates`.
pub fn describe(dir: &InixDir, b: ConflictBehavior, templates: &Vec<Template2>) -> (r: String)
    ensures
        r@ == narrative(dir.path@, dir.state, b, template_names_of(templates@)),
{
    let ghost e = intended(dir.state, b, template_names_of(templates@));
    let names = crate::template::template_names(templates);
    let created = kept_names_exec(&names, &dir.state, b);
    let path = dir.path.as_str();
    let mut r = String::from_str("So here's the plan:\n");
    match &dir.state {
        InixDirState::DoesNotExist => {
            if names.len() == 0 {
                r.append("There are no templates to add, so I will leave the inix directory as it is.");
            } else {
                r.append("I will create the \"");
                r.append(path);
                r.append("\" directory.\nI will then add the ");
                r.append(combine_strings(&created).as_str());
                r.append(
                    " template(s) to that directory.\nIf the directory were to be created in the meantime, I would \"",
                );
                r.append(behavior_text(b));
                r.append("\".");
            }
        },
        InixDirState::AlreadyExists { template_collisions } => {
            r.append(dir.conflict_description().as_str());
            r.append("\n");
            if b != ConflictBehavior::Cancel && names.len() == 0 {
                r.append("There are no templates to add, so I will leave the inix directory as it is.");
            } else {
                r.append(merge_story_text(path, template_collisions, b, &names, &created).as_str());
            }
        },
    }
    if !is_noop_exec(&dir.state, b) {
        r.append("\nI will also write the project's shell.nix and .envrc files.");
    }
    r
}

fn merge_story_text(
    path: &str,
    c: &TemplateCollisions,
    b: ConflictBehavior,
    names: &Vec<String>,
    created: &Vec<String>,
) -> (r: String)
    requires
        names@.len() > 0 || b == ConflictBehavior::Cancel,
    ensures
        r@ == merge_story(
            path@,
            *c,
            b,
            names_of(names@),
            effects(
                false,
                false,
                if b == ConflictBehavior::MergeReplace {
                    distinct(c.names())
                } else {
                    Seq::empty()
                },
                names_of(created@),
                false,
            ),
        ),
{
    let mut r = String::new();
    match b {
        ConflictBehavior::Cancel => {
            r.append("Because you have chosen the cancel option and the inix directory (\"");
            r.append(path);
            r.append("\") already exists, I will not do anything.");
        },
        ConflictBehavior::Overwrite => {
            r.append(
                "Because you have chosen to overwrite the inix directory on conflicts, I will delete the existing directory (\"",
            );
            r.append(path);
            r.append("\") and recreate it with the templates you have chosen (");
            r.append(combine_strings(created).as_str());
            r.append(").");
        },
        ConflictBehavior::MergeKeep => match c {
            TemplateCollisions::Partial(_) => {
                r.append(
                    "Because you have chosen the merge (keep) option, I will merge the old and the new directories. These new templates will be added: ",
                );
                r.append(combine_strings(created).as_str());
            },
            TemplateCollisions::Disjoint => {
                r.append(
                    "Because you have chosen the merge (keep) option, I will merge the old and the new directories. There are no template collisions, so I will add these new templates: ",
                );
                r.append(combine_strings(created).as_str());
            },
            TemplateCollisions::All(_) => {
                r.append(
                    "Because you have chosen the merge (keep) option, I will merge the old and the new directories. However, all the templates you are trying to add (",
                );
                r.append(combine_strings(names).as_str());
                r.append(") already exist in the inix directory (\"");
                r.append(path);
                r.append("\"), so I will not do anything.");
            },
        },
        ConflictBehavior::MergeReplace => match c {
            TemplateCollisions::Partial(_) => {
                r.append(
                    "Because you have chosen the merge (replace) option, I will merge the old and the new directories. These templates will be overwritten: ",
                );
                r.append(combine_strings(&distinct_names(&c.colliding_names())).as_str());
                r.append(". When I'm done, all these templates will have been added or updated: ");
                r.append(combine_strings(created).as_str());
            },
            TemplateCollisions::Disjoint => {
                r.append(
                    "Because you have chosen the merge (replace) option, I will merge the old and the new directories. There are no template collisions, so I will add these new templates: ",
                );
                r.append(combine_strings(created).as_str());
            },
            TemplateCollisions::All(_) => {
                r.append(
                    "Because you have chosen the merge (replace) option, I will merge the old and the new directories. All the templates you are trying to add already exist in the inix directory (\"",
                );
                r.append(path);
                r.append("\"), and I will overwrite all of them: ");
                r.append(combine_strings(&distinct_names(&c.colliding_names())).as_str());
            },
        },
    }
    r
}

} // verus!

verus! {

/// Cancelling on an existing scaffold directory plans no step at all: such
/// a run changes nothing, and so does running it again on the unchanged
/// directory.
pub proof fn lemma_cancel_changes_nothing(
    inix: Seq<char>,
    target: Seq<char>,
    c: TemplateCollisions,
    templates: Seq<Template2>,
    nix: Seq<char>,
    envrc: Seq<char>,
)
    ensures
        planned(
            inix,
            target,
            InixDirState::AlreadyExists { template_collisions: c },
            ConflictBehavior::Cancel,
            templates,
            nix,
            envrc,
        ).len() == 0,
{
    let state = InixDirState::AlreadyExists { template_collisions: c };
    lemma_kept_names(templates, state, ConflictBehavior::Cancel);
    assert(removals(inix, Seq::empty()) =~= Seq::<Step>::empty());
    assert(writes(inix, kept(templates, state, ConflictBehavior::Cancel)) =~= Seq::<Step>::empty());
}

/// With no templates requested, a run writes only the top-level files (or
/// nothing at all): it never removes, creates or changes the scaffold
/// directory, whatever the behavior.
pub proof fn lemma_empty_request_keeps_scaffold(
    inix: Seq<char>,
    target: Seq<char>,
    state: InixDirState,
    b: ConflictBehavior,
    nix: Seq<char>,
    envrc: Seq<char>,
)
    ensures
        planned(inix, target, state, b, Seq::empty(), nix, envrc) == if is_noop(state, b) {
            Seq::<Step>::empty()
        } else {
            base_steps(target, nix, envrc)
        },
{
    let names = template_names_of(Seq::<Template2>::empty());
    assert(names =~= Seq::empty());
    assert(removals(inix, Seq::empty()) =~= Seq::<Step>::empty());
    assert(kept(Seq::<Template2>::empty(), state, b) =~= Seq::<Template2>::empty());
    assert(writes(inix, Seq::<Template2>::empty()) =~= Seq::<Step>::empty());
    assert(planned(inix, target, state, b, Seq::empty(), nix, envrc) =~= if is_noop(state, b) {
        Seq::<Step>::empty()
    } else {
        base_steps(target, nix, envrc)
    });
}

} // verus!
