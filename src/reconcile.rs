use vstd::prelude::*;

use crate::collisions::{classify, names_of, TemplateCollisions};
use crate::text::{combine_strings, combined};

verus! {

/// What to do when the scaffold directory already exists.
#[derive(Clone, Copy, Debug, PartialEq, Eq, Structural)]
pub enum ConflictBehavior {
    /// Remove the existing directory and create a new one.
    Overwrite,
    /// Merge, keeping the existing template directories on collisions.
    MergeKeep,
    /// Merge, replacing the existing template directories on collisions.
    MergeReplace,
    /// Write nothing.
    Cancel,
}

impl Default for ConflictBehavior {
    fn default() -> (r: Self)
        ensures
            r == ConflictBehavior::Cancel,
    {
        ConflictBehavior::Cancel
    }
}

/// The state of the scaffold directory, taken once before any change.
#[derive(Debug)]
pub enum InixDirState {
    DoesNotExist,
    AlreadyExists { template_collisions: TemplateCollisions },
}

/// The scaffold directory of a project: its path and its state.
#[derive(Debug)]
pub struct InixDir {
    pub path: String,
    pub state: InixDirState,
}

/// The state of the scaffold directory, given whether it is a directory and
/// the names of the subdirectories it holds.
pub open spec fn is_state_of(
    state: InixDirState,
    is_dir: bool,
    requested: Seq<Seq<char>>,
    existing: Set<Seq<char>>,
) -> bool {
    if is_dir {
        state is AlreadyExists && state->template_collisions.is_verdict(requested, existing)
    } else {
        state is DoesNotExist
    }
}

/// Takes stock of the scaffold directory at `path`: `is_dir` tells whether
/// it is a directory, `existing` names its subdirectories, and `requested`
/// names the templates asked for.
pub fn inspect(path: String, is_dir: bool, requested: &Vec<String>, existing: &Vec<String>) -> (r:
    InixDir)
    ensures
        r.path == path,
        is_state_of(r.state, is_dir, names_of(requested@), names_of(existing@).to_set()),
{
    let state = if is_dir {
        InixDirState::AlreadyExists { template_collisions: classify(requested, existing) }
    } else {
        InixDirState::DoesNotExist
    };
    InixDir { path, state }
}

/// How the state of the scaffold directory at `path` is described.
pub open spec fn conflict_text(path: Seq<char>, state: InixDirState) -> Seq<char> {
    match state {
        InixDirState::DoesNotExist => "The inix directory ("@ + path + ") does not exist."@,
        InixDirState::AlreadyExists { template_collisions } => match template_collisions {
            TemplateCollisions::Disjoint => "The inix directory (\""@ + path
                + "\") already exists, but none of the new templates conflict with existing subdirectories."@,
            TemplateCollisions::All(_) => "The inix directory (\""@ + path
                + "\") already exists, and it contains all of the templates that you're trying to add ("@
                + combined(template_collisions.names()) + ")."@,
            TemplateCollisions::Partial(_) => "The inix directory (\""@ + path
                + "\") already exists, and the following templates you're trying to add already exist in the inix directory: "@
                + combined(template_collisions.names()) + "."@,
        },
    }
}

impl InixDir {
    /// A sentence on the state of the directory and its collisions.
    pub fn conflict_description(&self) -> (r: String)
        ensures
            r@ == conflict_text(self.path@, self.state),
    {
        match &self.state {
            InixDirState::DoesNotExist => {
                let mut r = String::from_str("The inix directory (");
                r.append(self.path.as_str());
                r.append(") does not exist.");
                r
            },
            InixDirState::AlreadyExists { template_collisions } => {
                let mut r = String::from_str("The inix directory (\"");
                r.append(self.path.as_str());
                match template_collisions {
                    TemplateCollisions::Disjoint => {
                        r.append(
                            "\") already exists, but none of the new templates conflict with existing subdirectories.",
                        );
                    },
                    TemplateCollisions::All(_) => {
                        r.append(
                            "\") already exists, and it contains all of the templates that you're trying to add (",
                        );
                        r.append(combine_strings(&template_collisions.colliding_names()).as_str());
                        r.append(").");
                    },
                    TemplateCollisions::Partial(_) => {
                        r.append(
                            "\") already exists, and the following templates you're trying to add already exist in the inix directory: ",
                        );
                        r.append(combine_strings(&template_collisions.colliding_names()).as_str());
                        r.append(".");
                    },
                }
                r
            },
        }
    }
}

/// How the behavior for a run is settled.
#[derive(Clone, Copy, Debug, PartialEq, Eq, Structural)]
pub enum Decision {
    /// The caller named a behavior; it stands whatever the state.
    Explicit(ConflictBehavior),
    /// The directory does not exist, so there is no conflict to resolve.
    NoConflict,
    /// The directory exists and no behavior was named: the user is asked.
    AskUser,
}

impl Decision {
    /// The behavior that the decision settles on, if it needs no answer
    /// from the user; a missing conflict counts as `Cancel`, which then
    /// means only that no conflict needs resolving.
    pub open spec fn settled(self) -> Option<ConflictBehavior> {
        match self {
            Decision::Explicit(b) => Option::Some(b),
            Decision::NoConflict => Option::Some(ConflictBehavior::Cancel),
            Decision::AskUser => Option::None,
        }
    }

    /// The behavior that the decision settles on, if it needs no answer.
    pub fn behavior(&self) -> (r: Option<ConflictBehavior>)
        ensures
            r == self.settled(),
    {
        match self {
            Decision::Explicit(b) => Option::Some(*b),
            Decision::NoConflict => Option::Some(ConflictBehavior::Cancel),
            Decision::AskUser => Option::None,
        }
    }
}

/// Settles the behavior: an explicit one always wins; else a missing
/// directory needs nothing resolved, and an existing one needs the user.
pub fn decide(state: &InixDirState, explicit: Option<ConflictBehavior>) -> (r: Decision)
    ensures
        explicit is Some ==> r == Decision::Explicit(explicit->0),
        explicit is None && state is DoesNotExist ==> r == Decision::NoConflict,
        explicit is None && state is AlreadyExists ==> r == Decision::AskUser,
{
    match (state, explicit) {
        (_, Option::Some(b)) => Decision::Explicit(b),
        (InixDirState::DoesNotExist, Option::None) => Decision::NoConflict,
        (InixDirState::AlreadyExists { .. }, Option::None) => Decision::AskUser,
    }
}

} // verus!
