use vstd::prelude::*;

use crate::collisions::{names_of, TemplateCollisions};
use crate::reconcile::{conflict_text, ConflictBehavior, InixDir, InixDirState};
use crate::text::{combine_strings, combined, join_with, joined};

verus! {

/// A character with Unicode's `White_Space` property.
pub open spec fn is_white_space(c: char) -> bool {
    let n = c as u32;
    (9 <= n <= 13) || n == 32 || n == 0x85 || n == 0xa0 || n == 0x1680 || (0x2000 <= n <= 0x200a)
        || n == 0x2028 || n == 0x2029 || n == 0x202f || n == 0x205f || n == 0x3000
}

/// The string without its leading and trailing white space.
pub open spec fn trimmed(s: Seq<char>) -> Seq<char>
    decreases s.len(),
{
    if s.len() > 0 && is_white_space(s[0]) {
        trimmed(s.drop_first())
    } else if s.len() > 0 && is_white_space(s.last()) {
        trimmed(s.drop_last())
    } else {
        s
    }
}

/// Relies on `str::trim`: the string without leading and trailing
/// characters that have Unicode's `White_Space` property.
#[verifier::external_body]
fn trim<'a>(s: &'a str) -> (r: &'a str)
    ensures
        r@ == trimmed(s@),
{
    s.trim()
}

/// One answer that the prompt offers.
#[derive(Clone, Copy, Debug)]
pub struct PromptOption {
    /// The one-letter label the user types.
    pub key: &'static str,
    pub description: &'static str,
    pub short_description: &'static str,
    pub conflict_behavior: ConflictBehavior,
}

/// The question put to the user, with the answers it accepts in label
/// order.
#[derive(Clone, Debug)]
pub struct Prompt {
    pub text: String,
    pub options: Vec<PromptOption>,
}

/// An option as (label, description, short description, behavior).
pub open spec fn option_view(o: PromptOption) -> (Seq<char>, Seq<char>, Seq<char>, ConflictBehavior) {
    (o.key@, o.description@, o.short_description@, o.conflict_behavior)
}

/// The options offered for each kind of collision, in label order.
pub open spec fn option_table(c: TemplateCollisions) -> Seq<
    (Seq<char>, Seq<char>, Seq<char>, ConflictBehavior),
> {
    match c {
        TemplateCollisions::Disjoint => seq![
            ("A"@, MERGE_ALL@, "merge"@, ConflictBehavior::MergeKeep),
            ("B"@, OVERWRITE_ALL@, "overwrite"@, ConflictBehavior::Overwrite),
            ("C"@, CANCEL@, "cancel"@, ConflictBehavior::Cancel),
        ],
        TemplateCollisions::All(_) => seq![
            ("A"@, OVERWRITE_EXISTING@, "overwrite"@, ConflictBehavior::Overwrite),
            ("B"@, MERGE_REPLACE@, "merge-replace"@, ConflictBehavior::MergeReplace),
            ("C"@, CANCEL@, "cancel"@, ConflictBehavior::Cancel),
        ],
        TemplateCollisions::Partial(_) => seq![
            ("A"@, OVERWRITE_EXISTING@, "overwrite"@, ConflictBehavior::Overwrite),
            ("B"@, MERGE_REPLACE@, "merge-replace"@, ConflictBehavior::MergeReplace),
            ("C"@, MERGE_KEEP@, "merge-keep"@, ConflictBehavior::MergeKeep),
            ("D"@, CANCEL@, "cancel"@, ConflictBehavior::Cancel),
        ],
    }
}

pub const MERGE_ALL: &'static str = "Merge the two inix directories, adding your new templates to the existing directory?";

pub const OVERWRITE_ALL: &'static str = "Overwrite the whole directory, removing everything that's in it and replacing it with the new templates?";

pub const OVERWRITE_EXISTING: &'static str = "Overwrite the entire inix directory, removing anything that exists there already.";

pub const MERGE_REPLACE: &'static str = "Add your templates to the inix directory, overwriting any templates that are there already, but leaving other templates untouched.";

pub const MERGE_KEEP: &'static str = "Add your templates to the inix directory, but leaving any templates that exist already.";

pub const CANCEL: &'static str = "Cancel the operation";

fn option(
    key: &'static str,
    description: &'static str,
    short_description: &'static str,
    conflict_behavior: ConflictBehavior,
) -> (r: PromptOption)
    ensures
        option_view(r) == (key@, description@, short_description@, conflict_behavior),
{
    PromptOption { key, description, short_description, conflict_behavior }
}

/// The options that fit a kind of collision.
pub fn options_for(c: &TemplateCollisions) -> (r: Vec<PromptOption>)
    ensures
        r@.map_values(|o: PromptOption| option_view(o)) == option_table(*c),
{
    let r = match c {
        TemplateCollisions::Disjoint => vec![
            option("A", MERGE_ALL, "merge", ConflictBehavior::MergeKeep),
            option("B", OVERWRITE_ALL, "overwrite", ConflictBehavior::Overwrite),
            option("C", CANCEL, "cancel", ConflictBehavior::Cancel),
        ],
        TemplateCollisions::All(_) => vec![
            option("A", OVERWRITE_EXISTING, "overwrite", ConflictBehavior::Overwrite),
            option("B", MERGE_REPLACE, "merge-replace", ConflictBehavior::MergeReplace),
            option("C", CANCEL, "cancel", ConflictBehavior::Cancel),
        ],
        TemplateCollisions::Partial(_) => vec![
            option("A", OVERWRITE_EXISTING, "overwrite", ConflictBehavior::Overwrite),
            option("B", MERGE_REPLACE, "merge-replace", ConflictBehavior::MergeReplace),
            option("C", MERGE_KEEP, "merge-keep", ConflictBehavior::MergeKeep),
            option("D", CANCEL, "cancel", ConflictBehavior::Cancel),
        ],
    };
    assert(r@.map_values(|o: PromptOption| option_view(o)) =~= option_table(*c));
    r
}

impl Prompt {
    /// The question for a scaffold directory that exists; `None` where it
    /// does not, as then there is nothing to ask.
    pub fn for_dir(dir: &InixDir) -> (r: Option<Prompt>)
        ensures
            r is None <==> dir.state is DoesNotExist,
            r is Some ==> r->0.text@ == conflict_text(dir.path@, dir.state)
                && r->0.options@.map_values(|o: PromptOption| option_view(o)) == option_table(
                dir.state->template_collisions,
            ),
    {
        match &dir.state {
            InixDirState::DoesNotExist => Option::None,
            InixDirState::AlreadyExists { template_collisions } => Option::Some(
                Prompt {
                    text: dir.conflict_description(),
                    options: options_for(template_collisions),
                },
            ),
        }
    }
}

} // verus!

verus! {

/// How an option is listed: `- A: description (short)`.
pub open spec fn option_line(o: PromptOption) -> Seq<char> {
    "- "@ + o.key@ + ": "@ + o.description@ + " ("@ + o.short_description@ + ")"@
}

/// The whole question: the text, the options one per line, and which
/// labels are accepted.
pub open spec fn prompt_view(text: Seq<char>, options: Seq<PromptOption>) -> Seq<char> {
    text + "\n\nHow would you like to proceed?\n"@ + joined(
        options.map_values(|o: PromptOption| option_line(o)),
        "\n"@,
    ) + "\n\nPlease enter exactly one option (one of "@ + combined(
        options.map_values(|o: PromptOption| o.key@),
    ) + " [case-insensitive])."@
}

/// A character's code, with ASCII upper case taken to lower case.
pub open spec fn fold_case(c: char) -> int {
    let n = c as u32;
    if 65 <= n <= 90 {
        n + 32
    } else {
        n as int
    }
}

/// The input is the one-letter label `key`, in either case.
pub open spec fn is_label(input: Seq<char>, key: Seq<char>) -> bool {
    input.len() == 1 && key.len() == 1 && fold_case(input[0]) == fold_case(key[0])
}

/// The behavior of the first option whose label the input is.
pub open spec fn first_choice(options: Seq<PromptOption>, input: Seq<char>) -> Option<
    ConflictBehavior,
>
    decreases options.len(),
{
    if options.len() == 0 {
        Option::None
    } else if is_label(input, options[0].key@) {
        Option::Some(options[0].conflict_behavior)
    } else {
        first_choice(options.drop_first(), input)
    }
}

/// What the prompt does next.
#[derive(Clone, Copy, Debug, PartialEq, Eq, Structural)]
pub enum PromptStep {
    /// The user chose this behavior.
    Choose(ConflictBehavior),
    /// Show the options again; nothing was decided.
    ShowOptions,
    /// The answer was not understood; ask again.
    Unrecognized,
    /// Input was closed or interrupted: the run is cancelled.
    Cancelled,
    /// Reading failed in some other way; ask again.
    Retry,
}

/// What came of reading one line from the user.
#[derive(Clone, Debug)]
pub enum InputEvent {
    Line(String),
    /// End of input, or an interrupt.
    Closed,
    /// Any other read error.
    Failed,
}

/// The step for an answer, already trimmed of surrounding white space.
pub open spec fn answer_step(options: Seq<PromptOption>, input: Seq<char>) -> PromptStep {
    if input == "?"@ {
        PromptStep::ShowOptions
    } else {
        match first_choice(options, input) {
            Option::Some(b) => PromptStep::Choose(b),
            Option::None => PromptStep::Unrecognized,
        }
    }
}

/// The step for a read event.
pub open spec fn event_step(options: Seq<PromptOption>, event: InputEvent) -> PromptStep {
    match event {
        InputEvent::Line(l) => answer_step(options, trimmed(l@)),
        InputEvent::Closed => PromptStep::Cancelled,
        InputEvent::Failed => PromptStep::Retry,
    }
}

fn fold_char(c: char) -> (r: u32)
    ensures
        r as int == fold_case(c),
{
    let n = c as u32;
    if 65 <= n && n <= 90 {
        n + 32
    } else {
        n
    }
}

fn is_label_exec(input: &str, key: &str) -> (r: bool)
    ensures
        r == is_label(input@, key@),
{
    if input.unicode_len() != 1 || key.unicode_len() != 1 {
        return false;
    }
    fold_char(input.get_char(0)) == fold_char(key.get_char(0))
}

impl Prompt {
    /// The question as shown to the user.
    pub fn render(&self) -> (r: String)
        ensures
            r@ == prompt_view(self.text@, self.options@),
    {
        let mut lines: Vec<String> = Vec::new();
        let mut keys: Vec<String> = Vec::new();
        let ghost ls = self.options@.map_values(|o: PromptOption| option_line(o));
        let ghost ks = self.options@.map_values(|o: PromptOption| o.key@);
        let mut i: usize = 0;
        while i < self.options.len()
            invariant
                i <= self.options.len(),
                ls == self.options@.map_values(|o: PromptOption| option_line(o)),
                ks == self.options@.map_values(|o: PromptOption| o.key@),
                names_of(lines@) =~= ls.subrange(0, i as int),
                names_of(keys@) =~= ks.subrange(0, i as int),
            decreases self.options.len() - i,
        {
            let o = self.options[i];
            let mut line = String::from_str("- ");
            line.append(o.key);
            line.append(": ");
            line.append(o.description);
            line.append(" (");
            line.append(o.short_description);
            line.append(")");
            let ghost (bl, bk) = (lines@, keys@);
            lines.push(line);
            keys.push(String::from_str(o.key));
            assert(names_of(lines@) =~= names_of(bl).push(option_line(o)));
            assert(names_of(keys@) =~= names_of(bk).push(o.key@));
            i += 1;
        }
        assert(ls.subrange(0, i as int) =~= ls);
        assert(ks.subrange(0, i as int) =~= ks);
        let mut r = self.text.clone();
        r.append("\n\nHow would you like to proceed?\n");
        r.append(join_with(&lines, "\n").as_str());
        r.append("\n\nPlease enter exactly one option (one of ");
        r.append(combine_strings(&keys).as_str());
        r.append(" [case-insensitive]).");
        r
    }

    /// The step for an answer that has been trimmed of surrounding white
    /// space: `?` shows the options again, a label (in either case) picks
    /// its option, and anything else is not understood.
    pub fn answer(&self, input: &str) -> (r: PromptStep)
        ensures
            r == answer_step(self.options@, input@),
    {
        proof {
            reveal_strlit("?");
        }
        if input.unicode_len() == 1 && input.get_char(0) == '?' {
            assert(input@ =~= "?"@);
            return PromptStep::ShowOptions;
        }
        assert(input@ != "?"@) by {
            if input@ == "?"@ {
                assert(input@[0] == '?');
            }
        }
        let ghost all = self.options@;
        assert(all.subrange(0, all.len() as int) =~= all);
        let mut i: usize = 0;
        while i < self.options.len()
            invariant
                i <= self.options.len(),
                all == self.options@,
                input@ != "?"@,
                first_choice(all, input@) == first_choice(all.subrange(i as int, all.len() as int), input@),
            decreases self.options.len() - i,
        {
            let ghost rest = all.subrange(i as int, all.len() as int);
            assert(rest.len() > 0 && rest[0] == all[i as int]);
            assert(rest.drop_first() =~= all.subrange(i + 1, all.len() as int));
            let o = self.options[i];
            assert(o == all[i as int]);
            if is_label_exec(input, o.key) {
                assert(first_choice(rest, input@) == Option::Some(o.conflict_behavior));
                return PromptStep::Choose(o.conflict_behavior);
            }
            i += 1;
        }
        assert(all.subrange(i as int, all.len() as int) =~= Seq::<PromptOption>::empty());
        PromptStep::Unrecognized
    }

    /// The step for what reading a line gave: a line is trimmed and
    /// answered, a closed input cancels, and a failed read is retried.
    pub fn step(&self, event: &InputEvent) -> (r: PromptStep)
        ensures
            r == event_step(self.options@, *event),
    {
        match event {
            InputEvent::Line(l) => self.answer(trim(l.as_str())),
            InputEvent::Closed => PromptStep::Cancelled,
            InputEvent::Failed => PromptStep::Retry,
        }
    }
}

} // verus!
