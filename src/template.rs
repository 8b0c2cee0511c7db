use itertools::Itertools;
use vstd::prelude::*;

use crate::collisions::names_of;
use crate::text::{concat_str, join_with, joined, joined_path, path_join};

verus! {

/// The files a template provides.
#[derive(Clone, Debug)]
pub enum TemplateFiles2 {
    /// Only a `shell.nix`.
    Nix(String),
    /// Only an `.envrc`.
    Envrc(String),
    /// Both files.
    Both { nix: String, envrc: String },
}

/// Where a template was found.
#[derive(Clone, Copy, Debug, PartialEq, Eq, Structural)]
pub enum TemplateType {
    /// In one of the user's template directories.
    Custom,
    /// In the table that ships with the program.
    Builtin,
}

/// A named template, resolved to its file contents.
#[derive(Clone, Debug)]
pub struct Template2 {
    pub name: String,
    pub files: TemplateFiles2,
    pub source_dir: String,
    pub template_type: TemplateType,
}

/// The (file name, contents) pairs that `files` writes, in writing order.
pub open spec fn file_list(files: TemplateFiles2) -> Seq<(Seq<char>, Seq<char>)> {
    match files {
        TemplateFiles2::Nix(c) => seq![("shell.nix"@, c@)],
        TemplateFiles2::Envrc(c) => seq![(".envrc"@, c@)],
        TemplateFiles2::Both { nix, envrc } => seq![(".envrc"@, envrc@), ("shell.nix"@, nix@)],
    }
}

/// The names of the templates, in order.
pub open spec fn template_names_of(ts: Seq<Template2>) -> Seq<Seq<char>> {
    ts.map_values(|t: Template2| t.name@)
}

impl Template2 {
    /// The template's name.
    pub fn name(&self) -> (r: &str)
        ensures
            r@ == self.name@,
    {
        self.name.as_str()
    }

    /// Where the template's files come from: its name under its source
    /// directory, or the name itself where that is an absolute path.
    pub fn path(&self) -> (r: String)
        ensures
            r@ == joined_path(self.source_dir@, self.name@),
    {
        let name = self.name.as_str();
        if name.unicode_len() > 0 && name.get_char(0) == '/' {
            String::from_str(name)
        } else {
            path_join(self.source_dir.as_str(), name)
        }
    }

    /// The files to write for this template, as (file name, contents).
    pub fn files(&self) -> (r: Vec<(&'static str, &str)>)
        ensures
            r@.map_values(|p: (&str, &str)| (p.0@, p.1@)) == file_list(self.files),
    {
        let r = match &self.files {
            TemplateFiles2::Nix(content) => vec![("shell.nix", content.as_str())],
            TemplateFiles2::Envrc(content) => vec![(".envrc", content.as_str())],
            TemplateFiles2::Both { nix, envrc } => {
                vec![(".envrc", envrc.as_str()), ("shell.nix", nix.as_str())]
            },
        };
        assert(r@.map_values(|p: (&str, &str)| (p.0@, p.1@)) =~= file_list(self.files));
        r
    }
}

/// The names of the templates, in order.
pub fn template_names(templates: &Vec<Template2>) -> (r: Vec<String>)
    ensures
        names_of(r@) == template_names_of(templates@),
{
    let mut r: Vec<String> = Vec::new();
    let mut i: usize = 0;
    while i < templates.len()
        invariant
            i <= templates.len(),
            names_of(r@) =~= template_names_of(templates@).subrange(0, i as int),
        decreases templates.len() - i,
    {
        let ghost before = r@;
        r.push(templates[i].name.clone());
        assert(names_of(r@) =~= names_of(before).push(templates@[i as int].name@));
        i += 1;
    }
    assert(template_names_of(templates@).subrange(0, i as int) =~= template_names_of(templates@));
    r
}

} // verus!

verus! {

/// `shell.nix` of the built-in `rust` template.
pub const RUST_SHELL_NIX: &'static str = "{ pkgs ? import <nixpkgs> { } }:

pkgs.mkShell {
  nativeBuildInputs = with pkgs; [ cargo rustc rustfmt clippy rust-analyzer ];
}
";

/// `shell.nix` of the built-in `node` template.
pub const NODE_SHELL_NIX: &'static str = "{ pkgs ? import <nixpkgs> { } }:

pkgs.mkShell {
  nativeBuildInputs = with pkgs; [ nodejs ];
}
";

/// `.envrc` of the built-in `node` template.
pub const NODE_ENVRC: &'static str = "layout node
";

/// Handlebars source of the project's top-level `shell.nix`; `templates`
/// holds the names of the instantiated templates.
pub const BASE_SHELL_NIX_TEMPLATE: &'static str = "{ pkgs ? import <nixpkgs> { } }:

pkgs.mkShell {
  inputsFrom = [
{{#each templates}}
    (import ./inix/{{this}}/shell.nix { inherit pkgs; })
{{/each}}
  ];
}
";

/// Handlebars source of the project's top-level `.envrc`.
pub const BASE_ENVRC_TEMPLATE: &'static str = "{{#each templates}}
source_env_if_exists ./inix/{{this}}/.envrc
{{/each}}
use nix
";

/// Where the built-in templates say they come from.
pub const BUILTIN_SOURCE_DIR: &'static str = "inix/templates";

/// The names of the built-in templates, in table order.
pub open spec fn builtin_names() -> Seq<Seq<char>> {
    seq!["rust"@, "node"@, "base"@]
}

/// The template is the built-in one of that name.
pub open spec fn is_builtin_entry(t: Template2, name: Seq<char>) -> bool {
    &&& t.name@ == name
    &&& t.template_type == TemplateType::Builtin
    &&& t.source_dir@ == BUILTIN_SOURCE_DIR@
    &&& name == "rust"@ ==> t.files is Nix && t.files->Nix_0@ == RUST_SHELL_NIX@
    &&& name == "node"@ ==> t.files is Both && t.files->Both_nix@ == NODE_SHELL_NIX@
        && t.files->Both_envrc@ == NODE_ENVRC@
    &&& name == "base"@ ==> t.files is Both && t.files->Both_nix@ == BASE_SHELL_NIX_TEMPLATE@
        && t.files->Both_envrc@ == BASE_ENVRC_TEMPLATE@
}

fn builtin(name: &str, files: TemplateFiles2) -> (r: Template2)
    ensures
        r.name@ == name@,
        r.files == files,
        r.source_dir@ == BUILTIN_SOURCE_DIR@,
        r.template_type == TemplateType::Builtin,
{
    Template2 {
        name: String::from_str(name),
        files,
        source_dir: String::from_str(BUILTIN_SOURCE_DIR),
        template_type: TemplateType::Builtin,
    }
}

/// The table of templates that ship with the program.
pub fn included_templates() -> (r: Vec<Template2>)
    ensures
        template_names_of(r@) == builtin_names(),
        forall|i: int| 0 <= i < r@.len() ==> is_builtin_entry(#[trigger] r@[i], builtin_names()[i]),
{
    let rust = builtin("rust", TemplateFiles2::Nix(String::from_str(RUST_SHELL_NIX)));
    let node = builtin(
        "node",
        TemplateFiles2::Both {
            nix: String::from_str(NODE_SHELL_NIX),
            envrc: String::from_str(NODE_ENVRC),
        },
    );
    let base = builtin(
        "base",
        TemplateFiles2::Both {
            nix: String::from_str(BASE_SHELL_NIX_TEMPLATE),
            envrc: String::from_str(BASE_ENVRC_TEMPLATE),
        },
    );
    proof {
        reveal_strlit("rust");
        reveal_strlit("node");
        reveal_strlit("base");
    }
    assert("rust"@[0] == 'r' && "node"@[0] == 'n' && "base"@[0] == 'b');
    assert(is_builtin_entry(rust, "rust"@));
    assert(is_builtin_entry(node, "node"@));
    assert(is_builtin_entry(base, "base"@));
    let r = vec![rust, node, base];
    assert(template_names_of(r@) =~= builtin_names());
    r
}

/// The built-in template called `name`, if there is one.
pub fn find_included(name: &str) -> (r: Option<Template2>)
    ensures
        r is Some <==> builtin_names().contains(name@),
        r is Some ==> is_builtin_entry(r->0, name@),
{
    let mut table = included_templates();
    let key = String::from_str(name);
    let ghost all = table@;
    assert(template_names_of(all).len() == all.len());
    let mut i: usize = 0;
    while i < table.len()
        invariant
            i <= table.len(),
            table@ == all,
            key@ == name@,
            all.len() == 3,
            template_names_of(all) == builtin_names(),
            forall|j: int| 0 <= j < all.len() ==> is_builtin_entry(#[trigger] all[j], builtin_names()[j]),
            forall|j: int| 0 <= j < i ==> builtin_names()[j] != name@,
        decreases table.len() - i,
    {
        if table[i].name == key {
            assert(template_names_of(all)[i as int] == all[i as int].name@);
            let t = table.remove(i);
            return Option::Some(t);
        }
        assert(template_names_of(all)[i as int] == all[i as int].name@);
        i += 1;
    }
    assert(!builtin_names().contains(name@)) by {
        if builtin_names().contains(name@) {
            let k = choose|k: int| 0 <= k < builtin_names().len() && builtin_names()[k] == name@;
            assert(builtin_names()[k] != name@);
        }
    }
    Option::None
}

/// The files that a template directory provides, given the contents of its
/// `shell.nix` and `.envrc` where they could be read.
pub open spec fn provided_files(nix: Option<String>, envrc: Option<String>) -> Option<TemplateFiles2> {
    match (nix, envrc) {
        (Option::None, Option::None) => Option::None,
        (Option::Some(n), Option::None) => Option::Some(TemplateFiles2::Nix(n)),
        (Option::None, Option::Some(e)) => Option::Some(TemplateFiles2::Envrc(e)),
        (Option::Some(n), Option::Some(e)) => Option::Some(TemplateFiles2::Both { nix: n, envrc: e }),
    }
}

/// The files a user's template directory provides, given what reading its
/// `shell.nix` and `.envrc` gave.
pub fn files_from_reads(nix: Option<String>, envrc: Option<String>) -> (r: Option<TemplateFiles2>)
    ensures
        r == provided_files(nix, envrc),
{
    match (nix, envrc) {
        (Option::None, Option::None) => Option::None,
        (Option::Some(nix), Option::None) => Option::Some(TemplateFiles2::Nix(nix)),
        (Option::None, Option::Some(envrc)) => Option::Some(TemplateFiles2::Envrc(envrc)),
        (Option::Some(nix), Option::Some(envrc)) => Option::Some(TemplateFiles2::Both { nix, envrc }),
    }
}

/// The user's template `name` in the directory `dir`, given what reading
/// its two files gave; `None` when neither could be read.
pub fn custom_template(name: &str, dir: &str, nix: Option<String>, envrc: Option<String>) -> (r: Option<
    Template2,
>)
    ensures
        r is None <==> nix is None && envrc is None,
        r is Some ==> r->0.name@ == name@ && r->0.source_dir@ == dir@ && r->0.template_type
            == TemplateType::Custom && Option::Some(r->0.files) == provided_files(nix, envrc),
{
    match files_from_reads(nix, envrc) {
        Option::None => Option::None,
        Option::Some(files) => Option::Some(
            Template2 {
                name: String::from_str(name),
                files,
                source_dir: String::from_str(dir),
                template_type: TemplateType::Custom,
            },
        ),
    }
}

} // verus!

verus! {

/// The successes among `v`, in order.
pub open spec fn ok_values(v: Seq<Result<Template2, String>>) -> Seq<Template2>
    decreases v.len(),
{
    if v.len() == 0 {
        Seq::empty()
    } else {
        let rest = ok_values(v.drop_last());
        match v.last() {
            Result::Ok(t) => rest.push(t),
            Result::Err(_) => rest,
        }
    }
}

/// The failures among `v`, in order.
pub open spec fn err_values(v: Seq<Result<Template2, String>>) -> Seq<String>
    decreases v.len(),
{
    if v.len() == 0 {
        Seq::empty()
    } else {
        let rest = err_values(v.drop_last());
        match v.last() {
            Result::Ok(_) => rest,
            Result::Err(e) => rest.push(e),
        }
    }
}

/// Relies on itertools' `Itertools::partition_result`: the `Ok` values and
/// the `Err` values, each in the order of the input.
#[verifier::external_body]
fn partition_lookups(v: Vec<Result<Template2, String>>) -> (r: (Vec<Template2>, Vec<String>))
    ensures
        r.0@ == ok_values(v@),
        r.1@ == err_values(v@),
{
    v.into_iter().partition_result()
}

/// A requested name can be had: from the user's directories, or built in.
pub open spec fn is_found(name: Seq<char>, custom: Option<Template2>) -> bool {
    custom is Some || builtin_names().contains(name)
}

/// `t` is what a request for `name` resolves to: the user's template where
/// there is one, else the built-in one.
pub open spec fn resolves(name: Seq<char>, custom: Option<Template2>, t: Template2) -> bool {
    match custom {
        Option::Some(c) => t == c,
        Option::None => is_builtin_entry(t, name),
    }
}

/// The requested names that can be had from nowhere, in request order.
pub open spec fn missing(names: Seq<Seq<char>>, custom: Seq<Option<Template2>>) -> Seq<Seq<char>>
    decreases names.len(),
{
    if names.len() == 0 || custom.len() == 0 {
        Seq::empty()
    } else {
        let rest = missing(names.drop_last(), custom.drop_last());
        if is_found(names.last(), custom.last()) {
            rest
        } else {
            rest.push(names.last())
        }
    }
}

proof fn lemma_all_ok(v: Seq<Result<Template2, String>>)
    requires
        forall|j: int| 0 <= j < v.len() ==> (#[trigger] v[j]) is Ok,
    ensures
        ok_values(v).len() == v.len(),
        forall|j: int| 0 <= j < v.len() ==> ok_values(v)[j] == (#[trigger] v[j])->Ok_0,
        err_values(v).len() == 0,
    decreases v.len(),
{
    if v.len() > 0 {
        let init = v.drop_last();
        assert forall|j: int| 0 <= j < init.len() implies (#[trigger] init[j]) is Ok by {
            assert(init[j] == v[j]);
        }
        lemma_all_ok(init);
        assert(v.last() == v[v.len() - 1]);
        assert forall|j: int| 0 <= j < v.len() implies ok_values(v)[j] == (#[trigger] v[j])->Ok_0 by {
            if j < init.len() {
                assert(init[j] == v[j]);
            }
        }
    }
}

proof fn lemma_errors_are_missing(
    v: Seq<Result<Template2, String>>,
    names: Seq<Seq<char>>,
    custom: Seq<Option<Template2>>,
)
    requires
        v.len() == names.len(),
        custom.len() == names.len(),
        forall|j: int|
            0 <= j < v.len() ==> ((#[trigger] v[j]) is Err <==> !is_found(names[j], custom[j])),
        forall|j: int| 0 <= j < v.len() && (#[trigger] v[j]) is Err ==> v[j]->Err_0@ == names[j],
    ensures
        names_of(err_values(v)) == missing(names, custom),
    decreases v.len(),
{
    if v.len() == 0 {
        assert(names_of(err_values(v)) =~= Seq::empty());
    } else {
        let (iv, in_, ic) = (v.drop_last(), names.drop_last(), custom.drop_last());
        assert forall|j: int| 0 <= j < iv.len() implies ((#[trigger] iv[j]) is Err <==> !is_found(
            in_[j],
            ic[j],
        )) by {
            assert(iv[j] == v[j] && in_[j] == names[j] && ic[j] == custom[j]);
        }
        assert forall|j: int| 0 <= j < iv.len() && (#[trigger] iv[j]) is Err implies iv[j]->Err_0@
            == in_[j] by {
            assert(iv[j] == v[j] && in_[j] == names[j]);
        }
        lemma_errors_are_missing(iv, in_, ic);
        let k = v.len() - 1;
        assert(v.last() == v[k] && names.last() == names[k] && custom.last() == custom[k]);
        if v[k] is Err {
            assert(names_of(err_values(v)) =~= names_of(err_values(iv)).push(v[k]->Err_0@));
        }
    }
}

/// Resolves the requested names, given for each what the user's template
/// directories hold (`custom[i]` for `names[i]`, named so): the user's
/// template where there is one, else the built-in one. Fails with the names that
/// neither provides, in request order.
pub fn resolve_templates(names: &Vec<String>, custom: Vec<Option<Template2>>) -> (r: Result<
    Vec<Template2>,
    Vec<String>,
>)
    requires
        custom.len() == names.len(),
        forall|i: int|
            0 <= i < names.len() && (#[trigger] custom@[i]) is Some ==> custom@[i]->0.name@
                == names@[i]@,
    ensures
        r is Ok <==> forall|i: int| 0 <= i < names.len() ==> is_found(names@[i]@, custom@[i]),
        r is Ok ==> r->Ok_0@.len() == names.len() && forall|i: int|
            0 <= i < names.len() ==> resolves(names@[i]@, custom@[i], #[trigger] r->Ok_0@[i])
                && r->Ok_0@[i].name@ == names@[i]@,
        r is Err ==> names_of(r->Err_0@) == missing(names_of(names@), custom@),
{
    let ghost all = custom@;
    let mut custom = custom;
    let mut lookups: Vec<Result<Template2, String>> = Vec::new();
    let mut i: usize = 0;
    while i < names.len()
        invariant
            i <= names.len(),
            all.len() == names.len(),
            custom@ == all.subrange(i as int, all.len() as int),
            lookups@.len() == i,
            forall|j: int|
                0 <= j < i ==> ((#[trigger] lookups@[j]) is Err <==> !is_found(names@[j]@, all[j])),
            forall|j: int|
                0 <= j < i && (#[trigger] lookups@[j]) is Err ==> lookups@[j]->Err_0@ == names@[j]@,
            forall|j: int|
                0 <= j < i && (#[trigger] lookups@[j]) is Ok ==> resolves(
                    names@[j]@,
                    all[j],
                    lookups@[j]->Ok_0,
                ),
        decreases names.len() - i,
    {
        let c = custom.remove(0);
        assert(c == all[i as int]);
        let found = match c {
            Option::Some(t) => Result::Ok(t),
            Option::None => match find_included(names[i].as_str()) {
                Option::Some(t) => Result::Ok(t),
                Option::None => Result::Err(names[i].clone()),
            },
        };
        lookups.push(found);
        assert(custom@ =~= all.subrange(i + 1, all.len() as int));
        i += 1;
    }
    let ghost v = lookups@;
    let ghost nm = names_of(names@);
    assert forall|j: int| 0 <= j < v.len() implies ((#[trigger] v[j]) is Err <==> !is_found(
        nm[j],
        all[j],
    )) by {}
    assert forall|j: int| 0 <= j < v.len() && (#[trigger] v[j]) is Err implies v[j]->Err_0@
        == nm[j] by {}
    proof {
        lemma_errors_are_missing(v, nm, all);
    }
    let (oks, errs) = partition_lookups(lookups);
    if errs.len() == 0 {
        assert forall|j: int| 0 <= j < v.len() implies (#[trigger] v[j]) is Ok by {
            if v[j] is Err {
                assert(missing(nm, all).len() == 0);
                assert(names_of(err_values(v)).len() == err_values(v).len());
                lemma_missing_contains(nm, all, j);
            }
        }
        proof {
            lemma_all_ok(v);
        }
        assert forall|i: int| 0 <= i < names.len() implies is_found(names@[i]@, all[i]) by {
            assert(v[i] is Ok);
        }
        assert forall|i: int| 0 <= i < names.len() implies resolves(
            names@[i]@,
            all[i],
            #[trigger] oks@[i],
        ) by {
            assert(v[i] is Ok);
            assert(oks@[i] == v[i]->Ok_0);
        }
        Result::Ok(oks)
    } else {
        assert(names_of(err_values(v)).len() == err_values(v).len());
        assert(!forall|i: int| 0 <= i < names.len() ==> is_found(names@[i]@, all[i])) by {
            if forall|i: int| 0 <= i < names.len() ==> is_found(names@[i]@, all[i]) {
                assert forall|j: int| 0 <= j < v.len() implies (#[trigger] v[j]) is Ok by {
                    assert(is_found(names@[j]@, all[j]));
                }
                lemma_all_ok(v);
            }
        }
        Result::Err(errs)
    }
}

proof fn lemma_missing_contains(names: Seq<Seq<char>>, custom: Seq<Option<Template2>>, j: int)
    requires
        names.len() == custom.len(),
        0 <= j < names.len(),
        !is_found(names[j], custom[j]),
    ensures
        missing(names, custom).len() > 0,
    decreases names.len(),
{
    let k = names.len() - 1;
    if j < k {
        assert(names.drop_last()[j] == names[j] && custom.drop_last()[j] == custom[j]);
        lemma_missing_contains(names.drop_last(), custom.drop_last(), j);
    } else {
        assert(names.last() == names[j] && custom.last() == custom[j]);
    }
}

} // verus!

verus! {

/// Why a template directory could not be searched.
#[derive(Clone, Copy, Debug, PartialEq, Eq, Structural)]
pub enum DirErrorReason {
    /// The path exists but is not a directory.
    NotADir,
    /// The user's configuration directory is unknown on this platform.
    NoConfigDir,
    /// The path does not exist.
    NotFound,
}

/// A template directory that could not be searched.
#[derive(Clone, Debug)]
pub struct DirError {
    pub path: String,
    pub reason: DirErrorReason,
}

/// The explanation given for each reason.
pub open spec fn reason_text(reason: DirErrorReason) -> Seq<char> {
    match reason {
        DirErrorReason::NotADir => "which exists, but is not a directory (it's probably a file!)"@,
        DirErrorReason::NoConfigDir =>
            "but I don't know where your user configuration directory is (this probably means that you're not on Linux, macOS, or Windows)"@,
        DirErrorReason::NotFound => "but it doesn't exist"@,
    }
}

/// How a template location is shown: its path, and why it could not be
/// searched where it could not.
pub open spec fn location_view(loc: Result<String, DirError>) -> Seq<char> {
    match loc {
        Result::Ok(p) => p@,
        Result::Err(e) => e.path@ + " ("@ + reason_text(e.reason) + ")"@,
    }
}

/// A line of a bulleted list.
pub open spec fn bullet(s: Seq<char>) -> Seq<char> {
    "- "@ + s
}

/// The message for templates that could not be found anywhere.
pub open spec fn missing_message(missing: Seq<Seq<char>>, locations: Seq<Seq<char>>) -> Seq<char> {
    "I couldn't find these templates:\n"@ + joined(missing.map_values(|s: Seq<char>| bullet(s)), "\n"@)
        + "\n\nI looked (or tried to look) in these places:\n"@ + joined(
        locations.map_values(|s: Seq<char>| bullet(s)),
        "\n"@,
    )
}

/// A template location, given what the filesystem says of `path`: usable
/// when it is a directory, else the reason why not.
pub fn check_location(path: String, is_dir: bool, exists: bool) -> (r: Result<String, DirError>)
    ensures
        is_dir ==> r == Result::<String, DirError>::Ok(path),
        !is_dir ==> r is Err && r->Err_0.path == path && r->Err_0.reason == (if exists {
            DirErrorReason::NotADir
        } else {
            DirErrorReason::NotFound
        }),
{
    if is_dir {
        Result::Ok(path)
    } else {
        let reason = if exists {
            DirErrorReason::NotADir
        } else {
            DirErrorReason::NotFound
        };
        Result::Err(DirError { path, reason })
    }
}

/// How a template location is shown in messages.
pub fn location_text(loc: &Result<String, DirError>) -> (r: String)
    ensures
        r@ == location_view(*loc),
{
    match loc {
        Result::Ok(p) => p.clone(),
        Result::Err(e) => {
            let mut r = e.path.clone();
            r.append(" (");
            match e.reason {
                DirErrorReason::NotADir => r.append(
                    "which exists, but is not a directory (it's probably a file!)",
                ),
                DirErrorReason::NoConfigDir => r.append(
                    "but I don't know where your user configuration directory is (this probably means that you're not on Linux, macOS, or Windows)",
                ),
                DirErrorReason::NotFound => r.append("but it doesn't exist"),
            }
            r.append(")");
            r
        },
    }
}

fn bullets(items: &Vec<String>) -> (r: Vec<String>)
    ensures
        names_of(r@) == names_of(items@).map_values(|s: Seq<char>| bullet(s)),
{
    let mut r: Vec<String> = Vec::new();
    let mut i: usize = 0;
    while i < items.len()
        invariant
            i <= items.len(),
            names_of(r@) =~= names_of(items@).map_values(|s: Seq<char>| bullet(s)).subrange(
                0,
                i as int,
            ),
        decreases items.len() - i,
    {
        let ghost before = r@;
        r.push(concat_str("- ", items[i].as_str()));
        assert(names_of(r@) =~= names_of(before).push(bullet(items@[i as int]@)));
        i += 1;
    }
    assert(names_of(items@).map_values(|s: Seq<char>| bullet(s)).subrange(0, i as int)
        =~= names_of(items@).map_values(|s: Seq<char>| bullet(s)));
    r
}

/// The message for templates that could not be found: the missing names
/// and the places that were searched, one per line.
pub fn missing_templates_message(missing: &Vec<String>, locations: &Vec<Result<String, DirError>>) -> (r: String)
    ensures
        r@ == missing_message(
            names_of(missing@),
            locations@.map_values(|l: Result<String, DirError>| location_view(l)),
        ),
{
    let mut shown: Vec<String> = Vec::new();
    let mut i: usize = 0;
    while i < locations.len()
        invariant
            i <= locations.len(),
            names_of(shown@) =~= locations@.map_values(
                |l: Result<String, DirError>| location_view(l),
            ).subrange(0, i as int),
        decreases locations.len() - i,
    {
        let ghost before = shown@;
        shown.push(location_text(&locations[i]));
        assert(names_of(shown@) =~= names_of(before).push(location_view(locations@[i as int])));
        i += 1;
    }
    assert(names_of(shown@) =~= locations@.map_values(|l: Result<String, DirError>| location_view(l)));
    let mut r = String::from_str("I couldn't find these templates:\n");
    r.append(join_with(&bullets(missing), "\n").as_str());
    r.append("\n\nI looked (or tried to look) in these places:\n");
    r.append(join_with(&bullets(&shown), "\n").as_str());
    r
}

} // verus!
