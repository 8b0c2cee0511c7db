use itertools::Itertools;
use vstd::prelude::*;

use crate::collisions::names_of;

verus! {

/// `items` with `sep` between each two neighbours.
pub open spec fn joined(items: Seq<Seq<char>>, sep: Seq<char>) -> Seq<char>
    decreases items.len(),
{
    if items.len() == 0 {
        Seq::empty()
    } else if items.len() == 1 {
        items[0]
    } else {
        joined(items.drop_last(), sep) + sep + items.last()
    }
}

/// Relies on itertools' `Itertools::join`: the items' `Display` text (for a
/// `String`, the string itself), with `sep` between neighbours.
#[verifier::external_body]
pub(crate) fn join_with(items: &Vec<String>, sep: &str) -> (r: String)
    ensures
        r@ == joined(names_of(items@), sep@),
{
    items.iter().join(sep)
}

/// `s` in double quotes.
pub open spec fn quote(s: Seq<char>) -> Seq<char> {
    seq!['"'] + s + seq!['"']
}

/// Each item in double quotes.
pub open spec fn quoted_all(items: Seq<Seq<char>>) -> Seq<Seq<char>> {
    items.map_values(|s: Seq<char>| quote(s))
}

/// An English enumeration of quoted items: `"a"`, `"a" and "b"`,
/// `"a", "b", and "c"`.
pub open spec fn combined(items: Seq<Seq<char>>) -> Seq<char> {
    let q = quoted_all(items);
    if items.len() == 0 {
        Seq::empty()
    } else if items.len() == 1 {
        q[0]
    } else if items.len() == 2 {
        joined(q, " and "@)
    } else {
        joined(q.drop_last().push("and "@ + q.last()), ", "@)
    }
}

/// `dir` and `name` as one path, with a single separator between them.
pub open spec fn join_path(dir: Seq<char>, name: Seq<char>) -> Seq<char> {
    if dir.len() == 0 || dir.last() == '/' {
        dir + name
    } else {
        dir + seq!['/'] + name
    }
}

/// `name` taken relative to `dir`, as `PathBuf::join` does it: a name that
/// starts with `/` is a path of its own and replaces `dir`.
pub open spec fn joined_path(dir: Seq<char>, name: Seq<char>) -> Seq<char> {
    if name.len() > 0 && name[0] == '/' {
        name
    } else {
        join_path(dir, name)
    }
}

/// The concatenation of two strings.
pub fn concat_str(a: &str, b: &str) -> (r: String)
    ensures
        r@ == a@ + b@,
{
    let mut r = String::from_str(a);
    r.append(b);
    r
}

/// `s` in double quotes.
pub fn quoted(s: &str) -> (r: String)
    ensures
        r@ == quote(s@),
{
    let mut r = String::from_str("\"");
    r.append(s);
    r.append("\"");
    proof {
        reveal_strlit("\"");
    }
    assert(r@ =~= quote(s@));
    r
}

/// `dir` and `name` as one path, with a single separator between them.
pub fn path_join(dir: &str, name: &str) -> (r: String)
    ensures
        r@ == join_path(dir@, name@),
{
    let mut r = String::from_str(dir);
    let n = dir.unicode_len();
    if n == 0 || dir.get_char(n - 1) == '/' {
        r.append(name);
    } else {
        r.append("/");
        proof {
            reveal_strlit("/");
        }
        r.append(name);
    }
    r
}

/// Lists the strings in English, each in double quotes: nothing for no
/// string, `"a" and "b"` for two, `"a", "b", and "c"` for more.
pub fn combine_strings(strings: &Vec<String>) -> (r: String)
    ensures
        r@ == combined(names_of(strings@)),
{
    let ghost items = names_of(strings@);
    let mut q: Vec<String> = Vec::new();
    let mut i: usize = 0;
    while i < strings.len()
        invariant
            i <= strings.len(),
            items == names_of(strings@),
            names_of(q@) =~= quoted_all(items).subrange(0, i as int),
        decreases strings.len() - i,
    {
        let s = quoted(strings[i].as_str());
        let ghost before = q@;
        q.push(s);
        assert(names_of(q@) =~= names_of(before).push(quote(strings@[i as int]@)));
        assert(quoted_all(items)[i as int] == quote(strings@[i as int]@));
        i += 1;
    }
    assert(names_of(q@) =~= quoted_all(items));
    let n = q.len();
    if n == 0 {
        String::new()
    } else if n == 1 {
        q[0].clone()
    } else if n == 2 {
        join_with(&q, " and ")
    } else {
        let last = q.pop().unwrap();
        let tail = concat_str("and ", last.as_str());
        let ghost init = names_of(q@);
        q.push(tail);
        assert(names_of(q@) =~= init.push("and "@ + last@));
        assert(names_of(q@) =~= quoted_all(items).drop_last().push("and "@ + quoted_all(items).last()));
        join_with(&q, ", ")
    }
}

} // verus!
