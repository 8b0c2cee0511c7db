use inix::text::{combine_strings, concat_str, path_join, quoted};

fn strings(v: &[&str]) -> Vec<String> {
    v.iter().map(|s| s.to_string()).collect()
}

#[test]
fn combine_strings_of_nothing_is_empty() {
    assert_eq!(combine_strings(&strings(&[])), "");
}

#[test]
fn combine_strings_of_one_quotes_it() {
    assert_eq!(combine_strings(&strings(&["rust"])), "\"rust\"");
}

#[test]
fn combine_strings_of_two_uses_and() {
    assert_eq!(combine_strings(&strings(&["rust", "node"])), "\"rust\" and \"node\"");
}

#[test]
fn combine_strings_of_three_uses_commas_and_a_final_and() {
    assert_eq!(
        combine_strings(&strings(&["a", "b", "c"])),
        "\"a\", \"b\", and \"c\""
    );
    assert_eq!(
        combine_strings(&strings(&["a", "b", "c", "d"])),
        "\"a\", \"b\", \"c\", and \"d\""
    );
}

#[test]
fn path_join_adds_one_separator() {
    assert_eq!(path_join("my/project", "inix"), "my/project/inix");
    assert_eq!(path_join("my/project/", "inix"), "my/project/inix");
    assert_eq!(path_join("", "inix"), "inix");
}

#[test]
fn quoted_and_concat() {
    assert_eq!(quoted("x y"), "\"x y\"");
    assert_eq!(concat_str("ab", "cd"), "abcd");
}
