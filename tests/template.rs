use inix::template::{
    check_location, custom_template, files_from_reads, find_included, included_templates,
    location_text, missing_templates_message, resolve_templates, template_names, DirError,
    DirErrorReason, Template2, TemplateFiles2, TemplateType, NODE_ENVRC, NODE_SHELL_NIX,
    RUST_SHELL_NIX,
};

fn strings(v: &[&str]) -> Vec<String> {
    v.iter().map(|s| s.to_string()).collect()
}

fn custom(name: &str, nix: &str) -> Template2 {
    Template2 {
        name: name.to_string(),
        files: TemplateFiles2::Nix(nix.to_string()),
        source_dir: "/home/me/.config/inix".to_string(),
        template_type: TemplateType::Custom,
    }
}

#[test]
fn template_accessors() {
    let t = Template2 {
        name: "node".to_string(),
        files: TemplateFiles2::Both { nix: "N".to_string(), envrc: "E".to_string() },
        source_dir: "inix/templates".to_string(),
        template_type: TemplateType::Builtin,
    };
    assert_eq!(t.name(), "node");
    assert_eq!(t.path(), "inix/templates/node");
    assert_eq!(t.files(), vec![(".envrc", "E"), ("shell.nix", "N")]);
    assert_eq!(custom("rust", "R").files(), vec![("shell.nix", "R")]);
    let e = Template2 { files: TemplateFiles2::Envrc("use nix".to_string()), ..custom("x", "") };
    assert_eq!(e.files(), vec![(".envrc", "use nix")]);
}

#[test]
fn builtin_table_has_rust_node_and_base() {
    let table = included_templates();
    assert_eq!(template_names(&table), strings(&["rust", "node", "base"]));
    assert!(table.iter().all(|t| t.template_type == TemplateType::Builtin));
    assert_eq!(table[0].files(), vec![("shell.nix", RUST_SHELL_NIX)]);
    assert_eq!(table[1].files(), vec![(".envrc", NODE_ENVRC), ("shell.nix", NODE_SHELL_NIX)]);
}

#[test]
fn find_included_looks_up_by_name() {
    let t = find_included("node").expect("node is built in");
    assert_eq!(t.name, "node");
    assert_eq!(t.path(), "inix/templates/node");
    assert!(find_included("python").is_none());
    assert!(find_included("").is_none());
}

#[test]
fn files_from_reads_covers_each_combination() {
    assert!(files_from_reads(None, None).is_none());
    assert!(matches!(files_from_reads(Some("n".into()), None), Some(TemplateFiles2::Nix(n)) if n == "n"));
    assert!(matches!(files_from_reads(None, Some("e".into())), Some(TemplateFiles2::Envrc(e)) if e == "e"));
    assert!(matches!(
        files_from_reads(Some("n".into()), Some("e".into())),
        Some(TemplateFiles2::Both { nix, envrc }) if nix == "n" && envrc == "e"
    ));
}

#[test]
fn custom_template_needs_a_file() {
    assert!(custom_template("rust", "/cfg/rust", None, None).is_none());
    let t = custom_template("rust", "/cfg/rust", Some("mine".into()), None).unwrap();
    assert_eq!(t.name, "rust");
    assert_eq!(t.source_dir, "/cfg/rust");
    assert_eq!(t.template_type, TemplateType::Custom);
    assert_eq!(t.files(), vec![("shell.nix", "mine")]);
}

#[test]
fn resolve_prefers_custom_then_builtin() {
    let names = strings(&["rust", "node"]);
    let found = vec![Some(custom("rust", "my rust")), None];
    let ts = resolve_templates(&names, found).ok().expect("both resolve");
    assert_eq!(template_names(&ts), names);
    assert_eq!(ts[0].template_type, TemplateType::Custom);
    assert_eq!(ts[0].files(), vec![("shell.nix", "my rust")]);
    assert_eq!(ts[1].template_type, TemplateType::Builtin);
}

#[test]
fn resolve_reports_every_missing_name_in_order() {
    let names = strings(&["zig", "rust", "elm", "mine"]);
    let found = vec![None, None, None, Some(custom("mine", "x"))];
    match resolve_templates(&names, found) {
        Err(missing) => assert_eq!(missing, strings(&["zig", "elm"])),
        Ok(_) => panic!("zig and elm cannot be found"),
    }
}

#[test]
fn resolve_nothing_is_ok() {
    let ts = resolve_templates(&strings(&[]), vec![]).ok().unwrap();
    assert!(ts.is_empty());
}

#[test]
fn locations_and_their_text() {
    assert_eq!(check_location("/a".into(), true, true).ok().unwrap(), "/a");
    let e = check_location("/b".into(), false, true).err().unwrap();
    assert_eq!(e.reason, DirErrorReason::NotADir);
    let e = check_location("/c".into(), false, false).err().unwrap();
    assert_eq!(e.reason, DirErrorReason::NotFound);
    assert_eq!(location_text(&Ok("/a".to_string())), "/a");
    assert_eq!(
        location_text(&Err(DirError { path: "/c".into(), reason: DirErrorReason::NotFound })),
        "/c (but it doesn't exist)"
    );
    assert_eq!(
        location_text(&Err(DirError { path: "/b".into(), reason: DirErrorReason::NotADir })),
        "/b (which exists, but is not a directory (it's probably a file!))"
    );
}

#[test]
fn missing_message_lists_names_and_places() {
    let locations = vec![
        Ok("/home/me/.config/inix".to_string()),
        Err(DirError {
            path: "<your user configuration directory>/inix".into(),
            reason: DirErrorReason::NoConfigDir,
        }),
    ];
    let msg = missing_templates_message(&strings(&["zig", "elm"]), &locations);
    assert_eq!(
        msg,
        "I couldn't find these templates:\n- zig\n- elm\n\nI looked (or tried to look) in these places:\n- /home/me/.config/inix\n- <your user configuration directory>/inix (but I don't know where your user configuration directory is (this probably means that you're not on Linux, macOS, or Windows))"
    );
}

#[test]
fn path_of_an_absolute_name_is_the_name() {
    let t = custom("/opt/shared/rust", "x");
    assert_eq!(t.path(), "/opt/shared/rust");
    assert_eq!(custom("rust", "x").path(), "/home/me/.config/inix/rust");
    let table = included_templates();
    assert_eq!(table[0].path(), "inix/templates/rust");
}
