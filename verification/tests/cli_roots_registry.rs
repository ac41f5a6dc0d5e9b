use ctx::cli::roots_registry::{
    roots_add, roots_find, roots_mark_opened, roots_remove, RootEntry, RootsFile,
};

fn entry(name: &str, path: &str) -> RootEntry {
    RootEntry {
        name: name.to_string(),
        path: path.to_string(),
        added_at: None,
        last_opened_at: None,
    }
}

fn registry() -> RootsFile {
    RootsFile { roots: vec![entry("alpha", "/src/alpha"), entry("beta", "/src/beta")] }
}

fn canons() -> Vec<Option<String>> {
    vec![Some("/src/alpha".to_string()), Some("/src/beta".to_string())]
}

#[test]
fn add_appends_new_root_named_by_directory() {
    let mut reg = registry();
    let r = roots_add(&mut reg, "/src/gamma", &canons(), "", Some("2024-01-02T03:04:05Z".to_string()));
    let expected = RootEntry {
        name: "gamma".to_string(),
        path: "/src/gamma".to_string(),
        added_at: Some("2024-01-02T03:04:05Z".to_string()),
        last_opened_at: None,
    };
    assert_eq!(r, Ok((true, expected.clone())));
    assert_eq!(reg.roots.len(), 3);
    assert_eq!(reg.roots[2], expected);
}

#[test]
fn add_names_root_root_when_path_has_no_file_name() {
    let mut reg = RootsFile { roots: vec![] };
    let r = roots_add(&mut reg, "/", &[], "", None);
    assert_eq!(r, Ok((true, entry("root", "/"))));
}

#[test]
fn add_renames_root_already_registered_at_path() {
    let mut reg = registry();
    reg.roots[1].added_at = Some("then".to_string());
    let r = roots_add(&mut reg, "/src/beta", &canons(), "b2", None);
    let mut expected = entry("b2", "/src/beta");
    expected.added_at = Some("then".to_string());
    assert_eq!(r, Ok((false, expected.clone())));
    assert_eq!(reg.roots, vec![entry("alpha", "/src/alpha"), expected]);
}

#[test]
fn add_refuses_name_held_by_another_root() {
    let mut reg = registry();
    let r = roots_add(&mut reg, "/src/gamma", &canons(), "alpha", None);
    assert_eq!(r, Err("roots: name \"alpha\" already used by /src/alpha".to_string()));
    assert_eq!(reg, registry());
    let r = roots_add(&mut reg, "/src/beta", &canons(), "alpha", None);
    assert_eq!(r, Err("roots: name \"alpha\" already used by /src/alpha".to_string()));
    assert_eq!(reg, registry());
}

#[test]
fn add_keeps_own_name_when_renaming_to_same_name() {
    let mut reg = registry();
    let r = roots_add(&mut reg, "/src/beta", &canons(), "beta", None);
    assert_eq!(r, Ok((false, entry("beta", "/src/beta"))));
    assert_eq!(reg, registry());
}

#[test]
fn added_root_is_found_by_its_name() {
    let mut reg = registry();
    let (_, added) = roots_add(&mut reg, "/src/gamma", &canons(), "g", None).unwrap();
    let mut cs = canons();
    cs.push(Some("/src/gamma".to_string()));
    assert_eq!(roots_find(&reg, "g", Err("unused".to_string()), &cs), Ok(Some(added)));
}

#[test]
fn find_by_name_then_by_canonical_path() {
    let reg = registry();
    assert_eq!(
        roots_find(&reg, "beta", Err("no such path".to_string()), &canons()),
        Ok(Some(entry("beta", "/src/beta")))
    );
    assert_eq!(
        roots_find(&reg, "./alpha", Ok("/src/alpha".to_string()), &canons()),
        Ok(Some(entry("alpha", "/src/alpha")))
    );
    assert_eq!(roots_find(&reg, "x", Ok("/elsewhere".to_string()), &canons()), Ok(None));
    assert_eq!(
        roots_find(&reg, "x", Err("roots: resolve x: missing".to_string()), &canons()),
        Err("roots: resolve x: missing".to_string())
    );
}

#[test]
fn remove_by_name_or_path() {
    let mut reg = registry();
    assert_eq!(roots_remove(&mut reg, "alpha", Err("unused".to_string()), &canons()), Ok(true));
    assert_eq!(reg.roots, vec![entry("beta", "/src/beta")]);

    let mut reg = registry();
    assert_eq!(roots_remove(&mut reg, "b", Ok("/src/beta".to_string()), &canons()), Ok(true));
    assert_eq!(reg.roots, vec![entry("alpha", "/src/alpha")]);

    let mut reg = registry();
    assert_eq!(roots_remove(&mut reg, "zz", Ok("/zz".to_string()), &canons()), Ok(false));
    assert_eq!(reg, registry());
    assert_eq!(
        roots_remove(&mut reg, "zz", Err("bad".to_string()), &canons()),
        Err("bad".to_string())
    );
    assert_eq!(reg, registry());
}

#[test]
fn mark_opened_stamps_named_root_only() {
    let mut reg = registry();
    roots_mark_opened(&mut reg, "beta", Some("now".to_string()));
    assert_eq!(reg.roots[0], entry("alpha", "/src/alpha"));
    assert_eq!(reg.roots[1].last_opened_at, Some("now".to_string()));
    let before = reg.clone();
    roots_mark_opened(&mut reg, "missing", Some("later".to_string()));
    assert_eq!(reg, before);
}

#[test]
fn list_sorts_by_name_ignoring_case_and_aligns_columns() {
    let mut b = entry("beta", "/p/b");
    b.last_opened_at = Some("2024-05-06T07:08:09Z".to_string());
    let roots = vec![b, entry("Alpha", "/long/path/a"), entry("alpha", "/x")];
    let text = ctx::cli::roots_list::roots_list_text(&roots);
    assert_eq!(
        text,
        "NAME   PATH          LAST OPENED\n\
         Alpha  /long/path/a  -\n\
         alpha  /x            -\n\
         beta   /p/b          2024-05-06T07:08:09Z\n"
    );
}

#[test]
fn list_without_roots_hints_how_to_add_one() {
    assert_eq!(
        ctx::cli::roots_list::roots_list_text(&[]),
        "(no roots registered; run 'ctx roots add' or 'ctx browse <path>')\n"
    );
}

#[test]
fn sort_keeps_order_of_names_equal_without_case() {
    let roots = vec![entry("b", "/1"), entry("B", "/2"), entry("a", "/3"), entry("b", "/4")];
    let sorted = ctx::cli::roots_list::sort_roots_by_name(&roots);
    let paths: Vec<&str> = sorted.iter().map(|e| e.path.as_str()).collect();
    assert_eq!(paths, vec!["/3", "/1", "/2", "/4"]);
}

#[test]
fn browse_child_args_list_flags_in_order() {
    assert_eq!(
        ctx::cli::browse::browse_child_args("/src/a", 8080, "127.0.0.1", true),
        vec!["browse", "/src/a", "--port", "8080", "--no-open", "--bind", "127.0.0.1", "--no-register", "--audit"]
    );
    assert_eq!(
        ctx::cli::browse::browse_child_args("/src/a", 0, "h", false).len(),
        8
    );
}
