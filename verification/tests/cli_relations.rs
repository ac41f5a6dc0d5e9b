use ctx::cli::relations::{render_relation_text, RelationList};

fn list(kind: &str, items: &[&str]) -> RelationList {
    RelationList {
        path: "src/a.rs".to_string(),
        kind: kind.to_string(),
        items: items.iter().map(|s| s.to_string()).collect(),
    }
}

#[test]
fn relation_text_lists_dependencies() {
    assert_eq!(
        render_relation_text(&list("deps", &["src/b.rs", "src/c.rs"])),
        "Dependencies for src/a.rs:\n  - src/b.rs\n  - src/c.rs\n"
    );
}

#[test]
fn relation_text_names_dependents_for_impact() {
    assert_eq!(
        render_relation_text(&list("impact", &["src/main.rs"])),
        "Dependents for src/a.rs:\n  - src/main.rs\n"
    );
}

#[test]
fn relation_text_says_when_none_found() {
    assert_eq!(render_relation_text(&list("deps", &[])), "No dependencies found for src/a.rs.\n");
    assert_eq!(render_relation_text(&list("impact", &[])), "No dependents found for src/a.rs.\n");
}
