use ctx::cli::tree_budget::{
    budget_assign_groups, budget_parent_dir, budget_plan, budget_role_priority, BudgetFile,
    BudgetItem,
};
use ctx::cli::tree_text::{
    format_grouped_number, format_text_symbols, infer_json_role, is_zero_i64_meta,
    json_is_config_file, json_is_core_extension, json_is_dotted_test_name, json_tree_should_skip,
    normalize_text_unit, TextUnit,
};

fn file(path: &str, tokens: i64, role: &str) -> BudgetFile {
    BudgetFile { path: path.to_string(), tokens, role: role.to_string() }
}

#[test]
fn budget_plan_takes_files_greedily_by_priority() {
    let files = vec![
        file("README.md", 100, "doc"),
        file("src/main.rs", 300, "entry"),
        file("logo.png", 0, "unknown"),
        file("gen/api.rs", 50, "generated"),
        file("src/big.rs", 600, "core"),
        file("src/util.rs", 200, "util"),
        file("src/core.rs", 300, "core"),
    ];
    let r = budget_plan(&files, 1000);
    assert_eq!(r.budget, 1000);
    let inc: Vec<&str> = r.included.iter().map(|i| i.path.as_str()).collect();
    assert_eq!(inc, vec!["src/core.rs", "src/main.rs", "src/util.rs", "README.md"]);
    assert_eq!(r.used, 900);
    let exc: Vec<(&str, &str)> =
        r.excluded.iter().map(|i| (i.path.as_str(), i.reason.as_str())).collect();
    assert_eq!(
        exc,
        vec![("logo.png", "binary"), ("gen/api.rs", "generated"), ("src/big.rs", "too large")]
    );
    assert_eq!(r.included[0].group, "src");
    assert_eq!(r.included[3].group, "");
}

#[test]
fn budget_plan_reports_what_does_not_fit() {
    let files = vec![file("a.rs", 40, "core"), file("b.rs", 40, "core"), file("c.rs", 30, "core")];
    let r = budget_plan(&files, 100);
    let inc: Vec<&str> = r.included.iter().map(|i| i.path.as_str()).collect();
    assert_eq!(inc, vec!["c.rs", "a.rs"]);
    assert_eq!(r.excluded.len(), 1);
    assert_eq!(r.excluded[0].path, "b.rs");
    assert_eq!(r.excluded[0].reason, "budget exceeded");
    let none = budget_plan(&files, 0);
    assert!(none.included.is_empty() && none.excluded.is_empty() && none.used == 0);
}

#[test]
fn budget_helpers() {
    assert_eq!(budget_role_priority("config"), 0);
    assert_eq!(budget_role_priority("test"), 1);
    assert_eq!(budget_role_priority(""), 2);
    assert_eq!(budget_role_priority("other"), 1);
    assert_eq!(budget_parent_dir("a/b/c.rs"), "a/b");
    assert_eq!(budget_parent_dir("c.rs"), ".");
    let mut items: Vec<BudgetItem> = ["x/a", "x/b", "y/c", "x/d", "e"]
        .iter()
        .map(|p| BudgetItem {
            path: p.to_string(),
            tokens: 1,
            reason: String::new(),
            group: String::new(),
        })
        .collect();
    budget_assign_groups(&mut items);
    let groups: Vec<&str> = items.iter().map(|i| i.group.as_str()).collect();
    assert_eq!(groups, vec!["x", "x", "", "x", ""]);
}

#[test]
fn tree_text_helpers() {
    assert!(normalize_text_unit("CHARS") == TextUnit::Chars);
    assert!(normalize_text_unit("pages") == TextUnit::Pages);
    assert!(normalize_text_unit("words") == TextUnit::Tokens);
    assert_eq!(format_grouped_number(1234567), "1,234,567");
    assert_eq!(format_grouped_number(-1234), "-1,234");
    assert_eq!(format_grouped_number(999), "999");
    assert_eq!(format_grouped_number(i64::MIN), "-9,223,372,036,854,775,808");
    let names: Vec<String> = ["a", "b", "c", "d"].iter().map(|s| s.to_string()).collect();
    assert_eq!(format_text_symbols(&names), "a, b, c, ...");
    assert_eq!(format_text_symbols(&names[..2]), "a, b");
    assert_eq!(format_text_symbols(&[]), "");
    assert!(is_zero_i64_meta(&0) && !is_zero_i64_meta(&3));
}

#[test]
fn tree_roles_and_skips() {
    assert!(json_tree_should_skip("node_modules"));
    assert!(json_tree_should_skip("Cargo.lock"));
    assert!(!json_tree_should_skip("src"));
    assert!(json_is_dotted_test_name("x.test.tsx"));
    assert!(json_is_config_file("cargo.toml", ".toml"));
    assert!(json_is_config_file("x", ".yml"));
    assert!(json_is_core_extension(".rs") && !json_is_core_extension(".md"));
    assert_eq!(infer_json_role("tests/a.rs"), "test");
    assert_eq!(infer_json_role("src/x_test.go"), "test");
    assert_eq!(infer_json_role("docs/Guide.MD"), "doc");
    assert_eq!(infer_json_role("LICENSE"), "doc");
    assert_eq!(infer_json_role("Cargo.toml"), "config");
    assert_eq!(infer_json_role("cmd/tool/main.go"), "entry");
    assert_eq!(infer_json_role("web/index.tsx"), "entry");
    assert_eq!(infer_json_role("api/Router.ts"), "route");
    assert_eq!(infer_json_role("src/lib.rs"), "core");
    assert_eq!(infer_json_role("assets/logo.png"), "");
}
