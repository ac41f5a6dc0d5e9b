use ctx::cli::tree_aggregate::aggregate_budget_items;
use ctx::cli::tree_budget::{budget_plan, BudgetFile, BudgetItem};

fn item(path: &str, tokens: i64, reason: &str, group: &str) -> BudgetItem {
    BudgetItem {
        path: path.to_string(),
        tokens,
        reason: reason.to_string(),
        group: group.to_string(),
    }
}

#[test]
fn aggregate_folds_group_of_three_at_first_place() {
    let items = vec![
        item("a/x.go", 10, "r1", "a"),
        item("a/y.go", 20, "r1", "a"),
        item("b.go", 5, "", ""),
        item("a/z.go", 30, "r2", "a"),
        item("c/q.go", 1, "", ""),
    ];
    assert_eq!(
        aggregate_budget_items(&items),
        vec![
            item("a/**", 60, "multiple reasons", ""),
            item("b.go", 5, "", ""),
            item("c/q.go", 1, "", ""),
        ]
    );
}

#[test]
fn aggregate_folds_shared_directory_without_group() {
    let items = vec![
        item("d/1", 1, "budget exceeded", ""),
        item("top", 7, "too large", ""),
        item("d/2", 2, "budget exceeded", ""),
        item("d/3", 3, "budget exceeded", ""),
    ];
    assert_eq!(
        aggregate_budget_items(&items),
        vec![item("d/**", 6, "budget exceeded", ""), item("top", 7, "too large", "")]
    );
}

#[test]
fn aggregate_keeps_small_groups_and_empty_lists() {
    assert_eq!(aggregate_budget_items(&[]), Vec::<BudgetItem>::new());
    let items = vec![item("e/1", 1, "", "e"), item("e/2", 2, "", "e")];
    assert_eq!(aggregate_budget_items(&items), items);
}

#[test]
fn budget_plan_takes_negative_token_counts() {
    let files = vec![
        BudgetFile { path: "b.rs".to_string(), tokens: 10, role: "core".to_string() },
        BudgetFile { path: "a.rs".to_string(), tokens: -5, role: "core".to_string() },
    ];
    let r = budget_plan(&files, 100);
    assert_eq!(r.used, 5);
    let paths: Vec<&str> = r.included.iter().map(|i| i.path.as_str()).collect();
    assert_eq!(paths, vec!["a.rs", "b.rs"]);
    assert!(r.excluded.is_empty());
}
