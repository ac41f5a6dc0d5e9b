use ctx::braid::merge::{parse_path_range, ranges_overlap, PathRange};
use ctx::{merge_paths, MergedFile, PolicyKind, StrandSelection};

fn sel(name: &str, policy: PolicyKind, paths: &[&str]) -> StrandSelection {
    StrandSelection {
        name: name.into(),
        policy,
        paths: paths.iter().map(|s| s.to_string()).collect(),
    }
}

#[test]
fn merge_keeps_duplicates_across_strands() {
    let got = merge_paths(&[
        sel("a", PolicyKind::Merge, &["x.go", "y.go"]),
        sel("b", PolicyKind::Merge, &["y.go", "z.go"]),
    ]);
    assert_eq!(got.len(), 4);
    assert_eq!(got[0].path, "x.go");
    assert_eq!(got[0].origin, "a");
    assert_eq!(got[1].path, "y.go");
    assert_eq!(got[1].origin, "a");
    assert_eq!(got[2].path, "y.go");
    assert_eq!(got[2].origin, "b");
    assert_eq!(got[3].path, "z.go");
    assert_eq!(got[3].origin, "b");
}

#[test]
fn prefer_newer_evicts_earlier() {
    let got = merge_paths(&[
        sel("a", PolicyKind::Merge, &["x.go", "y.go"]),
        sel("b", PolicyKind::PreferNewer, &["y.go", "z.go"]),
    ]);
    assert_eq!(got.len(), 3);
    assert_eq!(got[0].path, "x.go");
    assert_eq!(got[0].origin, "a");
    assert_eq!(got[1].path, "y.go");
    assert_eq!(got[1].origin, "b");
    assert_eq!(got[2].path, "z.go");
}

#[test]
fn exclude_overlap_drops_later() {
    let got = merge_paths(&[
        sel("a", PolicyKind::Merge, &["x.go", "y.go"]),
        sel("b", PolicyKind::ExcludeOverlap, &["y.go", "z.go"]),
    ]);
    assert_eq!(got.len(), 3);
    assert_eq!(got[0].path, "x.go");
    assert_eq!(got[1].path, "y.go");
    assert_eq!(got[1].origin, "a");
    assert_eq!(got[2].path, "z.go");
}

#[test]
fn per_strand_dedup_within_a_strand() {
    let got = merge_paths(&[sel("a", PolicyKind::Merge, &["x.go", "x.go", "y.go"])]);
    assert_eq!(got.len(), 2);
    assert_eq!(got[0].path, "x.go");
    assert_eq!(got[1].path, "y.go");
}

#[test]
fn empty_paths_are_skipped() {
    let got = merge_paths(&[sel("a", PolicyKind::Merge, &["", "x.go", ""])]);
    assert_eq!(got.len(), 1);
    assert_eq!(got[0].path, "x.go");
}

#[test]
fn line_ranges_allow_non_overlapping_selections() {
    let got = merge_paths(&[
        sel("a", PolicyKind::Merge, &["x.go:1-10"]),
        sel("b", PolicyKind::ExcludeOverlap, &["x.go:11-20", "x.go:5-6"]),
    ]);
    assert_eq!(
        got,
        vec![
            MergedFile {
                path: "x.go:1-10".into(),
                origin: "a".into()
            },
            MergedFile {
                path: "x.go:11-20".into(),
                origin: "b".into()
            },
        ]
    );
}

#[test]
fn line_range_prefer_newer_only_evicts_overlaps() {
    let got = merge_paths(&[
        sel("a", PolicyKind::Merge, &["x.go:1-10", "x.go:20-30"]),
        sel("b", PolicyKind::PreferNewer, &["x.go:5-15"]),
    ]);
    assert_eq!(
        got,
        vec![
            MergedFile {
                path: "x.go:20-30".into(),
                origin: "a".into()
            },
            MergedFile {
                path: "x.go:5-15".into(),
                origin: "b".into()
            },
        ]
    );
}

#[test]
fn merge_paths_merge_policy_keeps_all() {
    let got = merge_paths(&[
        StrandSelection {
            name: "a".into(),
            policy: PolicyKind::Merge,
            paths: vec!["x.go".into(), "y.go".into()],
        },
        StrandSelection {
            name: "b".into(),
            policy: PolicyKind::Merge,
            paths: vec!["y.go".into(), "z.go".into()],
        },
    ]);
    assert_eq!(
        got,
        vec![
            MergedFile {
                path: "x.go".into(),
                origin: "a".into()
            },
            MergedFile {
                path: "y.go".into(),
                origin: "a".into()
            },
            MergedFile {
                path: "y.go".into(),
                origin: "b".into()
            },
            MergedFile {
                path: "z.go".into(),
                origin: "b".into()
            },
        ]
    );
}

#[test]
fn merge_paths_prefer_newer_evicts_earlier() {
    let got = merge_paths(&[
        StrandSelection {
            name: "a".into(),
            policy: PolicyKind::Merge,
            paths: vec!["x.go".into(), "y.go".into()],
        },
        StrandSelection {
            name: "b".into(),
            policy: PolicyKind::PreferNewer,
            paths: vec!["y.go".into(), "z.go".into()],
        },
    ]);
    assert_eq!(
        got,
        vec![
            MergedFile {
                path: "x.go".into(),
                origin: "a".into()
            },
            MergedFile {
                path: "y.go".into(),
                origin: "b".into()
            },
            MergedFile {
                path: "z.go".into(),
                origin: "b".into()
            },
        ]
    );
}

#[test]
fn merge_paths_exclude_overlap_drops_later() {
    let got = merge_paths(&[
        StrandSelection {
            name: "a".into(),
            policy: PolicyKind::Merge,
            paths: vec!["x.go".into(), "y.go".into()],
        },
        StrandSelection {
            name: "b".into(),
            policy: PolicyKind::ExcludeOverlap,
            paths: vec!["y.go".into(), "z.go".into()],
        },
    ]);
    assert_eq!(
        got,
        vec![
            MergedFile {
                path: "x.go".into(),
                origin: "a".into()
            },
            MergedFile {
                path: "y.go".into(),
                origin: "a".into()
            },
            MergedFile {
                path: "z.go".into(),
                origin: "b".into()
            },
        ]
    );
}

#[test]
fn merge_paths_line_ranges_allow_non_overlapping_overlap_policy() {
    let got = merge_paths(&[
        StrandSelection {
            name: "a".into(),
            policy: PolicyKind::Merge,
            paths: vec!["x.go:1-10".into()],
        },
        StrandSelection {
            name: "b".into(),
            policy: PolicyKind::ExcludeOverlap,
            paths: vec!["x.go:11-20".into(), "x.go:5-6".into()],
        },
    ]);
    assert_eq!(
        got,
        vec![
            MergedFile {
                path: "x.go:1-10".into(),
                origin: "a".into()
            },
            MergedFile {
                path: "x.go:11-20".into(),
                origin: "b".into()
            },
        ]
    );
}

#[test]
fn merge_paths_line_range_prefer_newer_only_evicts_overlaps() {
    let got = merge_paths(&[
        StrandSelection {
            name: "a".into(),
            policy: PolicyKind::Merge,
            paths: vec!["x.go:1-10".into(), "x.go:20-30".into()],
        },
        StrandSelection {
            name: "b".into(),
            policy: PolicyKind::PreferNewer,
            paths: vec!["x.go:5-15".into()],
        },
    ]);
    assert_eq!(
        got,
        vec![
            MergedFile {
                path: "x.go:20-30".into(),
                origin: "a".into()
            },
            MergedFile {
                path: "x.go:5-15".into(),
                origin: "b".into()
            },
        ]
    );
}

// Line ranges.

fn range(path: &str, start: i64, end: i64) -> PathRange {
    PathRange {
        path: path.into(),
        start,
        end,
    }
}

#[test]
fn path_range_reads_single_line_and_span() {
    assert_eq!(parse_path_range("x.go:10"), range("x.go", 10, 10));
    assert_eq!(parse_path_range("x.go:10-20"), range("x.go", 10, 20));
    assert_eq!(parse_path_range("x.go:20-10"), range("x.go", 10, 20));
    assert_eq!(parse_path_range("x.go:+7"), range("x.go", 7, 7));
    assert_eq!(parse_path_range("a:b:3-4"), range("a:b", 3, 4));
}

#[test]
fn path_range_falls_back_to_whole_file() {
    for raw in [
        "x.go",
        "x.go:",
        ":10",
        "x.go:0",
        "x.go:-3",
        "x.go:abc",
        "x.go:5-0",
        "x.go:5-",
        "x.go:5--3",
        "x.go:99999999999999999999",
    ] {
        assert_eq!(parse_path_range(raw), range(raw, 1, i64::MAX), "{raw}");
    }
}

#[test]
fn path_range_key_formats_path_and_bounds() {
    assert_eq!(parse_path_range("x.go:5-15").key(), "x.go:5-15");
    assert_eq!(parse_path_range("x.go:7").key(), "x.go:7-7");
    assert_eq!(
        parse_path_range("x.go").key(),
        "x.go:1-9223372036854775807"
    );
    assert_eq!(range("p", -4, 0).key(), "p:-4-0");
}

#[test]
fn ranges_overlap_needs_same_path_and_shared_line() {
    assert!(ranges_overlap(&range("x", 1, 10), &range("x", 10, 20)));
    assert!(!ranges_overlap(&range("x", 1, 10), &range("x", 11, 20)));
    assert!(!ranges_overlap(&range("x", 1, 10), &range("y", 1, 10)));
    assert!(ranges_overlap(&range("x", 5, 6), &range("x", 1, 10)));
}

#[test]
fn same_range_written_twice_is_one_entry() {
    let got = merge_paths(&[sel("a", PolicyKind::Merge, &["x.go:5", "x.go:5-5", "x.go:6"])]);
    let paths: Vec<&str> = got.iter().map(|m| m.path.as_str()).collect();
    assert_eq!(paths, vec!["x.go:5", "x.go:6"]);
}

#[test]
fn prefer_newer_within_one_strand_evicts_its_own_earlier_entry() {
    let got = merge_paths(&[sel("b", PolicyKind::PreferNewer, &["x.go:1-10", "x.go:5-6"])]);
    let paths: Vec<&str> = got.iter().map(|m| m.path.as_str()).collect();
    assert_eq!(paths, vec!["x.go:5-6"]);
}

#[test]
fn whole_file_meets_every_range_of_the_same_file() {
    let got = merge_paths(&[
        sel("a", PolicyKind::Merge, &["x.go:100-200", "y.go"]),
        sel("b", PolicyKind::ExcludeOverlap, &["x.go", "y.go:3"]),
    ]);
    let paths: Vec<&str> = got.iter().map(|m| m.path.as_str()).collect();
    assert_eq!(paths, vec!["x.go:100-200", "y.go"]);
}

#[test]
fn merge_of_no_strands_is_empty() {
    assert!(merge_paths(&[]).is_empty());
}
