use ctx::braid::fixtures::{fixtures_dir, goldens_dir};

#[test]
fn fixture_dirs_lie_under_repo_root() {
    assert_eq!(fixtures_dir(Some("/w/crates/ctx-braid")), "/w/crates/ctx-braid/../../tests/braid-fixtures");
    assert_eq!(goldens_dir(Some("/w/crates/ctx-braid/")), "/w/crates/ctx-braid/../../tests/parity/braid-goldens");
    assert_eq!(fixtures_dir(None), "crates/ctx-braid/../../tests/braid-fixtures");
    assert_eq!(fixtures_dir(Some("")), "../../tests/braid-fixtures");
}
