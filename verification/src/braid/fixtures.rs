//! Where the braid fixtures and golden outputs lie, relative to the
//! manifest directory of the braid crate.
use vstd::prelude::*;

use crate::text::{append_str, chars_of, string_of};

verus! {

/// `base` joined with the relative component `c`, as `Path::join` joins
/// them: a `/` between them unless `base` is empty or ends with one.
pub open spec fn join(base: Seq<char>, c: Seq<char>) -> Seq<char> {
    if base.len() == 0 {
        c
    } else if base.last() == '/' {
        base + c
    } else {
        base + seq!['/'] + c
    }
}

/// The root of the repository: two levels above the manifest directory
/// (`crates/ctx-braid` when it is not known).
pub open spec fn repo_root(manifest_dir: Option<Seq<char>>) -> Seq<char> {
    let m = match manifest_dir {
        Some(d) => d,
        None => "crates/ctx-braid"@,
    };
    join(join(m, ".."@), ".."@)
}

/// Joins a relative component (see [`join`]).
fn join_exec(base: Vec<char>, c: &str) -> (r: Vec<char>)
    ensures
        r@ == join(base@, c@),
{
    let mut b = base;
    if b.len() > 0 && b[b.len() - 1] != '/' {
        b.push('/');
    }
    append_str(&mut b, c);
    b
}

/// The root of the repository (see [`repo_root`]).
fn repo_root_exec(manifest_dir: Option<&str>) -> (r: Vec<char>)
    ensures
        r@ == repo_root(match manifest_dir {
            Some(d) => Some(d@),
            None => None::<Seq<char>>,
        }),
{
    let m = match manifest_dir {
        Some(d) => chars_of(d),
        None => chars_of("crates/ctx-braid"),
    };
    join_exec(join_exec(m, ".."), "..")
}

/// The braid fixtures: `tests/braid-fixtures` under the repository root;
/// `manifest_dir` is the value of `CARGO_MANIFEST_DIR`, when set.
pub fn fixtures_dir(manifest_dir: Option<&str>) -> (r: String)
    ensures
        r@ == join(
            join(
                repo_root(match manifest_dir {
                    Some(d) => Some(d@),
                    None => None::<Seq<char>>,
                }),
                "tests"@,
            ),
            "braid-fixtures"@,
        ),
{
    string_of(&join_exec(join_exec(repo_root_exec(manifest_dir), "tests"), "braid-fixtures"))
}

/// The braid golden outputs: `tests/parity/braid-goldens` under the
/// repository root.
pub fn goldens_dir(manifest_dir: Option<&str>) -> (r: String)
    ensures
        r@ == join(
            join(
                join(
                    repo_root(match manifest_dir {
                        Some(d) => Some(d@),
                        None => None::<Seq<char>>,
                    }),
                    "tests"@,
                ),
                "parity"@,
            ),
            "braid-goldens"@,
        ),
{
    string_of(
        &join_exec(join_exec(join_exec(repo_root_exec(manifest_dir), "tests"), "parity"), "braid-goldens"),
    )
}

} // verus!
