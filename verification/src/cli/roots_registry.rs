//! The registry of known repository roots behind `ctx roots`: adding a root
//! under a unique name, removing and finding one by name or by path.
//!
//! Paths are compared in canonical form. Making a path canonical reads the
//! file system, so the caller hands in the canonical form of the target and
//! of each registered path (`None` where it could not be made).
use vstd::prelude::*;

use crate::text::{append_chars, chars_of, debug_quoted, debug_text, string_of};

verus! {

/// A registered root: its name, canonical path, and the times it was added
/// and last opened (RFC 3339 text), when known.
#[derive(Debug, Clone, PartialEq, Eq)]
pub struct RootEntry {
    pub name: String,
    pub path: String,
    pub added_at: Option<String>,
    pub last_opened_at: Option<String>,
}

/// The registry file.
#[derive(Debug, Clone, PartialEq, Eq)]
pub struct RootsFile {
    pub roots: Vec<RootEntry>,
}

/// The index of the first root named `name`.
pub open spec fn index_by_name(roots: Seq<RootEntry>, name: Seq<char>) -> Option<int>
    decreases roots.len(),
{
    if roots.len() == 0 {
        None
    } else {
        match index_by_name(roots.drop_last(), name) {
            Some(i) => Some(i),
            None => if roots.last().name@ == name {
                Some(roots.len() - 1)
            } else {
                None
            },
        }
    }
}

/// The index of the first root whose canonical path is `canon`.
pub open spec fn index_by_canon(canons: Seq<Option<String>>, canon: Seq<char>) -> Option<int>
    decreases canons.len(),
{
    if canons.len() == 0 {
        None
    } else {
        match index_by_canon(canons.drop_last(), canon) {
            Some(i) => Some(i),
            None => if canons.last() matches Some(c) && c@ == canon {
                Some(canons.len() - 1)
            } else {
                None
            },
        }
    }
}

/// Names what `Path::file_name` gives for a path: its final component,
/// when it has one (and that component is valid text).
pub uninterp spec fn file_name_text(path: Seq<char>) -> Option<Seq<char>>;

/// Calls `Path::file_name`. Its result is a function of the path alone,
/// named [`file_name_text`]; nothing more is claimed of it.
#[verifier::external_body]
fn path_file_name(path: &str) -> (r: Option<String>)
    ensures
        match r {
            Some(n) => file_name_text(path@) == Some(n@),
            None => file_name_text(path@) is None,
        },
{
    std::path::Path::new(path).file_name().and_then(|n| n.to_str()).map(|n| n.to_owned())
}

/// The name a root is added under: the one given, else the last component
/// of its canonical path, else `root`.
pub open spec fn root_name(canon: Seq<char>, raw_name: Seq<char>) -> Seq<char> {
    if raw_name.len() > 0 {
        raw_name
    } else {
        match file_name_text(canon) {
            Some(n) => n,
            None => "root"@,
        }
    }
}

/// The refusal of a name that another root already holds.
pub open spec fn name_taken(name: Seq<char>, other_path: Seq<char>) -> Seq<char> {
    "roots: name "@ + debug_text(name) + " already used by "@ + other_path
}

/// Some root other than the one at `idx` is named `name`.
pub open spec fn name_used_elsewhere(roots: Seq<RootEntry>, idx: int, name: Seq<char>) -> bool {
    exists|k: int| 0 <= k < roots.len() && k != idx && #[trigger] roots[k].name@ == name
}

/// The index of the first root named `name` other than the one at `idx`.
fn find_name(roots: &Vec<RootEntry>, name: &Vec<char>, skip: Option<usize>) -> (r: Option<usize>)
    ensures
        match r {
            Some(k) => k < roots@.len() && roots@[k as int].name@ == name@ && skip != Some(k),
            None => forall|k: int|
                0 <= k < roots@.len() && !(skip matches Some(x) && x == k) ==> #[trigger] roots@[k].name@
                    != name@,
        },
        skip is None ==> (match r {
            Some(k) => index_by_name(roots@, name@) == Some(k as int),
            None => index_by_name(roots@, name@) is None,
        }),
{
    let mut k: usize = 0;
    while k < roots.len()
        invariant
            k <= roots.len(),
            forall|q: int|
                0 <= q < k && !(skip matches Some(x) && x == q) ==> #[trigger] roots@[q].name@ != name@,
            skip is None ==> index_by_name(roots@.take(k as int), name@) is None,
        decreases roots.len() - k,
    {
        assert(roots@.take(k + 1).drop_last() =~= roots@.take(k as int));
        if skip != Some(k) && crate::text::chars_eq(&chars_of(roots[k].name.as_str()), name) {
            proof {
                if skip is None {
                    lemma_index_by_name_prefix(roots@, name@, k as int);
                }
            }
            return Some(k);
        }
        k = k + 1;
    }
    assert(roots@.take(roots.len() as int) =~= roots@);
    None
}

/// A name first met at `k` is found at `k`.
proof fn lemma_index_by_name_prefix(roots: Seq<RootEntry>, name: Seq<char>, k: int)
    requires
        0 <= k < roots.len(),
        roots[k].name@ == name,
        index_by_name(roots.take(k), name) is None,
    ensures
        index_by_name(roots, name) == Some(k),
    decreases roots.len(),
{
    if k < roots.len() - 1 {
        assert(roots.drop_last().take(k) =~= roots.take(k));
        lemma_index_by_name_prefix(roots.drop_last(), name, k);
    } else {
        assert(roots.drop_last() =~= roots.take(k));
    }
}

/// The index of the first root whose canonical path is `canon`.
fn find_canon(canons: &[Option<String>], canon: &Vec<char>) -> (r: Option<usize>)
    ensures
        match r {
            Some(k) => index_by_canon(canons@, canon@) == Some(k as int),
            None => index_by_canon(canons@, canon@) is None,
        },
{
    let mut k: usize = 0;
    while k < canons.len()
        invariant
            k <= canons.len(),
            index_by_canon(canons@.take(k as int), canon@) is None,
        decreases canons.len() - k,
    {
        assert(canons@.take(k + 1).drop_last() =~= canons@.take(k as int));
        let hit = match &canons[k] {
            Some(c) => crate::text::chars_eq(&chars_of(c.as_str()), canon),
            None => false,
        };
        if hit {
            proof {
                lemma_index_by_canon_prefix(canons@, canon@, k as int);
            }
            return Some(k);
        }
        k = k + 1;
    }
    assert(canons@.take(canons.len() as int) =~= canons@);
    None
}

/// A canonical path first met at `k` is found at `k`.
proof fn lemma_index_by_canon_prefix(canons: Seq<Option<String>>, canon: Seq<char>, k: int)
    requires
        0 <= k < canons.len(),
        canons[k] matches Some(c) && c@ == canon,
        index_by_canon(canons.take(k), canon) is None,
    ensures
        index_by_canon(canons, canon) == Some(k),
    decreases canons.len(),
{
    if k < canons.len() - 1 {
        assert(canons.drop_last().take(k) =~= canons.take(k));
        lemma_index_by_canon_prefix(canons.drop_last(), canon, k);
    } else {
        assert(canons.drop_last() =~= canons.take(k));
    }
}

/// A found index lies within the list.
proof fn lemma_index_by_canon_bound(canons: Seq<Option<String>>, canon: Seq<char>)
    ensures
        index_by_canon(canons, canon) matches Some(k) ==> 0 <= k < canons.len(),
    decreases canons.len(),
{
    if canons.len() > 0 {
        lemma_index_by_canon_bound(canons.drop_last(), canon);
    }
}

/// A copy of an optional text.
fn clone_text(t: &Option<String>) -> (r: Option<String>)
    ensures
        r == *t,
{
    match t {
        Some(s) => Some(s.clone()),
        None => None,
    }
}

/// A copy of a root entry.
pub fn clone_entry(e: &RootEntry) -> (r: RootEntry)
    ensures
        r == *e,
{
    RootEntry {
        name: e.name.clone(),
        path: e.path.clone(),
        added_at: clone_text(&e.added_at),
        last_opened_at: clone_text(&e.last_opened_at),
    }
}

/// The refusal of a taken name (see [`name_taken`]).
fn taken_message(name: &Vec<char>, other_path: &String) -> (r: String)
    ensures
        r@ == name_taken(name@, other_path@),
{
    let mut e = chars_of("roots: name ");
    append_chars(&mut e, &chars_of(debug_quoted(string_of(name).as_str()).as_str()));
    append_chars(&mut e, &chars_of(" already used by "));
    append_chars(&mut e, &chars_of(other_path.as_str()));
    string_of(&e)
}

/// What adding a root does (see [`roots_add`]): `r` is the answer and
/// `after` the roots afterwards.
pub open spec fn add_outcome(
    roots: Seq<RootEntry>,
    canon: Seq<char>,
    canons: Seq<Option<String>>,
    raw_name: Seq<char>,
    now: Option<String>,
    r: Result<(bool, RootEntry), String>,
    after: Seq<RootEntry>,
) -> bool {
    let name = root_name(canon, raw_name);
    match index_by_canon(canons, canon) {
        Some(e) => if name_used_elsewhere(roots, e, name) {
            r matches Err(m) && index_by_name(roots, name) is Some && m@ == name_taken(
                name,
                roots[index_by_name(roots, name)->0].path@,
            ) && after == roots
        } else {
            r matches Ok((added, entry)) && !added && entry.name@ == name && entry.path@ == canon
                && entry.added_at == roots[e].added_at && entry.last_opened_at
                == roots[e].last_opened_at && after == roots.update(e, entry)
        },
        None => match index_by_name(roots, name) {
            Some(k) => r matches Err(m) && m@ == name_taken(name, roots[k].path@) && after == roots,
            None => r matches Ok((added, entry)) && added && entry.name@ == name && entry.path@
                == canon && entry.added_at == now && entry.last_opened_at is None && after
                == roots.push(entry),
        },
    }
}

/// Adds the root whose canonical path is `canon` under `raw_name` (see
/// [`root_name`]); `canons` holds the canonical path of each registered
/// root and `now` the time of adding.
///
/// A root already registered at that path is renamed (`Ok(false, ..)`),
/// unless another root holds the name; a new root is appended
/// (`Ok(true, ..)`), unless any root holds the name. A taken name is
/// refused, naming the path of the first root that holds it.
pub fn roots_add(
    registry: &mut RootsFile,
    canon: &str,
    canons: &[Option<String>],
    raw_name: &str,
    now: Option<String>,
) -> (r: Result<(bool, RootEntry), String>)
    requires
        canons@.len() == old(registry).roots@.len(),
    ensures
        add_outcome(old(registry).roots@, canon@, canons@, raw_name@, now, r, final(registry).roots@),
{
    let name: Vec<char> = if raw_name.is_empty() {
        match path_file_name(canon) {
            Some(n) => chars_of(n.as_str()),
            None => chars_of("root"),
        }
    } else {
        chars_of(raw_name)
    };
    let cc = chars_of(canon);
    proof {
        lemma_index_by_canon_bound(canons@, canon@);
    }
    match find_canon(canons, &cc) {
        Some(e) => {
            match find_name(&registry.roots, &name, Some(e)) {
                Some(_) => {
                    let first = find_name(&registry.roots, &name, None);
                    match first {
                        Some(f) => {
                            let m = taken_message(&name, &registry.roots[f].path);
                            return Err(m);
                        },
                        None => {
                            assert(false);
                            return Err(String::new());
                        },
                    }
                },
                None => {
                    let old_entry = clone_entry(&registry.roots[e]);
                    let entry = RootEntry {
                        name: string_of(&name),
                        path: canon.to_owned(),
                        added_at: old_entry.added_at,
                        last_opened_at: old_entry.last_opened_at,
                    };
                    let copy = clone_entry(&entry);
                    let ghost before = registry.roots@;
                    registry.roots.set(e, entry);
                    assert(registry.roots@ == before.update(e as int, copy));
                    assert forall|k: int| 0 <= k < before.len() && k != e implies #[trigger] before[k].name@
                        != name@ by {
                        assert(!(Some(e) matches Some(x) && x == k));
                    }
                    return Ok((false, copy));
                },
            }
        },
        None => {
            match find_name(&registry.roots, &name, None) {
                Some(k) => {
                    let m = taken_message(&name, &registry.roots[k].path);
                    return Err(m);
                },
                None => {
                    let entry = RootEntry {
                        name: string_of(&name),
                        path: canon.to_owned(),
                        added_at: now,
                        last_opened_at: None,
                    };
                    let copy = clone_entry(&entry);
                    registry.roots.push(entry);
                    return Ok((true, copy));
                },
            }
        },
    }
}

/// The index of the root that `target` names: the first root with that
/// name, else the first whose canonical path is the target's; the target's
/// canonical path is needed (and its error reported) only in the second
/// case.
pub open spec fn target_index(
    roots: Seq<RootEntry>,
    target: Seq<char>,
    target_canon: Result<String, String>,
    canons: Seq<Option<String>>,
) -> Result<Option<int>, Seq<char>> {
    match index_by_name(roots, target) {
        Some(i) => Ok(Some(i)),
        None => match target_canon {
            Err(e) => Err(e@),
            Ok(c) => Ok(index_by_canon(canons, c@)),
        },
    }
}

/// A found name lies within the list.
proof fn lemma_index_by_name_bound(roots: Seq<RootEntry>, name: Seq<char>)
    ensures
        index_by_name(roots, name) matches Some(k) ==> 0 <= k < roots.len() && roots[k].name@
            == name,
    decreases roots.len(),
{
    if roots.len() > 0 {
        lemma_index_by_name_bound(roots.drop_last(), name);
    }
}

/// The index of the root that `target` names (see [`target_index`]).
fn find_target(
    roots: &Vec<RootEntry>,
    target: &str,
    target_canon: &Result<String, String>,
    canons: &[Option<String>],
) -> (r: Result<Option<usize>, String>)
    requires
        canons@.len() == roots@.len(),
    ensures
        match r {
            Ok(Some(k)) => k < roots@.len() && target_index(roots@, target@, *target_canon, canons@)
                == Ok::<Option<int>, Seq<char>>(Some(k as int)),
            Ok(None) => target_index(roots@, target@, *target_canon, canons@) == Ok::<
                Option<int>,
                Seq<char>,
            >(None),
            Err(e) => target_index(roots@, target@, *target_canon, canons@) == Err::<
                Option<int>,
                Seq<char>,
            >(e@),
        },
{
    proof {
        lemma_index_by_name_bound(roots@, target@);
    }
    if let Some(i) = find_name(roots, &chars_of(target), None) {
        return Ok(Some(i));
    }
    match target_canon {
        Err(e) => Err(e.clone()),
        Ok(c) => {
            proof {
                lemma_index_by_canon_bound(canons@, c@);
            }
            Ok(find_canon(canons, &chars_of(c.as_str())))
        },
    }
}

/// The root that `target` names (see [`target_index`]); `target_canon` is
/// the target made canonical, `canons` the registered paths made canonical.
pub fn roots_find(
    registry: &RootsFile,
    target: &str,
    target_canon: Result<String, String>,
    canons: &[Option<String>],
) -> (r: Result<Option<RootEntry>, String>)
    requires
        canons@.len() == registry.roots@.len(),
    ensures
        match target_index(registry.roots@, target@, target_canon, canons@) {
            Ok(Some(k)) => r == Ok::<Option<RootEntry>, String>(Some(registry.roots@[k])),
            Ok(None) => r == Ok::<Option<RootEntry>, String>(None),
            Err(e) => r matches Err(m) && m@ == e,
        },
{
    match find_target(&registry.roots, target, &target_canon, canons) {
        Err(e) => Err(e),
        Ok(None) => Ok(None),
        Ok(Some(k)) => Ok(Some(clone_entry(&registry.roots[k]))),
    }
}

/// Removes the root that `target` names (see [`target_index`]); `true`
/// when one was removed.
pub fn roots_remove(
    registry: &mut RootsFile,
    target: &str,
    target_canon: Result<String, String>,
    canons: &[Option<String>],
) -> (r: Result<bool, String>)
    requires
        canons@.len() == old(registry).roots@.len(),
    ensures
        match target_index(old(registry).roots@, target@, target_canon, canons@) {
            Ok(Some(k)) => r == Ok::<bool, String>(true) && final(registry).roots@ == old(
                registry,
            ).roots@.remove(k),
            Ok(None) => r == Ok::<bool, String>(false) && final(registry).roots@ == old(
                registry,
            ).roots@,
            Err(e) => r matches Err(m) && m@ == e && final(registry).roots@ == old(registry).roots@,
        },
{
    match find_target(&registry.roots, target, &target_canon, canons) {
        Err(e) => Err(e),
        Ok(None) => Ok(false),
        Ok(Some(k)) => {
            registry.roots.remove(k);
            Ok(true)
        },
    }
}

/// Records that the root named `name` was opened at `now`; nothing changes
/// when no root has that name.
pub fn roots_mark_opened(registry: &mut RootsFile, name: &str, now: Option<String>)
    ensures
        match index_by_name(old(registry).roots@, name@) {
            Some(k) => final(registry).roots@ == old(registry).roots@.update(
                k,
                RootEntry { last_opened_at: now, ..old(registry).roots@[k] },
            ),
            None => final(registry).roots@ == old(registry).roots@,
        },
{
    proof {
        lemma_index_by_name_bound(registry.roots@, name@);
    }
    if let Some(k) = find_name(&registry.roots, &chars_of(name), None) {
        let old_entry = clone_entry(&registry.roots[k]);
        let entry = RootEntry {
            name: old_entry.name,
            path: old_entry.path,
            added_at: old_entry.added_at,
            last_opened_at: now,
        };
        registry.roots.set(k, entry);
    }
}

/// A root added under a name is the one found by that name afterwards: a
/// successful add leaves the entry it answers with as the first (and only)
/// root of its name.
pub proof fn law_added_root_found_by_name(
    roots: Seq<RootEntry>,
    canon: Seq<char>,
    canons: Seq<Option<String>>,
    raw_name: Seq<char>,
    now: Option<String>,
    added: bool,
    entry: RootEntry,
    after: Seq<RootEntry>,
)
    requires
        canons.len() == roots.len(),
        add_outcome(roots, canon, canons, raw_name, now, Ok((added, entry)), after),
    ensures
        index_by_name(after, entry.name@) matches Some(k) && after[k] == entry,
{
    let name = root_name(canon, raw_name);
    lemma_index_by_canon_bound(canons, canon);
    match index_by_canon(canons, canon) {
        Some(e) => {
            assert(!name_used_elsewhere(roots, e, name));
            lemma_first_name_after_update(roots, e, entry, name, roots.len() as int);
            assert(roots.update(e, entry).take(roots.len() as int) =~= roots.update(e, entry));
            assert(after[e] == entry);
        },
        None => {
            assert(index_by_name(roots, name) is None);
            lemma_index_by_name_push(roots, entry, name);
            assert(after[roots.len() as int] == entry);
        },
    }
}

/// Appending a root whose name no root holds makes it the first of that
/// name.
proof fn lemma_index_by_name_push(roots: Seq<RootEntry>, entry: RootEntry, name: Seq<char>)
    requires
        index_by_name(roots, name) is None,
        entry.name@ == name,
    ensures
        index_by_name(roots.push(entry), name) == Some(roots.len() as int),
{
    assert(roots.push(entry).drop_last() =~= roots);
}

/// After the root at `e` takes a name that no other root holds, it is the
/// first of that name among the first `n` roots, when `n` passes it.
proof fn lemma_first_name_after_update(
    roots: Seq<RootEntry>,
    e: int,
    entry: RootEntry,
    name: Seq<char>,
    n: int,
)
    requires
        0 <= e < roots.len(),
        0 <= n <= roots.len(),
        entry.name@ == name,
        !name_used_elsewhere(roots, e, name),
    ensures
        index_by_name(roots.update(e, entry).take(n), name) == (if n > e {
            Some(e)
        } else {
            None::<int>
        }),
    decreases n,
{
    let u = roots.update(e, entry);
    if n > 0 {
        lemma_first_name_after_update(roots, e, entry, name, n - 1);
        assert(u.take(n).drop_last() =~= u.take(n - 1));
        assert(u.take(n).last() == u[n - 1]);
        if n - 1 != e {
            assert(roots[n - 1].name@ != name);
        }
    } else {
        assert(u.take(0) =~= Seq::<RootEntry>::empty());
    }
    if n == roots.len() {
        assert(u.take(n) =~= u);
    }
}

} // verus!
