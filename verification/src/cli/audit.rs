//! The check of the audit log's hash chain behind `ctx audit verify`: each
//! entry names, in its `prev_hash` member, the SHA-256 of the line before
//! it, and the first entry names none.
use vstd::prelude::*;

use serde_json::Value;
use sha2::{Digest, Sha256};

use crate::text::{chars_eq, chars_of, views};

verus! {

/// Names the lowercase hexadecimal SHA-256 digest of the UTF-8 bytes of
/// `s`, as sha2 computes it.
pub uninterp spec fn sha256_text(s: Seq<char>) -> Seq<char>;

/// Calls sha2's `Sha256::digest` on the bytes of `raw` and prints the
/// digest in lowercase hexadecimal. The result is a function of the text
/// alone, named [`sha256_text`]; nothing more is claimed of it.
#[verifier::external_body]
pub(crate) fn sha256_hex(raw: &str) -> (r: String)
    ensures
        r@ == sha256_text(raw@),
{
    format!("{:x}", Sha256::digest(raw.as_bytes()))
}

/// A member of a JSON object, by the kind of value serde_json reads there.
#[derive(Debug, Clone, PartialEq, Eq)]
pub enum JsonMember {
    /// The text is not JSON.
    Invalid,
    /// The text is JSON but holds no such member (or is not an object).
    Missing,
    Null,
    Bool,
    Number,
    Text(String),
    Array,
    Object,
}

/// A member by view.
pub enum MemberView {
    Invalid,
    Missing,
    Null,
    Bool,
    Number,
    Text(Seq<char>),
    Array,
    Object,
}

impl JsonMember {
    /// The view of a member: its text by view.
    pub open spec fn view_of(self) -> MemberView {
        match self {
            JsonMember::Invalid => MemberView::Invalid,
            JsonMember::Missing => MemberView::Missing,
            JsonMember::Null => MemberView::Null,
            JsonMember::Bool => MemberView::Bool,
            JsonMember::Number => MemberView::Number,
            JsonMember::Text(t) => MemberView::Text(t@),
            JsonMember::Array => MemberView::Array,
            JsonMember::Object => MemberView::Object,
        }
    }
}

/// Names what serde_json reads as the member `key` of the JSON text
/// `line`: whether the text parses, and the kind of value under `key`.
pub uninterp spec fn json_member(line: Seq<char>, key: Seq<char>) -> MemberView;

/// Calls `serde_json::from_str::<Value>` on the line and `Value::get` with
/// `key`, and tells the kind of value found. The result is a function of
/// the line and the key alone, named [`json_member`]; nothing more is
/// claimed of it.
#[verifier::external_body]
pub(crate) fn read_json_member(line: &str, key: &str) -> (r: JsonMember)
    ensures
        r.view_of() == json_member(line@, key@),
{
    match serde_json::from_str::<Value>(line) {
        Err(_) => JsonMember::Invalid,
        Ok(v) => match v.get(key) {
            None => JsonMember::Missing,
            Some(Value::Null) => JsonMember::Null,
            Some(Value::Bool(_)) => JsonMember::Bool,
            Some(Value::Number(_)) => JsonMember::Number,
            Some(Value::String(t)) => JsonMember::Text(t.clone()),
            Some(Value::Array(_)) => JsonMember::Array,
            Some(Value::Object(_)) => JsonMember::Object,
        },
    }
}

/// The previous hash an entry names: `None` when the line cannot say (not
/// JSON, or a `prev_hash` that is neither text nor null), `Some(None)`
/// when it names none (null or absent), else the hash.
pub open spec fn prev_hash_member(line: Seq<char>) -> Option<Option<Seq<char>>> {
    match json_member(line, "prev_hash"@) {
        MemberView::Missing => Some(None),
        MemberView::Null => Some(None),
        MemberView::Text(h) => Some(Some(h)),
        _ => None,
    }
}

/// The previous hash an entry names (see [`prev_hash_member`]).
fn read_prev_hash(line: &str) -> (r: Option<Option<String>>)
    ensures
        prev_hash_member(line@) == (match r {
            Some(Some(h)) => Some(Some(h@)),
            Some(None) => Some(None::<Seq<char>>),
            None => None,
        }),
{
    match read_json_member(line, "prev_hash") {
        JsonMember::Missing => Some(None),
        JsonMember::Null => Some(None),
        JsonMember::Text(h) => Some(Some(h)),
        _ => None,
    }
}

/// The outcome of checking the chain: whether every entry links, the
/// entries read, and where the last run of broken entries starts and ends
/// (entries counted from 1 over the non-empty lines; 0 when none is
/// broken).
#[derive(Debug, Clone, Copy, PartialEq, Eq)]
pub struct AuditVerifyResult {
    pub ok: bool,
    pub total: usize,
    pub broken_at: usize,
    pub broken_end: usize,
}

/// An entry does not link to the one before it: the first entry must name
/// no previous hash, every later one the hash of the line before it, and
/// an entry whose member cannot be read is broken.
pub open spec fn link_broken(prev: Option<Seq<char>>, member: Option<Option<Seq<char>>>) -> bool {
    match prev {
        None => member != Some(None::<Seq<char>>),
        Some(p) => match member {
            Some(Some(h)) => h != sha256_text(p),
            _ => true,
        },
    }
}

/// The state of the check after some lines: the last entry, whether it
/// was broken, the entries read, and the start and end of the last broken
/// run.
pub struct ChainState {
    pub prev: Option<Seq<char>>,
    pub in_broken: bool,
    pub total: nat,
    pub broken_at: nat,
    pub broken_end: nat,
}

/// The state after one more line; empty lines are skipped. A broken entry
/// after an intact one starts a new broken run.
pub open spec fn chain_step(st: ChainState, line: Seq<char>) -> ChainState {
    if line.len() == 0 {
        st
    } else {
        let n = st.total + 1;
        let broken = link_broken(st.prev, prev_hash_member(line));
        ChainState {
            prev: Some(line),
            in_broken: broken,
            total: n,
            broken_at: if broken && !st.in_broken {
                n
            } else {
                st.broken_at
            },
            broken_end: if broken {
                n
            } else {
                st.broken_end
            },
        }
    }
}

/// The state after all the lines.
pub open spec fn chain_run(lines: Seq<Seq<char>>) -> ChainState
    decreases lines.len(),
{
    if lines.len() == 0 {
        ChainState { prev: None, in_broken: false, total: 0, broken_at: 0, broken_end: 0 }
    } else {
        chain_step(chain_run(lines.drop_last()), lines.last())
    }
}

/// Checks the hash chain of the audit log's lines (see [`chain_run`]).
pub fn verify_audit_lines(lines: &[String]) -> (r: AuditVerifyResult)
    ensures
        r.total == chain_run(views(lines@)).total,
        r.broken_at == chain_run(views(lines@)).broken_at,
        r.broken_end == chain_run(views(lines@)).broken_end,
        r.ok == (r.broken_at == 0),
{
    let ghost ls = views(lines@);
    let mut prev: Option<String> = None;
    let mut in_broken = false;
    let mut total: usize = 0;
    let mut broken_at: usize = 0;
    let mut broken_end: usize = 0;
    let mut i: usize = 0;
    assert(ls.take(0) =~= Seq::<Seq<char>>::empty());
    while i < lines.len()
        invariant
            i <= lines.len(),
            ls == views(lines@),
            total <= i,
            ({
                let st = chain_run(ls.take(i as int));
                &&& st.prev == (match prev {
                    Some(p) => Some(p@),
                    None => None::<Seq<char>>,
                })
                &&& st.in_broken == in_broken
                &&& st.total == total
                &&& st.broken_at == broken_at
                &&& st.broken_end == broken_end
            }),
        decreases lines.len() - i,
    {
        assert(ls.take(i + 1).drop_last() =~= ls.take(i as int));
        assert(ls.take(i + 1).last() == lines@[i as int]@);
        let line = &lines[i];
        if !line.as_str().is_empty() {
            total = total + 1;
            let member = read_prev_hash(line.as_str());
            let broken = match &prev {
                None => match &member {
                    Some(None) => false,
                    _ => true,
                },
                Some(p) => match &member {
                    Some(Some(h)) => {
                        let d = sha256_hex(p.as_str());
                        !chars_eq(&chars_of(h.as_str()), &chars_of(d.as_str()))
                    },
                    _ => true,
                },
            };
            if broken {
                if !in_broken {
                    broken_at = total;
                    in_broken = true;
                }
                broken_end = total;
            } else {
                in_broken = false;
            }
            prev = Some(line.clone());
        }
        i = i + 1;
    }
    assert(ls.take(lines.len() as int) =~= ls);
    AuditVerifyResult { ok: broken_at == 0, total, broken_at, broken_end }
}

/// The non-empty lines, in order: the entries of the log.
pub open spec fn entries(lines: Seq<Seq<char>>) -> Seq<Seq<char>>
    decreases lines.len(),
{
    if lines.len() == 0 {
        Seq::empty()
    } else {
        entries(lines.drop_last()) + if lines.last().len() > 0 {
            seq![lines.last()]
        } else {
            Seq::<Seq<char>>::empty()
        }
    }
}

/// Entry `i` links to the one before it (see [`link_broken`]).
pub open spec fn links(es: Seq<Seq<char>>, i: int) -> bool {
    !link_broken(if i == 0 { None } else { Some(es[i - 1]) }, prev_hash_member(es[i]))
}

/// What the check knows after some lines: the last entry, the count of
/// entries, and that nothing is marked broken exactly when every entry
/// links.
proof fn lemma_chain_run(lines: Seq<Seq<char>>)
    ensures
        chain_run(lines).total == entries(lines).len(),
        chain_run(lines).prev == (if entries(lines).len() == 0 {
            None
        } else {
            Some(entries(lines).last())
        }),
        chain_run(lines).in_broken ==> chain_run(lines).broken_at > 0,
        (chain_run(lines).broken_at == 0) == (forall|i: int|
            0 <= i < entries(lines).len() ==> #[trigger] links(entries(lines), i)),
    decreases lines.len(),
{
    if lines.len() > 0 {
        let rest = lines.drop_last();
        lemma_chain_run(rest);
        let es = entries(rest);
        if lines.last().len() > 0 {
            let all = es.push(lines.last());
            assert(entries(lines) =~= all);
            assert forall|i: int| 0 <= i < es.len() implies #[trigger] links(all, i) == links(es, i) by {
                if i > 0 {
                    assert(all[i - 1] == es[i - 1]);
                }
                assert(all[i] == es[i]);
            }
            let n = es.len() as int;
            if chain_run(lines).broken_at == 0 {
                assert forall|i: int| 0 <= i < all.len() implies #[trigger] links(all, i) by {
                    if i < n {
                        assert(links(es, i));
                    }
                }
            } else {
                if link_broken(chain_run(rest).prev, prev_hash_member(lines.last())) {
                    assert(!links(all, n));
                } else {
                    assert(chain_run(rest).broken_at > 0);
                    let w = choose|i: int| 0 <= i < es.len() && !#[trigger] links(es, i);
                    assert(!links(all, w));
                }
            }
        } else {
            assert(entries(lines) =~= es);
        }
    }
}

/// A log whose entries each name the hash of the line before them, the
/// first naming none, checks out: nothing is broken.
pub proof fn law_linked_chain_verifies(lines: Seq<Seq<char>>)
    requires
        forall|i: int| 0 <= i < entries(lines).len() ==> #[trigger] links(entries(lines), i),
    ensures
        chain_run(lines).broken_at == 0,
{
    lemma_chain_run(lines);
}

/// An entry that does not name the hash of the line before it (or that
/// names one when it is first) is caught: the check reports a break.
pub proof fn law_broken_link_detected(lines: Seq<Seq<char>>, i: int)
    requires
        0 <= i < entries(lines).len(),
        !links(entries(lines), i),
    ensures
        chain_run(lines).broken_at > 0,
{
    lemma_chain_run(lines);
}

} // verus!
