//! The end-to-end smoke test's rules: when the agent counts as claimed,
//! settled or released, when MiMo Code's screen is ready, and how the
//! scratch directory is added to and removed from MiMo Code's
//! trusted-workspaces file.

use vstd::prelude::*;

use crate::herdr::{claimed, claims, agent_claimed, pane_send_enter, pane_send_keys, pane_send_text, AgentEntry, AGENT};
use crate::install::{home_dir, opt_view};
use crate::json::{lookup, str_eq, string_eq, Json};
use crate::path::{join_path, joined};
use crate::text::{chars_of, contains, has_substring, matches_at, occurs_at, owned, views};

verus! {

/// Label of the throwaway tab.
pub const LABEL: &'static str = "mimo-herdr-verify";

/// The prompt sent to MiMo Code.
pub const PROBE: &'static str = "Reply with exactly: VRFY-OK";

/// What the reply must contain.
pub const MATCH: &'static str = "VRFY-OK";

/// What MiMo Code's input box shows once its screen is ready.
pub const READY_TEXT: &'static str = "Type your message";

/// The first row that shows the bridge's agent in `pane`.
pub open spec fn first_claim(entries: Seq<AgentEntry>, pane: Seq<char>) -> Option<AgentEntry>
    decreases entries.len(),
{
    if entries.len() == 0 {
        None
    } else if claims(entries[0], pane) {
        Some(entries[0])
    } else {
        first_claim(entries.drop_first(), pane)
    }
}

/// A status in which the agent has finished its turn.
pub open spec fn settled_status(status: Seq<char>) -> bool {
    status == "idle"@ || status == "done"@ || status == "unknown"@
}

/// The agent in `pane` has finished its turn.
pub open spec fn settled(entries: Seq<AgentEntry>, pane: Seq<char>) -> bool {
    match first_claim(entries, pane) {
        Some(e) => settled_status(e.agent_status@),
        None => false,
    }
}

/// Whether the first row of the bridge's agent in `pane` shows it idle,
/// done or unknown.
pub fn agent_settled(entries: &Vec<AgentEntry>, pane: &str) -> (b: bool)
    ensures
        b == settled(entries@, pane@),
{
    let mut i: usize = 0;
    assert(entries@.skip(0) =~= entries@);
    while i < entries.len()
        invariant
            i <= entries@.len(),
            first_claim(entries@, pane@) == first_claim(entries@.skip(i as int), pane@),
        decreases entries@.len() - i,
    {
        let e = &entries[i];
        assert(entries@.skip(i as int).drop_first() =~= entries@.skip(i + 1));
        assert(entries@.skip(i as int)[0] == entries@[i as int]);
        if string_eq(&e.agent, AGENT) && string_eq(&e.pane_id, pane) {
            let s = e.agent_status.as_str();
            return str_eq(s, "idle") || str_eq(s, "done") || str_eq(s, "unknown");
        }
        i = i + 1;
    }
    false
}

/// Whether MiMo Code's screen shows its input box.
pub fn is_tui_ready(screen: &str) -> (b: bool)
    ensures
        b == has_substring(screen@, READY_TEXT@),
{
    contains(screen, READY_TEXT)
}

/// The occurrence of the reply text at `i` lies within an occurrence of the
/// prompt (the prompt echoed in the pane, not MiMo Code's reply).
pub open spec fn inside_probe(screen: Seq<char>, i: int) -> bool {
    exists|j: int|
        #[trigger] occurs_at(screen, PROBE@, j) && j <= i && i + MATCH@.len() <= j + PROBE@.len()
}

/// The pane shows the reply text somewhere other than inside an echo of the
/// prompt.
pub open spec fn reply_shown(screen: Seq<char>) -> bool {
    exists|i: int| #[trigger] occurs_at(screen, MATCH@, i) && !inside_probe(screen, i)
}

/// Within the prompt, the reply text starts only at its last characters.
proof fn lemma_reply_in_probe(screen: Seq<char>, i: int)
    requires
        occurs_at(screen, MATCH@, i),
    ensures
        inside_probe(screen, i) <==> occurs_at(screen, PROBE@, i - 20),
{
    reveal_strlit("Reply with exactly: VRFY-OK");
    reveal_strlit("VRFY-OK");
    let p = PROBE@;
    let m = MATCH@;
    assert(p.len() == 27);
    assert(m.len() == 7);
    if inside_probe(screen, i) {
        let j = choose|j: int|
            #[trigger] occurs_at(screen, p, j) && j <= i && i + m.len() <= j + p.len();
        let k = i - j;
        assert(screen[i] == screen.subrange(i, i + m.len())[0]);
        assert(screen[i] == m[0]);
        assert(screen[i] == screen.subrange(j, j + p.len())[k]);
        assert(p[k] == 'V');
        assert(p =~= seq![
            'R', 'e', 'p', 'l', 'y', ' ', 'w', 'i', 't', 'h', ' ', 'e', 'x', 'a', 'c', 't',
            'l', 'y', ':', ' ', 'V', 'R', 'F', 'Y', '-', 'O', 'K',
        ]);
        assert(k == 20);
    }
    if occurs_at(screen, p, i - 20) {
        assert(inside_probe(screen, i));
    }
}

/// Whether the pane shows MiMo Code's reply: the reply text somewhere other
/// than inside the echoed prompt.
pub fn is_reply_seen(screen: &str) -> (b: bool)
    ensures
        b == reply_shown(screen@),
{
    let sv = chars_of(screen);
    let mv = chars_of(MATCH);
    let pv = chars_of(PROBE);
    proof {
        reveal_strlit("Reply with exactly: VRFY-OK");
        reveal_strlit("VRFY-OK");
    }
    let mut i: usize = 0;
    while i < sv.len()
        invariant
            sv@ == screen@,
            mv@ == MATCH@,
            pv@ == PROBE@,
            MATCH@.len() == 7,
            PROBE@.len() == 27,
            i <= sv@.len(),
            forall|k: int|
                0 <= k < i ==> !(#[trigger] occurs_at(screen@, MATCH@, k) && !inside_probe(
                    screen@,
                    k,
                )),
        decreases sv@.len() - i,
    {
        if matches_at(&sv, &mv, i) {
            proof {
                lemma_reply_in_probe(screen@, i as int);
            }
            let echoed = i >= 20 && matches_at(&sv, &pv, i - 20);
            if !echoed {
                assert(!inside_probe(screen@, i as int));
                return true;
            }
        }
        i = i + 1;
    }
    assert forall|k: int| !(#[trigger] occurs_at(screen@, MATCH@, k) && !inside_probe(screen@, k)) by {
        if 0 <= k < i {
        }
    }
    false
}

/// MiMo Code's trusted-workspaces file: under `$XDG_DATA_HOME` when set,
/// else under `<home>/.local/share` (with an empty home when unknown).
pub open spec fn trusted_file_spec(xdg_data: Option<Seq<char>>, home: Option<Seq<char>>) -> Seq<char> {
    let base = match xdg_data {
        Some(x) => x,
        None => joined(
            joined(
                match home {
                    Some(h) => h,
                    None => Seq::<char>::empty(),
                },
                ".local"@,
            ),
            "share"@,
        ),
    };
    joined(joined(base, "mimocode"@), "trusted-workspaces.json"@)
}

/// The path of MiMo Code's trusted-workspaces file.
pub fn trusted_workspaces_file(xdg_data: Option<&str>, home: Option<&str>) -> (r: String)
    ensures
        r@ == trusted_file_spec(opt_view(xdg_data), opt_view(home)),
{
    let base = match xdg_data {
        Some(x) => owned(x),
        None => {
            let h = match home {
                Some(h) => owned(h),
                None => String::new(),
            };
            let l = join_path(h.as_str(), ".local");
            join_path(l.as_str(), "share")
        },
    };
    let m = join_path(base.as_str(), "mimocode");
    join_path(m.as_str(), "trusted-workspaces.json")
}

/// The path of the current user's trusted-workspaces file, given the value
/// of `$XDG_DATA_HOME`.
pub fn user_trusted_workspaces_file(xdg_data: Option<&str>) -> (r: String)
    ensures
        exists|h: Option<Seq<char>>| r@ == trusted_file_spec(opt_view(xdg_data), h),
{
    let home = home_dir();
    match home {
        Some(h) => {
            let r = trusted_workspaces_file(xdg_data, Some(h.as_str()));
            assert(r@ == trusted_file_spec(opt_view(xdg_data), Some(h@)));
            r
        },
        None => {
            let r = trusted_workspaces_file(xdg_data, None);
            assert(r@ == trusted_file_spec(opt_view(xdg_data), None));
            r
        },
    }
}

/// `d` is `{"version": 1, "trustedPaths": []}`, with its members in that
/// order and nothing else.
pub open spec fn is_default_document(d: Json) -> bool {
    match d {
        Json::Object(e) => {
            &&& e@.len() == 2
            &&& e@[0].0@ == "version"@
            &&& (e@[0].1 matches Json::Number(n) && n@ == "1"@)
            &&& e@[1].0@ == "trustedPaths"@
            &&& e@[1].1.array_value() == Some(Seq::<Json>::empty())
        },
        _ => false,
    }
}

/// The content used when the file is missing or unreadable:
/// `{"version": 1, "trustedPaths": []}`.
pub fn default_trusted_workspaces() -> (r: Json)
    ensures
        is_default_document(r),
        r.field("version"@) matches Some(Json::Number(n)) && n@ == "1"@,
        trusted_list(r) == Some(Seq::<Json>::empty()),
{
    let empty: Vec<Json> = Vec::new();
    let entries = vec![
        (owned("version"), Json::Number(owned("1"))),
        (owned("trustedPaths"), Json::Array(empty)),
    ];
    proof {
        reveal_strlit("version");
        reveal_strlit("trustedPaths");
        assert("version"@ != "trustedPaths"@) by {
            assert("version"@[0] != "trustedPaths"@[0]);
        }
        assert(entries@.drop_first()[0] == entries@[1]);
        assert(lookup(entries@, "trustedPaths"@) == lookup(entries@.drop_first(), "trustedPaths"@));
        assert(empty@ =~= Seq::<Json>::empty());
    }
    Json::Object(entries)
}

/// The parsed file, or the default when it could not be read or parsed.
pub fn read_or_default(parsed: Option<Json>) -> (r: Json)
    ensures
        match parsed {
            Some(v) => r == v,
            None => is_default_document(r) && trusted_list(r) == Some(Seq::<Json>::empty()),
        },
{
    match parsed {
        Some(v) => v,
        None => default_trusted_workspaces(),
    }
}

/// The `trustedPaths` list of the file's content.
pub open spec fn trusted_list(d: Json) -> Option<Seq<Json>> {
    match d.field("trustedPaths"@) {
        Some(l) => l.array_value(),
        None => None,
    }
}

/// `j` is the string `p`.
pub open spec fn is_path(j: Json, p: Seq<char>) -> bool {
    j.str_value() == Some(p)
}

/// `l` holds the string `p`.
pub open spec fn lists_path(l: Seq<Json>, p: Seq<char>) -> bool {
    exists|i: int| 0 <= i < l.len() && is_path(#[trigger] l[i], p)
}

/// `l` without the entries that are the string `p`.
pub open spec fn without_path(l: Seq<Json>, p: Seq<char>) -> Seq<Json>
    decreases l.len(),
{
    if l.len() == 0 {
        l
    } else {
        let r = without_path(l.drop_last(), p);
        if is_path(l.last(), p) {
            r
        } else {
            r.push(l.last())
        }
    }
}

/// Every member of `d2` other than `trustedPaths` is as in `d`.
pub open spec fn same_other_members(d: Json, d2: Json) -> bool {
    forall|k: Seq<char>| k != "trustedPaths"@ ==> #[trigger] d2.field(k) == d.field(k)
}

/// What trusting `p` does to a file whose list is `l`: the list gains `p` at
/// the end unless it already holds it.
pub open spec fn trusted_after(l: Seq<Json>, p: Seq<char>, l2: Seq<Json>) -> bool {
    if lists_path(l, p) {
        l2 == l
    } else {
        l2.len() == l.len() + 1 && l2.drop_last() == l && is_path(l2.last(), p)
    }
}

/// Why the trusted-workspaces file cannot be updated.
#[derive(Debug, Clone, Copy, PartialEq, Eq, Structural)]
pub enum TrustError {
    /// The file is not an object with a `trustedPaths` list.
    UnexpectedShape,
}

/// Replacing the value at an index that holds the first entry named `key`
/// changes the lookup of `key` alone.
proof fn lemma_lookup_update(e: Seq<(String, Json)>, i: int, v: Json, key: Seq<char>, k: Seq<char>)
    requires
        0 <= i < e.len(),
        e[i].0@ == key,
        forall|j: int| 0 <= j < i ==> (#[trigger] e[j]).0@ != key,
    ensures
        lookup(e.update(i, (e[i].0, v)), k) == if k == key { Some(v) } else { lookup(e, k) },
    decreases e.len(),
{
    let e2 = e.update(i, (e[i].0, v));
    if i == 0 {
        assert(e2.drop_first() =~= e.drop_first());
    } else {
        assert(e2.drop_first() =~= e.drop_first().update(i - 1, (e[i].0, v)));
        assert forall|j: int| 0 <= j < i - 1 implies (#[trigger] e.drop_first()[j]).0@ != key by {
            assert(e.drop_first()[j] == e[j + 1]);
        }
        lemma_lookup_update(e.drop_first(), i - 1, v, key, k);
        assert(e[0].0@ != key);
    }
}

/// Index of the first entry named `key`, if any.
fn find_key(entries: &Vec<(String, Json)>, key: &str) -> (r: Option<usize>)
    ensures
        match r {
            Some(i) => i < entries@.len() && entries@[i as int].0@ == key@
                && (forall|j: int| 0 <= j < i ==> (#[trigger] entries@[j]).0@ != key@)
                && lookup(entries@, key@) == Some(entries@[i as int].1),
            None => lookup(entries@, key@) is None,
        },
{
    let mut i: usize = 0;
    assert(entries@.skip(0) =~= entries@);
    while i < entries.len()
        invariant
            i <= entries@.len(),
            forall|j: int| 0 <= j < i ==> (#[trigger] entries@[j]).0@ != key@,
            lookup(entries@, key@) == lookup(entries@.skip(i as int), key@),
        decreases entries@.len() - i,
    {
        assert(entries@.skip(i as int).drop_first() =~= entries@.skip(i + 1));
        assert(entries@.skip(i as int)[0] == entries@[i as int]);
        if string_eq(&entries[i].0, key) {
            return Some(i);
        }
        i = i + 1;
    }
    None
}

/// Whether `list` holds the string `p`.
fn holds_path(list: &Vec<Json>, p: &str) -> (b: bool)
    ensures
        b == lists_path(list@, p@),
{
    let mut i: usize = 0;
    while i < list.len()
        invariant
            i <= list@.len(),
            forall|j: int| 0 <= j < i ==> !is_path(#[trigger] list@[j], p@),
        decreases list@.len() - i,
    {
        if let Some(s) = list[i].as_str() {
            if str_eq(s, p) {
                assert(is_path(list@[i as int], p@));
                return true;
            }
        }
        i = i + 1;
    }
    false
}

/// `i` is the index of the first `trustedPaths` member among `e`.
pub open spec fn trusted_index(e: Seq<(String, Json)>, i: int) -> bool {
    &&& 0 <= i < e.len()
    &&& e[i].0@ == "trustedPaths"@
    &&& forall|j: int| 0 <= j < i ==> (#[trigger] e[j]).0@ != "trustedPaths"@
}

/// `d2` is `d` with the value of its first `trustedPaths` member replaced by
/// a list holding `l2`; every other member, the members' order and their
/// number are unchanged.
pub open spec fn with_trusted_list(d: Json, d2: Json, l2: Seq<Json>) -> bool {
    match (d, d2) {
        (Json::Object(e), Json::Object(e2)) => exists|i: int|
            #[trigger] trusted_index(e@, i) && e2@.len() == e@.len() && e2@[i].0 == e@[i].0
                && e2@[i].1.array_value() == Some(l2) && forall|j: int|
                0 <= j < e@.len() && j != i ==> #[trigger] e2@[j] == e@[j],
        _ => false,
    }
}

/// What trusting `p` in `d` gives: `d2`, changed exactly when `p` was not
/// listed yet.
pub open spec fn trust_post(d: Json, p: Seq<char>, d2: Json, changed: bool) -> bool {
    match trusted_list(d) {
        Some(l) => {
            &&& changed == !lists_path(l, p)
            &&& !changed ==> d2 == d
            &&& trusted_list(d2) matches Some(l2) && trusted_after(l, p, l2) && (changed
                ==> with_trusted_list(d, d2, l2))
            &&& same_other_members(d, d2)
        },
        None => false,
    }
}

/// What untrusting `p` in `d` gives: `d2`, to be written exactly when `d`
/// has a `trustedPaths` list, which then loses every entry that is `p`.
pub open spec fn untrust_post(d: Json, p: Seq<char>, d2: Json, write: bool) -> bool {
    match trusted_list(d) {
        Some(l) => {
            &&& write
            &&& trusted_list(d2) == Some(without_path(l, p))
            &&& with_trusted_list(d, d2, without_path(l, p))
            &&& same_other_members(d, d2)
        },
        None => !write && d2 == d,
    }
}

/// Adds `path` to the file's `trustedPaths` list unless it is already there.
/// Returns the new content and whether it changed (and must be written).
pub fn trust_workspace(data: Json, path: &str) -> (r: Result<(Json, bool), TrustError>)
    ensures
        match r {
            Ok((d2, changed)) => trust_post(data, path@, d2, changed),
            Err(e) => trusted_list(data) is None && e == TrustError::UnexpectedShape,
        },
{
    let ghost d0 = data;
    let mut entries = match data {
        Json::Object(entries) => entries,
        _ => return Err(TrustError::UnexpectedShape),
    };
    let idx = match find_key(&entries, "trustedPaths") {
        Some(i) => i,
        None => return Err(TrustError::UnexpectedShape),
    };
    proof {
        reveal_strlit("trustedPaths");
    }
    let listed = match entries[idx].1.as_array() {
        Some(list) => holds_path(list, path),
        None => return Err(TrustError::UnexpectedShape),
    };
    if listed {
        return Ok((Json::Object(entries), false));
    }
    let ghost e0 = entries@;
    let (key, value) = entries.remove(idx);
    let mut list = match value {
        Json::Array(list) => list,
        _ => {
            assert(false);
            return Err(TrustError::UnexpectedShape);
        },
    };
    let ghost l0 = list@;
    list.push(Json::Str(owned(path)));
    let new_value = Json::Array(list);
    entries.insert(idx, (key, new_value));
    proof {
        assert(entries@ =~= e0.update(idx as int, (e0[idx as int].0, new_value)));
        assert forall|k: Seq<char>| k != "trustedPaths"@ implies #[trigger] lookup(entries@, k)
            == lookup(e0, k) by {
            lemma_lookup_update(e0, idx as int, new_value, "trustedPaths"@, k);
        }
        lemma_lookup_update(e0, idx as int, new_value, "trustedPaths"@, "trustedPaths"@);
        assert(list@.drop_last() =~= l0);
        assert(trusted_index(e0, idx as int));
        assert(with_trusted_list(d0, Json::Object(entries), list@));
    }
    Ok((Json::Object(entries), true))
}

/// Removes every `path` entry from the file's `trustedPaths` list. Returns
/// the new content and whether the file must be written (it has such a list).
pub fn untrust_workspace(data: Json, path: &str) -> (r: (Json, bool))
    ensures
        untrust_post(data, path@, r.0, r.1),
{
    let ghost d0 = data;
    let mut entries = match data {
        Json::Object(entries) => entries,
        _ => return (data, false),
    };
    let idx = match find_key(&entries, "trustedPaths") {
        Some(i) => i,
        None => return (Json::Object(entries), false),
    };
    proof {
        reveal_strlit("trustedPaths");
    }
    if entries[idx].1.as_array().is_none() {
        return (Json::Object(entries), false);
    }
    let ghost e0 = entries@;
    let (key, value) = entries.remove(idx);
    let mut list = match value {
        Json::Array(list) => list,
        _ => {
            assert(false);
            return (Json::Object(entries), false);
        },
    };
    let ghost l0 = list@;
    let mut kept: Vec<Json> = Vec::new();
    let ghost mut consumed: int = 0;
    assert(l0.take(0) =~= Seq::<Json>::empty());
    assert(l0.skip(0) =~= l0);
    while list.len() > 0
        invariant
            0 <= consumed <= l0.len(),
            list@ == l0.skip(consumed),
            kept@ == without_path(l0.take(consumed), path@),
        decreases list@.len(),
    {
        let item = list.remove(0);
        proof {
            assert(l0.take(consumed + 1).drop_last() =~= l0.take(consumed));
            assert(l0.take(consumed + 1).last() == item);
            assert(l0.skip(consumed + 1) =~= l0.skip(consumed).drop_first());
        }
        let drop = match item.as_str() {
            Some(s) => str_eq(s, path),
            None => false,
        };
        if !drop {
            kept.push(item);
        }
        proof {
            consumed = consumed + 1;
        }
    }
    proof {
        assert(l0.take(consumed) =~= l0);
    }
    let new_value = Json::Array(kept);
    entries.insert(idx, (key, new_value));
    proof {
        assert(entries@ =~= e0.update(idx as int, (e0[idx as int].0, new_value)));
        assert forall|k: Seq<char>| k != "trustedPaths"@ implies #[trigger] lookup(entries@, k)
            == lookup(e0, k) by {
            lemma_lookup_update(e0, idx as int, new_value, "trustedPaths"@, k);
        }
        lemma_lookup_update(e0, idx as int, new_value, "trustedPaths"@, "trustedPaths"@);
        assert(trusted_index(e0, idx as int));
        assert(with_trusted_list(d0, Json::Object(entries), kept@));
    }
    (Json::Object(entries), true)
}

/// A list that does not hold `p` loses nothing when `p` is removed.
proof fn lemma_without_absent(l: Seq<Json>, p: Seq<char>)
    requires
        !lists_path(l, p),
    ensures
        without_path(l, p) == l,
    decreases l.len(),
{
    if l.len() > 0 {
        assert forall|i: int| 0 <= i < l.drop_last().len() implies !is_path(
            #[trigger] l.drop_last()[i],
            p,
        ) by {
            assert(l.drop_last()[i] == l[i]);
        }
        lemma_without_absent(l.drop_last(), p);
        assert(!is_path(l[l.len() - 1], p));
        assert(l.drop_last().push(l.last()) =~= l);
    }
}

/// Removing `p` leaves no entry that is `p`.
pub proof fn lemma_untrust_removes_all(l: Seq<Json>, p: Seq<char>)
    ensures
        !lists_path(without_path(l, p), p),
    decreases l.len(),
{
    if l.len() > 0 {
        lemma_untrust_removes_all(l.drop_last(), p);
        let r = without_path(l.drop_last(), p);
        if !is_path(l.last(), p) {
            assert forall|i: int| 0 <= i < r.push(l.last()).len() implies !is_path(
                #[trigger] r.push(l.last())[i],
                p,
            ) by {
                if i < r.len() {
                    assert(r.push(l.last())[i] == r[i]);
                }
            }
        }
    }
}

/// Trusting a path leaves it listed, so trusting it again changes nothing.
pub proof fn lemma_trust_idempotent(d: Json, p: Seq<char>, d2: Json, c2: bool, d3: Json, c3: bool)
    requires
        trust_post(d, p, d2, c2),
        trust_post(d2, p, d3, c3),
    ensures
        !c3,
        d3 == d2,
{
    let l = trusted_list(d).unwrap();
    let l2 = trusted_list(d2).unwrap();
    if !lists_path(l, p) {
        assert(is_path(l2[l2.len() - 1], p));
    } else {
        let i = choose|i: int| 0 <= i < l.len() && is_path(#[trigger] l[i], p);
        assert(is_path(l2[i], p));
    }
}

/// Untrusting a path that trusting had just added gives back the earlier
/// list, with every other member of the file unchanged.
pub proof fn lemma_untrust_undoes_trust(d: Json, p: Seq<char>, d2: Json, c2: bool, d3: Json, w3: bool)
    requires
        trusted_list(d) matches Some(l) && !lists_path(l, p),
        trust_post(d, p, d2, c2),
        untrust_post(d2, p, d3, w3),
    ensures
        trusted_list(d3) == trusted_list(d),
        with_trusted_list(d, d3, trusted_list(d).unwrap()),
        same_other_members(d, d3),
        w3,
{
    let l = trusted_list(d).unwrap();
    let l2 = trusted_list(d2).unwrap();
    lemma_without_absent(l, p);
    assert(without_path(l2, p) == without_path(l2.drop_last(), p));
    let e = match d {
        Json::Object(e) => e@,
        _ => Seq::empty(),
    };
    let e2 = match d2 {
        Json::Object(e) => e@,
        _ => Seq::empty(),
    };
    let e3 = match d3 {
        Json::Object(e) => e@,
        _ => Seq::empty(),
    };
    let i = choose|i: int|
        #[trigger] trusted_index(e, i) && e2.len() == e.len() && e2[i].0 == e[i].0
            && e2[i].1.array_value() == Some(l2) && forall|j: int|
            0 <= j < e.len() && j != i ==> #[trigger] e2[j] == e[j];
    let i3 = choose|i3: int|
        #[trigger] trusted_index(e2, i3) && e3.len() == e2.len() && e3[i3].0 == e2[i3].0
            && e3[i3].1.array_value() == Some(without_path(l2, p)) && forall|j: int|
            0 <= j < e2.len() && j != i3 ==> #[trigger] e3[j] == e2[j];
    if i3 < i {
        assert(e2[i3] == e[i3]);
        assert(false);
    }
    if i < i3 {
        assert(e2[i].0@ == "trustedPaths"@);
        assert(false);
    }
    assert forall|j: int| 0 <= j < e.len() && j != i implies #[trigger] e3[j] == e[j] by {
        assert(e3[j] == e2[j]);
    }
    assert(trusted_index(e, i));
    assert forall|k: Seq<char>| k != "trustedPaths"@ implies #[trigger] d3.field(k) == d.field(k) by {
        assert(d3.field(k) == d2.field(k));
        assert(d2.field(k) == d.field(k));
    }
}

/// The prompt that makes MiMo Code quit.
pub const EXIT_COMMAND: &'static str = "/exit";

/// Where the smoke test stands once MiMo Code has been launched in its pane.
#[derive(Debug, Clone, Copy, PartialEq, Eq, Structural)]
pub enum Stage {
    /// Waiting for the plugin to claim the agent label.
    AwaitClaim,
    /// Waiting for MiMo Code's input box.
    AwaitScreen,
    /// Waiting for the reply to the probe.
    AwaitReply,
    /// Waiting for the agent to finish its turn.
    AwaitSettle,
    /// Waiting for the watchdog to release the agent row after `/exit`.
    AwaitRelease,
    /// Waiting for the release after MiMo Code was interrupted.
    AwaitForcedRelease,
    /// The test passed.
    Passed,
    /// The test failed.
    Failed,
}

/// Why the smoke test failed.
#[derive(Debug, Clone, Copy, PartialEq, Eq, Structural)]
pub enum Failure {
    /// The agent never appeared in the agent list.
    ClaimTimeout,
    /// MiMo Code's input box never showed.
    ScreenNotReady,
    /// The reply never showed.
    ReplyTimeout,
    /// The agent never finished its turn.
    NotSettled,
    /// The agent row was never released, even after interrupting MiMo Code.
    ReleaseTimeout,
}

/// What one poll of herdr showed.
pub enum Observation {
    /// The rows of `agent list`.
    Agents(Vec<AgentEntry>),
    /// The recent text of the pane.
    Screen(String),
    /// The poll failed.
    Unavailable,
    /// The stage's time is up.
    TimedOut,
}

/// What a stage polls.
#[derive(Debug, Clone, Copy, PartialEq, Eq, Structural)]
pub enum Probe {
    /// `herdr agent list`.
    Agents,
    /// `herdr pane read <pane> --source recent --lines <lines>`.
    Screen { lines: u64 },
}

/// What the app does after an observation.
pub struct Step {
    /// The stage to continue in.
    pub next: Stage,
    /// herdr calls to make, in order.
    pub commands: Vec<Vec<String>>,
    /// Whether failures of those calls are ignored (else they end the test).
    pub best_effort: bool,
    /// Progress line to print.
    pub progress: Option<&'static str>,
    /// Pane snapshot to show, labelled with the failed step.
    pub snapshot: Option<&'static str>,
    /// Why the test failed, when it did.
    pub failure: Option<Failure>,
}

/// The order in which the stages are passed through.
pub open spec fn rank(s: Stage) -> int {
    match s {
        Stage::AwaitClaim => 0,
        Stage::AwaitScreen => 1,
        Stage::AwaitReply => 2,
        Stage::AwaitSettle => 3,
        Stage::AwaitRelease => 4,
        Stage::AwaitForcedRelease => 5,
        Stage::Passed => 6,
        Stage::Failed => 6,
    }
}

/// The test has ended.
pub open spec fn terminal(s: Stage) -> bool {
    s == Stage::Passed || s == Stage::Failed
}

/// What a stage polls, and for how many seconds it waits.
pub open spec fn probe_spec(s: Stage) -> Option<(Probe, u64)> {
    match s {
        Stage::AwaitClaim => Some((Probe::Agents, 30)),
        Stage::AwaitScreen => Some((Probe::Screen { lines: 60 }, 30)),
        Stage::AwaitReply => Some((Probe::Screen { lines: 300 }, 120)),
        Stage::AwaitSettle => Some((Probe::Agents, 30)),
        Stage::AwaitRelease => Some((Probe::Agents, 30)),
        Stage::AwaitForcedRelease => Some((Probe::Agents, 15)),
        _ => None,
    }
}

/// The poll and the time limit of a stage; nothing once the test has ended.
pub fn stage_probe(s: Stage) -> (r: Option<(Probe, u64)>)
    ensures
        r == probe_spec(s),
{
    match s {
        Stage::AwaitClaim => Some((Probe::Agents, 30)),
        Stage::AwaitScreen => Some((Probe::Screen { lines: 60 }, 30)),
        Stage::AwaitReply => Some((Probe::Screen { lines: 300 }, 120)),
        Stage::AwaitSettle => Some((Probe::Agents, 30)),
        Stage::AwaitRelease => Some((Probe::Agents, 30)),
        Stage::AwaitForcedRelease => Some((Probe::Agents, 15)),
        _ => None,
    }
}

/// The observation shows what the stage waits for.
pub open spec fn satisfied(s: Stage, obs: Observation, pane: Seq<char>) -> bool {
    match obs {
        Observation::Agents(rows) => match s {
            Stage::AwaitClaim => claimed(rows@, pane),
            Stage::AwaitSettle => settled(rows@, pane),
            Stage::AwaitRelease | Stage::AwaitForcedRelease => !claimed(rows@, pane),
            _ => false,
        },
        Observation::Screen(text) => match s {
            Stage::AwaitScreen => has_substring(text@, READY_TEXT@),
            Stage::AwaitReply => reply_shown(text@),
            _ => false,
        },
        _ => false,
    }
}

/// The stage after an observation.
pub open spec fn next_spec(s: Stage, sat: bool, timed_out: bool) -> Stage {
    if terminal(s) {
        s
    } else if sat {
        match s {
            Stage::AwaitClaim => Stage::AwaitScreen,
            Stage::AwaitScreen => Stage::AwaitReply,
            Stage::AwaitReply => Stage::AwaitSettle,
            Stage::AwaitSettle => Stage::AwaitRelease,
            _ => Stage::Passed,
        }
    } else if timed_out {
        match s {
            Stage::AwaitRelease => Stage::AwaitForcedRelease,
            _ => Stage::Failed,
        }
    } else {
        s
    }
}

/// The herdr calls made after an observation.
pub open spec fn commands_spec(s: Stage, sat: bool, timed_out: bool, pane: Seq<char>) -> Seq<Seq<Seq<char>>> {
    if terminal(s) {
        Seq::empty()
    } else if sat && s == Stage::AwaitScreen {
        seq![seq!["pane"@, "send-text"@, pane, PROBE@], seq!["pane"@, "send-keys"@, pane, "enter"@]]
    } else if sat && s == Stage::AwaitSettle {
        seq![seq!["pane"@, "send-text"@, pane, EXIT_COMMAND@], seq!["pane"@, "send-keys"@, pane, "enter"@]]
    } else if !sat && timed_out && s == Stage::AwaitRelease {
        seq![seq!["pane"@, "send-keys"@, pane, "ctrl+c"@], seq!["pane"@, "send-keys"@, pane, "ctrl+c"@]]
    } else {
        Seq::empty()
    }
}

/// The progress line printed after an observation.
pub open spec fn progress_spec(s: Stage, sat: bool) -> Option<Seq<char>> {
    if sat && s == Stage::AwaitClaim {
        Some("[2/6] mimo reported as agent (custom:mimo-herdr)"@)
    } else if sat && s == Stage::AwaitReply {
        Some("[3/6] mimo replied with VRFY-OK"@)
    } else if sat && (s == Stage::AwaitRelease || s == Stage::AwaitForcedRelease) {
        Some("[4/6] agent row released after exit (watchdog OK)"@)
    } else {
        None
    }
}

/// Why the test fails after an observation, and under which step label the
/// pane is shown.
pub open spec fn failure_spec(s: Stage, sat: bool, timed_out: bool) -> Option<(Failure, Option<Seq<char>>)> {
    if terminal(s) || sat || !timed_out {
        None
    } else {
        match s {
            Stage::AwaitClaim => Some((Failure::ClaimTimeout, Some("agent claim"@))),
            Stage::AwaitScreen => Some((Failure::ScreenNotReady, None)),
            Stage::AwaitReply => Some((Failure::ReplyTimeout, Some("prompt reply"@))),
            Stage::AwaitSettle => Some((Failure::NotSettled, None)),
            Stage::AwaitForcedRelease => Some((Failure::ReleaseTimeout, Some("watchdog release"@))),
            _ => None,
        }
    }
}

/// The step's contract, given whether the observation satisfied the stage
/// and whether the time was up.
pub open spec fn step_matches(st: Step, s: Stage, sat: bool, timed_out: bool, pane: Seq<char>) -> bool {
    &&& st.next == next_spec(s, sat, timed_out)
    &&& st.commands@.map_values(|c: Vec<String>| views(c@)) == commands_spec(s, sat, timed_out, pane)
    &&& st.best_effort == (!terminal(s) && !sat && timed_out && s == Stage::AwaitRelease)
    &&& match progress_spec(s, sat) {
        Some(p) => st.progress matches Some(q) && q@ == p,
        None => st.progress is None,
    }
    &&& match failure_spec(s, sat, timed_out) {
        Some((f, snap)) => st.failure == Some(f) && match snap {
            Some(l) => st.snapshot matches Some(q) && q@ == l,
            None => st.snapshot is None,
        },
        None => st.failure is None && st.snapshot is None,
    }
}

/// Whether the observation shows what the stage waits for.
pub fn is_satisfied(s: Stage, obs: &Observation, pane: &str) -> (b: bool)
    ensures
        b == satisfied(s, *obs, pane@),
{
    match obs {
        Observation::Agents(rows) => match s {
            Stage::AwaitClaim => agent_claimed(rows, pane),
            Stage::AwaitSettle => agent_settled(rows, pane),
            Stage::AwaitRelease | Stage::AwaitForcedRelease => !agent_claimed(rows, pane),
            _ => false,
        },
        Observation::Screen(text) => match s {
            Stage::AwaitScreen => is_tui_ready(text.as_str()),
            Stage::AwaitReply => is_reply_seen(text.as_str()),
            _ => false,
        },
        _ => false,
    }
}

fn two_commands(a: Vec<String>, b: Vec<String>) -> (r: Vec<Vec<String>>)
    ensures
        r@.map_values(|c: Vec<String>| views(c@)) == seq![views(a@), views(b@)],
{
    let ghost va = views(a@);
    let ghost vb = views(b@);
    let mut r: Vec<Vec<String>> = Vec::new();
    r.push(a);
    r.push(b);
    assert(r@.map_values(|c: Vec<String>| views(c@)) =~= seq![va, vb]);
    r
}

/// Decides the smoke test's next move from its stage and what the last poll
/// showed.
pub fn verify_step(s: Stage, obs: &Observation, pane: &str) -> (st: Step)
    ensures
        step_matches(st, s, satisfied(s, *obs, pane@), *obs is TimedOut, pane@),
{
    let sat = is_satisfied(s, obs, pane);
    let timed_out = match obs {
        Observation::TimedOut => true,
        _ => false,
    };
    let ghost none: Seq<Seq<Seq<char>>> = Seq::empty();
    let mut st = Step {
        next: s,
        commands: Vec::new(),
        best_effort: false,
        progress: None,
        snapshot: None,
        failure: None,
    };
    assert(st.commands@.map_values(|c: Vec<String>| views(c@)) =~= none);
    if s == Stage::Passed || s == Stage::Failed {
        return st;
    }
    if sat {
        match s {
            Stage::AwaitClaim => {
                st.next = Stage::AwaitScreen;
                st.progress = Some("[2/6] mimo reported as agent (custom:mimo-herdr)");
            },
            Stage::AwaitScreen => {
                st.next = Stage::AwaitReply;
                st.commands = two_commands(pane_send_text(pane, PROBE), pane_send_enter(pane));
            },
            Stage::AwaitReply => {
                st.next = Stage::AwaitSettle;
                st.progress = Some("[3/6] mimo replied with VRFY-OK");
            },
            Stage::AwaitSettle => {
                st.next = Stage::AwaitRelease;
                st.commands = two_commands(pane_send_text(pane, EXIT_COMMAND), pane_send_enter(pane));
            },
            _ => {
                st.next = Stage::Passed;
                st.progress = Some("[4/6] agent row released after exit (watchdog OK)");
            },
        }
        return st;
    }
    if timed_out {
        match s {
            Stage::AwaitClaim => {
                st.next = Stage::Failed;
                st.failure = Some(Failure::ClaimTimeout);
                st.snapshot = Some("agent claim");
            },
            Stage::AwaitScreen => {
                st.next = Stage::Failed;
                st.failure = Some(Failure::ScreenNotReady);
            },
            Stage::AwaitReply => {
                st.next = Stage::Failed;
                st.failure = Some(Failure::ReplyTimeout);
                st.snapshot = Some("prompt reply");
            },
            Stage::AwaitSettle => {
                st.next = Stage::Failed;
                st.failure = Some(Failure::NotSettled);
            },
            Stage::AwaitRelease => {
                st.next = Stage::AwaitForcedRelease;
                st.best_effort = true;
                st.commands = two_commands(pane_send_keys(pane, "ctrl+c"), pane_send_keys(pane, "ctrl+c"));
            },
            _ => {
                st.next = Stage::Failed;
                st.failure = Some(Failure::ReleaseTimeout);
                st.snapshot = Some("watchdog release");
            },
        }
    }
    st
}

/// Every decisive observation moves the test forward, so it ends after at
/// most one decisive observation per stage; an ended test stays ended.
pub proof fn lemma_verify_progress(s: Stage, sat: bool, timed_out: bool)
    ensures
        terminal(s) ==> next_spec(s, sat, timed_out) == s,
        !terminal(s) && (sat || timed_out) ==> rank(next_spec(s, sat, timed_out)) > rank(s),
        !terminal(s) && !sat && !timed_out ==> next_spec(s, sat, timed_out) == s,
{
}

/// The test passes only when the agent row was seen released after MiMo Code
/// quit, and it fails exactly when a failure is reported.
pub proof fn lemma_verify_pass_needs_release(s: Stage, sat: bool, timed_out: bool)
    requires
        !terminal(s),
    ensures
        next_spec(s, sat, timed_out) == Stage::Passed ==> sat && (s == Stage::AwaitRelease || s
            == Stage::AwaitForcedRelease),
        (next_spec(s, sat, timed_out) == Stage::Failed) == (failure_spec(s, sat, timed_out) is Some),
{
}

/// Where the first row of the bridge's agent in `pane` is, if any.
proof fn lemma_first_claim(e: Seq<AgentEntry>, pane: Seq<char>)
    ensures
        match first_claim(e, pane) {
            Some(x) => exists|i: int|
                0 <= i < e.len() && e[i] == x && claims(#[trigger] e[i], pane) && forall|j: int|
                    0 <= j < i ==> !claims(#[trigger] e[j], pane),
            None => forall|i: int| 0 <= i < e.len() ==> !claims(#[trigger] e[i], pane),
        },
    decreases e.len(),
{
    if e.len() > 0 && !claims(e[0], pane) {
        lemma_first_claim(e.drop_first(), pane);
        match first_claim(e.drop_first(), pane) {
            Some(x) => {
                let i = choose|i: int|
                    0 <= i < e.drop_first().len() && e.drop_first()[i] == x && claims(
                        #[trigger] e.drop_first()[i],
                        pane,
                    ) && forall|j: int| 0 <= j < i ==> !claims(#[trigger] e.drop_first()[j], pane);
                assert(e[i + 1] == e.drop_first()[i]);
                assert forall|j: int| 0 <= j < i + 1 implies !claims(#[trigger] e[j], pane) by {
                    if j > 0 {
                        assert(e[j] == e.drop_first()[j - 1]);
                    }
                }
            },
            None => {
                assert forall|i: int| 0 <= i < e.len() implies !claims(#[trigger] e[i], pane) by {
                    if i > 0 {
                        assert(e[i] == e.drop_first()[i - 1]);
                    }
                }
            },
        }
    }
}

/// What the agent list must show for each waiting stage: the claim stage
/// moves on exactly when some row is `mimo` in the pane; the settle stage
/// exactly when the first such row is idle, done or unknown; the release
/// stages exactly when no such row is left. Agent rows never satisfy the
/// stages that wait for the pane's text.
pub proof fn lemma_agent_rows_decide(rows: Vec<AgentEntry>, pane: Seq<char>)
    ensures
        satisfied(Stage::AwaitClaim, Observation::Agents(rows), pane) <==> exists|i: int|
            0 <= i < rows@.len() && (#[trigger] rows@[i]).agent@ == "mimo"@ && rows@[i].pane_id@
                == pane,
        satisfied(Stage::AwaitRelease, Observation::Agents(rows), pane) <==> forall|i: int|
            0 <= i < rows@.len() ==> !((#[trigger] rows@[i]).agent@ == "mimo"@ && rows@[i].pane_id@
                == pane),
        satisfied(Stage::AwaitForcedRelease, Observation::Agents(rows), pane) <==> forall|i: int|
            0 <= i < rows@.len() ==> !((#[trigger] rows@[i]).agent@ == "mimo"@ && rows@[i].pane_id@
                == pane),
        satisfied(Stage::AwaitSettle, Observation::Agents(rows), pane) <==> exists|i: int|
            0 <= i < rows@.len() && (#[trigger] rows@[i]).agent@ == "mimo"@ && rows@[i].pane_id@
                == pane && (forall|j: int|
                0 <= j < i ==> !((#[trigger] rows@[j]).agent@ == "mimo"@ && rows@[j].pane_id@
                    == pane)) && (rows@[i].agent_status@ == "idle"@ || rows@[i].agent_status@
                == "done"@ || rows@[i].agent_status@ == "unknown"@),
        !satisfied(Stage::AwaitScreen, Observation::Agents(rows), pane),
        !satisfied(Stage::AwaitReply, Observation::Agents(rows), pane),
{
    let e = rows@;
    lemma_first_claim(e, pane);
    assert(AGENT@ == "mimo"@);
    if satisfied(Stage::AwaitSettle, Observation::Agents(rows), pane) {
        let x = first_claim(e, pane).unwrap();
        let i = choose|i: int|
            0 <= i < e.len() && e[i] == x && claims(#[trigger] e[i], pane) && forall|j: int|
                0 <= j < i ==> !claims(#[trigger] e[j], pane);
        assert(e[i].agent@ == "mimo"@);
    }
    if exists|i: int|
        0 <= i < e.len() && (#[trigger] e[i]).agent@ == "mimo"@ && e[i].pane_id@ == pane && (forall|
            j: int,
        | 0 <= j < i ==> !((#[trigger] e[j]).agent@ == "mimo"@ && e[j].pane_id@ == pane)) && (
        e[i].agent_status@ == "idle"@ || e[i].agent_status@ == "done"@ || e[i].agent_status@
            == "unknown"@) {
        let i = choose|i: int|
            0 <= i < e.len() && (#[trigger] e[i]).agent@ == "mimo"@ && e[i].pane_id@ == pane && (
            forall|j: int|
                0 <= j < i ==> !((#[trigger] e[j]).agent@ == "mimo"@ && e[j].pane_id@ == pane)) && (
            e[i].agent_status@ == "idle"@ || e[i].agent_status@ == "done"@ || e[i].agent_status@
                == "unknown"@);
        assert(claims(e[i], pane));
        match first_claim(e, pane) {
            Some(x) => {
                let k = choose|k: int|
                    0 <= k < e.len() && e[k] == x && claims(#[trigger] e[k], pane) && forall|
                        j: int,
                    | 0 <= j < k ==> !claims(#[trigger] e[j], pane);
                if k < i {
                    assert(claims(e[k], pane));
                    assert(false);
                }
                if i < k {
                    assert(!claims(e[i], pane));
                }
            },
            None => {
                assert(!claims(e[i], pane));
            },
        }
    }
    if exists|i: int| 0 <= i < e.len() && (#[trigger] e[i]).agent@ == "mimo"@ && e[i].pane_id@ == pane {
        let i = choose|i: int| 0 <= i < e.len() && (#[trigger] e[i]).agent@ == "mimo"@ && e[i].pane_id@ == pane;
        assert(claims(e[i], pane));
    }
}

/// What the pane's text must show: the screen stage moves on exactly when
/// the text holds `Type your message`; the reply stage exactly when it holds
/// `VRFY-OK` at a place that is not the end of an echoed `Reply with exactly:
/// VRFY-OK`. Pane text never satisfies the stages that wait for agent rows.
pub proof fn lemma_screen_decides(text: String, pane: Seq<char>)
    ensures
        satisfied(Stage::AwaitScreen, Observation::Screen(text), pane) <==> exists|i: int|
            0 <= i && i + 17 <= text@.len() && #[trigger] text@.subrange(i, i + 17)
                == "Type your message"@,
        satisfied(Stage::AwaitReply, Observation::Screen(text), pane) <==> exists|i: int|
            0 <= i && i + 7 <= text@.len() && #[trigger] text@.subrange(i, i + 7) == "VRFY-OK"@
                && !(i >= 20 && text@.subrange(i - 20, i + 7) == "Reply with exactly: VRFY-OK"@),
        !satisfied(Stage::AwaitClaim, Observation::Screen(text), pane),
        !satisfied(Stage::AwaitSettle, Observation::Screen(text), pane),
        !satisfied(Stage::AwaitRelease, Observation::Screen(text), pane),
        !satisfied(Stage::AwaitForcedRelease, Observation::Screen(text), pane),
{
    reveal_strlit("Type your message");
    reveal_strlit("VRFY-OK");
    reveal_strlit("Reply with exactly: VRFY-OK");
    let t = text@;
    if has_substring(t, READY_TEXT@) {
        let i = choose|i: int| #[trigger] occurs_at(t, READY_TEXT@, i);
        assert(t.subrange(i, i + 17) == "Type your message"@);
    }
    if exists|i: int| 0 <= i && i + 17 <= t.len() && #[trigger] t.subrange(i, i + 17) == "Type your message"@ {
        let i = choose|i: int| 0 <= i && i + 17 <= t.len() && #[trigger] t.subrange(i, i + 17) == "Type your message"@;
        assert(occurs_at(t, READY_TEXT@, i));
    }
    if reply_shown(t) {
        let i = choose|i: int| #[trigger] occurs_at(t, MATCH@, i) && !inside_probe(t, i);
        lemma_reply_in_probe(t, i);
        assert(t.subrange(i, i + 7) == "VRFY-OK"@);
    }
    if exists|i: int|
        0 <= i && i + 7 <= t.len() && #[trigger] t.subrange(i, i + 7) == "VRFY-OK"@ && !(i >= 20
            && t.subrange(i - 20, i + 7) == "Reply with exactly: VRFY-OK"@) {
        let i = choose|i: int|
            0 <= i && i + 7 <= t.len() && #[trigger] t.subrange(i, i + 7) == "VRFY-OK"@ && !(i >= 20
                && t.subrange(i - 20, i + 7) == "Reply with exactly: VRFY-OK"@);
        assert(occurs_at(t, MATCH@, i));
        lemma_reply_in_probe(t, i);
        assert(!inside_probe(t, i));
    }
}

/// Every waiting stage has a poll and a time limit, and polls the kind of
/// observation that can satisfy it: any observation that satisfies a stage
/// is of the kind the stage polls. Ended tests poll nothing.
pub proof fn lemma_probe_fits_stage(s: Stage, obs: Observation, pane: Seq<char>)
    ensures
        terminal(s) <==> probe_spec(s) is None,
        probe_spec(s) matches Some((_, t)) ==> t > 0,
        satisfied(s, obs, pane) ==> match probe_spec(s) {
            Some((Probe::Agents, _)) => obs is Agents,
            Some((Probe::Screen { .. }, _)) => obs is Screen,
            None => false,
        },
{
}

/// In the claim stage, a poll of the agent list moves the test to the screen
/// stage, with the `[2/6]` progress line, exactly when some row shows `mimo`
/// in the pane; otherwise the test keeps waiting, printing and sending
/// nothing.
pub proof fn lemma_claim_step(st: Step, rows: Vec<AgentEntry>, pane: Seq<char>)
    requires
        step_matches(
            st,
            Stage::AwaitClaim,
            satisfied(Stage::AwaitClaim, Observation::Agents(rows), pane),
            false,
            pane,
        ),
    ensures
        (exists|i: int|
            0 <= i < rows@.len() && (#[trigger] rows@[i]).agent@ == "mimo"@ && rows@[i].pane_id@
                == pane) ==> st.next == Stage::AwaitScreen && (st.progress matches Some(p) && p@
            == "[2/6] mimo reported as agent (custom:mimo-herdr)"@),
        !(exists|i: int|
            0 <= i < rows@.len() && (#[trigger] rows@[i]).agent@ == "mimo"@ && rows@[i].pane_id@
                == pane) ==> st.next == Stage::AwaitClaim && st.progress is None && st.failure is None
            && st.commands@.len() == 0,
{
    lemma_agent_rows_decide(rows, pane);
    if st.commands@.len() != 0 {
        assert(st.commands@.map_values(|c: Vec<String>| views(c@)).len() == st.commands@.len());
    }
}

/// The only herdr calls the smoke test makes from its stage machine: once the
/// screen is ready it types the probe into the pane and presses enter; once
/// the agent has settled it types `/exit` and presses enter; when the
/// release does not come in time it presses ctrl+c twice, ignoring failures.
/// Every other observation leads to no call.
pub proof fn lemma_verify_calls(st: Step, s: Stage, sat: bool, timed_out: bool, pane: Seq<char>)
    requires
        step_matches(st, s, sat, timed_out, pane),
    ensures
        ({
            let calls = st.commands@.map_values(|c: Vec<String>| views(c@));
            if s == Stage::AwaitScreen && sat {
                &&& calls == seq![
                    seq!["pane"@, "send-text"@, pane, "Reply with exactly: VRFY-OK"@],
                    seq!["pane"@, "send-keys"@, pane, "enter"@],
                ]
                &&& st.next == Stage::AwaitReply
                &&& !st.best_effort
            } else if s == Stage::AwaitSettle && sat {
                &&& calls == seq![
                    seq!["pane"@, "send-text"@, pane, "/exit"@],
                    seq!["pane"@, "send-keys"@, pane, "enter"@],
                ]
                &&& st.next == Stage::AwaitRelease
                &&& !st.best_effort
            } else if s == Stage::AwaitRelease && !sat && timed_out {
                &&& calls == seq![
                    seq!["pane"@, "send-keys"@, pane, "ctrl+c"@],
                    seq!["pane"@, "send-keys"@, pane, "ctrl+c"@],
                ]
                &&& st.next == Stage::AwaitForcedRelease
                &&& st.best_effort
                &&& st.failure is None
            } else {
                calls.len() == 0 && !st.best_effort
            }
        }),
{
}

} // verus!
