//! The herdr command line as the bridge drives it: the argument lists of
//! every herdr call, and the reading of herdr's JSON replies. Running the
//! commands is left to the caller.

use vstd::prelude::*;

use crate::json::Json;
use crate::text::{blank, decimal, decimal_string, is_blank, owned, views};

verus! {

/// Canonical source label of the bridge's agent reports.
pub const SOURCE: &'static str = "custom:mimo-herdr";

/// Agent label shown in the Herdr sidebar.
pub const AGENT: &'static str = "mimo";

/// File name of the MiMo Code plugin.
pub const PLUGIN_FILE: &'static str = "herdr-agent-state.js";

/// What went wrong while reading a herdr reply.
#[derive(Debug, Clone, Copy, PartialEq, Eq, Structural)]
pub enum HerdrError {
    /// The reply has no `result` member.
    MissingResult,
    /// An `agent list` reply has no `result.agents` member.
    MissingAgents,
    /// A `tab create` reply has no string `result.tab.tab_id`.
    MissingTabId,
    /// A `tab create` reply has no string `result.root_pane.pane_id`.
    MissingRootPane,
}

impl HerdrError {
    /// The message shown to the user.
    pub fn message(&self) -> (m: &'static str)
        ensures
            m@ == self.message_spec(),
    {
        match self {
            HerdrError::MissingResult => "herdr response missing result field",
            HerdrError::MissingAgents => "agent list response missing agents field",
            HerdrError::MissingTabId => "tab create response missing tab_id",
            HerdrError::MissingRootPane => "tab create response missing root pane id",
        }
    }

    pub open spec fn message_spec(&self) -> Seq<char> {
        match self {
            HerdrError::MissingResult => "herdr response missing result field"@,
            HerdrError::MissingAgents => "agent list response missing agents field"@,
            HerdrError::MissingTabId => "tab create response missing tab_id"@,
            HerdrError::MissingRootPane => "tab create response missing root pane id"@,
        }
    }
}

/// Owned copies of `parts`, in order.
pub fn to_strings(parts: Vec<&str>) -> (r: Vec<String>)
    ensures
        views(r@) == parts@.map_values(|s: &str| s@),
{
    let mut r: Vec<String> = Vec::new();
    let mut i: usize = 0;
    while i < parts.len()
        invariant
            i <= parts@.len(),
            views(r@) == parts@.take(i as int).map_values(|s: &str| s@),
        decreases parts@.len() - i,
    {
        let ghost prev = r@;
        r.push(owned(parts[i]));
        assert(r@ =~= prev.push(r@.last()));
        assert(views(r@) =~= views(prev).push(parts@[i as int]@));
        assert(parts@.take(i + 1).map_values(|s: &str| s@) =~= parts@.take(i as int).map_values(
            |s: &str| s@,
        ).push(parts@[i as int]@));
        i = i + 1;
    }
    assert(parts@.take(parts@.len() as int) =~= parts@);
    r
}

/// `herdr pane release-agent <pane> --source <source> --agent <agent> --seq <seq>`.
pub fn release_agent(pane: &str, source: &str, agent: &str, seq: u64) -> (args: Vec<String>)
    ensures
        views(args@) == seq![
            "pane"@, "release-agent"@, pane@, "--source"@, source@, "--agent"@, agent@,
            "--seq"@, decimal(seq as nat),
        ],
{
    let seq_text = decimal_string(seq);
    let args = to_strings(
        vec![
            "pane",
            "release-agent",
            pane,
            "--source",
            source,
            "--agent",
            agent,
            "--seq",
            seq_text.as_str(),
        ],
    );
    assert(views(args@) =~= seq![
        "pane"@, "release-agent"@, pane@, "--source"@, source@, "--agent"@, agent@,
        "--seq"@, decimal(seq as nat),
    ]);
    args
}

/// `herdr tab close <tab>`.
pub fn tab_close(tab: &str) -> (args: Vec<String>)
    ensures
        views(args@) == seq!["tab"@, "close"@, tab@],
{
    let args = to_strings(vec!["tab", "close", tab]);
    assert(views(args@) =~= seq!["tab"@, "close"@, tab@]);
    args
}

/// `herdr pane run <pane> <command>`.
pub fn pane_run(pane: &str, command: &str) -> (args: Vec<String>)
    ensures
        views(args@) == seq!["pane"@, "run"@, pane@, command@],
{
    let args = to_strings(vec!["pane", "run", pane, command]);
    assert(views(args@) =~= seq!["pane"@, "run"@, pane@, command@]);
    args
}

/// `herdr pane send-text <pane> <text>`.
pub fn pane_send_text(pane: &str, text: &str) -> (args: Vec<String>)
    ensures
        views(args@) == seq!["pane"@, "send-text"@, pane@, text@],
{
    let args = to_strings(vec!["pane", "send-text", pane, text]);
    assert(views(args@) =~= seq!["pane"@, "send-text"@, pane@, text@]);
    args
}

/// `herdr pane send-keys <pane> enter`.
pub fn pane_send_enter(pane: &str) -> (args: Vec<String>)
    ensures
        views(args@) == seq!["pane"@, "send-keys"@, pane@, "enter"@],
{
    let args = to_strings(vec!["pane", "send-keys", pane, "enter"]);
    assert(views(args@) =~= seq!["pane"@, "send-keys"@, pane@, "enter"@]);
    args
}

/// `herdr pane send-keys <pane> <keys>`.
pub fn pane_send_keys(pane: &str, keys: &str) -> (args: Vec<String>)
    ensures
        views(args@) == seq!["pane"@, "send-keys"@, pane@, keys@],
{
    let args = to_strings(vec!["pane", "send-keys", pane, keys]);
    assert(views(args@) =~= seq!["pane"@, "send-keys"@, pane@, keys@]);
    args
}

/// `herdr agent rename <target> <name>`.
pub fn agent_rename(target: &str, name: &str) -> (args: Vec<String>)
    ensures
        views(args@) == seq!["agent"@, "rename"@, target@, name@],
{
    let args = to_strings(vec!["agent", "rename", target, name]);
    assert(views(args@) =~= seq!["agent"@, "rename"@, target@, name@]);
    args
}

/// `herdr agent start <name> --kind <kind> --pane <pane> --timeout <timeout_ms>`.
pub fn agent_start(name: &str, kind: &str, pane: &str, timeout_ms: u64) -> (args: Vec<String>)
    ensures
        views(args@) == seq!["agent"@, "start"@, name@, "--kind"@, kind@, "--pane"@, pane@, "--timeout"@, decimal(timeout_ms as nat)],
{
    let timeout_text = decimal_string(timeout_ms);
    let args = to_strings(vec!["agent", "start", name, "--kind", kind, "--pane", pane, "--timeout", timeout_text.as_str()]);
    assert(views(args@) =~= seq!["agent"@, "start"@, name@, "--kind"@, kind@, "--pane"@, pane@, "--timeout"@, decimal(timeout_ms as nat)]);
    args
}

/// `herdr agent list`.
pub fn agent_list() -> (args: Vec<String>)
    ensures
        views(args@) == seq!["agent"@, "list"@],
{
    let args = to_strings(vec!["agent", "list"]);
    assert(views(args@) =~= seq!["agent"@, "list"@]);
    args
}

/// `herdr workspace list`.
pub fn workspace_list() -> (args: Vec<String>)
    ensures
        views(args@) == seq!["workspace"@, "list"@],
{
    let args = to_strings(vec!["workspace", "list"]);
    assert(views(args@) =~= seq!["workspace"@, "list"@]);
    args
}

/// `herdr --version`.
pub fn version() -> (args: Vec<String>)
    ensures
        views(args@) == seq!["--version"@],
{
    let args = to_strings(vec!["--version"]);
    assert(views(args@) =~= seq!["--version"@]);
    args
}

/// `herdr pane read <pane> --source <source> --lines <lines>`.
pub fn pane_read(pane: &str, source: &str, lines: u64) -> (args: Vec<String>)
    ensures
        views(args@) == seq!["pane"@, "read"@, pane@, "--source"@, source@, "--lines"@, decimal(lines as nat)],
{
    let lines_text = decimal_string(lines);
    let args = to_strings(vec!["pane", "read", pane, "--source", source, "--lines", lines_text.as_str()]);
    assert(views(args@) =~= seq!["pane"@, "read"@, pane@, "--source"@, source@, "--lines"@, decimal(lines as nat)]);
    args
}

/// The arguments of `tab create`: the new tab's working directory and label,
/// without focus, and with the pane environment assignment when one is given.
pub open spec fn tab_create_spec(cwd: Seq<char>, label: Seq<char>, env: Option<Seq<char>>) -> Seq<Seq<char>> {
    let base = seq!["tab"@, "create"@, "--cwd"@, cwd, "--label"@, label, "--no-focus"@];
    match env {
        Some(e) => base + seq!["--env"@, e],
        None => base,
    }
}

/// `herdr tab create --cwd <cwd> --label <label> --no-focus [--env <env>]`.
pub fn tab_create(cwd: &str, label: &str, env: Option<&str>) -> (args: Vec<String>)
    ensures
        views(args@) == tab_create_spec(cwd@, label@, match env {
            Some(e) => Some(e@),
            None => None,
        }),
{
    let mut parts = vec!["tab", "create", "--cwd", cwd, "--label", label, "--no-focus"];
    if let Some(e) = env {
        parts.push("--env");
        parts.push(e);
    }
    let args = to_strings(parts);
    assert(views(args@) =~= tab_create_spec(cwd@, label@, match env {
        Some(e) => Some(e@),
        None => None,
    }));
    args
}

/// The string at `outer.inner` inside `v`.
pub open spec fn nested_str(v: Json, outer: Seq<char>, inner: Seq<char>) -> Option<Seq<char>> {
    match v.field(outer) {
        Some(o) => match o.field(inner) {
            Some(i) => i.str_value(),
            None => None,
        },
        None => None,
    }
}

/// The `result` member of a herdr reply.
pub fn response_result(reply: &Json) -> (r: Result<&Json, HerdrError>)
    ensures
        match r {
            Ok(v) => reply.field("result"@) == Some(*v),
            Err(e) => reply.field("result"@) is None && e == HerdrError::MissingResult,
        },
{
    match reply.get("result") {
        Some(v) => Ok(v),
        None => Err(HerdrError::MissingResult),
    }
}

/// What a `tab create` reply says: the new tab's id and its root pane's id.
pub open spec fn tab_create_reply(reply: Json) -> Result<(Seq<char>, Seq<char>), HerdrError> {
    match reply.field("result"@) {
        None => Err(HerdrError::MissingResult),
        Some(res) => match nested_str(res, "tab"@, "tab_id"@) {
            None => Err(HerdrError::MissingTabId),
            Some(tab) => match nested_str(res, "root_pane"@, "pane_id"@) {
                None => Err(HerdrError::MissingRootPane),
                Some(pane) => Ok((tab, pane)),
            },
        },
    }
}

fn nested_string(v: &Json, outer: &str, inner: &str) -> (r: Option<String>)
    ensures
        match r {
            Some(s) => nested_str(*v, outer@, inner@) == Some(s@),
            None => nested_str(*v, outer@, inner@) is None,
        },
{
    match v.get(outer) {
        Some(o) => match o.get(inner) {
            Some(i) => match i.as_str() {
                Some(s) => Some(owned(s)),
                None => None,
            },
            None => None,
        },
        None => None,
    }
}

/// A `tab create` reply is read as the strings at `result.tab.tab_id` and
/// `result.root_pane.pane_id`, in that order; each error names the first
/// member that is missing or not a string.
pub proof fn lemma_tab_reply_members(reply: Json)
    ensures
        tab_create_reply(reply) matches Ok((tab, pane)) ==> (reply.field("result"@) matches Some(res)
            && (res.field("tab"@) matches Some(t) && (t.field("tab_id"@) matches Some(x)
            && x.str_value() == Some(tab))) && (res.field("root_pane"@) matches Some(r) && (r.field(
            "pane_id"@,
        ) matches Some(y) && y.str_value() == Some(pane)))),
        (tab_create_reply(reply) == Err::<(Seq<char>, Seq<char>), HerdrError>(HerdrError::MissingResult))
            <==> reply.field("result"@) is None,
        tab_create_reply(reply) == Err::<(Seq<char>, Seq<char>), HerdrError>(HerdrError::MissingTabId)
            ==> (reply.field("result"@) matches Some(res) && !(res.field("tab"@) matches Some(t) && (
        t.field("tab_id"@) matches Some(x) && x.str_value() is Some))),
        tab_create_reply(reply) is Ok || tab_create_reply(reply) == Err::<(Seq<char>, Seq<char>), HerdrError>(HerdrError::MissingResult)
            || tab_create_reply(reply) == Err::<(Seq<char>, Seq<char>), HerdrError>(HerdrError::MissingTabId)
            || tab_create_reply(reply) == Err::<(Seq<char>, Seq<char>), HerdrError>(HerdrError::MissingRootPane),
{
}

/// Reads a `tab create` reply: `(tab id, root pane id)`.
pub fn tab_create_response(reply: &Json) -> (r: Result<(String, String), HerdrError>)
    ensures
        match r {
            Ok((tab, pane)) => tab_create_reply(*reply) == Ok::<(Seq<char>, Seq<char>), HerdrError>((tab@, pane@)),
            Err(e) => tab_create_reply(*reply) == Err::<(Seq<char>, Seq<char>), HerdrError>(e),
        },
{
    let res = response_result(reply)?;
    let tab = match nested_string(res, "tab", "tab_id") {
        Some(t) => t,
        None => return Err(HerdrError::MissingTabId),
    };
    let pane = match nested_string(res, "root_pane", "pane_id") {
        Some(p) => p,
        None => return Err(HerdrError::MissingRootPane),
    };
    Ok((tab, pane))
}

/// The `result.agents` member of an `agent list` reply.
pub fn agent_list_response(reply: &Json) -> (r: Result<&Json, HerdrError>)
    ensures
        match r {
            Ok(v) => match reply.field("result"@) {
                Some(res) => res.field("agents"@) == Some(*v),
                None => false,
            },
            Err(e) => e == HerdrError::MissingAgents && match reply.field("result"@) {
                Some(res) => res.field("agents"@) is None,
                None => true,
            },
        },
{
    match reply.get("result") {
        Some(res) => match res.get("agents") {
            Some(a) => Ok(a),
            None => Err(HerdrError::MissingAgents),
        },
        None => Err(HerdrError::MissingAgents),
    }
}

/// The herdr binary named by `HERDR_BIN_PATH`, when that is set and not blank.
pub fn herdr_bin_override(env_value: Option<&str>) -> (r: Option<String>)
    ensures
        match env_value {
            Some(v) => if blank(v@) { r is None } else { r matches Some(b) && b@ == v@ },
            None => r is None,
        },
{
    match env_value {
        Some(v) => if is_blank(v) { None } else { Some(owned(v)) },
        None => None,
    }
}

/// One row of `herdr agent list`.
#[derive(Debug)]
pub struct AgentEntry {
    pub agent: String,
    pub pane_id: String,
    pub agent_status: String,
}

/// `e` is the bridge's agent reporting from `pane`.
pub open spec fn claims(e: AgentEntry, pane: Seq<char>) -> bool {
    e.agent@ == AGENT@ && e.pane_id@ == pane
}

/// Some row shows the bridge's agent in `pane`.
pub open spec fn claimed(entries: Seq<AgentEntry>, pane: Seq<char>) -> bool {
    exists|i: int| 0 <= i < entries.len() && claims(#[trigger] entries[i], pane)
}

/// Whether some row shows the bridge's agent in `pane`.
pub fn agent_claimed(entries: &Vec<AgentEntry>, pane: &str) -> (b: bool)
    ensures
        b == claimed(entries@, pane@),
{
    let mut i: usize = 0;
    while i < entries.len()
        invariant
            i <= entries@.len(),
            forall|k: int| 0 <= k < i ==> !claims(#[trigger] entries@[k], pane@),
        decreases entries@.len() - i,
    {
        if crate::json::string_eq(&entries[i].agent, AGENT) && crate::json::string_eq(
            &entries[i].pane_id,
            pane,
        ) {
            assert(claims(entries@[i as int], pane@));
            return true;
        }
        i = i + 1;
    }
    false
}

} // verus!
