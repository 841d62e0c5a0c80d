//! Spawning a MiMo Code agent in a new Herdr tab: the checks and choices
//! made before and between the herdr calls.

use vstd::prelude::*;

use crate::herdr::{agent_claimed, agent_rename, agent_start, claimed, claims, response_result, tab_close, AgentEntry, HerdrError, AGENT};
use crate::json::Json;
use crate::text::{chars_of, cat, decimal, owned, views};
use crate::verify::Observation;

verus! {

/// Label of a tab running MiMo Code directly.
pub const CUSTOM_TAB_LABEL: &'static str = "mimo";

/// Label of a tab running MiMo Code through the opencode-identity shim.
pub const SHIM_TAB_LABEL: &'static str = "mimo (shim)";

/// The agent kind the shim registers as.
pub const SHIM_AGENT_KIND: &'static str = "opencode";

/// How long `agent start` may take, in milliseconds.
pub const SHIM_START_TIMEOUT_MS: u64 = 60000;

/// What stops a spawn.
pub enum SpawnError {
    /// The requested agent name does not match `[a-z][a-z0-9_-]{0,31}`.
    InvalidName(String),
    /// herdr's reply could not be read.
    Herdr(HerdrError),
    /// `workspace list` did not reply with a list.
    UnexpectedWorkspaceShape,
    /// The focused workspace has no string `workspace_id`.
    MissingWorkspaceId,
    /// No workspace is focused.
    NoFocusedWorkspace,
    /// MiMo Code did not show up as an agent in time.
    NotReported,
}

/// A character allowed in an agent name.
pub open spec fn name_char(c: char) -> bool {
    ('a' <= c && c <= 'z') || ('0' <= c && c <= '9') || c == '_' || c == '-'
}

/// `name` matches `[a-z][a-z0-9_-]{0,31}`.
pub open spec fn valid_name(name: Seq<char>) -> bool {
    &&& 1 <= name.len() <= 32
    &&& 'a' <= name[0] && name[0] <= 'z'
    &&& forall|i: int| 0 <= i < name.len() ==> name_char(#[trigger] name[i])
}

/// Checks an agent name; the error carries the rejected name.
pub fn validate_name(name: &str) -> (r: Result<(), SpawnError>)
    ensures
        match r {
            Ok(()) => valid_name(name@),
            Err(e) => !valid_name(name@) && (e matches SpawnError::InvalidName(n) && n@ == name@),
        },
{
    let cs = chars_of(name);
    let n = cs.len();
    if n == 0 || n > 32 || !('a' <= cs[0] && cs[0] <= 'z') {
        return Err(SpawnError::InvalidName(owned(name)));
    }
    let mut i: usize = 0;
    while i < n
        invariant
            cs@ == name@,
            n == cs@.len(),
            i <= n,
            forall|k: int| 0 <= k < i ==> name_char(#[trigger] name@[k]),
        decreases n - i,
    {
        let c = cs[i];
        if !(('a' <= c && c <= 'z') || ('0' <= c && c <= '9') || c == '_' || c == '-') {
            assert(!name_char(name@[i as int]));
            return Err(SpawnError::InvalidName(owned(name)));
        }
        i = i + 1;
    }
    Ok(())
}

/// The workspace to use without asking herdr: the explicit one, else the one
/// named by a non-empty `HERDR_WORKSPACE_ID`.
pub fn workspace_hint(explicit: Option<&str>, env_workspace: Option<&str>) -> (r: Option<String>)
    ensures
        match explicit {
            Some(w) => r matches Some(x) && x@ == w@,
            None => match env_workspace {
                Some(w) if w@.len() > 0 => r matches Some(x) && x@ == w@,
                _ => r is None,
            },
        },
{
    if let Some(w) = explicit {
        return Some(owned(w));
    }
    if let Some(w) = env_workspace {
        if w.unicode_len() > 0 {
            return Some(owned(w));
        }
    }
    None
}

/// A workspace entry marked as focused.
pub open spec fn is_focused(ws: Json) -> bool {
    match ws.field("focused"@) {
        Some(f) => f.bool_value() == Some(true),
        None => false,
    }
}

/// The first focused entry.
pub open spec fn first_focused(list: Seq<Json>) -> Option<Json>
    decreases list.len(),
{
    if list.len() == 0 {
        None
    } else if is_focused(list[0]) {
        Some(list[0])
    } else {
        first_focused(list.drop_first())
    }
}

/// The focused workspace's id, as a `workspace list` reply gives it.
pub open spec fn focused_workspace_spec(reply: Json) -> Result<Seq<char>, SpawnError> {
    match reply.field("result"@) {
        None => Err(SpawnError::Herdr(HerdrError::MissingResult)),
        Some(res) => match res.array_value() {
            None => Err(SpawnError::UnexpectedWorkspaceShape),
            Some(list) => match first_focused(list) {
                None => Err(SpawnError::NoFocusedWorkspace),
                Some(ws) => match ws.field("workspace_id"@) {
                    Some(id) => match id.str_value() {
                        Some(s) => Ok(s),
                        None => Err(SpawnError::MissingWorkspaceId),
                    },
                    None => Err(SpawnError::MissingWorkspaceId),
                },
            },
        },
    }
}

/// Reads the focused workspace's id from a `workspace list` reply.
pub fn focused_workspace(reply: &Json) -> (r: Result<String, SpawnError>)
    ensures
        match r {
            Ok(id) => focused_workspace_spec(*reply) == Ok::<Seq<char>, SpawnError>(id@),
            Err(SpawnError::InvalidName(_)) => false,
            Err(e) => focused_workspace_spec(*reply) == Err::<Seq<char>, SpawnError>(e),
        },
{
    let res = match response_result(reply) {
        Ok(v) => v,
        Err(e) => return Err(SpawnError::Herdr(e)),
    };
    let list = match res.as_array() {
        Some(l) => l,
        None => return Err(SpawnError::UnexpectedWorkspaceShape),
    };
    let mut i: usize = 0;
    assert(list@.skip(0) =~= list@);
    while i < list.len()
        invariant
            i <= list@.len(),
            reply.field("result"@) == Some(*res),
            res.array_value() == Some(list@),
            first_focused(list@) == first_focused(list@.skip(i as int)),
        decreases list@.len() - i,
    {
        let ws = &list[i];
        assert(list@.skip(i as int).drop_first() =~= list@.skip(i + 1));
        assert(list@.skip(i as int)[0] == list@[i as int]);
        let focused = match ws.get("focused") {
            Some(f) => match f.as_bool() {
                Some(b) => b,
                None => false,
            },
            None => false,
        };
        if focused {
            return match ws.get("workspace_id") {
                Some(id) => match id.as_str() {
                    Some(s) => Ok(owned(s)),
                    None => Err(SpawnError::MissingWorkspaceId),
                },
                None => Err(SpawnError::MissingWorkspaceId),
            };
        }
        i = i + 1;
    }
    Err(SpawnError::NoFocusedWorkspace)
}

/// What a spawn does once the name is accepted.
pub struct SpawnPlan {
    /// Working directory of the new tab.
    pub cwd: String,
    /// Label of the new tab.
    pub label: &'static str,
    /// `PATH=...` assignment for the new pane, in shim mode.
    pub env: Option<String>,
}

/// The `PATH` assignment that puts the shim directory first.
pub open spec fn shim_path_env(shim_dir: Seq<char>, path: Seq<char>) -> Seq<char> {
    "PATH="@ + shim_dir + ":"@ + path
}

/// Plans a spawn: checks the name, picks the working directory (the given
/// one, else the current directory, else `.`), the tab label and, in shim
/// mode, the `PATH` with the shim directory first.
pub fn plan_spawn(
    name: Option<&str>,
    cwd: Option<&str>,
    current_dir: Option<&str>,
    shim: bool,
    shim_dir: &str,
    path_var: Option<&str>,
) -> (r: Result<SpawnPlan, SpawnError>)
    ensures
        r is Ok <==> (name matches Some(n) ==> valid_name(n@)),
        r matches Err(e) ==> (e matches SpawnError::InvalidName(n) && name matches Some(m)
            && n@ == m@),
        r matches Ok(p) ==> {
            &&& p.cwd@ == match cwd {
                Some(c) => c@,
                None => match current_dir {
                    Some(d) => d@,
                    None => "."@,
                },
            }
            &&& p.label@ == (if shim { SHIM_TAB_LABEL@ } else { CUSTOM_TAB_LABEL@ })
            &&& shim ==> (p.env matches Some(e) && e@ == shim_path_env(
                shim_dir@,
                match path_var {
                    Some(v) => v@,
                    None => Seq::<char>::empty(),
                },
            ))
            &&& !shim ==> p.env is None
        },
{
    if let Some(n) = name {
        validate_name(n)?;
    }
    let cwd = match cwd {
        Some(c) => owned(c),
        None => match current_dir {
            Some(d) => owned(d),
            None => owned("."),
        },
    };
    let env = if shim {
        let a = cat("PATH=", shim_dir);
        let b = cat(a.as_str(), ":");
        let path = match path_var {
            Some(v) => owned(v),
            None => String::new(),
        };
        let e = cat(b.as_str(), path.as_str());
        Some(e)
    } else {
        None
    };
    let label = if shim { SHIM_TAB_LABEL } else { CUSTOM_TAB_LABEL };
    Ok(SpawnPlan { cwd, label, env })
}

/// The name a shim-mode agent is started under: the requested one, else `mimo`.
pub fn shim_agent_name(name: Option<&str>) -> (r: String)
    ensures
        r@ == match name {
            Some(n) => n@,
            None => "mimo"@,
        },
{
    match name {
        Some(n) => owned(n),
        None => owned("mimo"),
    }
}

/// How long a spawn waits for the plugin to claim the agent label, in seconds.
pub const CLAIM_TIMEOUT_SECS: u64 = 30;

/// Where a custom-mode spawn stands after MiMo Code was launched in its pane.
#[derive(Debug, Clone, Copy, PartialEq, Eq, Structural)]
pub enum ClaimStage {
    /// Waiting for the plugin to claim the agent label in the pane.
    AwaitClaim,
    /// The agent is live (and renamed, when a name was asked for).
    Ready,
    /// The agent never showed up.
    Failed,
}

/// What a custom-mode spawn does after a poll of the agent list.
pub struct ClaimStep {
    /// The stage to continue in.
    pub next: ClaimStage,
    /// herdr calls to make, in order; each must succeed.
    pub commands: Vec<Vec<String>>,
    /// Why the spawn failed, when it did.
    pub failure: Option<SpawnError>,
}

/// The poll shows the bridge's agent in `pane`.
pub open spec fn claim_seen(obs: Observation, pane: Seq<char>) -> bool {
    match obs {
        Observation::Agents(rows) => claimed(rows@, pane),
        _ => false,
    }
}

/// The herdr calls once the agent is live: a rename when a name was asked for.
pub open spec fn rename_commands(pane: Seq<char>, name: Option<Seq<char>>) -> Seq<Seq<Seq<char>>> {
    match name {
        Some(n) => seq![seq!["agent"@, "rename"@, pane, n]],
        None => Seq::empty(),
    }
}

/// Decides a custom-mode spawn's next move: once the agent list shows the
/// bridge's agent in the pane, rename it when a name was given; when time is
/// up without that, fail; otherwise keep waiting.
pub fn spawn_custom_step(stage: ClaimStage, obs: &Observation, pane: &str, name: Option<&str>) -> (st: ClaimStep)
    ensures
        stage == ClaimStage::AwaitClaim && claim_seen(*obs, pane@) ==> {
            &&& st.next == ClaimStage::Ready
            &&& st.commands@.map_values(|c: Vec<String>| views(c@)) == rename_commands(
                pane@,
                match name {
                    Some(n) => Some(n@),
                    None => None,
                },
            )
            &&& st.failure is None
        },
        stage == ClaimStage::AwaitClaim && !claim_seen(*obs, pane@) && *obs is TimedOut ==> {
            &&& st.next == ClaimStage::Failed
            &&& st.commands@.len() == 0
            &&& st.failure matches Some(SpawnError::NotReported)
        },
        !(stage == ClaimStage::AwaitClaim && (claim_seen(*obs, pane@) || *obs is TimedOut)) ==> {
            &&& st.next == stage
            &&& st.commands@.len() == 0
            &&& st.failure is None
        },
{
    let mut st = ClaimStep { next: stage, commands: Vec::new(), failure: None };
    if stage != ClaimStage::AwaitClaim {
        return st;
    }
    let seen = match obs {
        Observation::Agents(rows) => agent_claimed(rows, pane),
        _ => false,
    };
    if seen {
        st.next = ClaimStage::Ready;
        if let Some(n) = name {
            let cmd = agent_rename(pane, n);
            let ghost v = views(cmd@);
            st.commands.push(cmd);
            assert(st.commands@.map_values(|c: Vec<String>| views(c@)) =~= seq![v]);
        } else {
            assert(st.commands@.map_values(|c: Vec<String>| views(c@)) =~= Seq::<Seq<Seq<char>>>::empty());
        }
        return st;
    }
    if let Observation::TimedOut = obs {
        st.next = ClaimStage::Failed;
        st.failure = Some(SpawnError::NotReported);
    }
    st
}

/// The `agent start` call of a shim-mode spawn: the requested name (else
/// `mimo`) as an `opencode` agent in `pane`, with a 60 s timeout.
pub open spec fn shim_start_spec(pane: Seq<char>, name: Option<Seq<char>>) -> Seq<Seq<char>> {
    seq![
        "agent"@,
        "start"@,
        match name {
            Some(n) => n,
            None => "mimo"@,
        },
        "--kind"@,
        SHIM_AGENT_KIND@,
        "--pane"@,
        pane,
        "--timeout"@,
        decimal(SHIM_START_TIMEOUT_MS as nat),
    ]
}

/// Decides how a shim-mode spawn goes on: with the shim installed, the
/// `agent start` call to make; without it, the `tab close` call that removes
/// the new tab before the spawn fails.
pub fn plan_shim_start(shim_installed: bool, tab: &str, pane: &str, name: Option<&str>) -> (r: Result<Vec<String>, Vec<String>>)
    ensures
        match r {
            Ok(start) => shim_installed && views(start@) == shim_start_spec(
                pane@,
                match name {
                    Some(n) => Some(n@),
                    None => None,
                },
            ),
            Err(close) => !shim_installed && views(close@) == seq!["tab"@, "close"@, tab@],
        },
{
    if !shim_installed {
        return Err(tab_close(tab));
    }
    let agent_name = shim_agent_name(name);
    Ok(agent_start(agent_name.as_str(), SHIM_AGENT_KIND, pane, SHIM_START_TIMEOUT_MS))
}

/// A shim-mode start is `agent start <name> --kind opencode --pane <pane>
/// --timeout 60000`, the name being the requested one or `mimo`: whatever
/// name is asked for, every part after it is the same.
pub proof fn lemma_shim_start_shape(pane: Seq<char>, name: Option<Seq<char>>, other: Option<Seq<char>>)
    ensures
        shim_start_spec(pane, name).len() == 9,
        shim_start_spec(pane, name)[0] == "agent"@,
        shim_start_spec(pane, name)[1] == "start"@,
        shim_start_spec(pane, name)[2] == match name {
            Some(n) => n,
            None => "mimo"@,
        },
        shim_start_spec(pane, name)[3] == "--kind"@,
        shim_start_spec(pane, name)[4] == "opencode"@,
        shim_start_spec(pane, name)[5] == "--pane"@,
        shim_start_spec(pane, name)[6] == pane,
        shim_start_spec(pane, name)[7] == "--timeout"@,
        shim_start_spec(pane, name)[8] == "60000"@,
        shim_start_spec(pane, name).skip(3) == shim_start_spec(pane, other).skip(3),
{
    reveal_strlit("60000");
    reveal_with_fuel(decimal, 6);
    assert(decimal(60000) =~= seq!['6', '0', '0', '0', '0']);
    assert(shim_start_spec(pane, name).skip(3) =~= shim_start_spec(pane, other).skip(3));
}

/// Where the first focused entry is, if any.
proof fn lemma_first_focused(list: Seq<Json>)
    ensures
        match first_focused(list) {
            Some(ws) => exists|i: int|
                0 <= i < list.len() && list[i] == ws && is_focused(#[trigger] list[i]) && forall|
                    j: int,
                | 0 <= j < i ==> !is_focused(#[trigger] list[j]),
            None => forall|i: int| 0 <= i < list.len() ==> !is_focused(#[trigger] list[i]),
        },
    decreases list.len(),
{
    if list.len() > 0 && !is_focused(list[0]) {
        let t = list.drop_first();
        lemma_first_focused(t);
        match first_focused(t) {
            Some(ws) => {
                let i = choose|i: int|
                    0 <= i < t.len() && t[i] == ws && is_focused(#[trigger] t[i]) && forall|j: int|
                        0 <= j < i ==> !is_focused(#[trigger] t[j]);
                assert(list[i + 1] == t[i]);
                assert forall|j: int| 0 <= j < i + 1 implies !is_focused(#[trigger] list[j]) by {
                    if j > 0 {
                        assert(list[j] == t[j - 1]);
                    }
                }
            },
            None => {
                assert forall|i: int| 0 <= i < list.len() implies !is_focused(#[trigger] list[i]) by {
                    if i > 0 {
                        assert(list[i] == t[i - 1]);
                    }
                }
            },
        }
    }
}

/// The workspace chosen from a `workspace list` reply is the first entry of
/// the `result` list whose `focused` member is `true`, and its id is that
/// entry's `workspace_id` string; "no focused workspace" means no entry of
/// the list has `focused` equal to `true`.
pub proof fn lemma_focused_workspace_is_first(reply: Json)
    ensures
        focused_workspace_spec(reply) matches Ok(id) ==> (reply.field("result"@) matches Some(res)
            && res.array_value() matches Some(list) && exists|i: int|
            0 <= i < list.len() && (#[trigger] list[i]).field("focused"@) == Some(Json::Bool(true))
                && (list[i].field("workspace_id"@) matches Some(w) && w.str_value() == Some(id))
                && forall|j: int| 0 <= j < i ==> (#[trigger] list[j]).field("focused"@) != Some(Json::Bool(true))),
        focused_workspace_spec(reply) matches Err(SpawnError::NoFocusedWorkspace) ==> (reply.field(
            "result"@,
        ) matches Some(res) && res.array_value() matches Some(list) && forall|i: int|
            0 <= i < list.len() ==> (#[trigger] list[i]).field("focused"@) != Some(Json::Bool(true))),
{
    if let Some(res) = reply.field("result"@) {
        if let Some(list) = res.array_value() {
            lemma_first_focused(list);
            assert forall|ws: Json| is_focused(ws) <==> ws.field("focused"@) == Some(Json::Bool(true)) by {
                match ws.field("focused"@) {
                    Some(f) => {
                        if f.bool_value() == Some(true) {
                            assert(f == Json::Bool(true));
                        }
                    },
                    None => {},
                }
            }
        }
    }
}

/// The claim a custom-mode spawn waits for is a row of the agent list that
/// shows `mimo` in the new pane; once seen, the only call is a rename to the
/// requested name, and none when no name was requested.
pub proof fn lemma_claim_and_rename(rows: Vec<AgentEntry>, pane: Seq<char>, n: Seq<char>)
    ensures
        claim_seen(Observation::Agents(rows), pane) <==> exists|i: int|
            0 <= i < rows@.len() && (#[trigger] rows@[i]).agent@ == "mimo"@ && rows@[i].pane_id@
                == pane,
        forall|s: String| !claim_seen(Observation::Screen(s), pane),
        !claim_seen(Observation::TimedOut, pane),
        rename_commands(pane, None).len() == 0,
        rename_commands(pane, Some(n)).len() == 1,
        rename_commands(pane, Some(n))[0] == seq!["agent"@, "rename"@, pane, n],
{
    assert(AGENT@ == "mimo"@);
    if exists|i: int|
        0 <= i < rows@.len() && (#[trigger] rows@[i]).agent@ == "mimo"@ && rows@[i].pane_id@ == pane {
        let i = choose|i: int|
            0 <= i < rows@.len() && (#[trigger] rows@[i]).agent@ == "mimo"@ && rows@[i].pane_id@
                == pane;
        assert(claims(rows@[i], pane));
    }
}

} // verus!
