use mimo_herdr::herdr::{
    agent_claimed, agent_list, agent_list_response, agent_rename, agent_start, herdr_bin_override,
    pane_read, pane_run, pane_send_enter, pane_send_keys, pane_send_text, release_agent,
    response_result, tab_close, tab_create, tab_create_response, version, workspace_list,
    AgentEntry, HerdrError, AGENT, PLUGIN_FILE, SOURCE,
};
use mimo_herdr::json::Json;

fn s(x: &str) -> String {
    x.to_string()
}

fn obj(entries: Vec<(&str, Json)>) -> Json {
    Json::Object(entries.into_iter().map(|(k, v)| (s(k), v)).collect())
}

fn entry(agent: &str, pane: &str, status: &str) -> AgentEntry {
    AgentEntry {
        agent: s(agent),
        pane_id: s(pane),
        agent_status: s(status),
    }
}

#[test]
fn constants_hold_the_labels() {
    assert_eq!(SOURCE, "custom:mimo-herdr");
    assert_eq!(AGENT, "mimo");
    assert_eq!(PLUGIN_FILE, "herdr-agent-state.js");
}

#[test]
fn release_agent_builds_positional_pane_and_seq() {
    assert_eq!(
        release_agent("w1:p3", "custom:mimo-herdr", "mimo", 1700000001000000),
        vec![
            "pane",
            "release-agent",
            "w1:p3",
            "--source",
            "custom:mimo-herdr",
            "--agent",
            "mimo",
            "--seq",
            "1700000001000000"
        ]
    );
}

#[test]
fn simple_commands() {
    assert_eq!(tab_close("t1"), vec!["tab", "close", "t1"]);
    assert_eq!(pane_run("p1", "mimo"), vec!["pane", "run", "p1", "mimo"]);
    assert_eq!(pane_send_text("p1", "hi there"), vec!["pane", "send-text", "p1", "hi there"]);
    assert_eq!(pane_send_enter("p1"), vec!["pane", "send-keys", "p1", "enter"]);
    assert_eq!(pane_send_keys("p1", "ctrl+c"), vec!["pane", "send-keys", "p1", "ctrl+c"]);
    assert_eq!(agent_rename("p1", "runner"), vec!["agent", "rename", "p1", "runner"]);
    assert_eq!(agent_list(), vec!["agent", "list"]);
    assert_eq!(workspace_list(), vec!["workspace", "list"]);
    assert_eq!(version(), vec!["--version"]);
    assert_eq!(
        pane_read("p1", "recent", 300),
        vec!["pane", "read", "p1", "--source", "recent", "--lines", "300"]
    );
}

#[test]
fn agent_start_builds_timeout() {
    assert_eq!(
        agent_start("runner", "opencode", "p2", 60000),
        vec!["agent", "start", "runner", "--kind", "opencode", "--pane", "p2", "--timeout", "60000"]
    );
}

#[test]
fn tab_create_with_and_without_env() {
    assert_eq!(
        tab_create("/w", "mimo", None),
        vec!["tab", "create", "--cwd", "/w", "--label", "mimo", "--no-focus"]
    );
    assert_eq!(
        tab_create("/w", "mimo (shim)", Some("PATH=/s:/bin")),
        vec![
            "tab",
            "create",
            "--cwd",
            "/w",
            "--label",
            "mimo (shim)",
            "--no-focus",
            "--env",
            "PATH=/s:/bin"
        ]
    );
}

fn tab_reply(tab: Option<Json>, root: Option<Json>) -> Json {
    let mut result = Vec::new();
    if let Some(t) = tab {
        result.push(("tab", obj(vec![("tab_id", t)])));
    }
    if let Some(r) = root {
        result.push(("root_pane", obj(vec![("pane_id", r)])));
    }
    obj(vec![("id", Json::Number(s("1"))), ("result", obj(result))])
}

#[test]
fn tab_create_response_reads_ids() {
    let reply = tab_reply(Some(Json::Str(s("t7"))), Some(Json::Str(s("w1:p9"))));
    assert_eq!(tab_create_response(&reply).ok(), Some((s("t7"), s("w1:p9"))));
}

#[test]
fn tab_create_response_errors() {
    let missing_result = obj(vec![("id", Json::Null)]);
    assert_eq!(tab_create_response(&missing_result).err(), Some(HerdrError::MissingResult));
    let no_tab = tab_reply(None, Some(Json::Str(s("p"))));
    assert_eq!(tab_create_response(&no_tab).err(), Some(HerdrError::MissingTabId));
    let tab_not_string = tab_reply(Some(Json::Number(s("3"))), Some(Json::Str(s("p"))));
    assert_eq!(tab_create_response(&tab_not_string).err(), Some(HerdrError::MissingTabId));
    let no_root = tab_reply(Some(Json::Str(s("t"))), None);
    assert_eq!(tab_create_response(&no_root).err(), Some(HerdrError::MissingRootPane));
}

#[test]
fn response_result_reads_result() {
    let reply = obj(vec![("result", Json::Bool(true))]);
    assert!(matches!(response_result(&reply), Ok(Json::Bool(true))));
    assert_eq!(response_result(&Json::Array(vec![])).err(), Some(HerdrError::MissingResult));
}

#[test]
fn agent_list_response_reads_agents() {
    let reply = obj(vec![("result", obj(vec![("agents", Json::Array(vec![]))]))]);
    assert!(matches!(agent_list_response(&reply), Ok(Json::Array(v)) if v.is_empty()));
    let no_agents = obj(vec![("result", obj(vec![]))]);
    assert_eq!(agent_list_response(&no_agents).err(), Some(HerdrError::MissingAgents));
    let no_result = obj(vec![]);
    assert_eq!(agent_list_response(&no_result).err(), Some(HerdrError::MissingAgents));
}

#[test]
fn herdr_error_messages() {
    assert_eq!(HerdrError::MissingResult.message(), "herdr response missing result field");
    assert_eq!(HerdrError::MissingAgents.message(), "agent list response missing agents field");
    assert_eq!(HerdrError::MissingTabId.message(), "tab create response missing tab_id");
    assert_eq!(HerdrError::MissingRootPane.message(), "tab create response missing root pane id");
}

#[test]
fn herdr_bin_override_needs_non_blank() {
    assert_eq!(herdr_bin_override(Some("/opt/herdr")), Some(s("/opt/herdr")));
    assert_eq!(herdr_bin_override(Some("   ")), None);
    assert_eq!(herdr_bin_override(Some("")), None);
    assert_eq!(herdr_bin_override(None), None);
}

#[test]
fn agent_claimed_needs_label_and_pane() {
    let rows = vec![entry("opencode", "p1", "idle"), entry("mimo", "p2", "working")];
    assert!(agent_claimed(&rows, "p2"));
    assert!(!agent_claimed(&rows, "p1"));
    assert!(!agent_claimed(&Vec::new(), "p2"));
}

#[test]
fn agent_entry_debug() {
    let e = entry("mimo", "p1", "idle");
    assert!(format!("{e:?}").contains("p1"));
}
