use mimo_herdr::herdr::HerdrError;
use mimo_herdr::json::Json;
use mimo_herdr::herdr::AgentEntry;
use mimo_herdr::spawn::{
    focused_workspace, plan_shim_start, plan_spawn, shim_agent_name, spawn_custom_step,
    validate_name, workspace_hint, ClaimStage, SpawnError, CLAIM_TIMEOUT_SECS, CUSTOM_TAB_LABEL,
    SHIM_AGENT_KIND, SHIM_START_TIMEOUT_MS, SHIM_TAB_LABEL,
};
use mimo_herdr::verify::Observation;

fn s(x: &str) -> String {
    x.to_string()
}

fn obj(entries: Vec<(&str, Json)>) -> Json {
    Json::Object(entries.into_iter().map(|(k, v)| (s(k), v)).collect())
}

fn ws(id: Option<&str>, focused: Option<Json>) -> Json {
    let mut e = Vec::new();
    if let Some(i) = id {
        e.push(("workspace_id", Json::Str(s(i))));
    }
    if let Some(f) = focused {
        e.push(("focused", f));
    }
    obj(e)
}

fn reply(list: Json) -> Json {
    obj(vec![("id", Json::Number(s("4"))), ("result", list)])
}

#[test]
fn validate_name_accepts_pattern() {
    assert!(validate_name("runner").is_ok());
    assert!(validate_name("a").is_ok());
    assert!(validate_name("a0_-z9").is_ok());
    assert!(validate_name(&"a".repeat(32)).is_ok());
}

#[test]
fn validate_name_rejects() {
    for bad in ["", "Runner", "1abc", "-x", "_x", "ab c", "ab.c", "é", "aé"] {
        match validate_name(bad) {
            Err(SpawnError::InvalidName(n)) => assert_eq!(n, bad),
            _ => panic!("{bad:?} accepted"),
        }
    }
    assert!(validate_name(&"a".repeat(33)).is_err());
}

#[test]
fn workspace_hint_order() {
    assert_eq!(workspace_hint(Some("w9"), Some("w1")), Some(s("w9")));
    assert_eq!(workspace_hint(None, Some("w1")), Some(s("w1")));
    assert_eq!(workspace_hint(None, Some("")), None);
    assert_eq!(workspace_hint(None, None), None);
}

#[test]
fn focused_workspace_picks_first_focused() {
    let list = Json::Array(vec![
        ws(Some("w1"), Some(Json::Bool(false))),
        ws(Some("w2"), None),
        ws(Some("w3"), Some(Json::Bool(true))),
        ws(Some("w4"), Some(Json::Bool(true))),
    ]);
    assert_eq!(focused_workspace(&reply(list)).ok(), Some(s("w3")));
}

#[test]
fn focused_workspace_errors() {
    assert!(matches!(
        focused_workspace(&obj(vec![])),
        Err(SpawnError::Herdr(HerdrError::MissingResult))
    ));
    assert!(matches!(
        focused_workspace(&reply(obj(vec![]))),
        Err(SpawnError::UnexpectedWorkspaceShape)
    ));
    assert!(matches!(
        focused_workspace(&reply(Json::Array(vec![ws(Some("w1"), Some(Json::Str(s("yes"))))]))),
        Err(SpawnError::NoFocusedWorkspace)
    ));
    assert!(matches!(
        focused_workspace(&reply(Json::Array(vec![ws(None, Some(Json::Bool(true)))]))),
        Err(SpawnError::MissingWorkspaceId)
    ));
}

#[test]
fn plan_spawn_custom_mode() {
    let p = plan_spawn(Some("runner"), None, Some("/work"), false, "/s", Some("/bin")).ok().unwrap();
    assert_eq!(p.cwd, "/work");
    assert_eq!(p.label, CUSTOM_TAB_LABEL);
    assert_eq!(p.env, None);
    let q = plan_spawn(None, None, None, false, "/s", None).ok().unwrap();
    assert_eq!(q.cwd, ".");
}

#[test]
fn plan_spawn_shim_mode() {
    let p = plan_spawn(None, Some("/proj"), Some("/work"), true, "/h/.local/bin/herdr-shim", Some("/usr/bin:/bin"))
        .ok()
        .unwrap();
    assert_eq!(p.cwd, "/proj");
    assert_eq!(p.label, SHIM_TAB_LABEL);
    assert_eq!(p.env, Some(s("PATH=/h/.local/bin/herdr-shim:/usr/bin:/bin")));
    let q = plan_spawn(None, None, None, true, "/s", None).ok().unwrap();
    assert_eq!(q.env, Some(s("PATH=/s:")));
}

#[test]
fn plan_spawn_rejects_bad_name() {
    assert!(matches!(
        plan_spawn(Some("Bad"), None, None, false, "/s", None),
        Err(SpawnError::InvalidName(n)) if n == "Bad"
    ));
}

#[test]
fn shim_agent_defaults() {
    assert_eq!(shim_agent_name(None), "mimo");
    assert_eq!(shim_agent_name(Some("runner")), "runner");
    assert_eq!(SHIM_AGENT_KIND, "opencode");
    assert_eq!(SHIM_START_TIMEOUT_MS, 60000);
}

fn rows(pairs: Vec<(&str, &str)>) -> Observation {
    Observation::Agents(
        pairs
            .into_iter()
            .map(|(a, p)| AgentEntry {
                agent: s(a),
                pane_id: s(p),
                agent_status: s("idle"),
            })
            .collect(),
    )
}

#[test]
fn claim_then_rename() {
    let st = spawn_custom_step(ClaimStage::AwaitClaim, &rows(vec![("mimo", "p1")]), "p1", Some("runner"));
    assert_eq!(st.next, ClaimStage::Ready);
    assert_eq!(st.commands, vec![vec![s("agent"), s("rename"), s("p1"), s("runner")]]);
    assert!(st.failure.is_none());
    let st = spawn_custom_step(ClaimStage::AwaitClaim, &rows(vec![("mimo", "p1")]), "p1", None);
    assert_eq!(st.next, ClaimStage::Ready);
    assert!(st.commands.is_empty());
}

#[test]
fn claim_waits_then_fails() {
    let st = spawn_custom_step(ClaimStage::AwaitClaim, &rows(vec![("mimo", "p2")]), "p1", None);
    assert_eq!(st.next, ClaimStage::AwaitClaim);
    let st = spawn_custom_step(ClaimStage::AwaitClaim, &Observation::Unavailable, "p1", None);
    assert_eq!(st.next, ClaimStage::AwaitClaim);
    let st = spawn_custom_step(ClaimStage::AwaitClaim, &Observation::TimedOut, "p1", Some("x"));
    assert_eq!(st.next, ClaimStage::Failed);
    assert!(st.commands.is_empty());
    assert!(matches!(st.failure, Some(SpawnError::NotReported)));
    let st = spawn_custom_step(ClaimStage::Ready, &Observation::TimedOut, "p1", None);
    assert_eq!(st.next, ClaimStage::Ready);
    assert!(st.failure.is_none());
    assert_eq!(CLAIM_TIMEOUT_SECS, 30);
}

#[test]
fn shim_start_or_close() {
    assert_eq!(
        plan_shim_start(true, "t1", "p1", None).ok(),
        Some(vec![
            s("agent"), s("start"), s("mimo"), s("--kind"), s("opencode"), s("--pane"), s("p1"),
            s("--timeout"), s("60000")
        ])
    );
    assert_eq!(plan_shim_start(true, "t1", "p1", Some("ev")).ok().unwrap()[2], "ev");
    assert_eq!(plan_shim_start(false, "t1", "p1", Some("ev")).err(), Some(vec![s("tab"), s("close"), s("t1")]));
}
