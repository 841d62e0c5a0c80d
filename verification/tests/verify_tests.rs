use mimo_herdr::herdr::AgentEntry;
use mimo_herdr::json::Json;
use mimo_herdr::verify::{
    agent_settled, default_trusted_workspaces, is_reply_seen, is_tui_ready, read_or_default,
    stage_probe, trust_workspace, trusted_workspaces_file, untrust_workspace,
    user_trusted_workspaces_file, verify_step, Failure, Observation, Probe, Stage, TrustError,
    MATCH, PROBE,
};

fn s(x: &str) -> String {
    x.to_string()
}

fn entry(agent: &str, pane: &str, status: &str) -> AgentEntry {
    AgentEntry {
        agent: s(agent),
        pane_id: s(pane),
        agent_status: s(status),
    }
}

fn paths(d: &Json) -> Vec<String> {
    match d.get("trustedPaths") {
        Some(Json::Array(v)) => v
            .iter()
            .map(|x| match x {
                Json::Str(s) => s.clone(),
                _ => s("<other>"),
            })
            .collect(),
        _ => panic!("no list"),
    }
}

fn doc(list: Vec<Json>) -> Json {
    Json::Object(vec![
        (s("version"), Json::Number(s("1"))),
        (s("trustedPaths"), Json::Array(list)),
        (s("extra"), Json::Bool(true)),
    ])
}

#[test]
fn settled_uses_first_matching_row() {
    let rows = vec![
        entry("mimo", "p1", "working"),
        entry("mimo", "p2", "idle"),
        entry("mimo", "p2", "working"),
    ];
    assert!(agent_settled(&rows, "p2"));
    assert!(!agent_settled(&rows, "p1"));
    assert!(!agent_settled(&rows, "p3"));
    assert!(agent_settled(&vec![entry("mimo", "p", "done")], "p"));
    assert!(agent_settled(&vec![entry("mimo", "p", "unknown")], "p"));
    assert!(!agent_settled(&vec![entry("mimo", "p", "blocked")], "p"));
}

#[test]
fn screen_checks() {
    assert!(is_tui_ready("...  Type your message  ..."));
    assert!(!is_tui_ready("loading"));
    assert!(is_reply_seen("> VRFY-OK"));
    assert!(!is_reply_seen("VRFY"));
    assert_eq!(PROBE, "Reply with exactly: VRFY-OK");
    assert_eq!(MATCH, "VRFY-OK");
}

#[test]
fn echoed_prompt_is_no_reply() {
    assert!(!is_reply_seen("> Reply with exactly: VRFY-OK\n"));
    assert!(!is_reply_seen("Reply with exactly: VRFY-OKReply with exactly: VRFY-OK"));
    assert!(is_reply_seen("> Reply with exactly: VRFY-OK\n\nVRFY-OK\n"));
    assert!(is_reply_seen("VRFY-OK\n> Reply with exactly: VRFY-OK"));
    assert!(is_reply_seen("exactly: VRFY-OK"));
}

#[test]
fn trusted_file_locations() {
    assert_eq!(
        trusted_workspaces_file(Some("/data"), Some("/home/u")),
        "/data/mimocode/trusted-workspaces.json"
    );
    assert_eq!(
        trusted_workspaces_file(None, Some("/home/u")),
        "/home/u/.local/share/mimocode/trusted-workspaces.json"
    );
    assert_eq!(
        trusted_workspaces_file(None, None),
        ".local/share/mimocode/trusted-workspaces.json"
    );
    assert_eq!(
        user_trusted_workspaces_file(Some("/d")),
        "/d/mimocode/trusted-workspaces.json"
    );
}

#[test]
fn default_document() {
    let d = default_trusted_workspaces();
    match &d {
        Json::Object(e) => {
            assert_eq!(e.len(), 2);
            assert_eq!(e[0].0, "version");
            assert!(matches!(&e[0].1, Json::Number(n) if n == "1"));
            assert_eq!(e[1].0, "trustedPaths");
            assert!(matches!(&e[1].1, Json::Array(v) if v.is_empty()));
        }
        _ => panic!("not an object"),
    }
    assert!(matches!(d.get("version"), Some(Json::Number(n)) if n == "1"));
    assert!(paths(&d).is_empty());
    assert!(paths(&read_or_default(None)).is_empty());
    assert!(matches!(read_or_default(Some(Json::Null)), Json::Null));
}

#[test]
fn trust_adds_once() {
    let (d1, changed) = trust_workspace(doc(vec![Json::Str(s("/a"))]), "/tmp/x").ok().unwrap();
    assert!(changed);
    assert_eq!(paths(&d1), vec!["/a", "/tmp/x"]);
    match &d1 {
        Json::Object(e) => {
            let keys: Vec<&str> = e.iter().map(|(k, _)| k.as_str()).collect();
            assert_eq!(keys, vec!["version", "trustedPaths", "extra"]);
        }
        _ => panic!("not an object"),
    }
    assert!(matches!(d1.get("extra"), Some(Json::Bool(true))));
    let (d2, changed2) = trust_workspace(d1, "/tmp/x").ok().unwrap();
    assert!(!changed2);
    assert_eq!(paths(&d2), vec!["/a", "/tmp/x"]);
}

#[test]
fn trust_rejects_bad_shape() {
    assert_eq!(trust_workspace(Json::Array(vec![]), "/x").err(), Some(TrustError::UnexpectedShape));
    let no_list = Json::Object(vec![(s("trustedPaths"), Json::Null)]);
    assert_eq!(trust_workspace(no_list, "/x").err(), Some(TrustError::UnexpectedShape));
}

#[test]
fn untrust_undoes_trust() {
    let before = doc(vec![Json::Str(s("/a")), Json::Number(s("2"))]);
    let (d1, _) = trust_workspace(before, "/tmp/x").ok().unwrap();
    let (d2, write) = untrust_workspace(d1, "/tmp/x");
    assert!(write);
    assert_eq!(paths(&d2), vec!["/a", "<other>"]);
    assert!(matches!(d2.get("extra"), Some(Json::Bool(true))));
}

#[test]
fn untrust_removes_every_copy() {
    let d = doc(vec![Json::Str(s("/x")), Json::Str(s("/y")), Json::Str(s("/x"))]);
    let (d2, write) = untrust_workspace(d, "/x");
    assert!(write);
    assert_eq!(paths(&d2), vec!["/y"]);
    let (same, write2) = untrust_workspace(Json::Bool(false), "/x");
    assert!(!write2);
    assert!(matches!(same, Json::Bool(false)));
}

fn agents(rows: Vec<AgentEntry>) -> Observation {
    Observation::Agents(rows)
}

#[test]
fn stage_probes() {
    assert_eq!(stage_probe(Stage::AwaitClaim), Some((Probe::Agents, 30)));
    assert_eq!(stage_probe(Stage::AwaitScreen), Some((Probe::Screen { lines: 60 }, 30)));
    assert_eq!(stage_probe(Stage::AwaitReply), Some((Probe::Screen { lines: 300 }, 120)));
    assert_eq!(stage_probe(Stage::AwaitForcedRelease), Some((Probe::Agents, 15)));
    assert_eq!(stage_probe(Stage::Passed), None);
}

#[test]
fn verify_happy_path() {
    let p = "w1:p4";
    let st = verify_step(Stage::AwaitClaim, &agents(vec![entry("mimo", p, "working")]), p);
    assert_eq!(st.next, Stage::AwaitScreen);
    assert_eq!(st.progress, Some("[2/6] mimo reported as agent (custom:mimo-herdr)"));
    let st = verify_step(Stage::AwaitScreen, &Observation::Screen(s("Type your message")), p);
    assert_eq!(st.next, Stage::AwaitReply);
    assert_eq!(
        st.commands,
        vec![
            vec![s("pane"), s("send-text"), s(p), s(PROBE)],
            vec![s("pane"), s("send-keys"), s(p), s("enter")]
        ]
    );
    assert!(!st.best_effort);
    let st = verify_step(Stage::AwaitReply, &Observation::Screen(s(PROBE)), p);
    assert_eq!(st.next, Stage::AwaitReply);
    let st = verify_step(Stage::AwaitReply, &Observation::Screen(s("VRFY-OK")), p);
    assert_eq!(st.next, Stage::AwaitSettle);
    let st = verify_step(Stage::AwaitSettle, &agents(vec![entry("mimo", p, "idle")]), p);
    assert_eq!(st.next, Stage::AwaitRelease);
    assert_eq!(st.commands[0], vec![s("pane"), s("send-text"), s(p), s("/exit")]);
    let st = verify_step(Stage::AwaitRelease, &agents(vec![]), p);
    assert_eq!(st.next, Stage::Passed);
    assert_eq!(st.progress, Some("[4/6] agent row released after exit (watchdog OK)"));
}

#[test]
fn verify_waits_and_times_out() {
    let p = "p";
    let st = verify_step(Stage::AwaitClaim, &Observation::Unavailable, p);
    assert_eq!(st.next, Stage::AwaitClaim);
    assert!(st.commands.is_empty() && st.failure.is_none());
    let st = verify_step(Stage::AwaitClaim, &Observation::TimedOut, p);
    assert_eq!((st.next, st.failure, st.snapshot), (Stage::Failed, Some(Failure::ClaimTimeout), Some("agent claim")));
    let st = verify_step(Stage::AwaitScreen, &Observation::TimedOut, p);
    assert_eq!((st.failure, st.snapshot), (Some(Failure::ScreenNotReady), None));
    let st = verify_step(Stage::AwaitReply, &Observation::TimedOut, p);
    assert_eq!((st.failure, st.snapshot), (Some(Failure::ReplyTimeout), Some("prompt reply")));
    let st = verify_step(Stage::AwaitSettle, &Observation::TimedOut, p);
    assert_eq!(st.failure, Some(Failure::NotSettled));
    let st = verify_step(Stage::AwaitRelease, &Observation::TimedOut, p);
    assert_eq!(st.next, Stage::AwaitForcedRelease);
    assert!(st.best_effort);
    assert_eq!(st.commands.len(), 2);
    assert_eq!(st.commands[1], vec![s("pane"), s("send-keys"), s(p), s("ctrl+c")]);
    let st = verify_step(Stage::AwaitForcedRelease, &Observation::TimedOut, p);
    assert_eq!((st.failure, st.snapshot), (Some(Failure::ReleaseTimeout), Some("watchdog release")));
    let st = verify_step(Stage::AwaitForcedRelease, &agents(vec![]), p);
    assert_eq!(st.next, Stage::Passed);
}

#[test]
fn verify_ended_stays_ended() {
    for s0 in [Stage::Passed, Stage::Failed] {
        let st = verify_step(s0, &Observation::TimedOut, "p");
        assert_eq!(st.next, s0);
        assert!(st.failure.is_none() && st.commands.is_empty());
    }
}

#[test]
fn verify_release_needs_row_gone() {
    let st = verify_step(Stage::AwaitRelease, &agents(vec![entry("mimo", "p", "idle")]), "p");
    assert_eq!(st.next, Stage::AwaitRelease);
}
