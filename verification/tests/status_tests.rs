use mimo_herdr::status::{in_herdr_pane, plugin_dirs_scanned, report_lines, Status};

fn status(installed: bool, ours: bool, path: Option<&str>, dirs: Vec<&str>) -> Status {
    Status {
        herdr: Some("herdr 0.8.2".to_string()),
        mimo: None,
        in_herdr_pane: true,
        plugin_installed: installed,
        plugin_is_ours: ours,
        plugin_path: path.map(|p| p.to_string()),
        shim_installed: false,
        watchdog_bin: "/usr/local/bin/mimo-herdr".to_string(),
        plugin_dir_scanned: dirs.into_iter().map(|d| d.to_string()).collect(),
    }
}

#[test]
fn herdr_env_must_be_one() {
    assert!(in_herdr_pane(Some("1")));
    assert!(!in_herdr_pane(Some("0")));
    assert!(!in_herdr_pane(Some("1 ")));
    assert!(!in_herdr_pane(None));
}

#[test]
fn scanned_dirs_order() {
    assert_eq!(plugin_dirs_scanned(true, true), vec!["plugin", "plugins"]);
    assert_eq!(plugin_dirs_scanned(false, true), vec!["plugins"]);
    assert!(plugin_dirs_scanned(false, false).is_empty());
}

#[test]
fn report_with_plugin() {
    let lines = report_lines(&status(true, true, Some("/c/plugins/herdr-agent-state.js"), vec!["plugins"]));
    assert_eq!(
        lines,
        vec![
            "herdr:              herdr 0.8.2",
            "mimo:               NOT FOUND",
            "inside herdr pane:  true",
            "plugin:             installed (mimo-herdr)",
            "plugin path:        /c/plugins/herdr-agent-state.js",
            "shim:               not installed (optional)",
            "watchdog binary:    /usr/local/bin/mimo-herdr",
            "mimo plugin dirs:   plugins",
        ]
    );
}

#[test]
fn report_without_plugin() {
    let lines = report_lines(&status(false, false, None, vec![]));
    assert_eq!(lines.len(), 7);
    assert_eq!(lines[3], "plugin:             MISSING (foreign or unknown)");
    assert_eq!(lines[6], "mimo plugin dirs:   none yet (plugin dir will be created on install)");
    let two = report_lines(&status(true, false, None, vec!["plugin", "plugins"]));
    assert_eq!(two[6], "mimo plugin dirs:   plugin, plugins");
}

#[test]
fn default_status_is_empty() {
    let s = Status::default();
    assert!(s.herdr.is_none() && s.mimo.is_none() && s.plugin_path.is_none());
    assert!(!s.in_herdr_pane && !s.plugin_installed && !s.plugin_is_ours && !s.shim_installed);
    assert!(s.watchdog_bin.is_empty() && s.plugin_dir_scanned.is_empty());
}
