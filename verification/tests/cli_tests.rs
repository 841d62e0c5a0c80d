use mimo_herdr::cli::{Cli, Command};

#[test]
fn cli_holds_command() {
    let c = Cli {
        command: Command::Spawn {
            name: Some("runner".to_string()),
            cwd: None,
            workspace: None,
            shim: true,
        },
    };
    assert!(matches!(c.command, Command::Spawn { shim: true, .. }));
}
