use mimo_herdr::install::{
    config_dir_for, executable_candidates, executable_skip_dir, is_executable_mode,
    is_leftover_tui_config, is_ours, lookup_skip_dir, mimo_config_dir, plan_plugin_removal,
    plan_plugin_write, plugin_content, plugin_dir, shim_content, shim_dir, shim_dir_for,
    shim_dir_under, user_shim_dir, watchdog_bin, InstallError, PluginRemoval, PluginWrite,
};

#[test]
fn config_dir_prefers_non_blank_xdg() {
    assert_eq!(config_dir_for(Some("/x"), Some("/home/u")), Some("/x/mimocode".to_string()));
    assert_eq!(
        config_dir_for(Some("  "), Some("/home/u")),
        Some("/home/u/.config/mimocode".to_string())
    );
    assert_eq!(
        config_dir_for(None, Some("/home/u")),
        Some("/home/u/.config/mimocode".to_string())
    );
    assert_eq!(config_dir_for(None, None), None);
}

#[test]
fn mimo_config_dir_with_xdg_skips_home() {
    assert_eq!(mimo_config_dir(Some("/cfg")).ok(), Some("/cfg/mimocode".to_string()));
}

#[test]
fn mimo_config_dir_from_home_lookup() {
    match (mimo_config_dir(None), dirs::home_dir()) {
        (Ok(d), Some(h)) => {
            assert_eq!(d, h.join(".config").join("mimocode").to_string_lossy())
        }
        (Err(InstallError::NoHome), None) => {}
        other => panic!("unexpected {:?}", other.0),
    }
}

#[test]
fn install_error_message() {
    assert_eq!(InstallError::NoHome.message(), "cannot resolve home directory");
}

#[test]
fn plugin_dir_prefers_plural() {
    assert_eq!(plugin_dir("/c", true, true), "/c/plugins");
    assert_eq!(plugin_dir("/c", false, true), "/c/plugin");
    assert_eq!(plugin_dir("/c", true, false), "/c/plugins");
    assert_eq!(plugin_dir("/c", false, false), "/c/plugins");
}

#[test]
fn plugin_content_fills_binary() {
    let t = "const BIN = \"__MIMO_HERDR_BIN__\"; // custom:mimo-herdr";
    assert_eq!(
        plugin_content(t, Some("/usr/local/bin/mimo-herdr")),
        "const BIN = \"/usr/local/bin/mimo-herdr\"; // custom:mimo-herdr"
    );
    assert_eq!(
        plugin_content(t, None),
        "const BIN = \"mimo-herdr\"; // custom:mimo-herdr"
    );
    assert_eq!(watchdog_bin(Some("/x")), "/x");
}

#[test]
fn is_ours_looks_for_marker() {
    assert!(is_ours("report --source custom:mimo-herdr"));
    assert!(!is_ours("opencode integration"));
}

#[test]
fn install_twice_writes_nothing() {
    let c = "plugin custom:mimo-herdr";
    assert_eq!(plan_plugin_write(None, c), PluginWrite::Fresh);
    assert_eq!(plan_plugin_write(Some(c), c), PluginWrite::UpToDate);
    assert_eq!(
        plan_plugin_write(Some("old custom:mimo-herdr"), c),
        PluginWrite::Replace {
            previous_ours: true
        }
    );
    assert_eq!(
        plan_plugin_write(Some("foreign"), c),
        PluginWrite::Replace {
            previous_ours: false
        }
    );
}

#[test]
fn uninstall_keeps_foreign_plugins() {
    assert_eq!(plan_plugin_removal(Some("x custom:mimo-herdr")), PluginRemoval::Remove);
    assert_eq!(plan_plugin_removal(Some("foreign")), PluginRemoval::KeepForeign);
    assert_eq!(plan_plugin_removal(None), PluginRemoval::NotInstalled);
}

#[test]
fn leftover_tui_config_detection() {
    assert!(is_leftover_tui_config("{\"plugin\": [\"herdr-tui-session.js\"]}"));
    assert!(!is_leftover_tui_config("{}"));
}

#[test]
fn shim_paths() {
    assert_eq!(shim_dir_under("/home/u"), "/home/u/.local/bin/herdr-shim");
    assert_eq!(shim_dir_for(None), "~/.local/bin/herdr-shim");
    assert_eq!(shim_dir_for(Some("/h")), "/h/.local/bin/herdr-shim");
    assert_eq!(lookup_skip_dir(None), "");
    assert_eq!(lookup_skip_dir(Some("/h")), "/h/.local/bin/herdr-shim");
}

#[test]
fn shim_dir_follows_home_dir() {
    let expected = match dirs::home_dir() {
        Some(h) => h.join(".local").join("bin").join("herdr-shim").to_string_lossy().to_string(),
        None => "~/.local/bin/herdr-shim".to_string(),
    };
    assert_eq!(shim_dir(), expected);
    match dirs::home_dir() {
        Some(_) => {
            assert_eq!(user_shim_dir().ok(), Some(expected.clone()));
            assert_eq!(executable_skip_dir(), expected);
        }
        None => {
            assert_eq!(user_shim_dir().err(), Some(InstallError::NoHome));
            assert_eq!(executable_skip_dir(), "");
        }
    }
}

#[test]
fn shim_content_fills_both() {
    let t = "exec __MIMO_BIN__ || exec __OPENCODE_BIN__";
    assert_eq!(
        shim_content(t, "/bin/mimo", Some("/bin/opencode")),
        "exec /bin/mimo || exec /bin/opencode"
    );
    assert_eq!(shim_content(t, "/bin/mimo", None), "exec /bin/mimo || exec opencode");
}

#[test]
fn candidates_skip_shim_dir() {
    let c = executable_candidates(
        "/usr/bin:/h/.local/bin/herdr-shim/:/bin::/opt/",
        "/h/.local/bin/herdr-shim",
        "mimo",
    );
    assert_eq!(c, vec!["/usr/bin/mimo", "/bin/mimo", "mimo", "/opt/mimo"]);
    let empty_skip = executable_candidates("/usr/bin::/bin", "", "x");
    assert_eq!(empty_skip, vec!["/usr/bin/x", "/bin/x"]);
}

#[test]
fn executable_mode_bits() {
    assert!(is_executable_mode(0o755));
    assert!(is_executable_mode(0o100));
    assert!(is_executable_mode(0o001));
    assert!(!is_executable_mode(0o644));
}
