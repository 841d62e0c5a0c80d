//! The health report: what `status` found, and its text form.

use vstd::prelude::*;

use crate::install::opt_view;
use crate::text::{cat, join, join_with, owned, views};

verus! {

/// What the health check found.
pub struct Status {
    /// `herdr --version`, if herdr runs.
    pub herdr: Option<String>,
    /// `mimo --version`, if mimo runs.
    pub mimo: Option<String>,
    /// Running inside a Herdr pane (`HERDR_ENV=1`).
    pub in_herdr_pane: bool,
    /// The plugin file is there.
    pub plugin_installed: bool,
    /// The plugin file is the bridge's.
    pub plugin_is_ours: bool,
    /// Where the plugin file is.
    pub plugin_path: Option<String>,
    /// The opencode-identity shim is there.
    pub shim_installed: bool,
    /// The watchdog binary the plugin runs.
    pub watchdog_bin: String,
    /// Which of MiMo Code's plugin directories exist.
    pub plugin_dir_scanned: Vec<String>,
}

impl Default for Status {
    /// A report that found nothing: no versions, not in a pane, no plugin, no
    /// shim, an empty watchdog path and no plugin directories.
    fn default() -> (s: Self)
        ensures
            s.herdr is None,
            s.mimo is None,
            !s.in_herdr_pane,
            !s.plugin_installed,
            !s.plugin_is_ours,
            s.plugin_path is None,
            !s.shim_installed,
            s.watchdog_bin@.len() == 0,
            s.plugin_dir_scanned@.len() == 0,
    {
        Status {
            herdr: None,
            mimo: None,
            in_herdr_pane: false,
            plugin_installed: false,
            plugin_is_ours: false,
            plugin_path: None,
            shim_installed: false,
            watchdog_bin: String::new(),
            plugin_dir_scanned: Vec::new(),
        }
    }
}

/// Whether `HERDR_ENV` says the process runs in a Herdr pane.
pub fn in_herdr_pane(herdr_env: Option<&str>) -> (b: bool)
    ensures
        b == (opt_view(herdr_env) == Some("1"@)),
{
    match herdr_env {
        Some(v) => crate::json::str_eq(v, "1"),
        None => false,
    }
}

/// The plugin directories that exist, in the order `plugin`, `plugins`.
pub open spec fn scanned_dirs_spec(singular_is_dir: bool, plural_is_dir: bool) -> Seq<Seq<char>> {
    let a = if singular_is_dir { seq!["plugin"@] } else { Seq::<Seq<char>>::empty() };
    let b = if plural_is_dir { seq!["plugins"@] } else { Seq::<Seq<char>>::empty() };
    a + b
}

/// Lists the plugin directories that exist.
pub fn plugin_dirs_scanned(singular_is_dir: bool, plural_is_dir: bool) -> (r: Vec<String>)
    ensures
        views(r@) == scanned_dirs_spec(singular_is_dir, plural_is_dir),
{
    let mut r: Vec<String> = Vec::new();
    if singular_is_dir {
        r.push(owned("plugin"));
    }
    if plural_is_dir {
        r.push(owned("plugins"));
    }
    assert(views(r@) =~= scanned_dirs_spec(singular_is_dir, plural_is_dir));
    r
}

/// The text of an optional string, or `NOT FOUND`.
pub open spec fn or_not_found(v: Option<String>) -> Seq<char> {
    match v {
        Some(s) => s@,
        None => "NOT FOUND"@,
    }
}

/// `true` or `false`.
pub open spec fn bool_text(b: bool) -> Seq<char> {
    if b { "true"@ } else { "false"@ }
}

/// The lines of the human-readable report.
pub open spec fn report_spec(s: Status) -> Seq<Seq<char>> {
    let head = seq![
        "herdr:              "@ + or_not_found(s.herdr),
        "mimo:               "@ + or_not_found(s.mimo),
        "inside herdr pane:  "@ + bool_text(s.in_herdr_pane),
        "plugin:             "@ + (if s.plugin_installed { "installed"@ } else { "MISSING"@ }) + " ("@
            + (if s.plugin_is_ours { "mimo-herdr"@ } else { "foreign or unknown"@ }) + ")"@,
    ];
    let path = match s.plugin_path {
        Some(p) => seq!["plugin path:        "@ + p@],
        None => Seq::<Seq<char>>::empty(),
    };
    let tail = seq![
        "shim:               "@ + (if s.shim_installed { "installed"@ } else { "not installed (optional)"@ }),
        "watchdog binary:    "@ + s.watchdog_bin@,
        "mimo plugin dirs:   "@ + (if s.plugin_dir_scanned@.len() == 0 {
            "none yet (plugin dir will be created on install)"@
        } else {
            join_with(views(s.plugin_dir_scanned@), ", "@)
        }),
    ];
    head + path + tail
}

fn text_or_not_found(v: &Option<String>) -> (r: String)
    ensures
        r@ == or_not_found(*v),
{
    match v {
        Some(s) => owned(s.as_str()),
        None => owned("NOT FOUND"),
    }
}

/// The human-readable report, one line per entry.
pub fn report_lines(s: &Status) -> (r: Vec<String>)
    ensures
        views(r@) == report_spec(*s),
{
    let mut r: Vec<String> = Vec::new();
    let h = text_or_not_found(&s.herdr);
    r.push(cat("herdr:              ", h.as_str()));
    let m = text_or_not_found(&s.mimo);
    r.push(cat("mimo:               ", m.as_str()));
    r.push(cat("inside herdr pane:  ", if s.in_herdr_pane { "true" } else { "false" }));
    let p1 = cat("plugin:             ", if s.plugin_installed { "installed" } else { "MISSING" });
    let p2 = cat(p1.as_str(), " (");
    let p3 = cat(p2.as_str(), if s.plugin_is_ours { "mimo-herdr" } else { "foreign or unknown" });
    r.push(cat(p3.as_str(), ")"));
    let ghost head = views(r@);
    if let Some(p) = &s.plugin_path {
        r.push(cat("plugin path:        ", p.as_str()));
    }
    let ghost with_path = views(r@);
    r.push(cat("shim:               ", if s.shim_installed { "installed" } else { "not installed (optional)" }));
    r.push(cat("watchdog binary:    ", s.watchdog_bin.as_str()));
    let dirs = if s.plugin_dir_scanned.len() == 0 {
        owned("none yet (plugin dir will be created on install)")
    } else {
        join(&s.plugin_dir_scanned, ", ")
    };
    r.push(cat("mimo plugin dirs:   ", dirs.as_str()));
    assert(views(r@) =~= report_spec(*s));
    r
}

/// The line of the report at `k` that is not the line at `want`, seen by a
/// character that tells the two apart.
proof fn lemma_report_lines_differ(s: Status)
    ensures
        ({
            let r = report_spec(s);
            let off: int = if s.plugin_path is Some { 1 } else { 0 };
            &&& r.len() == 7 + off
            &&& r[0].len() > 6 && r[0][0] == 'h'
            &&& r[1].len() > 6 && r[1][0] == 'm' && r[1][4] == ':'
            &&& r[2].len() > 6 && r[2][0] == 'i'
            &&& r[3].len() > 6 && r[3][0] == 'p' && r[3][6] == ':'
            &&& (off == 1 ==> r[4].len() > 6 && r[4][0] == 'p' && r[4][6] == ' ')
            &&& r[4 + off].len() > 6 && r[4 + off][0] == 's'
            &&& r[5 + off].len() > 6 && r[5 + off][0] == 'w'
            &&& r[6 + off].len() > 6 && r[6 + off][0] == 'm' && r[6 + off][4] == ' '
        }),
{
    reveal_strlit("herdr:              ");
    reveal_strlit("mimo:               ");
    reveal_strlit("inside herdr pane:  ");
    reveal_strlit("plugin:             ");
    reveal_strlit("plugin path:        ");
    reveal_strlit("shim:               ");
    reveal_strlit("watchdog binary:    ");
    reveal_strlit("mimo plugin dirs:   ");
    let r = report_spec(s);
    let off: int = if s.plugin_path is Some { 1 } else { 0 };
    assert(("herdr:              "@ + or_not_found(s.herdr))[0] == 'h');
    assert(("mimo:               "@ + or_not_found(s.mimo))[0] == 'm');
    assert(("mimo:               "@ + or_not_found(s.mimo))[4] == ':');
    assert(("inside herdr pane:  "@ + bool_text(s.in_herdr_pane))[0] == 'i');
    let a = if s.plugin_installed { "installed"@ } else { "MISSING"@ };
    let b = if s.plugin_is_ours { "mimo-herdr"@ } else { "foreign or unknown"@ };
    assert(("plugin:             "@ + a + " ("@ + b + ")"@)[0] == 'p');
    assert(("plugin:             "@ + a + " ("@ + b + ")"@)[6] == ':');
    if let Some(p) = s.plugin_path {
        assert(("plugin path:        "@ + p@)[0] == 'p');
        assert(("plugin path:        "@ + p@)[6] == ' ');
    }
    let sh = if s.shim_installed { "installed"@ } else { "not installed (optional)"@ };
    assert(("shim:               "@ + sh)[0] == 's');
    assert(("watchdog binary:    "@ + s.watchdog_bin@)[0] == 'w');
    let d = if s.plugin_dir_scanned@.len() == 0 {
        "none yet (plugin dir will be created on install)"@
    } else {
        join_with(views(s.plugin_dir_scanned@), ", "@)
    };
    assert(("mimo plugin dirs:   "@ + d)[0] == 'm');
    assert(("mimo plugin dirs:   "@ + d)[4] == ' ');
}

/// The report shows what the health check found: the herdr and mimo
/// versions (or `NOT FOUND`), whether the process runs in a pane, whether
/// the plugin is installed and the bridge's, the plugin path when there is
/// one, whether the shim is installed, and the watchdog binary. Its yes/no
/// lines appear exactly when their flag says so.
pub proof fn lemma_report_reflects(s: Status)
    ensures
        report_spec(s).len() == (if s.plugin_path is Some { 8int } else { 7int }),
        report_spec(s).contains("shim:               installed"@) <==> s.shim_installed,
        report_spec(s).contains("shim:               not installed (optional)"@) <==> !s.shim_installed,
        report_spec(s).contains("inside herdr pane:  true"@) <==> s.in_herdr_pane,
        report_spec(s).contains("inside herdr pane:  false"@) <==> !s.in_herdr_pane,
        report_spec(s).contains("plugin:             installed (mimo-herdr)"@) <==> (s.plugin_installed
            && s.plugin_is_ours),
        report_spec(s).contains("plugin:             MISSING (foreign or unknown)"@) <==> (
        !s.plugin_installed && !s.plugin_is_ours),
        report_spec(s).contains("herdr:              "@ + match s.herdr {
            Some(v) => v@,
            None => "NOT FOUND"@,
        }),
        report_spec(s).contains("mimo:               "@ + match s.mimo {
            Some(v) => v@,
            None => "NOT FOUND"@,
        }),
        report_spec(s).contains("watchdog binary:    "@ + s.watchdog_bin@),
        s.plugin_path matches Some(p) ==> report_spec(s).contains("plugin path:        "@ + p@),
{
    lemma_report_lines_differ(s);
    reveal_strlit("shim:               installed");
    reveal_strlit("shim:               not installed (optional)");
    reveal_strlit("inside herdr pane:  true");
    reveal_strlit("inside herdr pane:  false");
    reveal_strlit("plugin:             installed (mimo-herdr)");
    reveal_strlit("plugin:             MISSING (foreign or unknown)");
    reveal_strlit("shim:               ");
    reveal_strlit("inside herdr pane:  ");
    reveal_strlit("plugin:             ");
    reveal_strlit("installed");
    reveal_strlit("not installed (optional)");
    reveal_strlit("true");
    reveal_strlit("false");
    reveal_strlit("MISSING");
    reveal_strlit("mimo-herdr");
    reveal_strlit("foreign or unknown");
    reveal_strlit(" (");
    reveal_strlit(")");
    let r = report_spec(s);
    let off: int = if s.plugin_path is Some { 1 } else { 0 };
    let shim_line = r[4 + off];
    let pane_line = r[2];
    let plugin_line = r[3];
    assert(shim_line == "shim:               "@ + (if s.shim_installed { "installed"@ } else { "not installed (optional)"@ }));
    assert(pane_line == "inside herdr pane:  "@ + bool_text(s.in_herdr_pane));
    let a = if s.plugin_installed { "installed"@ } else { "MISSING"@ };
    let b = if s.plugin_is_ours { "mimo-herdr"@ } else { "foreign or unknown"@ };
    assert(plugin_line == "plugin:             "@ + a + " ("@ + b + ")"@);
    // Each target line can only be the line of its kind.
    assert forall|x: Seq<char>| #[trigger] r.contains(x) && x.len() > 6 && x[0] == 's' implies x
        == shim_line by {
        let k = choose|k: int| 0 <= k < r.len() && r[k] == x;
        if off == 1 {
            assert(k == 5);
        } else {
            assert(k == 4);
        }
    }
    assert forall|x: Seq<char>| #[trigger] r.contains(x) && x.len() > 6 && x[0] == 'i' implies x
        == pane_line by {
        let k = choose|k: int| 0 <= k < r.len() && r[k] == x;
        assert(k == 2);
    }
    assert forall|x: Seq<char>| #[trigger] r.contains(x) && x.len() > 6 && x[0] == 'p' && x[6] == ':'
        implies x == plugin_line by {
        let k = choose|k: int| 0 <= k < r.len() && r[k] == x;
        assert(k == 3);
    }
    assert(r[0] == "herdr:              "@ + match s.herdr {
        Some(v) => v@,
        None => "NOT FOUND"@,
    });
    assert(r.contains(r[0]));
    assert(r[1] == "mimo:               "@ + match s.mimo {
        Some(v) => v@,
        None => "NOT FOUND"@,
    });
    assert(r.contains(r[1]));
    assert(r[5 + off] == "watchdog binary:    "@ + s.watchdog_bin@);
    assert(r.contains(r[5 + off]));
    if let Some(p) = s.plugin_path {
        assert(r[4] == "plugin path:        "@ + p@);
        assert(r.contains(r[4]));
    }
    assert(r.contains(shim_line));
    assert(r.contains(pane_line));
    assert(r.contains(plugin_line));
    let t1 = "shim:               installed"@;
    let t2 = "shim:               not installed (optional)"@;
    assert(t1[0] == 's' && t2[0] == 's');
    assert(shim_line.len() == if s.shim_installed { 29int } else { 44int });
    if s.shim_installed {
        assert(shim_line =~= t1);
    } else {
        assert(shim_line =~= t2);
    }
    let u1 = "inside herdr pane:  true"@;
    let u2 = "inside herdr pane:  false"@;
    assert(u1[0] == 'i' && u2[0] == 'i');
    assert(pane_line.len() == if s.in_herdr_pane { 24int } else { 25int });
    if s.in_herdr_pane {
        assert(pane_line =~= u1);
    } else {
        assert(pane_line =~= u2);
    }
    let v1 = "plugin:             installed (mimo-herdr)"@;
    let v2 = "plugin:             MISSING (foreign or unknown)"@;
    assert(v1[0] == 'p' && v1[6] == ':' && v2[0] == 'p' && v2[6] == ':');
    assert(v1.len() == 42 && v2.len() == 48);
    assert(plugin_line.len() == 20 + a.len() + 2 + b.len() + 1);
    if s.plugin_installed && s.plugin_is_ours {
        assert(plugin_line =~= v1);
    }
    if !s.plugin_installed && !s.plugin_is_ours {
        assert(plugin_line =~= v2);
    }
}

} // verus!
