//! Where the MiMo Code plugin and the opencode-identity shim live, what goes
//! into them, and what install and uninstall do with what they find there.
//! The file system work itself is the caller's.

use vstd::prelude::*;

use crate::path::{join_path, joined, path_eq, same_path};
use crate::text::{blank, contains, has_substring, is_blank, occurs_at, owned, replace, replace_all, split, split_on, views};

verus! {

/// Marker that every plugin written by the bridge carries.
pub const OWN_MARKER: &'static str = "custom:mimo-herdr";

/// Placeholder in the plugin template for the watchdog binary's path.
pub const BIN_PLACEHOLDER: &'static str = "__MIMO_HERDR_BIN__";

/// What stops the bridge from locating its files.
#[derive(Debug, Clone, Copy, PartialEq, Eq, Structural)]
pub enum InstallError {
    /// No home directory could be determined.
    NoHome,
}

impl InstallError {
    /// The message shown to the user.
    pub fn message(&self) -> (m: &'static str)
        ensures
            m@ == "cannot resolve home directory"@,
    {
        "cannot resolve home directory"
    }
}

/// The current user's home directory; trusted: calls `dirs::home_dir`, which
/// on Unix gives `$HOME` when it is set and not empty, else the passwd entry's
/// home directory when that is not empty, else nothing. What it returns
/// depends on the environment, so only its non-emptiness is stated.
#[verifier::external_body]
pub(crate) fn home_dir() -> (r: Option<String>)
    ensures
        r matches Some(h) ==> h@.len() > 0,
{
    dirs::home_dir().map(|p| p.to_string_lossy().into_owned())
}

/// The characters of an optional string.
pub open spec fn opt_view(o: Option<&str>) -> Option<Seq<char>> {
    match o {
        Some(s) => Some(s@),
        None => None,
    }
}

/// MiMo Code's config directory: `$XDG_CONFIG_HOME/mimocode` when that
/// variable is set and not blank, else `<home>/.config/mimocode`.
pub open spec fn config_dir_spec(xdg: Option<Seq<char>>, home: Option<Seq<char>>) -> Option<Seq<char>> {
    match xdg {
        Some(x) if !blank(x) => Some(joined(x, "mimocode"@)),
        _ => match home {
            Some(h) => Some(joined(joined(h, ".config"@), "mimocode"@)),
            None => None,
        },
    }
}

/// MiMo Code's config directory from `$XDG_CONFIG_HOME` and the home directory.
pub fn config_dir_for(xdg: Option<&str>, home: Option<&str>) -> (r: Option<String>)
    ensures
        match r {
            Some(d) => config_dir_spec(opt_view(xdg), opt_view(home)) == Some(d@),
            None => config_dir_spec(opt_view(xdg), opt_view(home)) is None,
        },
{
    if let Some(x) = xdg {
        if !is_blank(x) {
            return Some(join_path(x, "mimocode"));
        }
    }
    match home {
        Some(h) => {
            let c = join_path(h, ".config");
            Some(join_path(c.as_str(), "mimocode"))
        },
        None => None,
    }
}

/// MiMo Code's config directory, given the value of `$XDG_CONFIG_HOME`; the
/// home directory is looked up only when that value is missing or blank.
pub fn mimo_config_dir(xdg: Option<&str>) -> (r: Result<String, InstallError>)
    ensures
        match xdg {
            Some(x) if !blank(x@) => r matches Ok(d) && d@ == joined(x@, "mimocode"@),
            _ => match r {
                Ok(d) => exists|h: Seq<char>|
                    h.len() > 0 && d@ == joined(joined(h, ".config"@), "mimocode"@),
                Err(e) => e == InstallError::NoHome,
            },
        },
{
    if let Some(x) = xdg {
        if !is_blank(x) {
            return Ok(join_path(x, "mimocode"));
        }
    }
    let home = home_dir();
    match home {
        Some(h) => {
            let d = config_dir_for(None, Some(h.as_str()));
            match d {
                Some(d) => Ok(d),
                None => Err(InstallError::NoHome),
            }
        },
        None => Err(InstallError::NoHome),
    }
}

/// Where the plugin goes: `plugins/` unless only `plugin/` already exists.
pub open spec fn plugin_dir_spec(config_dir: Seq<char>, plural_is_dir: bool, singular_is_dir: bool) -> Seq<char> {
    if !plural_is_dir && singular_is_dir {
        joined(config_dir, "plugin"@)
    } else {
        joined(config_dir, "plugins"@)
    }
}

/// The installer prefers `plugins/`: it is chosen whenever it exists, and
/// `plugin/` is chosen only when `plugins/` does not exist and `plugin/` does.
pub proof fn lemma_plugin_dir_prefers_plural(config_dir: Seq<char>, plural_is_dir: bool, singular_is_dir: bool)
    ensures
        plural_is_dir ==> plugin_dir_spec(config_dir, plural_is_dir, singular_is_dir) == joined(
            config_dir,
            "plugins"@,
        ),
        plugin_dir_spec(config_dir, plural_is_dir, singular_is_dir) == joined(config_dir, "plugin"@)
            <== (!plural_is_dir && singular_is_dir),
        !singular_is_dir ==> plugin_dir_spec(config_dir, plural_is_dir, singular_is_dir) == joined(
            config_dir,
            "plugins"@,
        ),
{
}

/// The plugin directory under `config_dir`, given whether `plugins/` and
/// `plugin/` exist there as directories.
pub fn plugin_dir(config_dir: &str, plural_is_dir: bool, singular_is_dir: bool) -> (r: String)
    ensures
        r@ == plugin_dir_spec(config_dir@, plural_is_dir, singular_is_dir),
{
    if plural_is_dir {
        return join_path(config_dir, "plugins");
    }
    if singular_is_dir {
        return join_path(config_dir, "plugin");
    }
    join_path(config_dir, "plugins")
}

/// The watchdog binary named in the plugin: the running executable, else
/// `mimo-herdr` from `PATH`.
pub fn watchdog_bin(current_exe: Option<&str>) -> (r: String)
    ensures
        r@ == match current_exe {
            Some(e) => e@,
            None => "mimo-herdr"@,
        },
{
    match current_exe {
        Some(e) => owned(e),
        None => owned("mimo-herdr"),
    }
}

/// The plugin text: the template with the watchdog binary's path filled in.
pub fn plugin_content(template: &str, current_exe: Option<&str>) -> (r: String)
    ensures
        r@ == replace_all(template@, BIN_PLACEHOLDER@, match current_exe {
            Some(e) => e@,
            None => "mimo-herdr"@,
        }),
{
    let bin = watchdog_bin(current_exe);
    proof {
        reveal_strlit("__MIMO_HERDR_BIN__");
    }
    replace(template, BIN_PLACEHOLDER, bin.as_str())
}

/// A plugin file was written by the bridge.
pub open spec fn ours(content: Seq<char>) -> bool {
    has_substring(content, OWN_MARKER@)
}

/// Whether a plugin file was written by the bridge.
pub fn is_ours(content: &str) -> (b: bool)
    ensures
        b == ours(content@),
{
    contains(content, OWN_MARKER)
}

/// Filling the placeholder keeps every prefix that has no `_` in it: no
/// placeholder occurrence can start inside such a prefix.
proof fn lemma_fill_keeps_prefix(s: Seq<char>, w: Seq<char>, bin: Seq<char>)
    requires
        w.len() <= s.len(),
        s.take(w.len() as int) == w,
        forall|k: int| 0 <= k < w.len() ==> w[k] != '_',
    ensures
        replace_all(s, BIN_PLACEHOLDER@, bin).len() >= w.len(),
        replace_all(s, BIN_PLACEHOLDER@, bin).take(w.len() as int) == w,
    decreases s.len(),
{
    reveal_strlit("__MIMO_HERDR_BIN__");
    let p = BIN_PLACEHOLDER@;
    if w.len() == 0 {
        assert(replace_all(s, p, bin).take(0) =~= w);
    } else if s.len() < p.len() {
    } else if s.take(p.len() as int) == p {
        assert(s[0] == s.take(p.len() as int)[0]);
        assert(s[0] == w[0]) by {
            assert(s.take(w.len() as int)[0] == w[0]);
        }
    } else {
        let rest = s.skip(1);
        let w1 = w.skip(1);
        assert(rest.take(w1.len() as int) =~= w1) by {
            assert forall|k: int| 0 <= k < w1.len() implies rest.take(w1.len() as int)[k] == w1[k] by {
                assert(s.take(w.len() as int)[k + 1] == w[k + 1]);
            }
        }
        lemma_fill_keeps_prefix(rest, w1, bin);
        let r = replace_all(rest, p, bin);
        assert(replace_all(s, p, bin) == seq![s[0]] + r);
        assert(s[0] == w[0]) by {
            assert(s.take(w.len() as int)[0] == w[0]);
        }
        assert((seq![s[0]] + r).take(w.len() as int) =~= w) by {
            assert forall|k: int| 0 <= k < w.len() implies (seq![s[0]] + r).take(w.len() as int)[k] == w[k] by {
                if k > 0 {
                    assert(r.take(w1.len() as int)[k - 1] == w1[k - 1]);
                }
            }
        }
    }
}

/// An occurrence of the marker survives filling in the watchdog binary.
proof fn lemma_fill_keeps_marker(s: Seq<char>, i: int, bin: Seq<char>)
    requires
        occurs_at(s, OWN_MARKER@, i),
    ensures
        has_substring(replace_all(s, BIN_PLACEHOLDER@, bin), OWN_MARKER@),
    decreases s.len(),
{
    reveal_strlit("__MIMO_HERDR_BIN__");
    reveal_strlit("custom:mimo-herdr");
    let p = BIN_PLACEHOLDER@;
    let m = OWN_MARKER@;
    let r = replace_all(s, p, bin);
    if s.len() < p.len() {
        assert(occurs_at(r, m, i));
    } else if i == 0 {
        assert(s.take(m.len() as int) =~= s.subrange(0, m.len() as int));
        lemma_fill_keeps_prefix(s, m, bin);
        assert(r.subrange(0, m.len() as int) =~= r.take(m.len() as int));
        assert(occurs_at(r, m, 0));
    } else if s.take(p.len() as int) == p {
        if i < p.len() {
            assert(s[i] == s.subrange(i, i + m.len())[0]);
            assert(s[i] == s.take(p.len() as int)[i]);
            assert(false);
        }
        let rest = s.skip(p.len() as int);
        assert(rest.subrange(i - p.len(), i - p.len() + m.len()) =~= s.subrange(i, i + m.len()));
        lemma_fill_keeps_marker(rest, i - p.len(), bin);
        let rr = replace_all(rest, p, bin);
        let j = choose|j: int| #[trigger] occurs_at(rr, m, j);
        assert(r == bin + rr);
        assert(r.subrange(bin.len() + j, bin.len() + j + m.len()) =~= rr.subrange(j, j + m.len()));
        assert(occurs_at(r, m, bin.len() + j));
    } else {
        let rest = s.skip(1);
        assert(rest.subrange(i - 1, i - 1 + m.len()) =~= s.subrange(i, i + m.len()));
        lemma_fill_keeps_marker(rest, i - 1, bin);
        let rr = replace_all(rest, p, bin);
        let j = choose|j: int| #[trigger] occurs_at(rr, m, j);
        assert(r == seq![s[0]] + rr);
        assert(r.subrange(1 + j, 1 + j + m.len()) =~= rr.subrange(j, j + m.len()));
        assert(occurs_at(r, m, 1 + j));
    }
}

/// A plugin installed from a template that carries the marker is recognized
/// as the bridge's, by status and by uninstall, whatever binary path was
/// filled in.
pub proof fn lemma_installed_plugin_is_ours(template: Seq<char>, bin: Seq<char>)
    requires
        ours(template),
    ensures
        ours(replace_all(template, BIN_PLACEHOLDER@, bin)),
{
    let i = choose|i: int| #[trigger] occurs_at(template, OWN_MARKER@, i);
    lemma_fill_keeps_marker(template, i, bin);
}

/// What install does with the plugin file.
#[derive(Debug, Clone, Copy, PartialEq, Eq, Structural)]
pub enum PluginWrite {
    /// The file already holds exactly the new content: nothing is written.
    UpToDate,
    /// Another content is there and is overwritten; `previous_ours` tells
    /// whether it came from an earlier install of the bridge.
    Replace { previous_ours: bool },
    /// No file is there yet: it is written.
    Fresh,
}

/// Install's decision for the plugin file.
pub open spec fn plugin_write_spec(existing: Option<Seq<char>>, content: Seq<char>) -> PluginWrite {
    match existing {
        Some(old) => if old == content {
            PluginWrite::UpToDate
        } else {
            PluginWrite::Replace { previous_ours: ours(old) }
        },
        None => PluginWrite::Fresh,
    }
}

/// Decides what install does with the plugin file, given what is there now.
pub fn plan_plugin_write(existing: Option<&str>, content: &str) -> (r: PluginWrite)
    ensures
        r == plugin_write_spec(opt_view(existing), content@),
{
    match existing {
        Some(old) => if crate::json::str_eq(old, content) {
            PluginWrite::UpToDate
        } else {
            PluginWrite::Replace { previous_ours: is_ours(old) }
        },
        None => PluginWrite::Fresh,
    }
}

/// Install is idempotent: once the plugin holds the content install writes,
/// installing the same content again writes nothing.
pub proof fn lemma_install_idempotent(content: Seq<char>)
    ensures
        plugin_write_spec(Some(content), content) == PluginWrite::UpToDate,
{
}

/// Whether a `tui.jsonc` registers the leftover herdr TUI session plugin.
pub fn is_leftover_tui_config(content: &str) -> (b: bool)
    ensures
        b == has_substring(content@, "herdr-tui-session.js"@),
{
    contains(content, "herdr-tui-session.js")
}

/// What uninstall does with the plugin file.
#[derive(Debug, Clone, Copy, PartialEq, Eq, Structural)]
pub enum PluginRemoval {
    /// The file is the bridge's: it is removed.
    Remove,
    /// The file belongs to someone else: it is left alone.
    KeepForeign,
    /// There is no readable file.
    NotInstalled,
}

/// Decides what uninstall does with the plugin file, given its content (if
/// it could be read). A file is removed exactly when it is the bridge's.
pub fn plan_plugin_removal(content: Option<&str>) -> (r: PluginRemoval)
    ensures
        match content {
            Some(c) => r == (if ours(c@) { PluginRemoval::Remove } else { PluginRemoval::KeepForeign }),
            None => r == PluginRemoval::NotInstalled,
        },
{
    match content {
        Some(c) => if is_ours(c) {
            PluginRemoval::Remove
        } else {
            PluginRemoval::KeepForeign
        },
        None => PluginRemoval::NotInstalled,
    }
}

/// `<home>/.local/bin/herdr-shim`.
pub open spec fn shim_dir_spec(home: Seq<char>) -> Seq<char> {
    joined(joined(joined(home, ".local"@), "bin"@), "herdr-shim"@)
}

/// The shim directory under `home`.
pub fn shim_dir_under(home: &str) -> (r: String)
    ensures
        r@ == shim_dir_spec(home@),
{
    let a = join_path(home, ".local");
    let b = join_path(a.as_str(), "bin");
    join_path(b.as_str(), "herdr-shim")
}

/// The shim directory for display: under the home directory when it is
/// known, else the literal `~/.local/bin/herdr-shim`.
pub fn shim_dir_for(home: Option<&str>) -> (r: String)
    ensures
        r@ == match home {
            Some(h) => shim_dir_spec(h@),
            None => "~/.local/bin/herdr-shim"@,
        },
{
    match home {
        Some(h) => shim_dir_under(h),
        None => owned("~/.local/bin/herdr-shim"),
    }
}

/// The shim directory of the current user, for display.
pub fn shim_dir() -> (r: String)
    ensures
        (exists|h: Seq<char>| h.len() > 0 && r@ == shim_dir_spec(h)) || r@
            == "~/.local/bin/herdr-shim"@,
{
    let home = home_dir();
    match home {
        Some(h) => shim_dir_for(Some(h.as_str())),
        None => shim_dir_for(None),
    }
}

/// The shim script: the template with the MiMo binary and the real opencode
/// (or plain `opencode` when none was found) filled in.
pub fn shim_content(template: &str, mimo_bin: &str, real_opencode: Option<&str>) -> (r: String)
    ensures
        r@ == replace_all(
            replace_all(template@, "__MIMO_BIN__"@, mimo_bin@),
            "__OPENCODE_BIN__"@,
            match real_opencode {
                Some(o) => o@,
                None => "opencode"@,
            },
        ),
{
    proof {
        reveal_strlit("__MIMO_BIN__");
        reveal_strlit("__OPENCODE_BIN__");
    }
    let with_mimo = replace(template, "__MIMO_BIN__", mimo_bin);
    let opencode = match real_opencode {
        Some(o) => owned(o),
        None => owned("opencode"),
    };
    replace(with_mimo.as_str(), "__OPENCODE_BIN__", opencode.as_str())
}

/// The directory that executable lookup skips: the shim directory, or the
/// empty path when the home directory is unknown.
pub fn lookup_skip_dir(home: Option<&str>) -> (r: String)
    ensures
        r@ == match home {
            Some(h) => shim_dir_spec(h@),
            None => Seq::<char>::empty(),
        },
{
    match home {
        Some(h) => shim_dir_under(h),
        None => String::new(),
    }
}

/// The files to try for `name`: `name` under each `PATH` entry, in order,
/// leaving out entries that are the skipped directory.
pub open spec fn candidates_spec(entries: Seq<Seq<char>>, skip: Seq<char>, name: Seq<char>) -> Seq<Seq<char>>
    decreases entries.len(),
{
    if entries.len() == 0 {
        Seq::<Seq<char>>::empty()
    } else {
        let r = candidates_spec(entries.drop_last(), skip, name);
        if same_path(entries.last(), skip) {
            r
        } else {
            r.push(joined(entries.last(), name))
        }
    }
}

/// Every `PATH` entry that is not the skipped directory contributes its
/// file, and every file to try comes from such an entry: nothing else is
/// skipped and nothing is added.
pub proof fn lemma_candidates_cover_entries(entries: Seq<Seq<char>>, skip: Seq<char>, name: Seq<char>)
    ensures
        forall|i: int|
            0 <= i < entries.len() && !same_path(#[trigger] entries[i], skip) ==> exists|j: int|
                0 <= j < candidates_spec(entries, skip, name).len() && #[trigger] candidates_spec(
                    entries,
                    skip,
                    name,
                )[j] == joined(entries[i], name),
        forall|j: int|
            #![trigger candidates_spec(entries, skip, name)[j]]
            0 <= j < candidates_spec(entries, skip, name).len() ==> exists|i: int|
                0 <= i < entries.len() && !same_path(#[trigger] entries[i], skip) && candidates_spec(
                    entries,
                    skip,
                    name,
                )[j] == joined(entries[i], name),
        candidates_spec(entries, skip, name).len() <= entries.len(),
    decreases entries.len(),
{
    if entries.len() > 0 {
        let init = entries.drop_last();
        let r = candidates_spec(init, skip, name);
        let c = candidates_spec(entries, skip, name);
        lemma_candidates_cover_entries(init, skip, name);
        assert forall|i: int| 0 <= i < entries.len() && !same_path(#[trigger] entries[i], skip)
            implies exists|j: int| 0 <= j < c.len() && #[trigger] c[j] == joined(entries[i], name) by {
            if i < entries.len() - 1 {
                assert(entries[i] == init[i]);
                let j = choose|j: int| 0 <= j < r.len() && #[trigger] r[j] == joined(init[i], name);
                assert(c[j] == r[j]);
            } else {
                assert(c[c.len() - 1] == joined(entries.last(), name));
            }
        }
        assert forall|j: int| #![trigger c[j]] 0 <= j < c.len() implies exists|i: int|
            0 <= i < entries.len() && !same_path(#[trigger] entries[i], skip) && c[j] == joined(
                entries[i],
                name,
            ) by {
            if j < r.len() {
                assert(c[j] == r[j]);
                let i = choose|i: int|
                    0 <= i < init.len() && !same_path(#[trigger] init[i], skip) && r[j] == joined(
                        init[i],
                        name,
                    );
                assert(entries[i] == init[i]);
            } else {
                let last = entries.len() - 1;
                assert(!same_path(entries[last], skip));
                assert(c == r.push(joined(entries[last], name)));
                assert(c[j] == joined(entries[last], name));
            }
        }
    }
}

/// The files to try, in order, when looking `name` up on `path_var`
/// (`PATH` split at `:`), skipping the directory `skip`.
pub fn executable_candidates(path_var: &str, skip: &str, name: &str) -> (r: Vec<String>)
    ensures
        views(r@) == candidates_spec(split_on(path_var@, ':'), skip@, name@),
{
    let entries = split(path_var, ':');
    let mut r: Vec<String> = Vec::new();
    let mut i: usize = 0;
    while i < entries.len()
        invariant
            i <= entries@.len(),
            views(entries@) == split_on(path_var@, ':'),
            views(r@) == candidates_spec(views(entries@).take(i as int), skip@, name@),
        decreases entries@.len() - i,
    {
        let ghost prev = r@;
        assert(views(entries@).take(i + 1).drop_last() =~= views(entries@).take(i as int));
        assert(views(entries@).take(i + 1).last() == entries@[i as int]@);
        if !path_eq(entries[i].as_str(), skip) {
            let c = join_path(entries[i].as_str(), name);
            r.push(c);
            assert(views(r@) =~= views(prev).push(c@));
        }
        i = i + 1;
    }
    assert(views(entries@).take(entries@.len() as int) =~= views(entries@));
    r
}

/// Whether a Unix permission mode lets someone execute the file.
pub fn is_executable_mode(mode: u32) -> (b: bool)
    ensures
        b == (mode & 0o111u32 != 0),
{
    mode & 0o111u32 != 0
}

/// The current user's shim directory, `<home>/.local/bin/herdr-shim`.
pub fn user_shim_dir() -> (r: Result<String, InstallError>)
    ensures
        match r {
            Ok(d) => exists|h: Seq<char>| h.len() > 0 && d@ == shim_dir_spec(h),
            Err(e) => e == InstallError::NoHome,
        },
{
    match home_dir() {
        Some(h) => Ok(shim_dir_under(h.as_str())),
        None => Err(InstallError::NoHome),
    }
}

/// The directory the current user's executable lookup skips: the shim
/// directory, or the empty path when the home directory is unknown.
pub fn executable_skip_dir() -> (r: String)
    ensures
        r@.len() == 0 || exists|h: Seq<char>| h.len() > 0 && r@ == shim_dir_spec(h),
{
    match home_dir() {
        Some(h) => lookup_skip_dir(Some(h.as_str())),
        None => lookup_skip_dir(None),
    }
}

} // verus!
