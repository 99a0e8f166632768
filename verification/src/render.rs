//! The widgets of the status line and their layout. The colour codes,
//! state labels and icons come from the caller's [`Theme`]; texts that
//! need floating-point arithmetic (percentages, progress bars) or the
//! path and model-name abbreviations are handed in ready-made.

use vstd::prelude::*;
use vstd::string::*;
use crate::text::{
    contains_text, decimal, format_u64, last_path_segment, lowercase, occurs_in,
    path_last_segment, push_char, take_chars, text_eq, to_lowercase, to_uppercase, uppercase,
};
use crate::text::{keep_alphanumeric, only_alphanumeric, format_i64};
use crate::types::{CacheData, InputJson, QuotaItem, QuotaItemView, UserConfig};

verus! {

/// Colour escape codes of a theme.
pub struct Palette {
    pub label: String,
    pub accent: String,
    pub border: String,
    pub warning: String,
    pub critical: String,
    pub success: String,
}

/// The labels shown for the agent's states.
pub struct StateTexts {
    pub ready: String,
    pub thinking: String,
    pub working: String,
    pub tool_use: String,
    pub default_state: String,
}

/// The icons of the widgets.
pub struct Icons {
    pub quota: String,
    pub path: String,
    pub vcs: String,
    pub context: String,
    pub cache: String,
    pub artifacts: String,
    pub tasks: String,
    pub sandbox: String,
}

/// A theme: colours, state labels, icons, and the codes that reset the
/// colour and switch to bold.
pub struct Theme {
    pub palette: Palette,
    pub states: StateTexts,
    pub icons: Icons,
    pub reset: String,
    pub bold: String,
}

/// Texts of the info row that are computed elsewhere: the abbreviated
/// model name, the abbreviated working directory, and the quota text in
/// its full form and in the form without the reset time.
pub struct InfoExtras {
    pub short_model_name: String,
    pub shortened_cwd: String,
    pub quota_full: String,
    pub quota_compact: String,
}

/// A one-element sequence for `Some`, empty for `None`.
pub open spec fn listed(o: Option<Seq<char>>) -> Seq<Seq<char>> {
    match o {
        Some(x) => seq![x],
        None => Seq::empty(),
    }
}

/// The agent state the CLI reports, `idle` when it reports none.
pub open spec fn agent_state(json: &InputJson) -> Seq<char> {
    match json.agent_state {
        Some(s) => s@,
        None => "idle"@,
    }
}

/// A tool call waits for the user's approval.
pub open spec fn approval_pending(json: &InputJson) -> bool {
    json.tool_confirmation_pending == Some(true)
}

/// The agent's status when it is neither empty nor `idle`.
pub open spec fn active_status(json: &InputJson) -> Option<Seq<char>> {
    match json.agent {
        Some(a) => match a.status {
            Some(s) => if s@.len() > 0 && s@ != "idle"@ {
                Some(s@)
            } else {
                None
            },
            None => None,
        },
        None => None,
    }
}

/// `s` cut to `keep` characters and marked with `..` when it has more
/// than `limit` characters.
pub open spec fn shortened(s: Seq<char>, limit: nat, keep: nat) -> Seq<char> {
    if s.len() > limit {
        s.take(keep as int) + ".."@
    } else {
        s
    }
}

/// The state widget: a pending approval, the running tool's status in
/// capitals, or the theme's label for the state.
pub open spec fn state_widget(t: &Theme, json: &InputJson) -> Seq<char> {
    let p = t.palette;
    let state = agent_state(json);
    if approval_pending(json) {
        p.critical@ + t.bold@ + "[WAITING APPROVAL]"@ + t.reset@
    } else if state == "tool_use"@ {
        match active_status(json) {
            Some(s) => p.accent@ + t.bold@ + "["@ + shortened(uppercase(s), 16, 14) + "]"@ + t.reset@,
            None => t.states.tool_use@,
        }
    } else if state == "idle"@ {
        t.states.ready@
    } else if state == "thinking"@ {
        t.states.thinking@
    } else if state == "working"@ {
        t.states.working@
    } else {
        t.states.default_state@
    }
}

/// Appends the two texts to a copy of the first.
fn cat3(a: &str, b: &str, c: &str) -> (res: String)
    ensures
        res@ == a@ + b@ + c@,
{
    let mut s = String::from_str(a);
    s.append(b);
    s.append(c);
    s
}

/// Appends the three texts to a copy of the first.
fn cat4(a: &str, b: &str, c: &str, d: &str) -> (res: String)
    ensures
        res@ == a@ + b@ + c@ + d@,
{
    let mut s = String::from_str(a);
    s.append(b);
    s.append(c);
    s.append(d);
    s
}

/// The OSC 8 sequence that opens a terminal hyperlink to `target`.
pub open spec fn link_open(target: Seq<char>) -> Seq<char> {
    "\u{1b}]8;;"@ + target + "\u{1b}\\"@
}

/// The OSC 8 sequence that closes a terminal hyperlink.
pub open spec fn link_close() -> Seq<char> {
    "\u{1b}]8;;\u{1b}\\"@
}

/// `text` as a terminal hyperlink to `target`.
pub open spec fn hyperlink(target: Seq<char>, text: Seq<char>) -> Seq<char> {
    link_open(target) + text + link_close()
}

/// Wraps a text in a terminal hyperlink.
pub fn hyperlink_text(target: &str, text: &str) -> (res: String)
    ensures
        res@ == hyperlink(target@, text@),
{
    let mut s = cat4("\u{1b}]8;;", target, "\u{1b}\\", text);
    s.append("\u{1b}]8;;\u{1b}\\");
    s
}

/// `path` with every `\` turned into `/`.
pub open spec fn forward_slashes(path: Seq<char>) -> Seq<char> {
    path.map_values(|c: char| if c == '\\' { '/' } else { c })
}

/// The `file:` URL of a directory: `file://` before an absolute Unix
/// path, `file:///` before any other (such as `C:/work`), with `\` turned
/// into `/`.
pub open spec fn file_url(path: Seq<char>) -> Seq<char> {
    let p = forward_slashes(path);
    if p.len() > 0 && p[0] == '/' {
        "file://"@ + p
    } else {
        "file:///"@ + p
    }
}

/// Builds the `file:` URL of a directory.
pub fn file_url_text(path: &str) -> (res: String)
    ensures
        res@ == file_url(path@),
{
    let n = path.unicode_len();
    let mut p = String::new();
    let mut i: usize = 0;
    while i < n
        invariant
            i <= n,
            n == path@.len(),
            p@ == forward_slashes(path@.take(i as int)),
        decreases n - i,
    {
        let c = path.get_char(i);
        push_char(&mut p, if c == '\\' { '/' } else { c });
        assert(p@ =~= forward_slashes(path@.take(i + 1)));
        i = i + 1;
    }
    assert(path@.take(n as int) =~= path@);
    let mut res = if n > 0 && p.as_str().get_char(0) == '/' {
        String::from_str("file://")
    } else {
        String::from_str("file:///")
    };
    res.append(p.as_str());
    res
}

/// Builds the state widget.
pub fn state_widget_text(t: &Theme, json: &InputJson) -> (res: String)
    ensures
        res@ == state_widget(t, json),
{
    let p = &t.palette;
    if json.tool_confirmation_pending == Some(true) {
        return cat4(p.critical.as_str(), t.bold.as_str(), "[WAITING APPROVAL]", t.reset.as_str());
    }
    let state: &str = match &json.agent_state {
        Some(s) => s.as_str(),
        None => "idle",
    };
    if text_eq(state, "tool_use") {
        match active_status_text(json) {
            Some(status) => {
                let upper = to_uppercase(status.as_str());
                let short = if upper.as_str().unicode_len() > 16 {
                    let mut c = take_chars(upper.as_str(), 14);
                    c.append("..");
                    c
                } else {
                    upper
                };
                let mut s = cat4(p.accent.as_str(), t.bold.as_str(), "[", short.as_str());
                s.append("]");
                s.append(t.reset.as_str());
                s
            },
            None => t.states.tool_use.clone(),
        }
    } else if text_eq(state, "idle") {
        t.states.ready.clone()
    } else if text_eq(state, "thinking") {
        t.states.thinking.clone()
    } else if text_eq(state, "working") {
        t.states.working.clone()
    } else {
        t.states.default_state.clone()
    }
}

/// The agent's status when it is neither empty nor `idle`.
pub fn active_status_text(json: &InputJson) -> (res: Option<String>)
    ensures
        res.deep_view() == active_status(json),
{
    match &json.agent {
        Some(a) => match &a.status {
            Some(s) => {
                if !s.as_str().is_empty() && !text_eq(s.as_str(), "idle") {
                    Some(s.clone())
                } else {
                    None
                }
            },
            None => None,
        },
        None => None,
    }
}


/// The agent-mode widget: a marker for grill, plan and goal agents, or
/// the agent's name in capitals unless it is `default`, `main` or empty.
pub open spec fn mode_widget(t: &Theme, json: &InputJson) -> Option<Seq<char>> {
    let p = t.palette;
    match json.agent {
        Some(a) => match a.name {
            Some(n) => {
                let l = lowercase(n@);
                if occurs_in(l, "grill"@) {
                    Some(p.critical@ + t.bold@ + "[GRILLME]"@ + t.reset@)
                } else if occurs_in(l, "plan"@) {
                    Some(p.accent@ + t.bold@ + "[PLAN]"@ + t.reset@)
                } else if occurs_in(l, "goal"@) {
                    Some(p.success@ + t.bold@ + "[GOAL]"@ + t.reset@)
                } else if l != "default"@ && l != "main"@ && l.len() > 0 {
                    Some(p.accent@ + t.bold@ + "["@ + uppercase(n@) + "]"@ + t.reset@)
                } else {
                    None
                }
            },
            None => None,
        },
        None => None,
    }
}

/// Builds the agent-mode widget.
pub fn mode_widget_text(t: &Theme, json: &InputJson) -> (res: Option<String>)
    ensures
        res.deep_view() == mode_widget(t, json),
{
    let p = &t.palette;
    match &json.agent {
        Some(a) => match &a.name {
            Some(n) => {
                let l = to_lowercase(n.as_str());
                if contains_text(l.as_str(), "grill") {
                    Some(cat4(p.critical.as_str(), t.bold.as_str(), "[GRILLME]", t.reset.as_str()))
                } else if contains_text(l.as_str(), "plan") {
                    Some(cat4(p.accent.as_str(), t.bold.as_str(), "[PLAN]", t.reset.as_str()))
                } else if contains_text(l.as_str(), "goal") {
                    Some(cat4(p.success.as_str(), t.bold.as_str(), "[GOAL]", t.reset.as_str()))
                } else if !text_eq(l.as_str(), "default") && !text_eq(l.as_str(), "main")
                    && !l.as_str().is_empty() {
                    let upper = to_uppercase(n.as_str());
                    let mut s = cat4(p.accent.as_str(), t.bold.as_str(), "[", upper.as_str());
                    s.append("]");
                    s.append(t.reset.as_str());
                    Some(s)
                } else {
                    None
                }
            },
            None => None,
        },
        None => None,
    }
}

/// The agent-status widget: the active status, shown on its own when the
/// state widget does not already show it.
pub open spec fn status_widget(t: &Theme, json: &InputJson) -> Option<Seq<char>> {
    match active_status(json) {
        Some(s) => if agent_state(json) != "tool_use"@ && !approval_pending(json) {
            Some(t.palette.accent@ + s + t.reset@)
        } else {
            None
        },
        None => None,
    }
}

/// Builds the agent-status widget.
pub fn status_widget_text(t: &Theme, json: &InputJson) -> (res: Option<String>)
    ensures
        res.deep_view() == status_widget(t, json),
{
    match active_status_text(json) {
        Some(status) => {
            let state: &str = match &json.agent_state {
                Some(s) => s.as_str(),
                None => "idle",
            };
            let pending = json.tool_confirmation_pending == Some(true);
            if !text_eq(state, "tool_use") && !pending {
                let mut s = String::from_str(t.palette.accent.as_str());
                s.append(status.as_str());
                s.append(t.reset.as_str());
                Some(s)
            } else {
                None
            }
        },
        None => None,
    }
}

/// The sub-agent widget: how many sub-agents run, when any do.
pub open spec fn subagents_widget(t: &Theme, json: &InputJson) -> Option<Seq<char>> {
    let n: usize = match json.subagents {
        Some(n) => n,
        None => 0,
    };
    if n > 0 {
        Some(t.palette.accent@ + "[+"@ + decimal(n as nat) + " SUBAGENTS]"@ + t.reset@)
    } else {
        None
    }
}

/// Builds the sub-agent widget.
pub fn subagents_widget_text(t: &Theme, json: &InputJson) -> (res: Option<String>)
    ensures
        res.deep_view() == subagents_widget(t, json),
{
    let n: usize = match json.subagents {
        Some(n) => n,
        None => 0,
    };
    if n > 0 {
        let count = format_u64(n as u64);
        let mut s = cat4(t.palette.accent.as_str(), "[+", count.as_str(), " SUBAGENTS]");
        s.append(t.reset.as_str());
        Some(s)
    } else {
        None
    }
}

/// The pending-input widget: how many inputs wait, when any do.
pub open spec fn pending_widget(t: &Theme, json: &InputJson) -> Option<Seq<char>> {
    let n: u32 = match json.pending_input_count {
        Some(n) => n,
        None => 0,
    };
    if n > 0 {
        Some(t.palette.warning@ + "> "@ + decimal(n as nat) + t.reset@)
    } else {
        None
    }
}

/// Builds the pending-input widget.
pub fn pending_widget_text(t: &Theme, json: &InputJson) -> (res: Option<String>)
    ensures
        res.deep_view() == pending_widget(t, json),
{
    let n: u32 = match json.pending_input_count {
        Some(n) => n,
        None => 0,
    };
    if n > 0 {
        let count = format_u64(n as u64);
        Some(cat4(t.palette.warning.as_str(), "> ", count.as_str(), t.reset.as_str()))
    } else {
        None
    }
}

/// The model's display name, empty when the CLI reports none.
pub open spec fn model_name(json: &InputJson) -> Seq<char> {
    match json.model {
        Some(m) => match m.display_name {
            Some(n) => n@,
            None => Seq::empty(),
        },
        None => Seq::empty(),
    }
}

/// The reset time of the quota is left out at step 6 and later, and on
/// terminals narrower than 80 columns.
pub open spec fn quota_hides_time(step: usize, cols: usize) -> bool {
    step >= 6 || cols < 80
}

/// The quota text shown beside the model: none when the configuration
/// hides the quota, else the form without the reset time at step 6 and
/// later and on narrow terminals, else the full form.
pub open spec fn quota_shown(x: &InfoExtras, c: &UserConfig, step: usize, cols: usize) -> Seq<char> {
    if !c.show_quota {
        Seq::empty()
    } else if quota_hides_time(step, cols) {
        x.quota_compact@
    } else {
        x.quota_full@
    }
}

/// The model widget: the model's name (abbreviated from step 4 on),
/// followed by the quota text when there is one.
pub open spec fn model_widget(
    t: &Theme,
    json: &InputJson,
    step: usize,
    cols: usize,
    x: &InfoExtras,
    c: &UserConfig,
) -> Option<Seq<char>> {
    let p = t.palette;
    let raw = model_name(json);
    if raw.len() == 0 {
        None
    } else {
        let q = quota_shown(x, c, step, cols);
        let part = if step >= 4 {
            x.short_model_name@
        } else {
            raw
        };
        let text = if q.len() > 0 {
            p.accent@ + part + t.reset@ + " "@ + p.border@ + "|"@ + p.border@ + " "@ + q
        } else {
            p.accent@ + part + t.reset@
        };
        if text.len() > 0 {
            Some(text)
        } else {
            None
        }
    }
}

/// Builds the model widget.
pub fn model_widget_text(
    t: &Theme,
    json: &InputJson,
    step: usize,
    cols: usize,
    x: &InfoExtras,
    c: &UserConfig,
) -> (res: Option<String>)
    ensures
        res.deep_view() == model_widget(t, json, step, cols, x, c),
{
    let p = &t.palette;
    let raw: &str = match &json.model {
        Some(m) => match &m.display_name {
            Some(n) => n.as_str(),
            None => "",
        },
        None => "",
    };
    proof {
        reveal_strlit("");
    }
    if raw.is_empty() {
        return None;
    }
    let q: &str = if !c.show_quota {
        ""
    } else if step >= 6 || cols < 80 {
        x.quota_compact.as_str()
    } else {
        x.quota_full.as_str()
    };
    let part: &str = if step >= 4 {
        x.short_model_name.as_str()
    } else {
        raw
    };
    let mut text = cat3(p.accent.as_str(), part, t.reset.as_str());
    if !q.is_empty() {
        text.append(" ");
        text.append(p.border.as_str());
        text.append("|");
        text.append(p.border.as_str());
        text.append(" ");
        text.append(q);
    }
    if !text.as_str().is_empty() {
        Some(text)
    } else {
        None
    }
}


/// The working directory: the workspace's current directory, else the
/// session's `cwd`, else empty.
pub open spec fn working_dir(json: &InputJson) -> Seq<char> {
    let from_workspace: Option<Seq<char>> = match json.workspace {
        Some(w) => w.current_dir.deep_view(),
        None => None,
    };
    match from_workspace {
        Some(d) => d,
        None => match json.cwd {
            Some(c) => c@,
            None => Seq::empty(),
        },
    }
}

/// Looks up the working directory.
pub fn working_dir_text(json: &InputJson) -> (res: &str)
    ensures
        res@ == working_dir(json),
{
    let from_workspace: Option<&String> = match &json.workspace {
        Some(w) => match &w.current_dir {
            Some(d) => Some(d),
            None => None,
        },
        None => None,
    };
    match from_workspace {
        Some(d) => d.as_str(),
        None => match &json.cwd {
            Some(c) => c.as_str(),
            None => {
                proof {
                    reveal_strlit("");
                }
                ""
            },
        },
    }
}

/// The directory widget, shown up to step 4: the shortened path, or from
/// step 3 on only its last component, with the icon and the path forming
/// a terminal hyperlink to the directory.
pub open spec fn path_widget(t: &Theme, json: &InputJson, step: usize, x: &InfoExtras) -> Option<Seq<char>> {
    let raw = working_dir(json);
    if raw.len() > 0 && step < 5 {
        let path_text = if step >= 3 {
            last_path_segment(raw)
        } else {
            x.shortened_cwd@
        };
        Some(t.palette.label@ + hyperlink(file_url(raw), t.icons.path@ + path_text) + t.reset@)
    } else {
        None
    }
}

/// Builds the directory widget.
pub fn path_widget_text(t: &Theme, json: &InputJson, step: usize, x: &InfoExtras) -> (res: Option<String>)
    ensures
        res.deep_view() == path_widget(t, json, step, x),
{
    let raw = working_dir_text(json);
    if !raw.is_empty() && step < 5 {
        let path_text = if step >= 3 {
            path_last_segment(raw)
        } else {
            x.shortened_cwd.clone()
        };
        let url = file_url_text(raw);
        let mut badge = String::from_str(t.icons.path.as_str());
        badge.append(path_text.as_str());
        let link = hyperlink_text(url.as_str(), badge.as_str());
        Some(cat3(t.palette.label.as_str(), link.as_str(), t.reset.as_str()))
    } else {
        None
    }
}

/// The lines added and removed since the last commit, as `(+12/-5)`,
/// before step 4 when either count is not zero.
pub open spec fn diff_counts(insertions: u32, deletions: u32, step: usize) -> Seq<char> {
    if step < 4 && (insertions > 0 || deletions > 0) {
        " (+"@ + decimal(insertions as nat) + "/-"@ + decimal(deletions as nat) + ")"@
    } else {
        Seq::empty()
    }
}

/// The git markers: `*` for a dirty tree, then before step 4 the lines
/// added and removed, as in `main* (+12/-5)`, or, when no line count is
/// known, the number of modified entries after the `*`; and before step 4
/// the arrows with the commits ahead of and behind the upstream.
#[verifier::opaque]
pub open spec fn git_extra(
    dirty: bool,
    modified: u32,
    insertions: u32,
    deletions: u32,
    ahead: u32,
    behind: u32,
    step: usize,
) -> Seq<char> {
    let mark = if dirty {
        if modified > 0 && step < 4 && insertions == 0 && deletions == 0 {
            "*"@ + decimal(modified as nat)
        } else {
            "*"@
        }
    } else {
        Seq::empty()
    };
    let arrows = if step < 4 {
        if ahead > 0 && behind > 0 {
            " \u{2191}"@ + decimal(ahead as nat) + "\u{2193}"@ + decimal(behind as nat)
        } else if ahead > 0 {
            " \u{2191}"@ + decimal(ahead as nat)
        } else if behind > 0 {
            " \u{2193}"@ + decimal(behind as nat)
        } else {
            Seq::empty()
        }
    } else {
        Seq::empty()
    };
    mark + diff_counts(insertions, deletions, step) + arrows
}

/// The branch name, cut to 8 characters when longer than 10 from step 4
/// on, and to 12 when longer than 15 before.
pub open spec fn branch_label(branch: Seq<char>, step: usize) -> Seq<char> {
    if step >= 4 {
        shortened(branch, 10, 8)
    } else {
        shortened(branch, 15, 12)
    }
}

/// Where the branch badge links to: the repository's web address when it
/// is known, else the repository's directory.
pub open spec fn repository_link(remote_web_url: Option<Seq<char>>, cwd: Seq<char>) -> Seq<char> {
    match remote_web_url {
        Some(u) => if u.len() > 0 {
            u
        } else {
            file_url(cwd)
        },
        None => file_url(cwd),
    }
}

/// The git widget, shown up to step 5 when the configuration shows it and
/// the cached status belongs to the working directory and names a branch.
/// The badge (icon and branch) is a terminal hyperlink to the repository.
#[verifier::opaque]
pub open spec fn vcs_widget(t: &Theme, json: &InputJson, cache: &CacheData, step: usize, c: &UserConfig) -> Option<Seq<char>> {
    let p = t.palette;
    match cache.vcs {
        Some(v) => if c.show_vcs && v.cwd@ == working_dir(json) && v.branch@.len() > 0 && step < 6 {
            let label = hyperlink(
                repository_link(v.remote_web_url.deep_view(), v.cwd@),
                t.icons.vcs@ + branch_label(v.branch@, step),
            );
            let extra = git_extra(v.dirty, v.modified, v.insertions, v.deletions, v.ahead, v.behind, step);
            Some(
                if extra.len() > 0 {
                    if v.dirty {
                        p.label@ + label + p.warning@ + extra + t.reset@
                    } else {
                        p.label@ + label + p.border@ + extra + t.reset@
                    }
                } else {
                    p.label@ + label + t.reset@
                },
            )
        } else {
            None
        },
        None => None,
    }
}

/// Builds the git markers.
pub fn git_extra_text(
    dirty: bool,
    modified: u32,
    insertions: u32,
    deletions: u32,
    ahead: u32,
    behind: u32,
    step: usize,
) -> (res: String)
    ensures
        res@ == git_extra(dirty, modified, insertions, deletions, ahead, behind, step),
{
    reveal(git_extra);
    let mut s = String::new();
    if dirty {
        s.append("*");
        if modified > 0 && step < 4 && insertions == 0 && deletions == 0 {
            let m = format_u64(modified as u64);
            s.append(m.as_str());
        }
    }
    let ghost marked = s@;
    if step < 4 && (insertions > 0 || deletions > 0) {
        let a = format_u64(insertions as u64);
        let d = format_u64(deletions as u64);
        s.append(" (+");
        s.append(a.as_str());
        s.append("/-");
        s.append(d.as_str());
        s.append(")");
    }
    assert(s@ =~= marked + diff_counts(insertions, deletions, step));
    if step < 4 {
        if ahead > 0 && behind > 0 {
            let a = format_u64(ahead as u64);
            let b = format_u64(behind as u64);
            s.append(" \u{2191}");
            s.append(a.as_str());
            s.append("\u{2193}");
            s.append(b.as_str());
        } else if ahead > 0 {
            let a = format_u64(ahead as u64);
            s.append(" \u{2191}");
            s.append(a.as_str());
        } else if behind > 0 {
            let b = format_u64(behind as u64);
            s.append(" \u{2193}");
            s.append(b.as_str());
        }
    }
    assert(s@ =~= git_extra(dirty, modified, insertions, deletions, ahead, behind, step));
    s
}

/// Shortens a text as [`shortened`] says.
pub fn shorten_text(s: &str, limit: usize, keep: usize) -> (res: String)
    requires
        keep <= limit,
    ensures
        res@ == shortened(s@, limit as nat, keep as nat),
{
    if s.unicode_len() > limit {
        let mut c = take_chars(s, keep);
        c.append("..");
        c
    } else {
        String::from_str(s)
    }
}

/// Builds the git widget.
pub fn vcs_widget_text(t: &Theme, json: &InputJson, cache: &CacheData, step: usize, c: &UserConfig) -> (res: Option<String>)
    ensures
        res.deep_view() == vcs_widget(t, json, cache, step, c),
{
    reveal(vcs_widget);
    let p = &t.palette;
    match &cache.vcs {
        Some(v) => {
            let raw = working_dir_text(json);
            if c.show_vcs && text_eq(v.cwd.as_str(), raw) && !v.branch.as_str().is_empty() && step < 6 {
                let branch = if step >= 4 {
                    shorten_text(v.branch.as_str(), 10, 8)
                } else {
                    shorten_text(v.branch.as_str(), 15, 12)
                };
                let mut badge = String::from_str(t.icons.vcs.as_str());
                badge.append(branch.as_str());
                let target = match &v.remote_web_url {
                    Some(u) => if !u.as_str().is_empty() {
                        u.clone()
                    } else {
                        file_url_text(v.cwd.as_str())
                    },
                    None => file_url_text(v.cwd.as_str()),
                };
                let label = hyperlink_text(target.as_str(), badge.as_str());
                let extra = git_extra_text(v.dirty, v.modified, v.insertions, v.deletions, v.ahead, v.behind, step);
                let fmt = if !extra.as_str().is_empty() {
                    let color = if v.dirty {
                        p.warning.as_str()
                    } else {
                        p.border.as_str()
                    };
                    let mut s = cat4(p.label.as_str(), label.as_str(), color, extra.as_str());
                    s.append(t.reset.as_str());
                    s
                } else {
                    cat3(p.label.as_str(), label.as_str(), t.reset.as_str())
                };
                Some(fmt)
            } else {
                None
            }
        },
        None => None,
    }
}

/// The widgets of the info row at a layout step, in order: state, agent
/// mode, agent status, sub-agents, pending input, model, directory, git.
pub open spec fn info_widgets(
    t: &Theme,
    json: &InputJson,
    cache: &CacheData,
    step: usize,
    cols: usize,
    x: &InfoExtras,
    c: &UserConfig,
) -> Seq<Seq<char>> {
    seq![state_widget(t, json)] + listed(mode_widget(t, json)) + listed(status_widget(t, json))
        + listed(subagents_widget(t, json)) + listed(pending_widget(t, json)) + listed(
        model_widget(t, json, step, cols, x, c),
    ) + listed(path_widget(t, json, step, x)) + listed(vcs_widget(t, json, cache, step, c))
}

/// Appends an optional widget.
fn push_listed(list: &mut Vec<String>, w: Option<String>)
    ensures
        final(list)@.map_values(|s: String| s@) == old(list)@.map_values(|s: String| s@) + listed(
            w.deep_view(),
        ),
{
    let ghost before = list@;
    match w {
        Some(s) => {
            list.push(s);
            assert(list@.map_values(|s: String| s@) =~= before.map_values(|s: String| s@) + listed(
                w.deep_view(),
            ));
        },
        None => {
            assert(list@.map_values(|s: String| s@) =~= before.map_values(|s: String| s@) + listed(
                w.deep_view(),
            ));
        },
    }
}

/// Builds the widget texts of the info row at a layout step.
pub fn get_info_widgets(
    t: &Theme,
    json: &InputJson,
    cache: &CacheData,
    step: usize,
    cols: usize,
    x: &InfoExtras,
    c: &UserConfig,
) -> (res: Vec<String>)
    ensures
        res@.map_values(|s: String| s@) == info_widgets(t, json, cache, step, cols, x, c),
{
    let mut list: Vec<String> = Vec::new();
    let ghost empty = list@;
    push_listed(&mut list, Some(state_widget_text(t, json)));
    push_listed(&mut list, mode_widget_text(t, json));
    push_listed(&mut list, status_widget_text(t, json));
    push_listed(&mut list, subagents_widget_text(t, json));
    push_listed(&mut list, pending_widget_text(t, json));
    push_listed(&mut list, model_widget_text(t, json, step, cols, x, c));
    push_listed(&mut list, path_widget_text(t, json, step, x));
    push_listed(&mut list, vcs_widget_text(t, json, cache, step, c));
    assert(empty.map_values(|s: String| s@) =~= Seq::<Seq<char>>::empty());
    assert(Seq::<Seq<char>>::empty() + listed(Some(state_widget(t, json))) =~= seq![state_widget(t, json)]);
    list
}


/// The quota text when a login is needed.
pub open spec fn login_quota(t: &Theme) -> Seq<char> {
    t.palette.label@ + t.icons.quota@ + t.palette.warning@ + t.bold@ + "[LOGIN]"@ + t.reset@
}

/// Builds the quota text shown when a login is needed.
pub fn login_quota_text(t: &Theme) -> (res: String)
    ensures
        res@ == login_quota(t),
{
    let mut s = cat4(t.palette.label.as_str(), t.icons.quota.as_str(), t.palette.warning.as_str(), t.bold.as_str());
    s.append("[LOGIN]");
    s.append(t.reset.as_str());
    s
}

/// A model name reduced for comparison: lower case, alphanumeric
/// characters only.
pub open spec fn clean_name(s: Seq<char>) -> Seq<char> {
    keep_alphanumeric(lowercase(s))
}

/// Reduces a model name for comparison.
pub fn clean_model_name(s: &str) -> (res: String)
    ensures
        res@ == clean_name(s@),
{
    let l = to_lowercase(s);
    only_alphanumeric(l.as_str())
}

/// The quota item is named exactly like the model (by display name or
/// id, after reduction).
pub open spec fn exact_quota_match(q: QuotaItemView, target: Seq<char>) -> bool {
    clean_name(q.display_name) == target || clean_name(q.id) == target
}

/// The reduced display name of the item and the reduced model name
/// contain one another.
pub open spec fn loose_quota_match(q: QuotaItemView, target: Seq<char>) -> bool {
    occurs_in(target, clean_name(q.display_name)) || occurs_in(clean_name(q.display_name), target)
}

/// The quota item that belongs to a model: the first exact match, else
/// the first loose match, else none.
pub open spec fn is_matching_quota(quota: Seq<QuotaItemView>, model: Seq<char>, res: Option<usize>) -> bool {
    let target = clean_name(model);
    match res {
        Some(i) => {
            &&& i < quota.len()
            &&& if exact_quota_match(quota[i as int], target) {
                forall|j: int| 0 <= j < i ==> !exact_quota_match(#[trigger] quota[j], target)
            } else {
                &&& loose_quota_match(quota[i as int], target)
                &&& forall|j: int| 0 <= j < quota.len() ==> !exact_quota_match(#[trigger] quota[j], target)
                &&& forall|j: int| 0 <= j < i ==> !loose_quota_match(#[trigger] quota[j], target)
            }
        },
        None => forall|j: int|
            0 <= j < quota.len() ==> !exact_quota_match(#[trigger] quota[j], target) && !loose_quota_match(
                quota[j],
                target,
            ),
    }
}

/// Finds the quota item of a model, as [`is_matching_quota`] says.
pub fn find_quota_item(quota: &Vec<QuotaItem>, model: &str) -> (res: Option<usize>)
    ensures
        is_matching_quota(quota@.map_values(|q: QuotaItem| q@), model@, res),
{
    let ghost qs = quota@.map_values(|q: QuotaItem| q@);
    let target = clean_model_name(model);
    let mut i: usize = 0;
    while i < quota.len()
        invariant
            i <= quota@.len(),
            qs == quota@.map_values(|q: QuotaItem| q@),
            target@ == clean_name(model@),
            forall|j: int| 0 <= j < i ==> !exact_quota_match(#[trigger] qs[j], target@),
        decreases quota@.len() - i,
    {
        let name = clean_model_name(quota[i].display_name.as_str());
        let id = clean_model_name(quota[i].id.as_str());
        assert(qs[i as int] == quota@[i as int]@);
        if text_eq(name.as_str(), target.as_str()) || text_eq(id.as_str(), target.as_str()) {
            return Some(i);
        }
        i = i + 1;
    }
    let mut k: usize = 0;
    while k < quota.len()
        invariant
            k <= quota@.len(),
            qs == quota@.map_values(|q: QuotaItem| q@),
            target@ == clean_name(model@),
            forall|j: int| 0 <= j < quota@.len() ==> !exact_quota_match(#[trigger] qs[j], target@),
            forall|j: int| 0 <= j < k ==> !loose_quota_match(#[trigger] qs[j], target@),
        decreases quota@.len() - k,
    {
        let name = clean_model_name(quota[k].display_name.as_str());
        assert(qs[k as int] == quota@[k as int]@);
        if contains_text(target.as_str(), name.as_str()) || contains_text(name.as_str(), target.as_str()) {
            return Some(k);
        }
        k = k + 1;
    }
    None
}

/// The time left until a quota resets, from a number of seconds: days
/// and hours, or hours and minutes, or minutes.
pub open spec fn countdown(secs: nat) -> Seq<char> {
    let mins = secs / 60;
    let hours = mins / 60;
    let days = hours / 24;
    if days >= 1 {
        "~"@ + decimal(days) + "d"@ + decimal(hours % 24) + "h"@
    } else if hours >= 1 {
        "~"@ + decimal(hours) + "h"@ + decimal(mins % 60) + "m"@
    } else {
        "~"@ + decimal(mins) + "m"@
    }
}

/// The reset-time part of the quota text: the countdown in brackets when
/// the reset lies in the future, otherwise nothing.
pub open spec fn reset_suffix(t: &Theme, reset_at: u64, now: u64) -> Seq<char> {
    if reset_at > now {
        " "@ + t.palette.label@ + "("@ + countdown((reset_at - now) as nat) + ")"@ + t.reset@
    } else {
        Seq::empty()
    }
}

/// Builds the reset-time part of the quota text.
pub fn reset_suffix_text(t: &Theme, reset_at: u64, now: u64) -> (res: String)
    ensures
        res@ == reset_suffix(t, reset_at, now),
{
    if reset_at > now {
        let diff_mins = (reset_at - now) / 60;
        let diff_hours = diff_mins / 60;
        let diff_days = diff_hours / 24;
        let raw = if diff_days >= 1 {
            let d = format_u64(diff_days);
            let h = format_u64(diff_hours % 24);
            let mut r = cat4("~", d.as_str(), "d", h.as_str());
            r.append("h");
            r
        } else if diff_hours >= 1 {
            let h = format_u64(diff_hours);
            let m = format_u64(diff_mins % 60);
            let mut r = cat4("~", h.as_str(), "h", m.as_str());
            r.append("m");
            r
        } else {
            let m = format_u64(diff_mins);
            cat3("~", m.as_str(), "m")
        };
        let mut s = cat4(" ", t.palette.label.as_str(), "(", raw.as_str());
        s.append(")");
        s.append(t.reset.as_str());
        s
    } else {
        String::new()
    }
}

/// The colour of the percentage (critical and bold up to 20 %, warning
/// up to 50 %, success above) and the colour of the quota bar.
pub open spec fn quota_colors(t: &Theme, pct: i64) -> (Seq<char>, Seq<char>) {
    let p = t.palette;
    if pct <= 20 {
        (p.critical@ + t.bold@, p.critical@)
    } else if pct <= 50 {
        (p.warning@, p.warning@)
    } else {
        (p.success@, p.success@)
    }
}

/// Picks the quota colours.
pub fn quota_color_texts(t: &Theme, pct: i64) -> (res: (String, String))
    ensures
        (res.0@, res.1@) == quota_colors(t, pct),
{
    let p = &t.palette;
    if pct <= 20 {
        let mut c = String::from_str(p.critical.as_str());
        c.append(t.bold.as_str());
        (c, p.critical.clone())
    } else if pct <= 50 {
        (p.warning.clone(), p.warning.clone())
    } else {
        (p.success.clone(), p.success.clone())
    }
}

/// The quota text of a matched item: the bar (when the reset time is
/// shown) or the coloured percentage, followed by the reset part.
pub open spec fn quota_text(t: &Theme, pct: i64, hide_time: bool, bar: Seq<char>, suffix: Seq<char>) -> Seq<char> {
    let p = t.palette;
    if !hide_time {
        p.label@ + t.icons.quota@ + bar + suffix
    } else {
        let pct_text = if pct < 0 {
            seq!['-'] + decimal((-pct) as nat)
        } else {
            decimal(pct as nat)
        };
        p.label@ + t.icons.quota@ + quota_colors(t, pct).0 + pct_text + "%"@ + t.reset@ + suffix
    }
}

/// Builds the quota text of a matched item.
pub fn quota_text_of(t: &Theme, pct: i64, hide_time: bool, bar: &str, suffix: &str) -> (res: String)
    ensures
        res@ == quota_text(t, pct, hide_time, bar@, suffix@),
{
    let p = &t.palette;
    if !hide_time {
        cat4(p.label.as_str(), t.icons.quota.as_str(), bar, suffix)
    } else {
        let (color, _active) = quota_color_texts(t, pct);
        let pct_text = format_i64(pct);
        let mut s = cat4(p.label.as_str(), t.icons.quota.as_str(), color.as_str(), pct_text.as_str());
        s.append("%");
        s.append(t.reset.as_str());
        s.append(suffix);
        s
    }
}


/// The quota text of a used-up quota: the exhausted label in the
/// critical colour, as a terminal hyperlink to the configuration utility.
pub open spec fn exhausted_quota(t: &Theme, config_link: Seq<char>) -> Seq<char> {
    t.palette.label@ + t.icons.quota@ + t.palette.critical@ + t.bold@ + hyperlink(
        config_link,
        "[EXHAUSTED] (Switch via --config)"@,
    ) + t.reset@
}

/// A remaining fraction of zero: the bit pattern of `+0.0` or `-0.0`.
pub open spec fn fraction_is_zero(bits: u64) -> bool {
    bits == 0 || bits == 0x8000_0000_0000_0000
}

/// The quota text of the current model. A needed login is shown first;
/// without a matching quota item there is no text; a used-up quota shows
/// the exhausted label, any other the bar or the percentage. The reset
/// part follows when the reset time is shown and known. `matched` is the
/// item found for the model, `pct` the whole percentage left and `bar`
/// the progress bar of that item, `reset_at` its reset time in seconds.
pub open spec fn model_quota(
    t: &Theme,
    cache: &CacheData,
    matched: Option<usize>,
    hide_time: bool,
    pct: i64,
    bar: Seq<char>,
    reset_at: Option<u64>,
    now: u64,
    config_link: Seq<char>,
) -> Seq<char> {
    if cache.needs_login == Some(true) {
        login_quota(t)
    } else {
        match matched {
            None => Seq::empty(),
            Some(i) => {
                let suffix = match reset_at {
                    Some(r) => if hide_time {
                        Seq::empty()
                    } else {
                        reset_suffix(t, r, now)
                    },
                    None => Seq::empty(),
                };
                if fraction_is_zero(cache.quota@[i as int].remaining_fraction_bits) {
                    exhausted_quota(t, config_link) + suffix
                } else {
                    quota_text(t, pct, hide_time, bar, suffix)
                }
            },
        }
    }
}

/// Builds the quota text of the current model, as [`model_quota`] says.
pub fn model_quota_text(
    t: &Theme,
    cache: &CacheData,
    matched: Option<usize>,
    hide_time: bool,
    pct: i64,
    bar: &str,
    reset_at: Option<u64>,
    now: u64,
    config_link: &str,
) -> (res: String)
    requires
        matched matches Some(i) ==> i < cache.quota@.len(),
    ensures
        res@ == model_quota(t, cache, matched, hide_time, pct, bar@, reset_at, now, config_link@),
{
    if cache.needs_login == Some(true) {
        return login_quota_text(t);
    }
    match matched {
        None => String::new(),
        Some(i) => {
            let suffix = match reset_at {
                Some(r) => if hide_time {
                    String::new()
                } else {
                    reset_suffix_text(t, r, now)
                },
                None => String::new(),
            };
            let bits = cache.quota[i].remaining_fraction_bits;
            if bits == 0 || bits == 0x8000_0000_0000_0000 {
                let link = hyperlink_text(config_link, "[EXHAUSTED] (Switch via --config)");
                let mut s = cat4(t.palette.label.as_str(), t.icons.quota.as_str(), t.palette.critical.as_str(), t.bold.as_str());
                s.append(link.as_str());
                s.append(t.reset.as_str());
                s.append(suffix.as_str());
                s
            } else {
                quota_text_of(t, pct, hide_time, bar, suffix.as_str())
            }
        },
    }
}

/// Texts of the metric row that are computed elsewhere: the context
/// widget for the step, and the formatted cache-read and cache-write
/// token counts.
pub struct MetricExtras {
    pub context: String,
    pub cache_read: String,
    pub cache_create: String,
}

/// Length of the context bar and the detail mode for a step below 11:
/// bar 10 and mode 0 up to step 4, then (8, 1), (6, 2), (5, 3) at steps
/// 7 and 8, (3, 3) and (0, 3).
pub open spec fn context_layout(step: usize) -> (usize, usize) {
    if step == 10 {
        (0, 3)
    } else if step == 9 {
        (3, 3)
    } else if step == 7 || step == 8 {
        (5, 3)
    } else if step == 6 {
        (6, 2)
    } else if step == 5 {
        (8, 1)
    } else {
        (10, 0)
    }
}

/// The context bar's length and detail mode at a step.
pub fn context_bar_layout(step: usize) -> (res: (usize, usize))
    ensures
        res == context_layout(step),
{
    match step {
        10 => (0, 3),
        9 => (3, 3),
        7 | 8 => (5, 3),
        6 => (6, 2),
        5 => (8, 1),
        _ => (10, 0),
    }
}

/// Tokens of the context window still free: the window size less the
/// tokens used, or zero once they are all used.
pub fn free_tokens(limit: u64, used: u64) -> (res: u64)
    ensures
        res == if limit > used {
            limit - used
        } else {
            0
        },
{
    limit.saturating_sub(used)
}

/// The detail after the context percentage for a detail mode: mode 0
/// always shows `(used/limit)`; mode 1 shows `(free:P%/F)` when the
/// window size is known; mode 2 shows `(used/limit)` when both counts are
/// known; mode 3 shows nothing. The texts are the formatted counts and
/// percentage.
pub open spec fn context_detail(
    mode: usize,
    used: u64,
    limit: u64,
    used_text: Seq<char>,
    limit_text: Seq<char>,
    free_pct_text: Seq<char>,
    free_text: Seq<char>,
) -> Seq<char> {
    if mode == 0 {
        " ("@ + used_text + "/"@ + limit_text + ")"@
    } else if mode == 1 && limit > 0 {
        " (free:"@ + free_pct_text + "%/"@ + free_text + ")"@
    } else if mode == 2 && used > 0 && limit > 0 {
        " ("@ + used_text + "/"@ + limit_text + ")"@
    } else {
        Seq::empty()
    }
}

/// Builds the detail after the context percentage.
pub fn context_detail_text(
    mode: usize,
    used: u64,
    limit: u64,
    used_text: &str,
    limit_text: &str,
    free_pct_text: &str,
    free_text: &str,
) -> (res: String)
    ensures
        res@ == context_detail(mode, used, limit, used_text@, limit_text@, free_pct_text@, free_text@),
{
    let mut s = String::new();
    if mode == 0 || (mode == 2 && used > 0 && limit > 0) {
        s.append(" (");
        s.append(used_text);
        s.append("/");
        s.append(limit_text);
        s.append(")");
    } else if mode == 1 && limit > 0 {
        s.append(" (free:");
        s.append(free_pct_text);
        s.append("%/");
        s.append(free_text);
        s.append(")");
    }
    assert(s@ =~= context_detail(mode, used, limit, used_text@, limit_text@, free_pct_text@, free_text@));
    s
}

/// The context widget: icon and `ctx` label, then, with a bar of nonzero
/// length, the bar, the percentage in its colour and the detail; without
/// a bar, the percentage alone.
pub open spec fn context_widget(
    t: &Theme,
    bar_len: usize,
    bar: Seq<char>,
    color: Seq<char>,
    pct_text: Seq<char>,
    detail: Seq<char>,
) -> Seq<char> {
    let p = t.palette;
    let head = p.label@ + t.icons.context@ + p.label@ + "ctx"@ + t.reset@ + " "@;
    if bar_len > 0 {
        head + bar + " "@ + color + t.bold@ + pct_text + "%"@ + t.reset@ + p.label@ + detail + t.reset@
    } else {
        head + color + t.bold@ + pct_text + "%"@ + t.reset@
    }
}

/// Builds the context widget.
pub fn context_widget_text(
    t: &Theme,
    bar_len: usize,
    bar: &str,
    color: &str,
    pct_text: &str,
    detail: &str,
) -> (res: String)
    ensures
        res@ == context_widget(t, bar_len, bar@, color@, pct_text@, detail@),
{
    let p = &t.palette;
    let mut s = String::from_str(p.label.as_str());
    s.append(t.icons.context.as_str());
    s.append(p.label.as_str());
    s.append("ctx");
    s.append(t.reset.as_str());
    s.append(" ");
    if bar_len > 0 {
        s.append(bar);
        s.append(" ");
    }
    s.append(color);
    s.append(t.bold.as_str());
    s.append(pct_text);
    s.append("%");
    s.append(t.reset.as_str());
    if bar_len > 0 {
        s.append(p.label.as_str());
        s.append(detail);
        s.append(t.reset.as_str());
    }
    assert(s@ =~= context_widget(t, bar_len, bar@, color@, pct_text@, detail@));
    s
}

/// Cache-read and cache-write token counts of the last request.
pub open spec fn cache_tokens(json: &InputJson) -> (u64, u64) {
    match json.context_window {
        Some(c) => match c.current_usage {
            Some(u) => (
                match u.cache_read_input_tokens {
                    Some(n) => n,
                    None => 0,
                },
                match u.cache_creation_input_tokens {
                    Some(n) => n,
                    None => 0,
                },
            ),
            None => (0, 0),
        },
        None => (0, 0),
    }
}

/// The cache widget, shown before step 3 when the last request read or
/// wrote cached tokens: the read count and the write count (zero
/// included).
pub open spec fn cache_widget(t: &Theme, json: &InputJson, step: usize, x: &MetricExtras) -> Option<Seq<char>> {
    let p = t.palette;
    let (read, create) = cache_tokens(json);
    if step < 3 && (read > 0 || create > 0) {
        Some(p.label@ + t.icons.cache@ + p.label@ + "cache"@ + t.reset@ + " "@ + p.accent@ + t.bold@ + "rd:"@
            + x.cache_read@ + "/wr:"@ + x.cache_create@ + t.reset@)
    } else {
        None
    }
}

/// Number of artifacts: the length of the list when given, else the
/// reported count, else zero.
pub open spec fn artifact_count(json: &InputJson) -> usize {
    match json.artifacts {
        Some(n) => n,
        None => match json.artifact_count {
            Some(c) => c as usize,
            None => 0,
        },
    }
}

/// Number of background tasks: the length of the list when given, else
/// the reported count, else zero.
pub open spec fn task_count(json: &InputJson) -> usize {
    match json.background_tasks {
        Some(n) => n,
        None => match json.task_count {
            Some(c) => c as usize,
            None => 0,
        },
    }
}

/// A labelled counter widget.
pub open spec fn counter_widget(t: &Theme, icon: Seq<char>, name: Seq<char>, n: nat) -> Seq<char> {
    let p = t.palette;
    p.label@ + icon + p.label@ + name + t.reset@ + " "@ + p.accent@ + t.bold@ + decimal(n) + t.reset@
}

/// The sandbox widget, shown before step 4 when the sandbox is on.
pub open spec fn sandbox_widget(t: &Theme, json: &InputJson, step: usize) -> Option<Seq<char>> {
    let p = t.palette;
    match json.sandbox {
        Some(sb) => if sb.enabled == Some(true) && step < 4 {
            let net = if sb.allow_network == Some(true) {
                "ON(net)"@
            } else {
                "ON(no-net)"@
            };
            Some(p.label@ + t.icons.sandbox@ + p.label@ + "sandbox"@ + t.reset@ + " "@ + p.success@ + t.bold@ + net
                + t.reset@)
        } else {
            None
        },
        None => None,
    }
}

/// The widgets of the metric row at a layout step: below step 11 the
/// context widget (unless the configuration hides it) and the cache
/// widget, then artifacts (before step 6),
/// tasks (before step 8) and the sandbox.
pub open spec fn metric_widgets(
    t: &Theme,
    json: &InputJson,
    step: usize,
    x: &MetricExtras,
    cfg: &UserConfig,
) -> Seq<Seq<char>> {
    let head = if step < 11 {
        listed(
            if cfg.show_context {
                Some(x.context@)
            } else {
                None
            },
        ) + listed(cache_widget(t, json, step, x))
    } else {
        Seq::empty()
    };
    let artifacts = artifact_count(json);
    let tasks = task_count(json);
    head + listed(
        if artifacts > 0 && step < 6 {
            Some(counter_widget(t, t.icons.artifacts@, "artifacts"@, artifacts as nat))
        } else {
            None
        },
    ) + listed(
        if tasks > 0 && step < 8 {
            Some(counter_widget(t, t.icons.tasks@, "tasks"@, tasks as nat))
        } else {
            None
        },
    ) + listed(sandbox_widget(t, json, step))
}

/// Builds a labelled counter widget.
fn counter_widget_text(t: &Theme, icon: &str, name: &str, n: usize) -> (res: String)
    ensures
        res@ == counter_widget(t, icon@, name@, n as nat),
{
    let p = &t.palette;
    let count = format_u64(n as u64);
    let mut s = cat4(p.label.as_str(), icon, p.label.as_str(), name);
    s.append(t.reset.as_str());
    s.append(" ");
    s.append(p.accent.as_str());
    s.append(t.bold.as_str());
    s.append(count.as_str());
    s.append(t.reset.as_str());
    s
}

/// Builds the cache widget.
pub fn cache_widget_text(t: &Theme, json: &InputJson, step: usize, x: &MetricExtras) -> (res: Option<String>)
    ensures
        res.deep_view() == cache_widget(t, json, step, x),
{
    let p = &t.palette;
    let (read, create): (u64, u64) = match &json.context_window {
        Some(c) => match &c.current_usage {
            Some(u) => (
                match u.cache_read_input_tokens {
                    Some(n) => n,
                    None => 0,
                },
                match u.cache_creation_input_tokens {
                    Some(n) => n,
                    None => 0,
                },
            ),
            None => (0, 0),
        },
        None => (0, 0),
    };
    if step < 3 && (read > 0 || create > 0) {
        let mut s = cat4(p.label.as_str(), t.icons.cache.as_str(), p.label.as_str(), "cache");
        s.append(t.reset.as_str());
        s.append(" ");
        s.append(p.accent.as_str());
        s.append(t.bold.as_str());
        s.append("rd:");
        s.append(x.cache_read.as_str());
        s.append("/wr:");
        s.append(x.cache_create.as_str());
        s.append(t.reset.as_str());
        Some(s)
    } else {
        None
    }
}

/// Builds the sandbox widget.
pub fn sandbox_widget_text(t: &Theme, json: &InputJson, step: usize) -> (res: Option<String>)
    ensures
        res.deep_view() == sandbox_widget(t, json, step),
{
    let p = &t.palette;
    match &json.sandbox {
        Some(sb) => if sb.enabled == Some(true) && step < 4 {
            let net: &str = if sb.allow_network == Some(true) {
                "ON(net)"
            } else {
                "ON(no-net)"
            };
            let mut s = cat4(p.label.as_str(), t.icons.sandbox.as_str(), p.label.as_str(), "sandbox");
            s.append(t.reset.as_str());
            s.append(" ");
            s.append(p.success.as_str());
            s.append(t.bold.as_str());
            s.append(net);
            s.append(t.reset.as_str());
            Some(s)
        } else {
            None
        },
        None => None,
    }
}

/// Builds the widget texts of the metric row at a layout step.
pub fn get_metric_widgets(
    t: &Theme,
    json: &InputJson,
    step: usize,
    x: &MetricExtras,
    cfg: &UserConfig,
) -> (res: Vec<String>)
    ensures
        res@.map_values(|s: String| s@) == metric_widgets(t, json, step, x, cfg),
{
    let mut list: Vec<String> = Vec::new();
    let ghost empty = list@;
    assert(empty.map_values(|s: String| s@) =~= Seq::<Seq<char>>::empty());
    if step < 11 {
        push_listed(
            &mut list,
            if cfg.show_context {
                Some(x.context.clone())
            } else {
                None
            },
        );
        push_listed(&mut list, cache_widget_text(t, json, step, x));
        assert(Seq::<Seq<char>>::empty() + listed(
            if cfg.show_context {
                Some(x.context@)
            } else {
                None
            },
        ) =~= listed(
            if cfg.show_context {
                Some(x.context@)
            } else {
                None
            },
        ));
    }
    let artifacts: usize = match json.artifacts {
        Some(n) => n,
        None => match json.artifact_count {
            Some(c) => c as usize,
            None => 0,
        },
    };
    let tasks: usize = match json.background_tasks {
        Some(n) => n,
        None => match json.task_count {
            Some(c) => c as usize,
            None => 0,
        },
    };
    push_listed(
        &mut list,
        if artifacts > 0 && step < 6 {
            Some(counter_widget_text(t, t.icons.artifacts.as_str(), "artifacts", artifacts))
        } else {
            None
        },
    );
    push_listed(
        &mut list,
        if tasks > 0 && step < 8 {
            Some(counter_widget_text(t, t.icons.tasks.as_str(), "tasks", tasks))
        } else {
            None
        },
    );
    push_listed(&mut list, sandbox_widget_text(t, json, step));
    list
}


proof fn lemma_listed_len(o: Option<Seq<char>>)
    ensures
        listed(o).len() == (if o is Some {
            1int
        } else {
            0int
        }),
{
}

/// When the git widget is shown: the configuration shows it, the cached
/// status belongs to the working directory and names a branch, and the
/// step is below 6.
proof fn lemma_vcs_widget_shown(t: &Theme, json: &InputJson, cache: &CacheData, step: usize, c: &UserConfig)
    ensures
        vcs_widget(t, json, cache, step, c) is Some <==> match cache.vcs {
            Some(v) => c.show_vcs && v.cwd@ == working_dir(json) && v.branch@.len() > 0 && step < 6,
            None => false,
        },
{
    reveal(vcs_widget);
}

/// The one case in which a denser step shows the model widget where a
/// sparser one does not: at the sparser step (4 or later) the colour codes
/// and the abbreviated name are all empty and no quota text is shown,
/// while the denser step shows a quota text.
pub open spec fn model_widget_appears(
    t: &Theme,
    json: &InputJson,
    step1: usize,
    step2: usize,
    cols: usize,
    x: &InfoExtras,
    c: &UserConfig,
) -> bool {
    &&& model_name(json).len() > 0
    &&& step1 >= 4
    &&& (t.palette.accent@ + x.short_model_name@ + t.reset@).len() == 0
    &&& quota_shown(x, c, step1, cols).len() == 0
    &&& quota_shown(x, c, step2, cols).len() > 0
}

/// A denser layout step never shows more info widgets, except in the
/// case [`model_widget_appears`] describes; the state widget is always
/// shown.
#[verifier::spinoff_prover]
pub proof fn lemma_info_widgets_shrink(
    t: &Theme,
    json: &InputJson,
    cache: &CacheData,
    step1: usize,
    step2: usize,
    cols: usize,
    x: &InfoExtras,
    c: &UserConfig,
)
    requires
        step1 <= step2,
        !model_widget_appears(t, json, step1, step2, cols, x, c),
    ensures
        info_widgets(t, json, cache, step2, cols, x, c).len() <= info_widgets(t, json, cache, step1, cols, x, c).len(),
        info_widgets(t, json, cache, step2, cols, x, c).len() >= 1,
{
    let raw = model_name(json);
    let p = t.palette;
    let m1 = model_widget(t, json, step1, cols, x, c);
    let m2 = model_widget(t, json, step2, cols, x, c);
    if raw.len() > 0 {
        let q1 = quota_shown(x, c, step1, cols);
        let part1 = if step1 >= 4 {
            x.short_model_name@
        } else {
            raw
        };
        let a = p.accent@ + part1 + t.reset@;
        assert(a.len() == p.accent@.len() + part1.len() + t.reset@.len());
        assert(" "@.len() > 0) by {
            reveal_strlit(" ");
        }
        assert((a + " "@ + p.border@ + "|"@ + p.border@ + " "@ + q1).len() > 0) by {
            assert((a + " "@).len() == a.len() + " "@.len());
        }
        if step1 < 4 {
            assert(m1 is Some);
        } else {
            assert(m2 is Some ==> m1 is Some);
        }
    }
    assert(m2 is Some ==> m1 is Some);
    assert(path_widget(t, json, step2, x) is Some ==> path_widget(t, json, step1, x) is Some);
    lemma_vcs_widget_shown(t, json, cache, step1, c);
    lemma_vcs_widget_shown(t, json, cache, step2, c);
    lemma_listed_len(m1);
    lemma_listed_len(m2);
    lemma_listed_len(path_widget(t, json, step1, x));
    lemma_listed_len(path_widget(t, json, step2, x));
    lemma_listed_len(vcs_widget(t, json, cache, step1, c));
    lemma_listed_len(vcs_widget(t, json, cache, step2, c));
    lemma_listed_len(mode_widget(t, json));
    lemma_listed_len(status_widget(t, json));
    lemma_listed_len(subagents_widget(t, json));
    lemma_listed_len(pending_widget(t, json));
}

/// A denser layout step never shows more metric widgets.
pub proof fn lemma_metric_widgets_shrink(
    t: &Theme,
    json: &InputJson,
    step1: usize,
    step2: usize,
    x: &MetricExtras,
    cfg: &UserConfig,
)
    requires
        step1 <= step2,
    ensures
        metric_widgets(t, json, step2, x, cfg).len() <= metric_widgets(t, json, step1, x, cfg).len(),
{
}


/// The main agent of a session shows no agent-mode widget: an agent whose
/// name lower-cases to `default` or `main`, or is empty, has none.
pub proof fn lemma_main_agent_has_no_mode(t: &Theme, json: &InputJson)
    requires
        json.agent matches Some(a) && a.name matches Some(n) && (lowercase(n@) == "default"@
            || lowercase(n@) == "main"@ || lowercase(n@).len() == 0),
    ensures
        mode_widget(t, json) is None,
{
    reveal_strlit("default");
    reveal_strlit("main");
    reveal_strlit("grill");
    reveal_strlit("plan");
    reveal_strlit("goal");
    let l = lowercase(json.agent.unwrap().name.unwrap()@);
    assert forall|i: int| 0 <= i <= l.len() - "grill"@.len() implies #[trigger] l.subrange(i, i + "grill"@.len())
        != "grill"@ by {
        assert(l.subrange(i, i + 5)[0] != "grill"@[0]);
    }
    assert forall|i: int| 0 <= i <= l.len() - "plan"@.len() implies #[trigger] l.subrange(i, i + "plan"@.len())
        != "plan"@ by {
        if l == "default"@ {
            assert(l.subrange(i, i + 4)[0] != 'p' || l.subrange(i, i + 4)[1] != 'l');
        } else {
            assert(l.subrange(i, i + 4)[0] != 'p');
        }
    }
    assert forall|i: int| 0 <= i <= l.len() - "goal"@.len() implies #[trigger] l.subrange(i, i + "goal"@.len())
        != "goal"@ by {
        assert(l.subrange(i, i + 4)[0] != 'g');
    }
}

/// The cache widget is shown before step 3 exactly when the last request
/// read or wrote any prompt-cache tokens: a write alone (such as the
/// first request of a session) is enough.
pub proof fn lemma_cache_widget_shown(t: &Theme, json: &InputJson, step: usize, x: &MetricExtras)
    ensures
        cache_widget(t, json, step, x) is Some <==> step < 3 && match json.context_window {
            Some(cw) => match cw.current_usage {
                Some(u) => (match u.cache_read_input_tokens {
                    Some(r) => r > 0,
                    None => false,
                }) || (match u.cache_creation_input_tokens {
                    Some(w) => w > 0,
                    None => false,
                }),
                None => false,
            },
            None => false,
        },
{
}

/// The quota item of a model named exactly like the first such item is
/// that item.
pub proof fn lemma_exact_quota_match_found(quota: Seq<QuotaItemView>, model: Seq<char>, res: Option<usize>, i: int)
    requires
        is_matching_quota(quota, model, res),
        0 <= i < quota.len(),
        clean_name(quota[i].display_name) == clean_name(model) || clean_name(quota[i].id) == clean_name(model),
        forall|j: int|
            0 <= j < i ==> clean_name(#[trigger] quota[j].display_name) != clean_name(model) && clean_name(
                quota[j].id,
            ) != clean_name(model),
    ensures
        res == Some(i as usize),
{
    let target = clean_name(model);
    assert(exact_quota_match(quota[i], target));
    match res {
        Some(k) => {
            if (k as int) < i {
                assert(clean_name(quota[k as int].display_name) != target);
                assert(!exact_quota_match(quota[k as int], target));
            }
            if (k as int) > i {
                assert(exact_quota_match(quota[k as int], target));
            }
        },
        None => {},
    }
}

/// When no quota item is named exactly like the model, the first item
/// whose reduced display name contains the reduced model name, or is
/// contained in it, is the model's quota item.
pub proof fn lemma_loose_quota_match_found(quota: Seq<QuotaItemView>, model: Seq<char>, res: Option<usize>, i: int)
    requires
        is_matching_quota(quota, model, res),
        0 <= i < quota.len(),
        forall|j: int|
            0 <= j < quota.len() ==> clean_name(#[trigger] quota[j].display_name) != clean_name(model)
                && clean_name(quota[j].id) != clean_name(model),
        occurs_in(clean_name(quota[i].display_name), clean_name(model)) || occurs_in(
            clean_name(model),
            clean_name(quota[i].display_name),
        ),
        forall|j: int|
            0 <= j < i ==> !occurs_in(clean_name(#[trigger] quota[j].display_name), clean_name(model))
                && !occurs_in(clean_name(model), clean_name(quota[j].display_name)),
    ensures
        res == Some(i as usize),
{
    let target = clean_name(model);
    assert(!exact_quota_match(quota[i], target));
    assert(loose_quota_match(quota[i], target));
    match res {
        Some(k) => {
            assert(clean_name(quota[k as int].display_name) != target);
            assert(!exact_quota_match(quota[k as int], target));
            if (k as int) < i {
                assert(!occurs_in(clean_name(quota[k as int].display_name), target));
                assert(!loose_quota_match(quota[k as int], target));
            }
        },
        None => {},
    }
}


/// The agent-mode badges: a name containing `grill` (in any case) shows
/// `[GRILLME]` in the critical colour; else one containing `plan` shows
/// `[PLAN]` in the accent colour; else one containing `goal` shows
/// `[GOAL]` in the success colour; any other name than `default`, `main`
/// or the empty one shows itself upper-cased in brackets in the accent
/// colour; without an agent name there is no badge.
pub proof fn lemma_mode_badges(t: &Theme, json: &InputJson)
    ensures
        json.agent is None ==> mode_widget(t, json) is None,
        json.agent matches Some(a) && a.name is None ==> mode_widget(t, json) is None,
        json.agent matches Some(a) && a.name matches Some(n) && occurs_in(lowercase(n@), "grill"@)
            ==> mode_widget(t, json) == Some(t.palette.critical@ + t.bold@ + "[GRILLME]"@ + t.reset@),
        json.agent matches Some(a) && a.name matches Some(n) && !occurs_in(lowercase(n@), "grill"@)
            && occurs_in(lowercase(n@), "plan"@) ==> mode_widget(t, json) == Some(
            t.palette.accent@ + t.bold@ + "[PLAN]"@ + t.reset@,
        ),
        json.agent matches Some(a) && a.name matches Some(n) && !occurs_in(lowercase(n@), "grill"@)
            && !occurs_in(lowercase(n@), "plan"@) && occurs_in(lowercase(n@), "goal"@) ==> mode_widget(t, json)
            == Some(t.palette.success@ + t.bold@ + "[GOAL]"@ + t.reset@),
        json.agent matches Some(a) && a.name matches Some(n) && !occurs_in(lowercase(n@), "grill"@)
            && !occurs_in(lowercase(n@), "plan"@) && !occurs_in(lowercase(n@), "goal"@) && lowercase(n@)
            != "default"@ && lowercase(n@) != "main"@ && lowercase(n@).len() > 0 ==> mode_widget(t, json) == Some(
            t.palette.accent@ + t.bold@ + "["@ + uppercase(json.agent.unwrap().name.unwrap()@) + "]"@ + t.reset@,
        ),
{
}

/// The cache widget, when shown, reads `rd:` and `/wr:` with the
/// formatted cache-read and cache-write counts, in the accent colour and
/// bold, after the icon and the `cache` label.
pub proof fn lemma_cache_widget_text(t: &Theme, json: &InputJson, step: usize, x: &MetricExtras)
    ensures
        cache_widget(t, json, step, x) is Some ==> cache_widget(t, json, step, x) == Some(
            t.palette.label@ + t.icons.cache@ + t.palette.label@ + "cache"@ + t.reset@ + " "@ + t.palette.accent@
                + t.bold@ + "rd:"@ + x.cache_read@ + "/wr:"@ + x.cache_create@ + t.reset@,
        ),
{
}

/// A model gets no quota item only when no item is named like it and no
/// item's reduced display name contains, or is contained in, the reduced
/// model name; a found item is always one of the list.
pub proof fn lemma_no_quota_match(quota: Seq<QuotaItemView>, model: Seq<char>, res: Option<usize>)
    requires
        is_matching_quota(quota, model, res),
    ensures
        res matches Some(k) ==> k < quota.len(),
        res is None <==> forall|j: int|
            0 <= j < quota.len() ==> clean_name(#[trigger] quota[j].display_name) != clean_name(model)
                && clean_name(quota[j].id) != clean_name(model) && !occurs_in(
                clean_name(quota[j].display_name),
                clean_name(model),
            ) && !occurs_in(clean_name(model), clean_name(quota[j].display_name)),
{
    let target = clean_name(model);
    if res is None {
        assert forall|j: int| 0 <= j < quota.len() implies clean_name(#[trigger] quota[j].display_name) != target
            && clean_name(quota[j].id) != target && !occurs_in(clean_name(quota[j].display_name), target)
            && !occurs_in(target, clean_name(quota[j].display_name)) by {
            assert(!exact_quota_match(quota[j], target));
            assert(!loose_quota_match(quota[j], target));
        }
    } else {
        let k = res.unwrap() as int;
        if forall|j: int|
            0 <= j < quota.len() ==> clean_name(#[trigger] quota[j].display_name) != target
                && clean_name(quota[j].id) != target && !occurs_in(clean_name(quota[j].display_name), target)
                && !occurs_in(target, clean_name(quota[j].display_name)) {
            assert(clean_name(quota[k].display_name) != target);
            assert(!exact_quota_match(quota[k], target));
            assert(!loose_quota_match(quota[k], target));
        }
    }
}

} // verus!
