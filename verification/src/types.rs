//! The data the status line reads: the JSON that the CLI pipes in, the
//! refresh cache, the lock record and the user configuration.

use vstd::prelude::*;
use vstd::string::*;
use crate::text::{trim_text, trim_ws};

verus! {

/// Directories of the session.
pub struct Workspace {
    pub current_dir: Option<String>,
    pub project_dir: Option<String>,
}

/// The model in use.
pub struct ModelInfo {
    pub id: Option<String>,
    pub display_name: Option<String>,
}

/// Token counts of the last request.
pub struct CurrentUsage {
    pub cache_read_input_tokens: Option<u64>,
    pub cache_creation_input_tokens: Option<u64>,
    pub input_tokens: Option<u64>,
    pub output_tokens: Option<u64>,
}

/// Context-window usage. The two percentages are floating-point numbers
/// in the input; they are held here as the IEEE-754 bit patterns of those
/// `f64` values (`f64::to_bits`), which is all the library carries of them.
pub struct ContextWindow {
    pub used_percentage_bits: Option<u64>,
    pub remaining_percentage_bits: Option<u64>,
    pub total_input_tokens: Option<u64>,
    pub total_output_tokens: Option<u64>,
    pub context_window_size: Option<u64>,
    pub current_usage: Option<CurrentUsage>,
}

/// Sandbox settings.
pub struct SandboxInfo {
    pub enabled: Option<bool>,
    pub allow_network: Option<bool>,
}

/// The active agent.
pub struct AgentInfo {
    pub name: Option<String>,
    pub role: Option<String>,
    pub status: Option<String>,
}

/// Version-control facts that the CLI itself reports.
pub struct InputVcsInfo {
    pub vcs_type: Option<String>,
    pub client: Option<String>,
    pub branch: Option<String>,
    pub dirty: Option<bool>,
}

/// The JSON object piped in by the CLI. Of the three lists of opaque JSON
/// values (`artifacts`, `subagents`, `background_tasks`) only the number
/// of entries is read, so that number is what is held.
pub struct InputJson {
    pub agent_state: Option<String>,
    pub model: Option<ModelInfo>,
    pub workspace: Option<Workspace>,
    pub cwd: Option<String>,
    pub context_window: Option<ContextWindow>,
    pub sandbox: Option<SandboxInfo>,
    pub agent: Option<AgentInfo>,
    pub vcs: Option<InputVcsInfo>,
    pub product: Option<String>,
    pub artifacts: Option<usize>,
    pub artifact_count: Option<u32>,
    pub subagents: Option<usize>,
    pub background_tasks: Option<usize>,
    pub task_count: Option<u32>,
    pub tool_confirmation_pending: Option<bool>,
    pub pending_input_count: Option<u32>,
    pub plan_tier: Option<String>,
    pub email: Option<String>,
    pub version: Option<String>,
    pub conversation_id: Option<String>,
    pub terminal_width: Option<usize>,
}

/// Remaining quota of one model. `remaining_fraction_bits` is the bit
/// pattern of the `f64` fraction (`f64::to_bits`).
pub struct QuotaItem {
    pub id: String,
    pub display_name: String,
    pub remaining_fraction_bits: u64,
    pub reset_time: Option<String>,
}

/// Spec-level picture of a [`QuotaItem`].
pub struct QuotaItemView {
    pub id: Seq<char>,
    pub display_name: Seq<char>,
    pub remaining_fraction_bits: u64,
    pub reset_time: Option<Seq<char>>,
}

impl View for QuotaItem {
    type V = QuotaItemView;

    open spec fn view(&self) -> QuotaItemView {
        QuotaItemView {
            id: self.id@,
            display_name: self.display_name@,
            remaining_fraction_bits: self.remaining_fraction_bits,
            reset_time: self.reset_time.deep_view(),
        }
    }
}

/// Git status of the working directory, as last collected.
pub struct VcsInfo {
    pub cwd: String,
    pub branch: String,
    pub dirty: bool,
    pub ahead: u32,
    pub behind: u32,
    pub modified: u32,
    pub last_checked: u64,
    pub head_mtime: Option<u64>,
    pub index_mtime: Option<u64>,
    pub remote_web_url: Option<String>,
    pub insertions: u32,
    pub deletions: u32,
}

/// Spec-level picture of a [`VcsInfo`].
pub struct VcsInfoView {
    pub cwd: Seq<char>,
    pub branch: Seq<char>,
    pub dirty: bool,
    pub ahead: u32,
    pub behind: u32,
    pub modified: u32,
    pub last_checked: u64,
    pub head_mtime: Option<u64>,
    pub index_mtime: Option<u64>,
    pub remote_web_url: Option<Seq<char>>,
    pub insertions: u32,
    pub deletions: u32,
}

impl View for VcsInfo {
    type V = VcsInfoView;

    open spec fn view(&self) -> VcsInfoView {
        VcsInfoView {
            cwd: self.cwd@,
            branch: self.branch@,
            dirty: self.dirty,
            ahead: self.ahead,
            behind: self.behind,
            modified: self.modified,
            last_checked: self.last_checked,
            head_mtime: self.head_mtime,
            index_mtime: self.index_mtime,
            remote_web_url: self.remote_web_url.deep_view(),
            insertions: self.insertions,
            deletions: self.deletions,
        }
    }
}

/// The refresh cache: model quotas, git status and login state.
pub struct CacheData {
    pub quota: Vec<QuotaItem>,
    pub vcs: Option<VcsInfo>,
    pub last_refreshed: u64,
    pub token_hash: Option<String>,
    pub needs_login: Option<bool>,
}

/// Spec-level picture of a [`CacheData`].
pub struct CacheDataView {
    pub quota: Seq<QuotaItemView>,
    pub vcs: Option<VcsInfoView>,
    pub last_refreshed: u64,
    pub token_hash: Option<Seq<char>>,
    pub needs_login: Option<bool>,
}

impl View for CacheData {
    type V = CacheDataView;

    open spec fn view(&self) -> CacheDataView {
        CacheDataView {
            quota: self.quota@.map_values(|q: QuotaItem| q@),
            vcs: match self.vcs {
                Some(v) => Some(v@),
                None => None,
            },
            last_refreshed: self.last_refreshed,
            token_hash: self.token_hash.deep_view(),
            needs_login: self.needs_login,
        }
    }
}

/// The lock record of a running refresh.
pub struct LockContent {
    pub pid: u32,
    pub time: u64,
    pub cwd: String,
}

/// User settings: the colour theme, which parts of the status line are
/// shown, and the aliases of the saved accounts.
pub struct UserConfig {
    pub theme: String,
    pub show_vcs: bool,
    pub show_quota: bool,
    pub show_context: bool,
    pub show_settings: bool,
    pub saved_accounts: Vec<String>,
}

/// Name of the colour theme used when the configuration names none.
pub fn default_theme() -> (res: String)
    ensures
        res@ == "frost"@,
{
    String::from_str("frost")
}

impl Default for UserConfig {
    fn default() -> (res: Self)
        ensures
            res.theme@ == "frost"@,
            res.show_vcs,
            res.show_quota,
            res.show_context,
            res.show_settings,
            res.saved_accounts@.len() == 0,
    {
        UserConfig {
            theme: default_theme(),
            show_vcs: true,
            show_quota: true,
            show_context: true,
            show_settings: true,
            saved_accounts: Vec::new(),
        }
    }
}


/// The JSON text that the CLI piped in, made ready for parsing: white
/// space trimmed, then a leading byte-order mark removed; `None` when
/// nothing is left.
pub open spec fn input_payload(input: Seq<char>) -> Option<Seq<char>> {
    let t = trim_ws(input);
    let u = if t.len() > 0 && t[0] == '\u{feff}' {
        t.drop_first()
    } else {
        t
    };
    if u.len() == 0 {
        None
    } else {
        Some(u)
    }
}

/// Prepares the piped-in text for JSON parsing, as [`input_payload`]
/// says. Parsing it into an [`InputJson`] (and using the default value
/// when that fails) is left to the caller.
pub fn input_json_payload(input: &str) -> (res: Option<String>)
    ensures
        res.deep_view() == input_payload(input@),
{
    let t = trim_text(input);
    let n = t.as_str().unicode_len();
    if n == 0 {
        return None;
    }
    if t.as_str().get_char(0) == '\u{feff}' {
        if n == 1 {
            return None;
        }
        Some(String::from_str(t.as_str().substring_char(1, n)))
    } else {
        Some(t)
    }
}

} // verus!

