//! Decisions of the background refresh: whether the quota must be fetched
//! again, what a quota response does to the cache, and how the output of
//! `git` becomes the stored git status.

use vstd::prelude::*;
use vstd::string::*;
use crate::text::{
    count_nonblank_lines, decode_utf8_lossy, lossy_text, nonblank_lines, parse_u32, parsed_u32,
    split_words, words,
};
use crate::types::{CacheData, CacheDataView, QuotaItem, QuotaItemView, VcsInfo, VcsInfoView};

verus! {

/// Seconds after which the quota is fetched again.
pub const QUOTA_MAX_AGE_SECS: u64 = 120;

/// Compares two optional texts by their characters.
pub fn same_optional_text(a: &Option<String>, b: &Option<String>) -> (res: bool)
    ensures
        res == (a.deep_view() == b.deep_view()),
{
    match (a, b) {
        (Some(x), Some(y)) => *x == *y,
        (None, None) => true,
        _ => false,
    }
}

/// Copies an optional text.
pub fn copy_optional_text(a: &Option<String>) -> (res: Option<String>)
    ensures
        res.deep_view() == a.deep_view(),
{
    match a {
        Some(x) => Some(x.clone()),
        None => None,
    }
}

/// `now - then`, or zero when `then` is later.
pub open spec fn age(now: u64, then: u64) -> u64 {
    if now >= then {
        (now - then) as u64
    } else {
        0
    }
}

/// Whether the quota must be fetched: only with a token, and then when no
/// quota is cached, the cached one is older than two minutes, the
/// configuration changed after the cache was written, or the token is not
/// the one the cache was fetched with.
pub open spec fn needs_quota_fetch(
    old: CacheDataView,
    now: u64,
    token_hash: Option<Seq<char>>,
    last_config_update: u64,
    cache_modified_secs: u64,
) -> bool {
    &&& token_hash is Some
    &&& {
        ||| old.quota.len() == 0
        ||| age(now, old.last_refreshed) > QUOTA_MAX_AGE_SECS
        ||| last_config_update > cache_modified_secs
        ||| token_hash != old.token_hash
    }
}

/// The cache after the first step of a refresh. Without a token the
/// cache records that a login is needed and drops the quota; with a token
/// that differs from the cached one the login state becomes unknown.
pub open spec fn planned_cache(old: CacheDataView, now: u64, token_hash: Option<Seq<char>>) -> CacheDataView {
    if token_hash is None {
        CacheDataView {
            quota: Seq::empty(),
            token_hash: None,
            needs_login: Some(true),
            last_refreshed: now,
            ..old
        }
    } else if token_hash != old.token_hash {
        CacheDataView { needs_login: None, ..old }
    } else {
        old
    }
}

/// First step of a background refresh. `current_token_hash` is the hash
/// of the access token, absent when there is none. Updates the cache as
/// [`planned_cache`] says and tells whether the quota must be fetched.
pub fn plan_refresh(
    cache: &mut CacheData,
    now: u64,
    current_token_hash: &Option<String>,
    last_config_update: u64,
    cache_modified_secs: u64,
) -> (need_quota_fetch: bool)
    ensures
        need_quota_fetch == needs_quota_fetch(
            old(cache)@,
            now,
            current_token_hash.deep_view(),
            last_config_update,
            cache_modified_secs,
        ),
        final(cache)@ == planned_cache(old(cache)@, now, current_token_hash.deep_view()),
{
    let token_changed = !same_optional_text(current_token_hash, &cache.token_hash);
    if token_changed {
        cache.needs_login = None;
    }
    let quota_age = now.saturating_sub(cache.last_refreshed);
    let need_quota_fetch = (cache.quota.len() == 0 || quota_age > QUOTA_MAX_AGE_SECS
        || last_config_update > cache_modified_secs || token_changed)
        && current_token_hash.is_some();
    if current_token_hash.is_none() {
        cache.token_hash = None;
        cache.needs_login = Some(true);
        cache.last_refreshed = now;
        cache.quota.clear();
    }
    proof {
        if current_token_hash is None {
            assert(cache@.quota =~= Seq::<QuotaItemView>::empty());
        }
    }
    need_quota_fetch
}

/// One model of a quota response: its key, its display name when the
/// response gives one as text, whether it has quota information, and
/// from that information the bit pattern of the remaining fraction and
/// the reset time, when given.
pub struct ModelEntry {
    pub key: String,
    pub display_name: Option<String>,
    pub has_quota_info: bool,
    pub remaining_fraction_bits: Option<u64>,
    pub reset_time: Option<String>,
}

/// Spec-level picture of a [`ModelEntry`].
pub struct ModelEntryView {
    pub key: Seq<char>,
    pub display_name: Option<Seq<char>>,
    pub has_quota_info: bool,
    pub remaining_fraction_bits: Option<u64>,
    pub reset_time: Option<Seq<char>>,
}

impl View for ModelEntry {
    type V = ModelEntryView;

    open spec fn view(&self) -> ModelEntryView {
        ModelEntryView {
            key: self.key@,
            display_name: self.display_name.deep_view(),
            has_quota_info: self.has_quota_info,
            remaining_fraction_bits: self.remaining_fraction_bits,
            reset_time: self.reset_time.deep_view(),
        }
    }
}

/// The quota item of a model: its key is the id, the display name
/// defaults to the key, a missing fraction counts as zero.
pub open spec fn entry_item(e: ModelEntryView) -> QuotaItemView {
    QuotaItemView {
        id: e.key,
        display_name: match e.display_name {
            Some(n) => n,
            None => e.key,
        },
        remaining_fraction_bits: match e.remaining_fraction_bits {
            Some(b) => b,
            None => 0,
        },
        reset_time: e.reset_time,
    }
}

/// The quota items of the models that have quota information, in order.
pub open spec fn quota_items_of(entries: Seq<ModelEntryView>) -> Seq<QuotaItemView>
    decreases entries.len(),
{
    if entries.len() == 0 {
        Seq::empty()
    } else {
        let rest = quota_items_of(entries.drop_last());
        if entries.last().has_quota_info {
            rest.push(entry_item(entries.last()))
        } else {
            rest
        }
    }
}

/// Builds the quota list from the models of a response.
pub fn quota_items_from_models(entries: &Vec<ModelEntry>) -> (res: Vec<QuotaItem>)
    ensures
        res@.map_values(|q: QuotaItem| q@) == quota_items_of(entries@.map_values(|e: ModelEntry| e@)),
{
    let mut res: Vec<QuotaItem> = Vec::new();
    let mut i: usize = 0;
    while i < entries.len()
        invariant
            i <= entries@.len(),
            res@.map_values(|q: QuotaItem| q@) == quota_items_of(
                entries@.map_values(|e: ModelEntry| e@).take(i as int),
            ),
        decreases entries@.len() - i,
    {
        let e = &entries[i];
        let ghost before = res@;
        let ghost pre = entries@.map_values(|e: ModelEntry| e@).take(i as int);
        let ghost cur = entries@.map_values(|e: ModelEntry| e@).take(i + 1);
        assert(cur.drop_last() =~= pre);
        assert(cur.last() == e@);
        if e.has_quota_info {
            let display_name = match &e.display_name {
                Some(n) => n.clone(),
                None => e.key.clone(),
            };
            let item = QuotaItem {
                id: e.key.clone(),
                display_name,
                remaining_fraction_bits: match e.remaining_fraction_bits {
                    Some(b) => b,
                    None => 0,
                },
                reset_time: copy_optional_text(&e.reset_time),
            };
            res.push(item);
            assert(res@.map_values(|q: QuotaItem| q@) =~= before.map_values(|q: QuotaItem| q@).push(
                entry_item(e@),
            ));
        }
        i = i + 1;
    }
    assert(entries@.map_values(|e: ModelEntry| e@).take(entries@.len() as int) =~= entries@.map_values(
        |e: ModelEntry| e@,
    ));
    res
}

/// How an HTTP status of the quota service is handled.
pub enum QuotaStatus {
    /// 200: the body holds the models.
    Success,
    /// 401 or 403: the token is not accepted.
    Denied,
    /// Anything else.
    Other,
}

/// Classifies an HTTP status of the quota service.
pub fn classify_quota_status(status: u16) -> (res: QuotaStatus)
    ensures
        status == 200 ==> res is Success,
        (status == 401 || status == 403) ==> res is Denied,
        status != 200 && status != 401 && status != 403 ==> res is Other,
{
    if status == 200 {
        QuotaStatus::Success
    } else if status == 401 || status == 403 {
        QuotaStatus::Denied
    } else {
        QuotaStatus::Other
    }
}

/// The outcome of one quota request.
pub enum QuotaFetch {
    /// A successful response whose body holds an object of models.
    Models(Vec<ModelEntry>),
    /// The service refused the token.
    Denied,
    /// No usable answer: a transport error, another status, or a body
    /// without models.
    Failed,
}

/// The cache after a quota request: a list of models replaces the quota
/// and records that no login is needed; a refusal empties the quota and
/// records that a login is needed; both remember the token's hash. Every
/// outcome stamps the refresh time.
pub open spec fn cache_after_fetch(
    old: CacheDataView,
    fetch: QuotaFetch,
    token_hash: Option<Seq<char>>,
    now: u64,
) -> CacheDataView {
    match fetch {
        QuotaFetch::Models(entries) => CacheDataView {
            needs_login: Some(false),
            token_hash: token_hash,
            quota: quota_items_of(entries@.map_values(|e: ModelEntry| e@)),
            last_refreshed: now,
            ..old
        },
        QuotaFetch::Denied => CacheDataView {
            needs_login: Some(true),
            token_hash: token_hash,
            quota: Seq::empty(),
            last_refreshed: now,
            ..old
        },
        QuotaFetch::Failed => CacheDataView { last_refreshed: now, ..old },
    }
}

/// Applies the outcome of a quota request to the cache.
pub fn apply_quota_fetch(
    cache: &mut CacheData,
    fetch: QuotaFetch,
    current_token_hash: &Option<String>,
    now: u64,
)
    ensures
        final(cache)@ == cache_after_fetch(old(cache)@, fetch, current_token_hash.deep_view(), now),
{
    match &fetch {
        QuotaFetch::Models(entries) => {
            let quota = quota_items_from_models(entries);
            cache.needs_login = Some(false);
            cache.token_hash = copy_optional_text(current_token_hash);
            cache.quota = quota;
            cache.last_refreshed = now;
        },
        QuotaFetch::Denied => {
            cache.needs_login = Some(true);
            cache.token_hash = copy_optional_text(current_token_hash);
            cache.quota.clear();
            cache.last_refreshed = now;
            assert(cache@.quota =~= Seq::<QuotaItemView>::empty());
        },
        QuotaFetch::Failed => {
            cache.last_refreshed = now;
        },
    }
}


/// The ahead/behind counts that `git rev-list --left-right --count`
/// printed: two white-space separated numbers; a number that does not
/// parse counts as zero, and so does everything when there are not
/// exactly two words.
pub open spec fn ahead_behind(out: Seq<u8>) -> (u32, u32) {
    let w = words(lossy_text(out));
    if w.len() == 2 {
        (
            match parsed_u32(w[0]) {
                Some(a) => a,
                None => 0,
            },
            match parsed_u32(w[1]) {
                Some(b) => b,
                None => 0,
            },
        )
    } else {
        (0, 0)
    }
}

/// The git status stored for a directory. `branch` is the current branch
/// when one was found; only then do the outputs of `git status
/// --porcelain` (its standard output, when the command ran) and of `git
/// rev-list` (whether it succeeded, and its standard output) and of `git
/// diff --shortstat HEAD` (its standard output) count. The number of
/// non-blank status lines is the number of modified entries.
pub open spec fn git_status_view(
    cwd: Seq<char>,
    branch: Option<Seq<char>>,
    status_out: Option<Seq<u8>>,
    rev_list: Option<(bool, Seq<u8>)>,
    shortstat: Option<Seq<u8>>,
    now: u64,
) -> VcsInfoView {
    let modified: u32 = match (branch, status_out) {
        (Some(_), Some(out)) => nonblank_lines(lossy_text(out), false) as u32,
        _ => 0,
    };
    let counts: (u32, u32) = match (branch, rev_list) {
        (Some(_), Some((true, out))) => ahead_behind(out),
        _ => (0, 0),
    };
    let changes: (u32, u32) = match (branch, shortstat) {
        (Some(_), Some(out)) => diff_stat(out),
        _ => (0, 0),
    };
    VcsInfoView {
        cwd: cwd,
        branch: match branch {
            Some(b) => b,
            None => Seq::empty(),
        },
        dirty: modified > 0,
        ahead: counts.0,
        behind: counts.1,
        modified: modified,
        last_checked: now,
        head_mtime: None,
        index_mtime: None,
        remote_web_url: None,
        insertions: changes.0,
        deletions: changes.1,
    }
}

/// Reads the ahead/behind counts from the output of `git rev-list`.
pub fn parse_ahead_behind(out: &[u8]) -> (res: (u32, u32))
    ensures
        res == ahead_behind(out@),
{
    let text = decode_utf8_lossy(out);
    let parts = split_words(text.as_str());
    if parts.len() == 2 {
        proof {
            assert(parts@.map_values(|w: String| w@)[0] == parts@[0]@);
            assert(parts@.map_values(|w: String| w@)[1] == parts@[1]@);
        }
        let a = match parse_u32(parts[0].as_str()) {
            Some(a) => a,
            None => 0,
        };
        let b = match parse_u32(parts[1].as_str()) {
            Some(b) => b,
            None => 0,
        };
        (a, b)
    } else {
        (0, 0)
    }
}

/// The number that `git diff --shortstat` printed before the first word
/// that begins with `label` (`insertion` or `deletion`, in the singular or
/// the plural); zero when no such word follows a word, or when the word
/// before it is not a number.
pub open spec fn labelled_count(w: Seq<Seq<char>>, label: Seq<char>) -> u32
    decreases w.len(),
{
    if w.len() < 2 {
        0
    } else if label.is_prefix_of(w[1]) {
        match parsed_u32(w[0]) {
            Some(n) => n,
            None => 0,
        }
    } else {
        labelled_count(w.drop_first(), label)
    }
}

/// The lines added and removed that `git diff --shortstat` reported, as
/// in ` 3 files changed, 12 insertions(+), 5 deletions(-)`.
pub open spec fn diff_stat(out: Seq<u8>) -> (u32, u32) {
    let w = words(lossy_text(out));
    (labelled_count(w, "insertion"@), labelled_count(w, "deletion"@))
}

/// Whether `w` begins with `label`.
pub fn begins_with(w: &str, label: &str) -> (res: bool)
    ensures
        res == label@.is_prefix_of(w@),
{
    let n = label.unicode_len();
    if n > w.unicode_len() {
        return false;
    }
    let mut i: usize = 0;
    while i < n
        invariant
            i <= n,
            n == label@.len(),
            n <= w@.len(),
            forall|k: int| 0 <= k < i ==> label@[k] == w@[k],
        decreases n - i,
    {
        if label.get_char(i) != w.get_char(i) {
            return false;
        }
        i = i + 1;
    }
    true
}

/// Finds the number before the first word that begins with `label`.
pub fn find_labelled_count(ws: &Vec<String>, label: &str) -> (res: u32)
    ensures
        res == labelled_count(ws@.map_values(|w: String| w@), label@),
{
    let ghost all = ws@.map_values(|w: String| w@);
    let n = ws.len();
    let mut i: usize = 0;
    assert(all.skip(0) =~= all);
    while n - i > 1
        invariant
            i <= n,
            n == ws@.len(),
            all == ws@.map_values(|w: String| w@),
            labelled_count(all, label@) == labelled_count(all.skip(i as int), label@),
        decreases n - i,
    {
        let ghost rest = all.skip(i as int);
        assert(rest[0] == ws@[i as int]@);
        assert(rest[1] == ws@[i + 1]@);
        if begins_with(ws[i + 1].as_str(), label) {
            return match parse_u32(ws[i].as_str()) {
                Some(v) => v,
                None => 0,
            };
        }
        assert(rest.drop_first() =~= all.skip(i + 1));
        i = i + 1;
    }
    0
}

/// Reads the lines added and removed from the output of `git diff
/// --shortstat`.
pub fn parse_diff_stat(out: &[u8]) -> (res: (u32, u32))
    ensures
        res == diff_stat(out@),
{
    let text = decode_utf8_lossy(out);
    let parts = split_words(text.as_str());
    let ins = find_labelled_count(&parts, "insertion");
    let del = find_labelled_count(&parts, "deletion");
    (ins, del)
}

/// Builds the git status of `cwd` from what `git` reported.
pub fn git_status(
    cwd: &str,
    branch: Option<String>,
    status_out: Option<&[u8]>,
    rev_list: Option<(bool, &[u8])>,
    shortstat: Option<&[u8]>,
    now: u64,
) -> (res: VcsInfo)
    ensures
        res@ == git_status_view(
            cwd@,
            branch.deep_view(),
            match status_out {
                Some(o) => Some(o@),
                None => None,
            },
            match rev_list {
                Some((ok, o)) => Some((ok, o@)),
                None => None,
            },
            match shortstat {
                Some(o) => Some(o@),
                None => None,
            },
            now,
        ),
{
    let mut git_branch = String::new();
    let mut dirty = false;
    let mut ahead: u32 = 0;
    let mut behind: u32 = 0;
    let mut modified: u32 = 0;
    let mut insertions: u32 = 0;
    let mut deletions: u32 = 0;
    if let Some(b) = branch {
        git_branch = b;
        if let Some(out) = status_out {
            let text = decode_utf8_lossy(out);
            let count = count_nonblank_lines(text.as_str()) as u32;
            dirty = count > 0;
            modified = count;
        }
        if let Some((ok, out)) = rev_list {
            if ok {
                let (a, b) = parse_ahead_behind(out);
                ahead = a;
                behind = b;
            }
        }
        if let Some(out) = shortstat {
            let (i, d) = parse_diff_stat(out);
            insertions = i;
            deletions = d;
        }
    }
    VcsInfo {
        cwd: String::from_str(cwd),
        branch: git_branch,
        dirty,
        ahead,
        behind,
        modified,
        last_checked: now,
        head_mtime: None,
        index_mtime: None,
        remote_web_url: None,
        insertions,
        deletions,
    }
}


/// A quota list that was just fetched is not fetched again for two
/// minutes: with the same token, no newer configuration and at least one
/// model in the list, the next refresh within 120 seconds needs no fetch.
pub proof fn lemma_fresh_quota_not_refetched(
    old: CacheDataView,
    entries: Vec<ModelEntry>,
    token_hash: Option<Seq<char>>,
    fetched_at: u64,
    now: u64,
    last_config_update: u64,
    cache_modified_secs: u64,
)
    requires
        quota_items_of(entries@.map_values(|e: ModelEntry| e@)).len() > 0,
        fetched_at <= now <= fetched_at + QUOTA_MAX_AGE_SECS,
        last_config_update <= cache_modified_secs,
    ensures
        !needs_quota_fetch(
            cache_after_fetch(old, QuotaFetch::Models(entries), token_hash, fetched_at),
            now,
            token_hash,
            last_config_update,
            cache_modified_secs,
        ),
{
}

/// Without a token no quota is fetched, and the cache then says that a
/// login is needed and holds no quota.
pub proof fn lemma_no_token_means_login(
    old: CacheDataView,
    now: u64,
    last_config_update: u64,
    cache_modified_secs: u64,
)
    ensures
        !needs_quota_fetch(old, now, None, last_config_update, cache_modified_secs),
        planned_cache(old, now, None).needs_login == Some(true),
        planned_cache(old, now, None).quota.len() == 0,
{
}

/// A refused token leaves the cache asking for a login with no quota,
/// and the hash of the refused token remembered.
pub proof fn lemma_denied_asks_login(old: CacheDataView, token_hash: Option<Seq<char>>, now: u64)
    ensures
        cache_after_fetch(old, QuotaFetch::Denied, token_hash, now).needs_login == Some(true),
        cache_after_fetch(old, QuotaFetch::Denied, token_hash, now).quota.len() == 0,
        cache_after_fetch(old, QuotaFetch::Denied, token_hash, now).token_hash == token_hash,
{
}


/// A token other than the one the quota was fetched with always triggers
/// a fetch and makes the login state unknown until the fetch answers.
pub proof fn lemma_new_token_refetches(
    old: CacheDataView,
    now: u64,
    token_hash: Seq<char>,
    last_config_update: u64,
    cache_modified_secs: u64,
)
    requires
        old.token_hash != Some(token_hash),
    ensures
        needs_quota_fetch(old, now, Some(token_hash), last_config_update, cache_modified_secs),
        planned_cache(old, now, Some(token_hash)).needs_login == None::<bool>,
        planned_cache(old, now, Some(token_hash)).quota == old.quota,
{
}

} // verus!



