use statusline::layout::{first_steps, frame_rows, get_row_width, plan_layout, render_rows, row_limits, Layout};
use statusline::render::{
    file_url_text, hyperlink_text, model_quota_text,
    context_bar_layout, context_detail_text, context_widget_text, free_tokens, find_quota_item,
    get_info_widgets, get_metric_widgets, login_quota_text,
    quota_color_texts, quota_text_of, reset_suffix_text, Icons, InfoExtras, MetricExtras, Palette,
    StateTexts, Theme,
};
use statusline::types::{
    UserConfig, AgentInfo, CacheData, ContextWindow, CurrentUsage, InputJson, ModelInfo, QuotaItem, SandboxInfo, VcsInfo,
    Workspace,
};

fn s(x: &str) -> String {
    x.to_string()
}

fn theme() -> Theme {
    Theme {
        palette: Palette {
            label: s("<l>"),
            accent: s("<a>"),
            border: s("<b>"),
            warning: s("<w>"),
            critical: s("<c>"),
            success: s("<s>"),
        },
        states: StateTexts {
            ready: s("[READY]"),
            thinking: s("[THINKING]"),
            working: s("[WORKING]"),
            tool_use: s("[TOOL]"),
            default_state: s("[?]"),
        },
        icons: Icons {
            quota: s("Q "),
            path: s("P "),
            vcs: s("V "),
            context: s("C "),
            cache: s("K "),
            artifacts: s("A "),
            tasks: s("T "),
            sandbox: s("S "),
        },
        reset: s("<0>"),
        bold: s("<B>"),
    }
}

fn empty_json() -> InputJson {
    InputJson {
        agent_state: None,
        model: None,
        workspace: None,
        cwd: None,
        context_window: None,
        sandbox: None,
        agent: None,
        vcs: None,
        product: None,
        artifacts: None,
        artifact_count: None,
        subagents: None,
        background_tasks: None,
        task_count: None,
        tool_confirmation_pending: None,
        pending_input_count: None,
        plan_tier: None,
        email: None,
        version: None,
        conversation_id: None,
        terminal_width: None,
    }
}

fn empty_cache() -> CacheData {
    CacheData { quota: vec![], vcs: None, last_refreshed: 0, token_hash: None, needs_login: None }
}

fn config() -> UserConfig {
    UserConfig::default()
}

fn link(target: &str, text: &str) -> String {
    format!("\u{1b}]8;;{}\u{1b}\\{}\u{1b}]8;;\u{1b}\\", target, text)
}

fn extras() -> InfoExtras {
    InfoExtras {
        short_model_name: s("Large 3.5"),
        shortened_cwd: s("~/my-project"),
        quota_full: s("FULL"),
        quota_compact: s("COMPACT"),
    }
}

fn agent(name: Option<&str>, status: Option<&str>) -> AgentInfo {
    AgentInfo { name: name.map(s), role: None, status: status.map(s) }
}

#[test]
fn idle_state_only() {
    let w = get_info_widgets(&theme(), &empty_json(), &empty_cache(), 0, 200, &extras(), &config());
    assert_eq!(w, vec![s("[READY]")]);
}

#[test]
fn state_labels() {
    let t = theme();
    for (state, label) in [("thinking", "[THINKING]"), ("working", "[WORKING]"), ("tool_use", "[TOOL]"), ("other", "[?]")] {
        let mut j = empty_json();
        j.agent_state = Some(s(state));
        let w = get_info_widgets(&t, &j, &empty_cache(), 0, 200, &extras(), &config());
        assert_eq!(w[0], label);
    }
}

#[test]
fn pending_approval_wins() {
    let mut j = empty_json();
    j.agent_state = Some(s("thinking"));
    j.tool_confirmation_pending = Some(true);
    let w = get_info_widgets(&theme(), &j, &empty_cache(), 0, 200, &extras(), &config());
    assert_eq!(w[0], "<c><B>[WAITING APPROVAL]<0>");
}

#[test]
fn tool_status_in_capitals_and_cut() {
    let mut j = empty_json();
    j.agent_state = Some(s("tool_use"));
    j.agent = Some(agent(None, Some("reading a very long file")));
    let w = get_info_widgets(&theme(), &j, &empty_cache(), 0, 200, &extras(), &config());
    assert_eq!(w, vec![s("<a><B>[READING A VERY..]<0>")]);
    j.agent = Some(agent(None, Some("grep")));
    let w = get_info_widgets(&theme(), &j, &empty_cache(), 0, 200, &extras(), &config());
    assert_eq!(w, vec![s("<a><B>[GREP]<0>")]);
}

#[test]
fn agent_modes_and_status() {
    let t = theme();
    let mut j = empty_json();
    j.agent = Some(agent(Some("Grill-Me"), Some("busy")));
    let w = get_info_widgets(&t, &j, &empty_cache(), 0, 200, &extras(), &config());
    assert_eq!(w, vec![s("[READY]"), s("<c><B>[GRILLME]<0>"), s("<a>busy<0>")]);
    j.agent = Some(agent(Some("Planner"), None));
    assert_eq!(get_info_widgets(&t, &j, &empty_cache(), 0, 200, &extras(), &config())[1], "<a><B>[PLAN]<0>");
    j.agent = Some(agent(Some("goal-seeker"), None));
    assert_eq!(get_info_widgets(&t, &j, &empty_cache(), 0, 200, &extras(), &config())[1], "<s><B>[GOAL]<0>");
    j.agent = Some(agent(Some("scout"), Some("idle")));
    assert_eq!(get_info_widgets(&t, &j, &empty_cache(), 0, 200, &extras(), &config()), vec![s("[READY]"), s("<a><B>[SCOUT]<0>")]);
    j.agent = Some(agent(Some("Main"), None));
    assert_eq!(get_info_widgets(&t, &j, &empty_cache(), 0, 200, &extras(), &config()).len(), 1);
}

#[test]
fn counters() {
    let mut j = empty_json();
    j.subagents = Some(3);
    j.pending_input_count = Some(2);
    let w = get_info_widgets(&theme(), &j, &empty_cache(), 0, 200, &extras(), &config());
    assert_eq!(w, vec![s("[READY]"), s("<a>[+3 SUBAGENTS]<0>"), s("<w>> 2<0>")]);
}

#[test]
fn model_and_path_by_step() {
    let t = theme();
    let mut j = empty_json();
    j.model = Some(ModelInfo { id: None, display_name: Some(s("Orion Large 3.5")) });
    j.workspace = Some(Workspace { current_dir: Some(s("C:\\work\\my-project")), project_dir: None });
    let w = get_info_widgets(&t, &j, &empty_cache(), 0, 200, &extras(), &config());
    assert_eq!(w[1], "<a>Orion Large 3.5<0> <b>|<b> FULL");
    assert_eq!(w[2], format!("<l>{}<0>", link("file:///C:/work/my-project", "P ~/my-project")));
    let w = get_info_widgets(&t, &j, &empty_cache(), 3, 200, &extras(), &config());
    assert_eq!(w[2], format!("<l>{}<0>", link("file:///C:/work/my-project", "P my-project")));
    let w = get_info_widgets(&t, &j, &empty_cache(), 4, 200, &extras(), &config());
    assert_eq!(w[1], "<a>Large 3.5<0> <b>|<b> FULL");
    let w = get_info_widgets(&t, &j, &empty_cache(), 4, 70, &extras(), &config());
    assert_eq!(w[1], "<a>Large 3.5<0> <b>|<b> COMPACT");
    let w = get_info_widgets(&t, &j, &empty_cache(), 5, 200, &extras(), &config());
    assert_eq!(w.len(), 2);
    let mut x = extras();
    x.quota_full = s("");
    let w = get_info_widgets(&t, &j, &empty_cache(), 0, 200, &x, &config());
    assert_eq!(w[1], "<a>Orion Large 3.5<0>");
}

#[test]
fn session_cwd_is_the_fallback() {
    let mut j = empty_json();
    j.workspace = Some(Workspace { current_dir: None, project_dir: Some(s("/p")) });
    j.cwd = Some(s("/home/u/repo"));
    let w = get_info_widgets(&theme(), &j, &empty_cache(), 3, 200, &extras(), &config());
    assert_eq!(w[1], format!("<l>{}<0>", link("file:///home/u/repo", "P repo")));
}

fn vcs(branch: &str, dirty: bool, modified: u32, ahead: u32, behind: u32) -> VcsInfo {
    VcsInfo {
        cwd: s("/w"),
        branch: s(branch),
        dirty,
        ahead,
        behind,
        modified,
        last_checked: 0,
        head_mtime: None,
        index_mtime: None,
        remote_web_url: None,
        insertions: 0,
        deletions: 0,
    }
}

#[test]
fn git_widget() {
    let t = theme();
    let mut j = empty_json();
    j.cwd = Some(s("/w"));
    let mut c = empty_cache();
    c.vcs = Some(vcs("main", true, 3, 2, 1));
    let w = get_info_widgets(&t, &j, &c, 0, 200, &extras(), &config());
    assert_eq!(w[2], format!("<l>{}<w>*3 \u{2191}2\u{2193}1<0>", link("file:///w", "V main")));
    let w = get_info_widgets(&t, &j, &c, 4, 200, &extras(), &config());
    assert_eq!(w.len(), 3);
    assert_eq!(w[1], format!("<l>{}<0>", link("file:///w", "P w")));
    assert_eq!(w[2], format!("<l>{}<w>*<0>", link("file:///w", "V main")));
    c.vcs = Some(vcs("feature/very-long-name", false, 0, 0, 4));
    let w = get_info_widgets(&t, &j, &c, 0, 200, &extras(), &config());
    assert_eq!(w[2], format!("<l>{}<b> \u{2193}4<0>", link("file:///w", "V feature/very..")));
    let w = get_info_widgets(&t, &j, &c, 4, 200, &extras(), &config());
    assert_eq!(w[2], format!("<l>{}<0>", link("file:///w", "V feature/..")));
    c.vcs = Some(vcs("main", false, 0, 0, 0));
    let w = get_info_widgets(&t, &j, &c, 0, 200, &extras(), &config());
    assert_eq!(w[2], format!("<l>{}<0>", link("file:///w", "V main")));
    let w = get_info_widgets(&t, &j, &c, 6, 200, &extras(), &config());
    assert_eq!(w.len(), 1);
    j.cwd = Some(s("/other"));
    let w = get_info_widgets(&t, &j, &c, 0, 200, &extras(), &config());
    assert_eq!(w.len(), 2);
}

#[test]
fn git_widget_line_counts() {
    let t = theme();
    let mut j = empty_json();
    j.cwd = Some(s("/w"));
    let mut c = empty_cache();
    let mut v = vcs("main", true, 3, 0, 0);
    v.insertions = 12;
    v.deletions = 5;
    c.vcs = Some(v);
    let w = get_info_widgets(&t, &j, &c, 0, 200, &extras(), &config());
    assert_eq!(w[2], format!("<l>{}<w>* (+12/-5)<0>", link("file:///w", "V main")));
    // From step 4 on only the dirty mark stays.
    let w = get_info_widgets(&t, &j, &c, 4, 200, &extras(), &config());
    assert_eq!(w[2], format!("<l>{}<w>*<0>", link("file:///w", "V main")));
    let mut v = vcs("main", true, 2, 1, 0);
    v.insertions = 12;
    c.vcs = Some(v);
    let w = get_info_widgets(&t, &j, &c, 3, 200, &extras(), &config());
    assert_eq!(w[2], format!("<l>{}<w>* (+12/-0) \u{2191}1<0>", link("file:///w", "V main")));
}

fn metric_extras() -> MetricExtras {
    MetricExtras { context: s("CTX"), cache_read: s("1.2K"), cache_create: s("300") }
}

#[test]
fn metric_row() {
    let t = theme();
    let mut j = empty_json();
    j.context_window = Some(ContextWindow {
        used_percentage_bits: None,
        remaining_percentage_bits: None,
        total_input_tokens: Some(10),
        total_output_tokens: Some(5),
        context_window_size: Some(100),
        current_usage: Some(CurrentUsage {
            cache_read_input_tokens: Some(1200),
            cache_creation_input_tokens: Some(300),
            input_tokens: None,
            output_tokens: None,
        }),
    });
    j.artifacts = Some(4);
    j.task_count = Some(2);
    j.sandbox = Some(SandboxInfo { enabled: Some(true), allow_network: Some(false) });
    let w = get_metric_widgets(&t, &j, 0, &metric_extras(), &config());
    assert_eq!(
        w,
        vec![
            s("CTX"),
            s("<l>K <l>cache<0> <a><B>rd:1.2K/wr:300<0>"),
            s("<l>A <l>artifacts<0> <a><B>4<0>"),
            s("<l>T <l>tasks<0> <a><B>2<0>"),
            s("<l>S <l>sandbox<0> <s><B>ON(no-net)<0>"),
        ]
    );
    assert_eq!(get_metric_widgets(&t, &j, 3, &metric_extras(), &config()).len(), 4);
    assert_eq!(get_metric_widgets(&t, &j, 6, &metric_extras(), &config()).len(), 2);
    assert_eq!(get_metric_widgets(&t, &j, 11, &metric_extras(), &config()).len(), 0);
}

#[test]
fn cache_widget_without_writes() {
    let mut j = empty_json();
    j.context_window = Some(ContextWindow {
        used_percentage_bits: None,
        remaining_percentage_bits: None,
        total_input_tokens: None,
        total_output_tokens: None,
        context_window_size: None,
        current_usage: Some(CurrentUsage {
            cache_read_input_tokens: Some(5),
            cache_creation_input_tokens: None,
            input_tokens: None,
            output_tokens: None,
        }),
    });
    j.artifact_count = Some(1);
    j.background_tasks = Some(0);
    j.task_count = Some(9);
    let x = MetricExtras { context: s("CTX"), cache_read: s("5"), cache_create: s("0") };
    let w = get_metric_widgets(&theme(), &j, 0, &x, &config());
    assert_eq!(w, vec![s("CTX"), s("<l>K <l>cache<0> <a><B>rd:5/wr:0<0>"), s("<l>A <l>artifacts<0> <a><B>1<0>")]);
}

#[test]
fn context_bar_table() {
    assert_eq!(context_bar_layout(0), (10, 0));
    assert_eq!(context_bar_layout(4), (10, 0));
    assert_eq!(context_bar_layout(5), (8, 1));
    assert_eq!(context_bar_layout(6), (6, 2));
    assert_eq!(context_bar_layout(8), (5, 3));
    assert_eq!(context_bar_layout(9), (3, 3));
    assert_eq!(context_bar_layout(10), (0, 3));
}

fn q(id: &str, name: &str) -> QuotaItem {
    QuotaItem { id: s(id), display_name: s(name), remaining_fraction_bits: 0, reset_time: None }
}

#[test]
fn quota_matching() {
    let quota = vec![q("gemini-2.5-pro", "Gemini 2.5 Pro"), q("gemini-3.5-flash", "Gemini 3.5 Flash"), q("x", "Flash")];
    assert_eq!(find_quota_item(&quota, "Gemini 3.5 Flash"), Some(1));
    assert_eq!(find_quota_item(&quota, "GEMINI-2.5-PRO"), Some(0));
    assert_eq!(find_quota_item(&quota, "flash"), Some(2));
    assert_eq!(find_quota_item(&quota, "Gemini 3.5 Flash Lite"), Some(1));
    assert_eq!(find_quota_item(&quota, "Orion"), None);
    assert_eq!(find_quota_item(&vec![], "Orion"), None);
}

#[test]
fn quota_texts() {
    let t = theme();
    assert_eq!(login_quota_text(&t), "<l>Q <w><B>[LOGIN]<0>");
    assert_eq!(reset_suffix_text(&t, 1000 + 3 * 3600 + 12 * 60 + 5, 1000), " <l>(~3h12m)<0>");
    assert_eq!(reset_suffix_text(&t, 1000 + 26 * 3600, 1000), " <l>(~1d2h)<0>");
    assert_eq!(reset_suffix_text(&t, 1000 + 59, 1000), " <l>(~0m)<0>");
    assert_eq!(reset_suffix_text(&t, 1000, 1000), "");
    assert_eq!(quota_color_texts(&t, 20), (s("<c><B>"), s("<c>")));
    assert_eq!(quota_color_texts(&t, 50), (s("<w>"), s("<w>")));
    assert_eq!(quota_color_texts(&t, 51), (s("<s>"), s("<s>")));
    assert_eq!(quota_text_of(&t, 65, true, "BAR", ""), "<l>Q <s>65%<0>");
    assert_eq!(quota_text_of(&t, 10, true, "BAR", " x"), "<l>Q <c><B>10%<0> x");
    assert_eq!(quota_text_of(&t, 65, false, "[==]", " <l>(~1m)<0>"), "<l>Q [==] <l>(~1m)<0>");
}

#[test]
fn steps_and_limits() {
    assert_eq!(first_steps(200), (0, 0));
    assert_eq!(first_steps(130), (3, 0));
    assert_eq!(first_steps(100), (3, 5));
    assert_eq!(first_steps(70), (5, 6));
    assert_eq!(first_steps(40), (6, 6));
    assert_eq!(row_limits(100), (96, 95));
    assert_eq!(row_limits(60), (58, 58));
    assert_eq!(get_row_width(&vec![10, 20, 5], 3), 41);
    assert_eq!(get_row_width(&vec![], 3), 0);
    assert_eq!(get_row_width(&vec![7], 3), 7);
}

fn rows(widths: &[usize]) -> Vec<Vec<usize>> {
    widths.iter().map(|w| vec![*w]).collect()
}

#[test]
fn single_line_on_wide_terminals() {
    let info = rows(&[100, 90, 50, 40, 30, 20, 10]);
    let metric = rows(&[100, 80, 60, 50, 40, 30, 20, 10, 5, 4, 3, 2]);
    // step 1: 90 + 80 + 3 = 173 <= 196
    assert!(matches!(plan_layout(200, &info, &metric), Layout::SingleLine(1)));
    assert!(matches!(plan_layout(160, &info, &metric), Layout::SingleLine(2)));
}

#[test]
fn two_rows_when_one_line_does_not_fit() {
    let info = rows(&[100, 90, 50, 40, 30, 20, 10]);
    let metric = rows(&[100, 80, 60, 50, 40, 30, 20, 10, 5, 4, 3, 2]);
    match plan_layout(100, &info, &metric) {
        Layout::Rows(i, m) => assert_eq!((i, m), (3, 5)),
        _ => panic!("expected two rows"),
    }
    match plan_layout(30, &info, &metric) {
        Layout::Rows(i, m) => assert_eq!((i, m), (6, 6)),
        _ => panic!("expected two rows"),
    }
    match plan_layout(5, &info, &metric) {
        Layout::Rows(i, m) => assert_eq!((i, m), (6, 10)),
        _ => panic!("expected two rows"),
    }
}

#[test]
fn framing() {
    let r = vec![s("a"), s("b"), s("c")];
    assert_eq!(
        frame_rows(&r, 120, "<b>", "<0>"),
        vec![s("<b>\u{256d}\u{2500}<0> a"), s("<b>\u{251c}\u{2500}<0> b"), s("<b>\u{2570}\u{2500}<0> c")]
    );
    assert_eq!(frame_rows(&vec![s("a")], 80, "<b>", "<0>"), vec![s("<b>\u{256d}\u{2500}<0> a")]);
    assert_eq!(frame_rows(&r, 79, "<b>", "<0>"), r);
    assert!(frame_rows(&vec![], 120, "<b>", "<0>").is_empty());
}

#[test]
fn rows_of_a_layout() {
    let info = vec![vec![s("a"), s("b")], vec![s("c")]];
    let metric = vec![vec![s("x")], vec![]];
    assert_eq!(render_rows(&Layout::SingleLine(0), &info, &metric, " | "), vec![s("a | b | x")]);
    assert_eq!(render_rows(&Layout::Rows(1, 0), &info, &metric, " | "), vec![s("c"), s("x")]);
    assert_eq!(render_rows(&Layout::Rows(0, 1), &info, &metric, " | "), vec![s("a | b")]);
}

#[test]
fn denser_steps_show_fewer_widgets() {
    let t = theme();
    let mut j = empty_json();
    j.model = Some(ModelInfo { id: None, display_name: Some(s("Gemini 3.5 Flash")) });
    j.cwd = Some(s("/w"));
    j.artifacts = Some(2);
    j.task_count = Some(1);
    j.sandbox = Some(SandboxInfo { enabled: Some(true), allow_network: Some(true) });
    let mut c = empty_cache();
    c.vcs = Some(vcs("main", false, 0, 0, 0));
    let info: Vec<usize> = (0..=6).map(|st| get_info_widgets(&t, &j, &c, st, 100, &extras(), &config()).len()).collect();
    assert_eq!(info, vec![4, 4, 4, 4, 4, 3, 2]);
    let metric: Vec<usize> = (0..=11).map(|st| get_metric_widgets(&t, &j, st, &metric_extras(), &config()).len()).collect();
    assert_eq!(metric, vec![4, 4, 4, 4, 3, 3, 2, 2, 1, 1, 1, 0]);
}

#[test]
fn hyperlinks_and_file_urls() {
    assert_eq!(hyperlink_text("https://x", "t"), "\u{1b}]8;;https://x\u{1b}\\t\u{1b}]8;;\u{1b}\\");
    assert_eq!(file_url_text("C:\\work\\p"), "file:///C:/work/p");
    assert_eq!(file_url_text("/home/u"), "file:///home/u");
    assert_eq!(file_url_text(""), "file:///");
}

#[test]
fn branch_badge_links_to_the_remote() {
    let mut j = empty_json();
    j.cwd = Some(s("/w"));
    let mut c = empty_cache();
    let mut v = vcs("main", false, 0, 0, 0);
    v.remote_web_url = Some(s("https://example.org/repo"));
    c.vcs = Some(v);
    let w = get_info_widgets(&theme(), &j, &c, 0, 200, &extras(), &config());
    assert_eq!(w[2], format!("<l>{}<0>", link("https://example.org/repo", "V main")));
}

#[test]
fn configuration_toggles() {
    let t = theme();
    let mut j = empty_json();
    j.cwd = Some(s("/w"));
    j.model = Some(ModelInfo { id: None, display_name: Some(s("Gemini 3.5 Flash")) });
    let mut c = empty_cache();
    c.vcs = Some(vcs("main", false, 0, 0, 0));
    let mut cfg = config();
    cfg.show_vcs = false;
    cfg.show_quota = false;
    let w = get_info_widgets(&t, &j, &c, 0, 200, &extras(), &cfg);
    assert_eq!(w.len(), 3);
    assert_eq!(w[1], "<a>Gemini 3.5 Flash<0>");
    cfg.show_context = false;
    assert!(get_metric_widgets(&t, &j, 0, &metric_extras(), &cfg).is_empty());
    assert_eq!(get_metric_widgets(&t, &j, 0, &metric_extras(), &config()), vec![s("CTX")]);
}

fn quota_cache(bits: u64, needs_login: Option<bool>) -> CacheData {
    CacheData {
        quota: vec![QuotaItem { id: s("m"), display_name: s("M"), remaining_fraction_bits: bits, reset_time: None }],
        vcs: None,
        last_refreshed: 0,
        token_hash: None,
        needs_login,
    }
}

#[test]
fn model_quota_decisions() {
    let t = theme();
    let c = quota_cache(0.65f64.to_bits(), None);
    assert_eq!(model_quota_text(&t, &c, Some(0), true, 65, "", Some(2000), 1000, "cfg://"), "<l>Q <s>65%<0>");
    assert_eq!(
        model_quota_text(&t, &c, Some(0), false, 65, "[==]", Some(1000 + 120), 1000, "cfg://"),
        "<l>Q [==] <l>(~2m)<0>"
    );
    assert_eq!(model_quota_text(&t, &c, Some(0), false, 65, "[==]", None, 1000, "cfg://"), "<l>Q [==]");
    assert_eq!(model_quota_text(&t, &c, None, false, 65, "[==]", None, 1000, "cfg://"), "");
    let login = quota_cache(0.65f64.to_bits(), Some(true));
    assert_eq!(model_quota_text(&t, &login, None, false, 0, "", None, 0, "cfg://"), "<l>Q <w><B>[LOGIN]<0>");
}

#[test]
fn exhausted_quota_label() {
    let t = theme();
    let c = quota_cache(0f64.to_bits(), Some(false));
    let label = format!("<l>Q <c><B>{}<0>", link("cfg://", "[EXHAUSTED] (Switch via --config)"));
    assert_eq!(model_quota_text(&t, &c, Some(0), true, 0, "", None, 0, "cfg://"), label);
    assert_eq!(model_quota_text(&t, &c, Some(0), false, 0, "[-----]", Some(60), 0, "cfg://"), format!("{} <l>(~1m)<0>", label));
    let nearly = quota_cache(0.001f64.to_bits(), None);
    assert_eq!(model_quota_text(&t, &nearly, Some(0), true, 0, "", None, 0, "cfg://"), "<l>Q <c><B>0%<0>");
}

#[test]
fn context_detail_modes() {
    assert_eq!(context_detail_text(0, 0, 0, "0", "0", "100.0", "0"), " (0/0)");
    assert_eq!(context_detail_text(0, 148, 1000, "148", "1.0K", "85.2", "852"), " (148/1.0K)");
    assert_eq!(context_detail_text(1, 148, 1000, "148", "1.0K", "85.2", "852"), " (free:85.2%/852)");
    assert_eq!(context_detail_text(1, 148, 0, "148", "0", "85.2", "0"), "");
    assert_eq!(context_detail_text(2, 148, 1000, "148", "1.0K", "85.2", "852"), " (148/1.0K)");
    assert_eq!(context_detail_text(2, 0, 1000, "0", "1.0K", "100.0", "1.0K"), "");
    assert_eq!(context_detail_text(3, 148, 1000, "148", "1.0K", "85.2", "852"), "");
}

#[test]
fn free_context_tokens() {
    assert_eq!(free_tokens(1000, 148), 852);
    assert_eq!(free_tokens(100, 148), 0);
    assert_eq!(free_tokens(0, 0), 0);
}

#[test]
fn context_widget_forms() {
    let t = theme();
    assert_eq!(
        context_widget_text(&t, 10, "[==]", "<a>", "14.8", " (148/1.0K)"),
        "<l>C <l>ctx<0> [==] <a><B>14.8%<0><l> (148/1.0K)<0>"
    );
    assert_eq!(context_widget_text(&t, 0, "", "<c>", "95.0", " (x)"), "<l>C <l>ctx<0> <c><B>95.0%<0>");
}
