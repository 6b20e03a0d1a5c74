use peek::alert::{
    default_cooldown, script_command, AlertAddRequest, AlertEngine, AlertMetric, AlertRule, Comparison,
    NotifyMethod,
};
use peek::daemon::{
    dispatch, history_outcome, load_config_rules, ping, register_watch, ClientReply, ConfigRule,
    DaemonRequest, DaemonState, Reply,
};
use peek::gpu::{amd_gpu_name, compute_app_row, is_card_entry, nvidia_row};
use peek::model::ProcessNode;
use peek::report::{render_html_report, render_markdown, GpuCells, ReportData};
use peek::snapshot::{process_basics, rss_delta, StatFields};
use peek::tree::{build_tree, draw_tree, ProcRecord};

fn rule(id: &str, pid: i32, threshold: f64) -> AlertRule<f64> {
    AlertRule {
        id: id.to_string(),
        pid,
        metric: AlertMetric::CpuPercent,
        comparison: Comparison::GreaterThan,
        threshold,
        notify: NotifyMethod::Log,
        cooldown_secs: 60,
        last_triggered: None,
    }
}

fn req(action: &str, pid: Option<i64>) -> DaemonRequest<f64> {
    DaemonRequest { action: action.to_string(), pid, rule_id: None, alert: None, now_millis: 1700000000000 }
}

// ─── Alert rules ─────────────────────────────────────────────────────────────

#[test]
fn rules_added_and_removed() {
    let mut eng: AlertEngine<f64> = AlertEngine::new();
    eng.add_rule(rule("a", 1, 10.0));
    eng.add_rule(rule("b", 2, 10.0));
    eng.add_rule(rule("c", 1, 10.0));
    eng.remove_rules_for_pid(1);
    assert_eq!(eng.rules.len(), 1);
    assert_eq!(eng.rules[0].id, "b");
    assert!(eng.remove_rule("b"));
    assert!(!eng.remove_rule("b"));
    assert!(eng.rules.is_empty());
    assert_eq!(default_cooldown(), 60);
    assert_eq!(AlertMetric::MemoryMb.name(), "memory_mb");
}

#[test]
fn evaluation_fires_and_cools_down() {
    let mut eng: AlertEngine<f64> = AlertEngine::new();
    eng.add_rule(rule("hot", 5, 50.0));
    eng.add_rule(rule("other", 6, 50.0));
    let value = 80.0;
    let sec: i64 = 1_000_000_000;
    let fired = eng.evaluate(5, 100 * sec, |r: &AlertRule<f64>| value > r.threshold);
    assert_eq!(fired.len(), 1);
    assert_eq!(fired[0].rule_id, "hot");
    assert_eq!(fired[0].metric, "cpu_percent");
    assert_eq!(eng.rules[0].last_triggered, Some(100 * sec));
    assert_eq!(eng.rules[1].last_triggered, None);
    // Within the cooldown nothing fires.
    let again = eng.evaluate(5, 130 * sec, |r: &AlertRule<f64>| value > r.threshold);
    assert!(again.is_empty());
    // After it, the rule fires again.
    let later = eng.evaluate(5, 161 * sec, |r: &AlertRule<f64>| value > r.threshold);
    assert_eq!(later.len(), 1);
    // Below the threshold nothing fires.
    let calm = eng.evaluate(5, 400 * sec, |r: &AlertRule<f64>| 10.0 > r.threshold);
    assert!(calm.is_empty());
}

#[test]
fn clock_going_back_keeps_the_cooldown() {
    let mut eng: AlertEngine<f64> = AlertEngine::new();
    let mut r = rule("hot", 5, 50.0);
    r.cooldown_secs = 0;
    eng.add_rule(r);
    eng.add_rule(rule("warm", 5, 50.0));
    let sec: i64 = 1_000_000_000;
    let fired = eng.evaluate(5, 100 * sec, |r: &AlertRule<f64>| 80.0 > r.threshold);
    assert_eq!(fired.len(), 2);
    // The clock now reads three seconds before the firing: nothing fires.
    let back = eng.evaluate(5, 97 * sec, |r: &AlertRule<f64>| 80.0 > r.threshold);
    assert!(back.is_empty());
    assert_eq!(eng.rules[0].last_triggered, Some(100 * sec));
    assert_eq!(eng.rules[1].last_triggered, Some(100 * sec));
}

#[test]
fn add_request_defaults() {
    let r = AlertAddRequest { pid: 3, metric: AlertMetric::FdCount, comparison: Comparison::LessThan, threshold: 2.5, notify: NotifyMethod::Stderr, cooldown_secs: None }
        .into_rule("rule-1".to_string());
    assert_eq!(r.cooldown_secs, 60);
    assert_eq!(r.id, "rule-1");
    assert!(r.last_triggered.is_none());
}

#[test]
fn script_placeholders() {
    assert_eq!(
        script_command("notify {pid} {metric}={value} {pid}", 42, "cpu_percent", "91.50"),
        "notify 42 cpu_percent=91.50 42"
    );
}

// ─── Daemon requests ─────────────────────────────────────────────────────────

#[test]
fn watch_unwatch_list() {
    let mut st: DaemonState<f64> = DaemonState { watched: vec![], engine: AlertEngine::new() };
    assert!(matches!(dispatch(&mut st, req("watch", Some(10))), Reply::Watching(10)));
    assert!(matches!(dispatch(&mut st, req("watch", Some(10))), Reply::Watching(10)));
    assert_eq!(st.watched, vec![10]);
    st.engine.add_rule(rule("r", 10, 1.0));
    match dispatch(&mut st, req("list", None)) {
        Reply::List(v) => assert_eq!(v, vec![10]),
        other => panic!("unexpected {:?}", other),
    }
    assert!(matches!(dispatch(&mut st, req("ping", None)), Reply::Pong(1)));
    assert!(matches!(dispatch(&mut st, req("unwatch", Some(10))), Reply::Unwatched(10)));
    assert!(st.watched.is_empty());
    assert!(st.engine.rules.is_empty());
    match dispatch(&mut st, req("watch", None)) {
        Reply::Error(m) => assert_eq!(m, "'watch' requires pid"),
        other => panic!("unexpected {:?}", other),
    }
    match dispatch(&mut st, req("fly", None)) {
        Reply::Error(m) => assert_eq!(m, "unknown action 'fly'"),
        other => panic!("unexpected {:?}", other),
    }
}

#[test]
fn alert_requests() {
    let mut st: DaemonState<f64> = DaemonState { watched: vec![], engine: AlertEngine::new() };
    let add = AlertAddRequest { pid: 77, metric: AlertMetric::ThreadCount, comparison: Comparison::GreaterThan, threshold: 100.0, notify: NotifyMethod::Log, cooldown_secs: Some(5) };
    let mut r = req("alert_add", Some(77));
    r.alert = Some(Ok(add));
    match dispatch(&mut st, r) {
        Reply::RuleAdded(id) => assert_eq!(id, "rule-1700000000000"),
        other => panic!("unexpected {:?}", other),
    }
    assert_eq!(st.watched, vec![77]);
    assert_eq!(st.engine.rules[0].cooldown_secs, 5);
    let mut bad = req("alert_add", None);
    bad.alert = Some(Err("missing field `metric`".to_string()));
    match dispatch(&mut st, bad) {
        Reply::Error(m) => assert_eq!(m, "invalid alert rule: missing field `metric`"),
        other => panic!("unexpected {:?}", other),
    }
    let mut rm = req("alert_remove", None);
    rm.rule_id = Some("rule-1700000000000".to_string());
    match dispatch(&mut st, rm) {
        Reply::Removed(true, id) => assert_eq!(id, "rule-1700000000000"),
        other => panic!("unexpected {:?}", other),
    }
    assert!(st.engine.rules.is_empty());
}

#[test]
fn configured_rules() {
    let mut eng: AlertEngine<f64> = AlertEngine::new();
    let mut watched = vec![5];
    load_config_rules(
        &mut eng,
        &mut watched,
        vec![
            ConfigRule { pid: 5, metric: AlertMetric::MemoryMb, comparison: Comparison::GreaterThan, threshold: 512.0, cooldown_secs: None, notify: None },
            ConfigRule { pid: 9, metric: AlertMetric::FdCount, comparison: Comparison::GreaterThan, threshold: 1000.0, cooldown_secs: Some(10), notify: Some(NotifyMethod::Stderr) },
        ],
    );
    assert_eq!(watched, vec![5, 9]);
    assert_eq!(eng.rules[0].id, "config-1");
    assert_eq!(eng.rules[1].id, "config-2");
    assert_eq!(eng.rules[0].cooldown_secs, 60);
    assert!(matches!(eng.rules[0].notify, NotifyMethod::Log));
}

#[test]
fn configured_rules_for_a_watched_pid_add_no_pid() {
    let mut eng: AlertEngine<f64> = AlertEngine::new();
    let mut watched = vec![1234];
    load_config_rules(
        &mut eng,
        &mut watched,
        vec![
            ConfigRule { pid: 1234, metric: AlertMetric::CpuPercent, comparison: Comparison::GreaterThan, threshold: 80.0, cooldown_secs: Some(60), notify: Some(NotifyMethod::Log) },
            ConfigRule { pid: 1234, metric: AlertMetric::FdCount, comparison: Comparison::LessThan, threshold: 5.0, cooldown_secs: None, notify: None },
        ],
    );
    assert_eq!(watched, vec![1234]);
    assert_eq!(eng.rules.len(), 2);
    assert_eq!(eng.rules[1].id, "config-2");
    assert_eq!(eng.rules[1].cooldown_secs, 60);
    assert_eq!(eng.rules[1].threshold, 5.0);
}

#[test]
fn client_replies() {
    assert!(!ping(&None));
    assert!(ping(&Some(ClientReply { ok: true, message: None, has_data: true })));
    assert_eq!(register_watch(&ClientReply { ok: false, message: Some("denied".to_string()), has_data: false }), Err("denied".to_string()));
    assert_eq!(history_outcome(&ClientReply { ok: false, message: None, has_data: false }), Err("unknown peekd error".to_string()));
    assert_eq!(history_outcome(&ClientReply { ok: true, message: None, has_data: false }), Err("no data in response".to_string()));
    assert_eq!(history_outcome(&ClientReply { ok: true, message: None, has_data: true }), Ok(()));
}

// ─── Process tree ────────────────────────────────────────────────────────────

fn rec(pid: i32, ppid: i32, name: &str) -> ProcRecord {
    ProcRecord { pid, ppid, name: name.to_string(), uid: Some(1000), resident_pages: Some(512) }
}

#[test]
fn tree_is_built_and_drawn() {
    let recs = vec![rec(1, 0, "init"), rec(30, 1, "b"), rec(20, 1, "a"), rec(31, 30, "c")];
    let t: ProcessNode = build_tree(1, &recs);
    assert_eq!(t.name, "init");
    assert_eq!(t.rss_kb, 2048);
    let kids: Vec<i32> = t.children.iter().map(|c| c.pid).collect();
    assert_eq!(kids, vec![20, 30]);
    assert_eq!(t.children[1].children[0].name, "c");
    let lines = draw_tree(&t, 30);
    assert_eq!(lines.len(), 4);
    assert_eq!(lines[0], "  └── init (1) [2 MB]");
    assert_eq!(lines[1], "      ├── a (20) [2 MB]");
    assert_eq!(lines[2], "      └── \x1b[1m\x1b[36mb\x1b[39m\x1b[0m (30) [2 MB]");
    assert_eq!(lines[3], "          └── c (31) [2 MB]");
    let unknown = build_tree(99, &recs);
    assert_eq!(unknown.name, "?");
    assert!(unknown.children.is_empty());
}

#[test]
fn tree_shows_ancestors_and_children() {
    let recs = vec![rec(1, 0, "init"), rec(30, 1, "b"), rec(20, 1, "a"), rec(31, 30, "c"), rec(32, 30, "d"), rec(40, 31, "e")];
    let t: ProcessNode = build_tree(31, &recs);
    // The ancestors come first, each with only the next one below it.
    assert_eq!(t.pid, 1);
    assert_eq!(t.children.len(), 1);
    assert_eq!(t.children[0].pid, 30);
    assert_eq!(t.children[0].children.len(), 1);
    let target = &t.children[0].children[0];
    assert_eq!(target.pid, 31);
    assert_eq!(target.children.len(), 1);
    assert_eq!(target.children[0].name, "e");
    let lines = draw_tree(&t, 31);
    assert_eq!(lines.len(), 4);
    assert_eq!(lines[0], "  └── init (1) [2 MB]");
    assert_eq!(lines[1], "      └── b (30) [2 MB]");
    assert_eq!(lines[2], "          └── \x1b[1m\x1b[36mc\x1b[39m\x1b[0m (31) [2 MB]");
    assert_eq!(lines[3], "              └── e (40) [2 MB]");
    // A parent without a record ends the chain; a cycle does too.
    let odd = vec![rec(5, 6, "x"), rec(6, 5, "y"), rec(7, 9, "z")];
    let t5 = build_tree(5, &odd);
    assert_eq!(t5.pid, 6);
    assert_eq!(t5.children[0].pid, 5);
    assert_eq!(build_tree(7, &odd).pid, 7);
}

// ─── Snapshot facts ──────────────────────────────────────────────────────────

#[test]
fn basics_from_proc() {
    let stat = StatFields { comm: "nginx".to_string(), state: 'S', ppid: 1, num_threads: 4, starttime: 250 };
    let b = process_basics(&stat, Some(vec!["nginx:".to_string(), "master".to_string()]), 1000, 200, 100);
    assert_eq!(b.cmdline, "nginx: master");
    assert_eq!(b.state, "Sleeping (interruptible)");
    assert_eq!(b.vm_size_kb, 4000);
    assert_eq!(b.rss_kb, 800);
    assert_eq!(b.start_secs, 2);
    assert_eq!(b.start_nanos, 500_000_000);
    let b = process_basics(&stat, Some(vec![]), 1, 1, 100);
    assert_eq!(b.cmdline, "nginx");
    assert_eq!(rss_delta(100, 150), "\x1b[33m+50 KB\x1b[39m");
    assert_eq!(rss_delta(150, 100), "\x1b[32m-50 KB\x1b[39m");
}

// ─── GPU text ────────────────────────────────────────────────────────────────

#[test]
fn gpu_rows() {
    let row = nvidia_row("0, GPU-abc, NVIDIA A100, 45, 1024, 40960").unwrap();
    assert_eq!(row.index, 0);
    assert_eq!(row.uuid, "GPU-abc");
    assert_eq!(row.name, "NVIDIA A100");
    assert_eq!(row.memory_total, "40960");
    assert!(nvidia_row("0, GPU-abc").is_none());
    assert_eq!(nvidia_row("x, u, n, 1, 2, 3").unwrap().index, 0);
    assert_eq!(compute_app_row("42, GPU-abc, 300", 42), Some(("GPU-abc".to_string(), "300".to_string())));
    assert_eq!(compute_app_row("43, GPU-abc, 300", 42), None);
    assert!(is_card_entry("card0"));
    assert!(!is_card_entry("card0-DP-1"));
    assert!(!is_card_entry("renderD128"));
    assert_eq!(amd_gpu_name(Some("PCI_ID=1\nDRIVER=amdgpu\n"), "card1"), "DRIVER=amdgpu");
    assert_eq!(amd_gpu_name(None, "card1"), "AMD GPU (card1)");
}

// ─── Markdown report ─────────────────────────────────────────────────────────

#[test]
fn markdown_report() {
    let d = ReportData {
        name: "nginx".to_string(),
        pid: 12,
        ppid: 1,
        exe: None,
        cmdline: "nginx -g daemon".to_string(),
        state: "Running".to_string(),
        uid: 0,
        gid: 0,
        started: None,
        threads: 2,
        rss_kb: 100,
        pss_kb: None,
        swap_kb: None,
        vm_size_kb: 300,
        cpu_percent: None,
        io_read_bytes: None,
        io_write_bytes: None,
        fd_count: None,
        kernel: None,
        network: None,
        traffic: None,
        open_files: None,
        env_vars: None,
        gpu: Some(vec![GpuCells {
            index: 0,
            name: "A100".to_string(),
            utilization: "5.0".to_string(),
            memory_used: "10".to_string(),
            memory_total: "40".to_string(),
            process_mb: "-".to_string(),
        }]),
        captured_at: "2024-01-01 00:00:00 UTC".to_string(),
        peek_version: "1.1.0".to_string(),
    };
    let md = render_markdown(&d);
    assert!(md.starts_with("# peek report — nginx (PID 12)\n\n> Generated 2024-01-01 00:00:00 UTC (peek 1.1.0)\n\n## Process\n\n"));
    assert!(md.contains("| Command | `nginx -g daemon` |\n| State | Running |\n| UID:GID | 0:0 |\n| Threads | 2 |\n| RSS KB | 100 |\n| VSZ KB | 300 |\n"));
    assert!(!md.contains("## Resources"));
    assert!(md.ends_with("| 0 | A100 | 5.0 | 10 MB | 40 MB | - |\n"));
    let page = render_html_report(&d);
    assert!(page.starts_with("<!DOCTYPE html>"));
    assert!(page.contains("<title>peek — nginx (12)</title>"));
    let start = page.find("<pre><code>").unwrap() + "<pre><code>".len();
    let end = page.find("</code></pre>").unwrap();
    let body = &page[start..end];
    assert!(!body.contains('<') && !body.contains('>'));
    assert_eq!(body.replace("&lt;", "<").replace("&gt;", ">").replace("&amp;", "&"), md);
}
