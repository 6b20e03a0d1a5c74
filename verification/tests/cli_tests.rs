use peek::cli::{
    age_string, colorize_state, command_of, core_error_message, expand_all, make_opts, name_error_message,
    oom_colored, resolve_by_name, sudo_args, target_pid, truncate, Cli, Command, NameError, ProcEntry,
};
use peek::control::{
    confirmed, escape_html, export_format, html_temp_name, panel_choice, pdf_filename, port_hits,
    render_html, renderer_args, renderers, signal_number, ExportFormat, PanelChoice, SignalKind, UnitAction,
};
use peek::model::{ConnectionEntry, PeekError, SocketEntry};
use peek::network::{collect_network, NetworkInfo, RawNetwork};
use peek::portmon::{is_tcp, row_cells, sort_label, KeyEffect, KeyInput, ListenerEntry, PortMonitorApp, SortMode};

fn cli() -> Cli {
    Cli {
        target: None,
        resources: false,
        kernel: false,
        network: false,
        files: false,
        env: false,
        tree: false,
        watch: None,
        kill: false,
        all: false,
        export: None,
        json: false,
        no_color: false,
        diff: None,
        history: false,
        sudo: false,
        port: None,
    }
}

fn sock(proto: &str, addr: &str, port: u16) -> SocketEntry {
    SocketEntry { protocol: proto.to_string(), local_addr: addr.to_string(), local_port: port }
}

fn conn(lp: u16, rp: u16) -> ConnectionEntry {
    ConnectionEntry {
        protocol: "TCP".to_string(),
        local_addr: "10.0.0.1".to_string(),
        local_port: lp,
        remote_addr: "10.0.0.2".to_string(),
        remote_port: rp,
        state: "ESTABLISHED".to_string(),
    }
}

// ─── Command line ────────────────────────────────────────────────────────────

#[test]
fn options_follow_flags_and_all() {
    let mut c = cli();
    c.kernel = true;
    let o = make_opts(&c);
    assert!(o.kernel && !o.network && !o.gpu);
    c.all = true;
    let o = make_opts(&c);
    assert!(o.resources && o.kernel && o.network && o.files && o.env && o.tree && o.gpu);
    expand_all(&mut c);
    assert!(c.resources && c.network && c.tree);
}

#[test]
fn command_order() {
    let mut c = cli();
    assert_eq!(command_of(&c), Command::Report);
    c.json = true;
    assert_eq!(command_of(&c), Command::Json);
    c.watch = Some(None);
    assert_eq!(command_of(&c), Command::Watch(2000));
    c.watch = Some(Some(500));
    assert_eq!(command_of(&c), Command::Watch(500));
    c.diff = Some(42);
    assert_eq!(command_of(&c), Command::Diff(42));
    c.port = Some(8080);
    assert_eq!(command_of(&c), Command::PortSearch(8080));
}

#[test]
fn sudo_arguments_drop_the_flag() {
    let args = vec!["peek".to_string(), "--sudo".to_string(), "nginx".to_string(), "-k".to_string()];
    let r = sudo_args("/usr/bin/peek".to_string(), &args);
    assert_eq!(r, vec!["/usr/bin/peek".to_string(), "nginx".to_string(), "-k".to_string()]);
}

#[test]
fn targets_and_names() {
    assert_eq!(target_pid("1234"), Some(1234));
    assert_eq!(target_pid("+7"), Some(7));
    assert_eq!(target_pid("0"), None);
    assert_eq!(target_pid("-3"), None);
    assert_eq!(target_pid("nginx"), None);
    let procs = vec![
        ProcEntry { pid: 10, comm: Some("nginx".to_string()), cmdline: None },
        ProcEntry { pid: 11, comm: Some("bash".to_string()), cmdline: Some(vec!["vim".to_string(), "nginx.conf".to_string()]) },
        ProcEntry { pid: 12, comm: None, cmdline: Some(vec!["sleep".to_string(), "5".to_string()]) },
    ];
    assert_eq!(resolve_by_name("sleep", &procs), Ok(12));
    assert_eq!(resolve_by_name("nope", &procs), Err(NameError::NoMatch));
    // Several match: the first of them, in process order.
    assert_eq!(resolve_by_name("nginx", &procs), Ok(10));
    assert_eq!(name_error_message("x", &NameError::NoMatch), "no process matching 'x'");
}

#[test]
fn truncation_by_bytes() {
    assert_eq!(truncate("short", 20), "short");
    assert_eq!(truncate("abcdefgh", 5), "abcd…");
    assert_eq!(truncate("héllo", 5), "héll…");
    assert_eq!(truncate("abc", 0), "…");
}

#[test]
fn colours_are_ansi_codes() {
    assert_eq!(colorize_state("Running"), "\x1b[32mRunning\x1b[39m");
    assert_eq!(colorize_state("Zombie"), "\x1b[1m\x1b[31mZombie\x1b[39m\x1b[0m");
    assert_eq!(colorize_state("Uninterruptible sleep"), "\x1b[33mUninterruptible sleep\x1b[39m");
    assert_eq!(colorize_state("Sleeping"), "Sleeping");
    assert_eq!(oom_colored(800), "\x1b[1m\x1b[31m800\x1b[39m\x1b[0m");
    assert_eq!(oom_colored(500), "\x1b[33m500\x1b[39m");
    assert_eq!(oom_colored(-3), "\x1b[32m-3\x1b[39m");
}

#[test]
fn ages() {
    assert_eq!(age_string(5), "5s ago");
    assert_eq!(age_string(125), "2m ago");
    assert_eq!(age_string(7200), "2h ago");
    assert_eq!(age_string(200000), "2d ago");
}

#[test]
fn error_messages() {
    assert_eq!(core_error_message(&PeekError::NotFound(7)), "process 7 not found");
    assert_eq!(
        core_error_message(&PeekError::ProcParse { pid: 3, msg: "bad".to_string() }),
        "failed to parse /proc for pid 3: bad"
    );
    let io = std::io::Error::new(std::io::ErrorKind::Other, "boom");
    assert_eq!(core_error_message(&PeekError::ProcIo { pid: 4, source: io }), "failed to read /proc for pid 4: boom");
}

// ─── Network and port search ─────────────────────────────────────────────────

fn net() -> NetworkInfo {
    let raw = RawNetwork {
        listening_tcp: vec![sock("TCP", "0.0.0.0", 80)],
        listening_udp: vec![sock("UDP", "0.0.0.0", 53)],
        connections: vec![conn(80, 5000), conn(6000, 80), conn(1, 2)],
    };
    let unix = "Num RefCount Protocol Flags Type St Inode Path\nffff: 2 0 10000 1 1 900 /run/x.sock\n";
    collect_network(raw, unix, &[900], Some((100, 100)), Some((150, 90)))
}

#[test]
fn network_section_is_assembled() {
    let n = net();
    assert_eq!(n.listening_tcp.len(), 1);
    assert_eq!(n.unix_sockets.as_ref().map(|v| v[0].path.clone()), Some("/run/x.sock".to_string()));
    assert_eq!(n.traffic_rx_bytes_per_sec, Some(50));
    assert_eq!(n.traffic_tx_bytes_per_sec, Some(0));
    let l = n.listening();
    assert_eq!(l.len(), 2);
    assert_eq!(l[1].protocol, "UDP");
    let empty = collect_network(
        RawNetwork { listening_tcp: vec![], listening_udp: vec![], connections: vec![] },
        "header\n",
        &[],
        None,
        None,
    );
    assert!(empty.unix_sockets.is_none());
    assert!(empty.traffic_rx_bytes_per_sec.is_none());
}

#[test]
fn port_hits_cover_listeners_and_both_ends() {
    let hits = port_hits(80, 9, "nginx", &net());
    assert_eq!(hits.len(), 3);
    assert_eq!(hits[0].kind, "LISTEN/TCP");
    assert_eq!(hits[0].local, "0.0.0.0:80");
    assert_eq!(hits[0].remote, "-");
    assert_eq!(hits[1].kind, "CONN/TCP (local)");
    assert_eq!(hits[1].remote, "10.0.0.2:5000");
    assert_eq!(hits[2].kind, "CONN/TCP (remote)");
    assert_eq!(hits[2].pid, 9);
    assert_eq!(hits[2].name, "nginx");
    assert!(port_hits(443, 9, "nginx", &net()).is_empty());
}

// ─── Kill panel and export ───────────────────────────────────────────────────

#[test]
fn panel_choices() {
    let unit = Some("nginx.service".to_string());
    assert_eq!(panel_choice(" 2\n", &unit), PanelChoice::Send(SignalKind::Kill, true));
    assert_eq!(panel_choice("1", &None), PanelChoice::Send(SignalKind::Term, false));
    assert_eq!(panel_choice("R", &unit), PanelChoice::Systemctl(UnitAction::Restart, "nginx.service".to_string()));
    assert_eq!(panel_choice("s", &None), PanelChoice::NoUnit);
    assert_eq!(panel_choice("\n", &None), PanelChoice::Quit);
    assert_eq!(panel_choice("9", &None), PanelChoice::Unknown);
    assert_eq!(signal_number(SignalKind::Stop), 19);
    assert!(confirmed(" Y \n"));
    assert!(!confirmed("yes"));
}

#[test]
fn export_formats_and_files() {
    assert_eq!(export_format("MD"), Ok(ExportFormat::Markdown));
    assert_eq!(export_format("json"), Ok(ExportFormat::Json));
    assert_eq!(export_format("Xml"), Err("unknown format 'xml' (json | html | md | pdf)".to_string()));
    assert_eq!(pdf_filename("nginx", 12), "peek-nginx-12.pdf");
    assert_eq!(html_temp_name(12), "peek-12.html");
    assert_eq!(renderers()[0], "wkhtmltopdf");
    assert_eq!(renderer_args("weasyprint", "/tmp/a.html", "out.pdf"), vec!["/tmp/a.html".to_string(), "out.pdf".to_string()]);
    let b = renderer_args("chromium", "/tmp/a.html", "out.pdf");
    assert_eq!(b[2], "--print-to-pdf");
    assert_eq!(b[4], "file:///tmp/a.html");
}

#[test]
fn html_escaping() {
    assert_eq!(escape_html("a<b>&c"), "a&lt;b&gt;&amp;c");
    let page = render_html("x<y", 5, "# T & <U>");
    assert!(page.starts_with("<!DOCTYPE html>"));
    assert!(page.contains("<title>peek — x<y (5)</title>"));
    assert!(page.contains("<pre><code># T &amp; &lt;U&gt;</code></pre>"));
    assert!(page.ends_with("</html>"));
    // Reading the entities back gives the text that was escaped.
    let text = "a&lt;b & <c> &amp;";
    let e = escape_html(text);
    assert_eq!(e, "a&amp;lt;b &amp; &lt;c&gt; &amp;amp;");
    assert_eq!(e.replace("&lt;", "<").replace("&gt;", ">").replace("&amp;", "&"), text);
}

// ─── Port monitor ────────────────────────────────────────────────────────────

fn listener(proto: &str, port: u16, name: &str, pid: Option<i32>) -> ListenerEntry {
    ListenerEntry {
        protocol: proto.to_string(),
        port,
        address: "0.0.0.0".to_string(),
        process_name: name.to_string(),
        pid,
    }
}

#[test]
fn monitor_sorts_and_navigates() {
    let mut app = PortMonitorApp::new();
    assert_eq!(app.sort_mode(), SortMode::Port);
    app.load_rows(vec![
        listener("UDP", 53, "dnsmasq", Some(300)),
        listener("TCP", 443, "nginx", None),
        listener("TCP", 53, "named", Some(20)),
    ]);
    let ports: Vec<(u16, String)> = app.rows().iter().map(|r| (r.port, r.protocol.clone())).collect();
    assert_eq!(ports, vec![(53, "TCP".to_string()), (53, "UDP".to_string()), (443, "TCP".to_string())]);
    assert_eq!(app.selected(), 0);
    app.prev_row();
    assert_eq!(app.selected(), 2);
    app.next_row();
    assert_eq!(app.selected(), 0);
    app.cycle_sort();
    assert_eq!(app.sort_mode(), SortMode::Process);
    let names: Vec<String> = app.rows().iter().map(|r| r.process_name.clone()).collect();
    assert_eq!(names, vec!["dnsmasq", "named", "nginx"]);
    app.cycle_sort();
    app.cycle_sort();
    assert_eq!(app.sort_mode(), SortMode::Pid);
    let pids: Vec<Option<i32>> = app.rows().iter().map(|r| r.pid).collect();
    assert_eq!(pids, vec![None, Some(20), Some(300)]);
    app.cycle_sort();
    assert_eq!(app.sort_mode(), SortMode::Port);
    let again: Vec<(u16, String)> = app.rows().iter().map(|r| (r.port, r.protocol.clone())).collect();
    assert_eq!(again, ports);
    assert_eq!(sort_label(SortMode::Protocol), "protocol");
}

#[test]
fn monitor_keys_and_kill() {
    let mut app = PortMonitorApp::new();
    app.load_rows(vec![listener("TCP", 22, "sshd", Some(0)), listener("TCP", 80, "nginx", Some(77))]);
    assert_eq!(app.handle_key(KeyInput::Char('r', false)), KeyEffect::Refresh);
    assert_eq!(app.kill_target(), None);
    assert_eq!(app.last_error(), Some("no PID for selected socket".to_string()));
    app.handle_key(KeyInput::Down);
    assert_eq!(app.selected(), 1);
    assert_eq!(app.handle_key(KeyInput::Char('K', false)), KeyEffect::Kill);
    assert_eq!(app.kill_target(), Some(77));
    app.kill_outcome(77, Ok(()));
    assert_eq!(app.last_error(), Some("sent SIGTERM to pid 77".to_string()));
    app.kill_outcome(77, Err("EPERM".to_string()));
    assert_eq!(app.last_error(), Some("failed to send SIGTERM to 77: EPERM".to_string()));
    app.load_rows(vec![listener("TCP", 22, "sshd", None)]);
    assert_eq!(app.selected(), 0);
    assert_eq!(app.last_error(), None);
    app.refresh_failed();
    assert_eq!(app.last_error(), Some("failed to collect listeners".to_string()));
    assert!(!app.should_quit());
    app.handle_key(KeyInput::Char('c', true));
    assert!(app.should_quit());
    let e = listener("UDP", 53, "dnsmasq", None);
    assert!(!is_tcp(&e));
    assert_eq!(row_cells(&e), vec!["UDP", "53", "0.0.0.0", "dnsmasq", "-"]);
}
