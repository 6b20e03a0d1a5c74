use peek::env::EnvVar;
use peek::model::{ConnectionEntry, KernelInfo, NamespaceEntry, OpenFile, ProcessNode, SocketEntry};
use peek::network::NetworkInfo;
use peek::terminal::{env_lines, files_lines, header_lines, kernel_lines, network_lines, tree_section_lines, HeaderData};

fn ruler() -> String {
    "─".repeat(64)
}

#[test]
fn header_section() {
    let h = HeaderData {
        name: "x".to_string(),
        pid: 5,
        cmdline: "x -a".to_string(),
        exe: None,
        state: "Sleeping".to_string(),
        ppid: 1,
        uid: 0,
        gid: 0,
        started: Some(("2024-01-01 10:00:00".to_string(), 90)),
        rss_kb: 10,
        vm_size_kb: 20,
        threads: 1,
        fd_count: None,
    };
    let lines = header_lines(&h);
    assert_eq!(
        lines,
        vec![
            "".to_string(),
            "🔍 \x1b[1mPROCESS:\x1b[0m \x1b[1m\x1b[36mx\x1b[39m\x1b[0m  \x1b[2m(PID 5)\x1b[0m".to_string(),
            ruler(),
            "  \x1b[2mcmdline :\x1b[0m x -a".to_string(),
            "  \x1b[2mstate   :\x1b[0m Sleeping".to_string(),
            "  \x1b[2mppid    :\x1b[0m 1".to_string(),
            "  \x1b[2muid:gid :\x1b[0m 0:0".to_string(),
            "  \x1b[2mstarted :\x1b[0m 2024-01-01 10:00:00 (1m ago)".to_string(),
            "  \x1b[2mmemory  :\x1b[0m 10 KB RSS / 20 KB VSZ".to_string(),
            "  \x1b[2mthreads :\x1b[0m 1".to_string(),
        ]
    );
}

#[test]
fn kernel_section() {
    let k = KernelInfo {
        sched_policy: "SCHED_OTHER".to_string(),
        nice: -5,
        priority: 15,
        oom_score: 100,
        oom_score_adj: 0,
        cgroup: "/user.slice".to_string(),
        namespaces: vec![
            NamespaceEntry { ns_type: "net".to_string(), inode: "1".to_string() },
            NamespaceEntry { ns_type: "pid".to_string(), inode: "2".to_string() },
        ],
        cap_permitted: "none".to_string(),
        cap_effective: "none".to_string(),
        seccomp: 0,
        voluntary_ctxt_switches: Some(4),
        nonvoluntary_ctxt_switches: None,
    };
    let lines = kernel_lines(&k);
    assert_eq!(lines[1], "\x1b[1m🧠 KERNEL CONTEXT\x1b[0m");
    assert_eq!(lines[3], "  Scheduler  : SCHED_OTHER | Nice: -5 | Priority: 15");
    assert_eq!(lines[4], "  OOM Score  : \x1b[32m100\x1b[39m / 1000  (adj: 0)");
    assert_eq!(lines[6], "  Seccomp    : disabled");
    assert_eq!(lines[9], "  Namespaces : net, pid");
    assert_eq!(lines.len(), 10);
}

#[test]
fn network_section() {
    let mut n = NetworkInfo {
        listening_tcp: vec![SocketEntry { protocol: "TCP".to_string(), local_addr: "0.0.0.0".to_string(), local_port: 22 }],
        listening_udp: vec![],
        connections: vec![],
        unix_sockets: None,
        traffic_rx_bytes_per_sec: None,
        traffic_tx_bytes_per_sec: None,
    };
    let lines = network_lines(&n);
    assert_eq!(lines[3], "  \x1b[32m▶\x1b[39m Listening: TCP 0.0.0.0:22");
    assert_eq!(lines.len(), 4);
    for p in 0..22u16 {
        n.connections.push(ConnectionEntry {
            protocol: "TCP".to_string(),
            local_addr: "a".to_string(),
            local_port: p,
            remote_addr: "b".to_string(),
            remote_port: 9,
            state: "ESTABLISHED".to_string(),
        });
    }
    let lines = network_lines(&n);
    assert_eq!(lines[4], "  \x1b[33m▶\x1b[39m Connections (22):");
    assert_eq!(lines[5], "    TCP a:0 → b:9 [\x1b[2mESTABLISHED\x1b[0m]");
    assert_eq!(lines.len(), 4 + 1 + 20 + 1);
    assert_eq!(lines[25], "    … and 2 more");
    n.listening_tcp.clear();
    n.connections.clear();
    assert_eq!(network_lines(&n)[3], "  No sockets.");
}

#[test]
fn files_section() {
    let fs = vec![OpenFile { fd: 3, fd_type: "file".to_string(), description: "/tmp/a".to_string() }];
    let lines = files_lines(&fs);
    assert_eq!(lines[3], "    FD        Type  Path");
    assert_eq!(lines[5], "     3  \x1b[2m      file\x1b[0m  /tmp/a");
    assert_eq!(lines[6], "  Total: 1");
}

#[test]
fn env_section() {
    let vs = vec![
        EnvVar { key: "A".to_string(), value: "1".to_string(), redacted: false },
        EnvVar { key: "TOKEN".to_string(), value: "***".to_string(), redacted: true },
    ];
    let lines = env_lines(&vs);
    assert_eq!(lines[3], "  \x1b[33m⚠️\x1b[39m 1 secret(s) detected and redacted.");
    assert_eq!(lines[4], "  \x1b[36mA\x1b[39m = 1");
    assert_eq!(lines[5], "  \x1b[33mTOKEN\x1b[39m = *** \x1b[31m[REDACTED]\x1b[39m");
    let long = vec![EnvVar { key: "K".to_string(), value: "v".repeat(100), redacted: false }];
    assert_eq!(env_lines(&long)[3], format!("  \x1b[36mK\x1b[39m = {}", "v".repeat(80)));
}

#[test]
fn tree_section() {
    let t = ProcessNode { pid: 1, name: "init".to_string(), uid: 0, rss_kb: 4096, children: vec![] };
    let lines = tree_section_lines(&t, 7);
    assert_eq!(lines[1], "\x1b[1m🌳 PROCESS TREE\x1b[0m");
    assert_eq!(lines[3], "  └── init (1) [4 MB]");
}
