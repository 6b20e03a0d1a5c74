use peek::env::{collect_env, is_secret, read_environ};
use peek::explain::{
    binary_description, format_caps, format_state, oom_description, seccomp_label, state_description,
    syscall_description, syscall_name_x86_64,
};
use peek::impact::{
    analyze_impact, build_recommendation, check_file_locks, count_children, count_children_fallback,
    count_tcp_connections, detect_systemd_unit, signal_impact, ImpactSources,
};
use peek::kernel::{collect_kernel, namespace_inode, parse_sched, parse_score, parse_status, read_namespaces, KernelSources};
use peek::proc_reader::{list_unix_sockets, read_maps, read_net, read_stat, read_status, UnixSocketEntry};
use peek::ringbuf::{detect_fd_leak, ResourceSample, RingBuf};
use peek::sampler::{
    cpu_count, read_cpu_ticks, read_io, read_net_dev, read_net_dev_for_pid, sample_memory,
    sample_network_rate,
};

// ─── Ring buffer and FD leaks ────────────────────────────────────────────────

#[test]
fn ring_buf_wraps_correctly() {
    let mut rb: RingBuf<u32> = RingBuf::new(4);
    for i in 0..8u32 {
        rb.push(i);
    }
    assert_eq!(rb.len(), 4);
    assert_eq!(rb.to_vec(), vec![4, 5, 6, 7]);
}

#[test]
fn fd_leak_detector_integration() {
    let mut rb: RingBuf<ResourceSample> = RingBuf::new(20);
    for _ in 0..12 {
        rb.push(ResourceSample { fd_count: 30, ..Default::default() });
    }
    assert!(detect_fd_leak(&rb, 8).is_none(), "stable FDs should not trigger");
    for i in 0..10u64 {
        rb.push(ResourceSample { fd_count: 30 + i, ..Default::default() });
    }
    assert!(detect_fd_leak(&rb, 8).is_some(), "growing FDs should trigger leak warning");
}

#[test]
fn ring_buf_keeps_only_the_last_capacity_items() {
    let mut rb: RingBuf<u32> = RingBuf::new(3);
    assert!(rb.is_empty());
    rb.push(1);
    rb.push(2);
    assert_eq!(rb.to_vec(), vec![1, 2]);
    rb.push(3);
    rb.push(4);
    assert_eq!(rb.to_vec(), vec![2, 3, 4]);
    assert_eq!(*rb.get(0), 2);
    assert_eq!(rb.capacity(), 3);
}

#[test]
fn fd_leak_reports_window() {
    let mut rb: RingBuf<ResourceSample> = RingBuf::new(10);
    for n in [10u64, 11, 12, 13] {
        rb.push(ResourceSample { fd_count: n, ..Default::default() });
    }
    let w = detect_fd_leak(&rb, 3).expect("three increases");
    assert_eq!(w.start_count, 10);
    assert_eq!(w.end_count, 13);
    assert_eq!(w.consecutive_increases, 3);
    assert!(detect_fd_leak(&rb, 4).is_none());
}

// ─── Signal impact ───────────────────────────────────────────────────────────

#[test]
fn recommendation_no_risks() {
    let (msg, graceful) = build_recommendation(0, 0, false, &None);
    assert!(!graceful);
    assert!(msg.contains("safe"));
}

#[test]
fn recommendation_with_tcp() {
    let (msg, graceful) = build_recommendation(5, 0, false, &None);
    assert!(graceful);
    assert!(msg.contains("TCP"));
}

#[test]
fn recommendation_with_systemd() {
    let (msg, graceful) = build_recommendation(0, 0, false, &Some("nginx.service".to_string()));
    assert!(graceful);
    assert!(msg.contains("systemd"));
}

#[test]
fn recommendation_exact_texts() {
    let (msg, graceful) = build_recommendation(0, 0, false, &None);
    assert_eq!(msg, "Process appears safe to terminate with SIGKILL.");
    assert!(!graceful);
    let (msg, graceful) = build_recommendation(0, 2, false, &None);
    assert_eq!(
        msg,
        "2 child process(es) will be orphaned or killed (depending on signal)."
    );
    assert!(!graceful);
}

#[test]
fn tcp_connections_counted_by_inode_and_state() {
    let table = "  sl  local_address rem_address   st tx_queue rx_queue tr tm->when retrnsmt   uid  timeout inode\n   0: 0100007F:1F90 0100007F:C350 01 00000000:00000000 00:00000000 00000000  1000        0 555 1\n   1: 0100007F:1F91 0100007F:C351 0A 00000000:00000000 00:00000000 00000000  1000        0 555 1\n   2: 0100007F:1F92 0100007F:C352 01 00000000:00000000 00:00000000 00000000  1000        0 777 1\n";
    let tables = vec![table.to_string()];
    assert_eq!(count_tcp_connections(&[555], &tables), 1);
    assert_eq!(count_tcp_connections(&[555, 777], &tables), 2);
    assert_eq!(count_tcp_connections(&[], &tables), 0);
}

#[test]
fn children_and_locks_and_unit() {
    assert_eq!(count_children("12 13 14\n"), 3);
    assert_eq!(count_children(""), 0);
    let stats = vec![
        "20 (a b) S 7 1 1".to_string(),
        "21 (c) S 8 1 1".to_string(),
        "22 (d) R 7 1 1".to_string(),
    ];
    assert_eq!(count_children_fallback(7, &stats), 2);
    let locks = "1: POSIX  ADVISORY  WRITE 4242 08:01:123 0 EOF\n2: FLOCK  ADVISORY  READ 99 08:01:124 0 EOF\n";
    assert!(check_file_locks(4242, locks));
    assert!(!check_file_locks(99, locks));
    assert_eq!(
        detect_systemd_unit("0::/system.slice/nginx.service\n"),
        Some("nginx.service".to_string())
    );
    assert_eq!(detect_systemd_unit("0::/user.slice\n"), None);
}

#[test]
fn impact_analysis_combines_sources() {
    let src = ImpactSources {
        socket_inodes: vec![],
        tcp_tables: vec![],
        children: Some("5 6".to_string()),
        child_stats: vec![],
        locks: None,
        cgroup: Some("0::/system.slice/redis.service\n".to_string()),
    };
    let r = analyze_impact(1, &src);
    assert_eq!(r.active_tcp_connections, 0);
    assert_eq!(r.child_process_count, 2);
    assert!(!r.has_file_locks);
    assert_eq!(r.systemd_unit, Some("redis.service".to_string()));
    assert!(r.prefer_graceful);
    assert!(r.recommendation.contains("redis.service"));
}

// ─── Kernel explanations ─────────────────────────────────────────────────────

#[test]
fn capability_names() {
    let (p, e) = format_caps(0x21, 0);
    assert_eq!(p, "CHOWN, KILL");
    assert_eq!(e, "none");
}

#[test]
fn state_oom_syscall_texts() {
    assert_eq!(state_description('Z'), "Zombie");
    assert_eq!(format_state('q'), "q");
    assert_eq!(oom_description(50), "Low kill likelihood — kernel prefers to keep this process");
    assert_eq!(oom_description(-5), "Adjusted below 0 — unlikely to be killed");
    assert_eq!(syscall_name_x86_64(0), Some("read"));
    assert_eq!(syscall_name_x86_64(100000), None);
    assert_eq!(syscall_name_x86_64(23), Some("select"));
    assert_eq!(syscall_name_x86_64(35), Some("nanosleep"));
    assert_eq!(syscall_name_x86_64(56), Some("clone"));
    assert_eq!(syscall_name_x86_64(228), None);
    assert_eq!(syscall_name_x86_64(270), Some("pselect6"));
    assert_eq!(syscall_name_x86_64(271), Some("ppoll"));
    assert_eq!(syscall_name_x86_64(288), Some("accept4"));
    assert_eq!(syscall_name_x86_64(322), Some("execveat"));
    assert_eq!(syscall_name_x86_64(426), Some("io_uring_enter"));
    for n in 0..1000u64 {
        if let Some(name) = syscall_name_x86_64(n) {
            assert_ne!(syscall_description(name), "System call");
        }
    }
    assert_eq!(syscall_description("read"), "Reading data from a file or socket");
    assert_eq!(seccomp_label(2), "filter active");
    assert_eq!(seccomp_label(7), "unknown");
}

#[test]
fn binary_description_ignores_case() {
    assert_eq!(binary_description("NGINX"), Some("Web server handling HTTP/HTTPS traffic"));
    assert_eq!(binary_description("no-such-binary"), None);
    assert_eq!(binary_description("Nginx"), binary_description("nginx"));
    assert_eq!(binary_description("nginx: worker process"), None);
    assert_eq!(binary_description("/usr/sbin/nginx"), None);
}

#[test]
fn sched_status_and_scores() {
    let stat = "1234 (nginx: worker) S 1 1234 1234 0 -1 4194560 100 0 0 0 5 3 0 0 20 0 1 0 100 1000 200 18446744073709551615 1 1 0 0 0 0 0 0 0 0 0 0 17 0 0 0 0 0 0";
    let (nice, prio, policy) = parse_sched(stat);
    assert_eq!(nice, 0);
    assert_eq!(prio, 20);
    assert_eq!(policy, "SCHED_OTHER");
    let status = "Name:\tnginx\nCapPrm:\t0000000000000021\nCapEff:\t0000000000000000\nSeccomp:\t2\nvoluntary_ctxt_switches:\t7\nnonvoluntary_ctxt_switches:\t3\n";
    let (prm, eff, sec, v, nv) = parse_status(Some(status));
    assert_eq!(prm, "CHOWN, KILL");
    assert_eq!(eff, "none");
    assert_eq!(sec, 2);
    assert_eq!(v, Some(7));
    assert_eq!(nv, Some(3));
    assert_eq!(parse_score(Some(" 667\n")), 667);
    assert_eq!(parse_score(None), 0);
}

#[test]
fn namespace_links() {
    assert_eq!(namespace_inode("net:[4026531840]"), "4026531840");
    assert_eq!(namespace_inode("weird"), "?");
    let targets = vec![Some("cgroup:[1]".to_string()), None, None, Some("net:[9]".to_string()), None, None, None, None];
    let ns = read_namespaces(&targets);
    assert_eq!(ns.len(), 2);
    assert_eq!(ns[0].ns_type, "cgroup");
    assert_eq!(ns[0].inode, "1");
    assert_eq!(ns[1].ns_type, "net");
    assert_eq!(ns[1].inode, "9");
}

// ─── Environment ─────────────────────────────────────────────────────────────

#[test]
fn environ_is_sorted_by_key() {
    let raw = b"PORT=8080\0DATABASE_URL=postgres://x\0AWS_ACCESS_KEY_ID=abc\0";
    let e = read_environ(raw);
    let keys: Vec<&str> = e.iter().map(|x| x.key.as_str()).collect();
    assert_eq!(keys, vec!["AWS_ACCESS_KEY_ID", "DATABASE_URL", "PORT"]);
    assert_eq!(e[2].value, "8080");
}

#[test]
fn secrets_are_redacted() {
    assert!(is_secret("aws_access_key_id"));
    assert!(is_secret("DATABASE_URL"));
    assert!(!is_secret("PORT"));
    let vars = collect_env(b"PORT=8080\0DATABASE_URL=postgres://x\0");
    let db = vars.iter().find(|v| v.key == "DATABASE_URL").unwrap();
    assert!(db.redacted);
    assert_eq!(db.value, "***");
    let port = vars.iter().find(|v| v.key == "PORT").unwrap();
    assert!(!port.redacted);
    assert_eq!(port.value, "8080");
}

// ─── Samplers ────────────────────────────────────────────────────────────────

#[test]
fn io_memory_and_cpu() {
    assert_eq!(read_io("rchar: 5\nread_bytes: 4096\nwrite_bytes: 8192\n"), (4096, 8192));
    let smaps = "00400000-ffff ---p 00000000 00:00 0 [rollup]\nRss:                1024 kB\nPss:                 512 kB\n";
    let status = "VmSwap:\t  1,024 kB\n";
    assert_eq!(sample_memory(Some(smaps), Some(status)), Some((1024, 512, 1024)));
    assert_eq!(sample_memory(None, Some(status)), None);
    let kstat = "cpu  10 20 30 40\ncpu0 1 2 3 4\ncpu1 1 2 3 4\nintr 5\n";
    assert_eq!(cpu_count(Some(kstat)), 2);
    assert_eq!(cpu_count(Some("cpu  10 20 30\ncpu0 5 10 15\ncpu1 5 10 15\nintr 1\n")), 2);
    assert_eq!(cpu_count(None), 1);
    let stat = "42 (x) S 1 1 1 0 -1 0 0 0 0 0 7 9 0 0 20 0 1 0 0 0 0";
    assert_eq!(read_cpu_ticks(stat, kstat), Some((16, 100)));
}

#[test]
fn net_dev_totals_and_rate() {
    let dev = "Inter-|   Receive\n face |bytes\n  lo: 100 1 0 0 0 0 0 0 200 2 0 0 0 0 0 0\n eth0: 50 1 0 0 0 0 0 0 70 2 0 0 0 0 0 0\n";
    assert_eq!(read_net_dev(dev), Some((150, 270)));
    assert_eq!(read_net_dev_for_pid(dev), Some((150, 270)));
    assert_eq!(sample_network_rate(Some((100, 50)), Some((160, 40))), Some((60, 0)));
    assert_eq!(sample_network_rate(None, Some((1, 1))), None);
}

// ─── /proc text ──────────────────────────────────────────────────────────────

#[test]
fn maps_regions() {
    let raw = "00400000-00452000 r-xp 00000000 08:02 173521 /usr/bin/my app\n\n7fff-8000 rw-p 00000000 00:00 0\n";
    let r = read_maps(raw);
    assert_eq!(r.len(), 2);
    assert_eq!(r[0].perms, "r-xp");
    assert_eq!(r[0].inode, 173521);
    assert_eq!(r[0].pathname, Some("/usr/bin/my app".to_string()));
    assert_eq!(r[1].pathname, None);
}

#[test]
fn unix_socket_entry_debug() {
    let e = UnixSocketEntry { path: "/tmp/test.sock".to_string() };
    let debug = format!("{:?}", e);
    assert!(debug.contains("test.sock"));
}

#[test]
fn unix_sockets_by_inode() {
    let raw = "Num       RefCount Protocol Flags    Type St Inode Path\nffff: 00000002 00000000 00010000 0001 01 300 /run/a.sock\nffff: 00000002 00000000 00010000 0001 01 301\nffff: 00000002 00000000 00010000 0001 01 302 /run/other.sock\n";
    let v = list_unix_sockets(raw, &[300, 301]);
    assert_eq!(v.len(), 2);
    assert_eq!(v[0].path, "/run/a.sock");
    assert_eq!(v[1].path, "");
}

#[test]
fn kernel_context_from_sources() {
    let stat = "1234 (nginx) S 1 1234 1234 0 -1 4194560 100 0 0 0 5 3 0 0 20 0 1 0 100 1000 200 18446744073709551615 1 1 0 0 0 0 0 0 0 0 0 0 17 0 0 0 0 0 0";
    let src = KernelSources {
        stat: stat.to_string(),
        oom_score: Some("12\n".to_string()),
        oom_score_adj: None,
        cgroup: None,
        namespace_links: vec![None, None, None, Some("net:[77]".to_string()), None, None, None, None],
        status: None,
    };
    let k = collect_kernel(&src);
    assert_eq!(k.sched_policy, "SCHED_OTHER");
    assert_eq!(k.priority, 20);
    assert_eq!(k.oom_score, 12);
    assert_eq!(k.oom_score_adj, 0);
    assert_eq!(k.cgroup, "unknown");
    assert_eq!(k.namespaces.len(), 1);
    assert_eq!(k.namespaces[0].inode, "77");
    assert_eq!(k.cap_permitted, "0");
    assert_eq!(k.seccomp, 0);
}

#[test]
fn signal_impact_matches_analysis() {
    let src = ImpactSources {
        socket_inodes: vec![],
        tcp_tables: vec![],
        children: None,
        child_stats: vec!["5 (a) S 1 1 1".to_string(), "6 (b) S 2 1 1".to_string()],
        locks: Some("1: FLOCK  ADVISORY  WRITE 1 08:01:1 0 EOF\n".to_string()),
        cgroup: None,
    };
    let r = signal_impact(1, &src);
    assert_eq!(r.child_process_count, 1);
    assert!(r.has_file_locks);
    assert!(r.prefer_graceful);
    assert_eq!(
        r.recommendation,
        "1 child process(es) will be orphaned or killed (depending on signal). process holds exclusive file lock(s) — hard kill may leave stale locks. Graceful stop (SIGTERM) is recommended."
    );
}

#[test]
fn proc_files_are_present() {
    assert_eq!(read_stat(1), Some(()));
    assert_eq!(read_status(1), Some(()));
    assert_eq!(read_net(1), Some(()));
}

#[test]
fn environ_bytes_are_decoded_lossily() {
    let e = read_environ(b"K=a\xffb\0");
    assert_eq!(e.len(), 1);
    assert_eq!(e[0].key, "K");
    assert_eq!(e[0].value, "a\u{FFFD}b");
}
