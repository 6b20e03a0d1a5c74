//! Raw kernel values turned into plain English: capability bitmasks,
//! OOM scores, process states, syscall numbers and names, and
//! well-known binaries.
use vstd::prelude::*;
use crate::text::{append_chars, chars_of, fmt_radix, hex_alt, is_lit, join, push_char, string_of};

verus! {

broadcast use vstd::string::group_string_axioms;

// ─── Capabilities ────────────────────────────────────────────────────────────

/// Number of named capability bits.
pub const CAP_COUNT: usize = 41;

/// Name of capability bit `i`.
pub open spec fn cap_name_spec(i: int) -> Seq<char> {
    if i == 0 { "CHOWN"@ }
    else if i == 1 { "DAC_OVERRIDE"@ }
    else if i == 2 { "DAC_READ_SEARCH"@ }
    else if i == 3 { "FOWNER"@ }
    else if i == 4 { "FSETID"@ }
    else if i == 5 { "KILL"@ }
    else if i == 6 { "SETGID"@ }
    else if i == 7 { "SETUID"@ }
    else if i == 8 { "SETPCAP"@ }
    else if i == 9 { "LINUX_IMMUTABLE"@ }
    else if i == 10 { "NET_BIND_SERVICE"@ }
    else if i == 11 { "NET_BROADCAST"@ }
    else if i == 12 { "NET_ADMIN"@ }
    else if i == 13 { "NET_RAW"@ }
    else if i == 14 { "IPC_LOCK"@ }
    else if i == 15 { "IPC_OWNER"@ }
    else if i == 16 { "SYS_MODULE"@ }
    else if i == 17 { "SYS_RAWIO"@ }
    else if i == 18 { "SYS_CHROOT"@ }
    else if i == 19 { "SYS_PTRACE"@ }
    else if i == 20 { "SYS_PACCT"@ }
    else if i == 21 { "SYS_ADMIN"@ }
    else if i == 22 { "SYS_BOOT"@ }
    else if i == 23 { "SYS_NICE"@ }
    else if i == 24 { "SYS_RESOURCE"@ }
    else if i == 25 { "SYS_TIME"@ }
    else if i == 26 { "SYS_TTY_CONFIG"@ }
    else if i == 27 { "MKNOD"@ }
    else if i == 28 { "LEASE"@ }
    else if i == 29 { "AUDIT_WRITE"@ }
    else if i == 30 { "AUDIT_CONTROL"@ }
    else if i == 31 { "SETFCAP"@ }
    else if i == 32 { "MAC_OVERRIDE"@ }
    else if i == 33 { "MAC_ADMIN"@ }
    else if i == 34 { "SYSLOG"@ }
    else if i == 35 { "WAKE_ALARM"@ }
    else if i == 36 { "BLOCK_SUSPEND"@ }
    else if i == 37 { "AUDIT_READ"@ }
    else if i == 38 { "PERFMON"@ }
    else if i == 39 { "BPF"@ }
    else { "CHECKPOINT_RESTORE"@ }
}

fn cap_name(i: usize) -> (r: &'static str)
    requires
        i < CAP_COUNT,
    ensures
        r@ == cap_name_spec(i as int),
{
    if i == 0 { "CHOWN" }
    else if i == 1 { "DAC_OVERRIDE" }
    else if i == 2 { "DAC_READ_SEARCH" }
    else if i == 3 { "FOWNER" }
    else if i == 4 { "FSETID" }
    else if i == 5 { "KILL" }
    else if i == 6 { "SETGID" }
    else if i == 7 { "SETUID" }
    else if i == 8 { "SETPCAP" }
    else if i == 9 { "LINUX_IMMUTABLE" }
    else if i == 10 { "NET_BIND_SERVICE" }
    else if i == 11 { "NET_BROADCAST" }
    else if i == 12 { "NET_ADMIN" }
    else if i == 13 { "NET_RAW" }
    else if i == 14 { "IPC_LOCK" }
    else if i == 15 { "IPC_OWNER" }
    else if i == 16 { "SYS_MODULE" }
    else if i == 17 { "SYS_RAWIO" }
    else if i == 18 { "SYS_CHROOT" }
    else if i == 19 { "SYS_PTRACE" }
    else if i == 20 { "SYS_PACCT" }
    else if i == 21 { "SYS_ADMIN" }
    else if i == 22 { "SYS_BOOT" }
    else if i == 23 { "SYS_NICE" }
    else if i == 24 { "SYS_RESOURCE" }
    else if i == 25 { "SYS_TIME" }
    else if i == 26 { "SYS_TTY_CONFIG" }
    else if i == 27 { "MKNOD" }
    else if i == 28 { "LEASE" }
    else if i == 29 { "AUDIT_WRITE" }
    else if i == 30 { "AUDIT_CONTROL" }
    else if i == 31 { "SETFCAP" }
    else if i == 32 { "MAC_OVERRIDE" }
    else if i == 33 { "MAC_ADMIN" }
    else if i == 34 { "SYSLOG" }
    else if i == 35 { "WAKE_ALARM" }
    else if i == 36 { "BLOCK_SUSPEND" }
    else if i == 37 { "AUDIT_READ" }
    else if i == 38 { "PERFMON" }
    else if i == 39 { "BPF" }
    else { "CHECKPOINT_RESTORE" }
}

/// Whether bit `i` of `val` is set.
pub open spec fn bit_set(val: u64, i: int) -> bool {
    (val & (1u64 << (i as u64))) != 0
}

/// Names of the set bits of `val` among the first `n` capability bits, in bit order.
pub open spec fn caps_upto(val: u64, n: int) -> Seq<Seq<char>>
    decreases n,
{
    if n <= 0 {
        Seq::empty()
    } else if bit_set(val, n - 1) {
        caps_upto(val, n - 1).push(cap_name_spec(n - 1))
    } else {
        caps_upto(val, n - 1)
    }
}

/// The text for a capability set: `none` for 0, the names of its set bits
/// joined by `, `, or `0x…` when none of its set bits has a name.
pub open spec fn caps_text(val: u64) -> Seq<char> {
    if val == 0 {
        "none"@
    } else if caps_upto(val, CAP_COUNT as int).len() == 0 {
        hex_alt(val as nat)
    } else {
        join(caps_upto(val, CAP_COUNT as int), ", "@)
    }
}

fn caps_to_string(val: u64) -> (s: String)
    ensures
        s@ == caps_text(val),
{
    if val == 0 {
        return "none".to_string();
    }
    let sep = chars_of(", ");
    let mut out: Vec<char> = Vec::new();
    let mut count: usize = 0;
    let mut i: usize = 0;
    while i < CAP_COUNT
        invariant
            i <= CAP_COUNT,
            sep@ == ", "@,
            count == caps_upto(val, i as int).len(),
            out@ == join(caps_upto(val, i as int), ", "@),
            count <= i,
        decreases CAP_COUNT - i,
    {
        let ghost before = caps_upto(val, i as int);
        if (val & (1u64 << (i as u64))) != 0 {
            let name = chars_of(cap_name(i));
            if count > 0 {
                append_chars(&mut out, sep.as_slice());
            }
            append_chars(&mut out, name.as_slice());
            count = count + 1;
            assert(caps_upto(val, i + 1).drop_last() =~= before);
        }
        i = i + 1;
    }
    if count == 0 {
        let mut h: Vec<char> = Vec::new();
        h.push('0');
        h.push('x');
        let d = fmt_radix(val, 16);
        append_chars(&mut h, d.as_slice());
        assert(h@ =~= hex_alt(val as nat));
        string_of(h.as_slice())
    } else {
        string_of(out.as_slice())
    }
}

/// Given the permitted and effective capability bitmasks, the
/// human-readable description of each set.
pub fn format_caps(permitted: u64, effective: u64) -> (r: (String, String))
    ensures
        r.0@ == caps_text(permitted),
        r.1@ == caps_text(effective),
{
    (caps_to_string(permitted), caps_to_string(effective))
}

// ─── OOM score ───────────────────────────────────────────────────────────────

/// The band description of an OOM score.
pub open spec fn oom_text(score: i32) -> Seq<char> {
    if score < 0 {
        "Adjusted below 0 — unlikely to be killed"@
    } else if score <= 100 {
        "Low kill likelihood — kernel prefers to keep this process"@
    } else if score <= 500 {
        "Moderate kill likelihood — may be killed under memory pressure"@
    } else if score <= 900 {
        "High kill likelihood — one of the first OOM kill candidates"@
    } else {
        "Critical — killed first under any memory pressure"@
    }
}

/// OOM score → description (low/moderate/high/critical).
pub fn oom_description(score: i32) -> (r: &'static str)
    ensures
        r@ == oom_text(score),
{
    if score < 0 {
        "Adjusted below 0 — unlikely to be killed"
    } else if score <= 100 {
        "Low kill likelihood — kernel prefers to keep this process"
    } else if score <= 500 {
        "Moderate kill likelihood — may be killed under memory pressure"
    } else if score <= 900 {
        "High kill likelihood — one of the first OOM kill candidates"
    } else {
        "Critical — killed first under any memory pressure"
    }
}

// ─── Process state ───────────────────────────────────────────────────────────

/// The description of a process state character; an unknown character
/// stands for itself.
pub open spec fn state_text(c: char) -> Seq<char> {
    if c == 'R' {
        "Running"@
    } else if c == 'S' {
        "Sleeping (interruptible)"@
    } else if c == 'D' {
        "Uninterruptible sleep (disk/NFS wait)"@
    } else if c == 'Z' {
        "Zombie"@
    } else if c == 'T' {
        "Stopped (signal)"@
    } else if c == 't' {
        "Tracing stop"@
    } else if c == 'W' {
        "Paging"@
    } else if c == 'X' || c == 'x' {
        "Dead"@
    } else if c == 'I' {
        "Idle"@
    } else {
        seq![c]
    }
}

/// Process state char → human description (R, S, D, Z, T, t, I, ...).
pub fn state_description(c: char) -> (s: String)
    ensures
        s@ == state_text(c),
{
    let lit: &str = if c == 'R' {
        "Running"
    } else if c == 'S' {
        "Sleeping (interruptible)"
    } else if c == 'D' {
        "Uninterruptible sleep (disk/NFS wait)"
    } else if c == 'Z' {
        "Zombie"
    } else if c == 'T' {
        "Stopped (signal)"
    } else if c == 't' {
        "Tracing stop"
    } else if c == 'W' {
        "Paging"
    } else if c == 'X' || c == 'x' {
        "Dead"
    } else if c == 'I' {
        "Idle"
    } else {
        let mut s = String::new();
        push_char(&mut s, c);
        assert(s@ =~= seq![c]);
        return s;
    };
    lit.to_string()
}

/// The process state as shown in a snapshot: the same description as
/// [`state_description`].
pub fn format_state(c: char) -> (s: String)
    ensures
        s@ == state_text(c),
{
    state_description(c)
}

// ─── Syscalls ────────────────────────────────────────────────────────────────

/// The Linux x86_64 name of syscall `num`, for a curated set of common
/// syscalls (each of which has its own description).
pub open spec fn syscall_name_spec(num: u64) -> Option<Seq<char>> {
    if num == 0 { Some("read"@) }
    else if num == 1 { Some("write"@) }
    else if num == 2 { Some("open"@) }
    else if num == 3 { Some("close"@) }
    else if num == 7 { Some("poll"@) }
    else if num == 9 { Some("mmap"@) }
    else if num == 10 { Some("mprotect"@) }
    else if num == 11 { Some("munmap"@) }
    else if num == 12 { Some("brk"@) }
    else if num == 23 { Some("select"@) }
    else if num == 35 { Some("nanosleep"@) }
    else if num == 40 { Some("sendfile"@) }
    else if num == 42 { Some("connect"@) }
    else if num == 43 { Some("accept"@) }
    else if num == 44 { Some("sendto"@) }
    else if num == 45 { Some("recvfrom"@) }
    else if num == 46 { Some("sendmsg"@) }
    else if num == 47 { Some("recvmsg"@) }
    else if num == 56 { Some("clone"@) }
    else if num == 57 { Some("fork"@) }
    else if num == 58 { Some("vfork"@) }
    else if num == 59 { Some("execve"@) }
    else if num == 61 { Some("wait4"@) }
    else if num == 202 { Some("futex"@) }
    else if num == 232 { Some("epoll_wait"@) }
    else if num == 257 { Some("openat"@) }
    else if num == 270 { Some("pselect6"@) }
    else if num == 271 { Some("ppoll"@) }
    else if num == 288 { Some("accept4"@) }
    else if num == 322 { Some("execveat"@) }
    else if num == 426 { Some("io_uring_enter"@) }
    else { None }
}

/// Returns the Linux x86_64 syscall name for syscall number `num`, or `None`
/// if it is not in the curated set.
pub fn syscall_name_x86_64(num: u64) -> (r: Option<&'static str>)
    ensures
        match r {
            Some(n) => syscall_name_spec(num) == Some(n@),
            None => syscall_name_spec(num) is None,
        },
{
    if num == 0 { Some("read") }
    else if num == 1 { Some("write") }
    else if num == 2 { Some("open") }
    else if num == 3 { Some("close") }
    else if num == 7 { Some("poll") }
    else if num == 9 { Some("mmap") }
    else if num == 10 { Some("mprotect") }
    else if num == 11 { Some("munmap") }
    else if num == 12 { Some("brk") }
    else if num == 23 { Some("select") }
    else if num == 35 { Some("nanosleep") }
    else if num == 40 { Some("sendfile") }
    else if num == 42 { Some("connect") }
    else if num == 43 { Some("accept") }
    else if num == 44 { Some("sendto") }
    else if num == 45 { Some("recvfrom") }
    else if num == 46 { Some("sendmsg") }
    else if num == 47 { Some("recvmsg") }
    else if num == 56 { Some("clone") }
    else if num == 57 { Some("fork") }
    else if num == 58 { Some("vfork") }
    else if num == 59 { Some("execve") }
    else if num == 61 { Some("wait4") }
    else if num == 202 { Some("futex") }
    else if num == 232 { Some("epoll_wait") }
    else if num == 257 { Some("openat") }
    else if num == 270 { Some("pselect6") }
    else if num == 271 { Some("ppoll") }
    else if num == 288 { Some("accept4") }
    else if num == 322 { Some("execveat") }
    else if num == 426 { Some("io_uring_enter") }
    else { None }
}

/// The plain-English description of syscall `name`.
pub open spec fn syscall_desc_text(name: Seq<char>) -> Seq<char> {
    if name == "epoll_wait"@ || name == "epoll_pwait"@ {
        "Waiting for I/O events (network or file activity)"@
    } else if name == "select"@ || name == "pselect6"@ {
        "Waiting for readiness on multiple file descriptors"@
    } else if name == "poll"@ || name == "ppoll"@ {
        "Polling file descriptors for events"@
    } else if name == "read"@ || name == "pread64"@ {
        "Reading data from a file or socket"@
    } else if name == "write"@ || name == "pwrite64"@ {
        "Writing data to a file or socket"@
    } else if name == "recvfrom"@ || name == "recvmsg"@ {
        "Receiving data from a socket"@
    } else if name == "sendto"@ || name == "sendmsg"@ {
        "Sending data to a socket"@
    } else if name == "accept"@ || name == "accept4"@ {
        "Accepting a new incoming network connection"@
    } else if name == "connect"@ {
        "Establishing a new outgoing network connection"@
    } else if name == "open"@ || name == "openat"@ {
        "Opening a file or device"@
    } else if name == "close"@ {
        "Closing a file descriptor"@
    } else if name == "futex"@ {
        "Synchronising threads (futex wait/wake)"@
    } else if name == "nanosleep"@ || name == "clock_nanosleep"@ {
        "Sleeping for a specified duration"@
    } else if name == "mmap"@ || name == "mmap2"@ {
        "Mapping files or anonymous memory into the process"@
    } else if name == "munmap"@ {
        "Unmapping a memory region"@
    } else if name == "clone"@ || name == "clone3"@ {
        "Creating a new thread or process"@
    } else if name == "fork"@ || name == "vfork"@ {
        "Creating a new process"@
    } else if name == "execve"@ || name == "execveat"@ {
        "Executing a new program image"@
    } else if name == "wait4"@ || name == "waitid"@ {
        "Waiting for child process status changes"@
    } else if name == "sendfile"@ {
        "Transferring file data directly between descriptors"@
    } else if name == "io_uring_enter"@ {
        "Submitting or waiting for async I/O via io_uring"@
    } else if name == "brk"@ || name == "mprotect"@ {
        "Managing the process heap or memory protections"@
    } else {
        "System call"@
    }
}

/// Syscall name → plain-English description.
pub fn syscall_description(name: &str) -> (r: &'static str)
    ensures
        r@ == syscall_desc_text(name@),
{
    let n = chars_of(name);
    let n = n.as_slice();
    if is_lit(n, "epoll_wait") || is_lit(n, "epoll_pwait") {
        "Waiting for I/O events (network or file activity)"
    } else if is_lit(n, "select") || is_lit(n, "pselect6") {
        "Waiting for readiness on multiple file descriptors"
    } else if is_lit(n, "poll") || is_lit(n, "ppoll") {
        "Polling file descriptors for events"
    } else if is_lit(n, "read") || is_lit(n, "pread64") {
        "Reading data from a file or socket"
    } else if is_lit(n, "write") || is_lit(n, "pwrite64") {
        "Writing data to a file or socket"
    } else if is_lit(n, "recvfrom") || is_lit(n, "recvmsg") {
        "Receiving data from a socket"
    } else if is_lit(n, "sendto") || is_lit(n, "sendmsg") {
        "Sending data to a socket"
    } else if is_lit(n, "accept") || is_lit(n, "accept4") {
        "Accepting a new incoming network connection"
    } else if is_lit(n, "connect") {
        "Establishing a new outgoing network connection"
    } else if is_lit(n, "open") || is_lit(n, "openat") {
        "Opening a file or device"
    } else if is_lit(n, "close") {
        "Closing a file descriptor"
    } else if is_lit(n, "futex") {
        "Synchronising threads (futex wait/wake)"
    } else if is_lit(n, "nanosleep") || is_lit(n, "clock_nanosleep") {
        "Sleeping for a specified duration"
    } else if is_lit(n, "mmap") || is_lit(n, "mmap2") {
        "Mapping files or anonymous memory into the process"
    } else if is_lit(n, "munmap") {
        "Unmapping a memory region"
    } else if is_lit(n, "clone") || is_lit(n, "clone3") {
        "Creating a new thread or process"
    } else if is_lit(n, "fork") || is_lit(n, "vfork") {
        "Creating a new process"
    } else if is_lit(n, "execve") || is_lit(n, "execveat") {
        "Executing a new program image"
    } else if is_lit(n, "wait4") || is_lit(n, "waitid") {
        "Waiting for child process status changes"
    } else if is_lit(n, "sendfile") {
        "Transferring file data directly between descriptors"
    } else if is_lit(n, "io_uring_enter") {
        "Submitting or waiting for async I/O via io_uring"
    } else if is_lit(n, "brk") || is_lit(n, "mprotect") {
        "Managing the process heap or memory protections"
    } else {
        "System call"
    }
}

// ─── Well-known binaries ─────────────────────────────────────────────────────

/// What `str::to_lowercase` returns for a string with characters `s`.
pub uninterp spec fn lowercase(s: Seq<char>) -> Seq<char>;

/// `str::to_lowercase`: the Unicode lowercase mapping of `s`.
#[verifier::external_body]
pub(crate) fn to_lowercase(s: &str) -> (r: String)
    ensures
        r@ == lowercase(s@),
{
    s.to_lowercase()
}

/// The description of a well-known binary, given its lowercased name.
pub open spec fn binary_text(lower: Seq<char>) -> Option<Seq<char>> {
    if lower == "nginx"@ {
        Some("Web server handling HTTP/HTTPS traffic"@)
    } else if lower == "httpd"@ || lower == "apache2"@ {
        Some("Apache HTTP server"@)
    } else if lower == "postgres"@ || lower == "postgresql"@ {
        Some("PostgreSQL database server"@)
    } else if lower == "mysqld"@ || lower == "mariadbd"@ {
        Some("MySQL/MariaDB database server"@)
    } else if lower == "redis-server"@ || lower == "redis"@ {
        Some("Redis in-memory data store"@)
    } else if lower == "sshd"@ {
        Some("SSH daemon accepting remote shell connections"@)
    } else if lower == "systemd"@ {
        Some("Init system and service manager (PID 1)"@)
    } else if lower == "dockerd"@ {
        Some("Docker container daemon"@)
    } else if lower == "containerd"@ {
        Some("Container runtime daemon (containerd)"@)
    } else if lower == "kubelet"@ {
        Some("Kubernetes node agent (kubelet)"@)
    } else if lower == "node"@ {
        Some("Node.js runtime process"@)
    } else if lower == "python"@ || lower == "python3"@ {
        Some("Python interpreter process"@)
    } else if lower == "java"@ {
        Some("JVM process (Java application)"@)
    } else if lower == "rsyslogd"@ {
        Some("System logging daemon (rsyslog)"@)
    } else if lower == "journald"@ || lower == "systemd-journald"@ {
        Some("systemd journal logging service"@)
    } else if lower == "sshd-session"@ {
        Some("Interactive SSH session"@)
    } else {
        None
    }
}

/// The description of a well-known binary whose lowercased name is `lower`.
pub fn binary_description_lowercase(lower: &str) -> (r: Option<&'static str>)
    ensures
        match r {
            Some(d) => binary_text(lower@) == Some(d@),
            None => binary_text(lower@) is None,
        },
{
    let l = chars_of(lower);
    let l = l.as_slice();
    if is_lit(l, "nginx") {
        Some("Web server handling HTTP/HTTPS traffic")
    } else if is_lit(l, "httpd") || is_lit(l, "apache2") {
        Some("Apache HTTP server")
    } else if is_lit(l, "postgres") || is_lit(l, "postgresql") {
        Some("PostgreSQL database server")
    } else if is_lit(l, "mysqld") || is_lit(l, "mariadbd") {
        Some("MySQL/MariaDB database server")
    } else if is_lit(l, "redis-server") || is_lit(l, "redis") {
        Some("Redis in-memory data store")
    } else if is_lit(l, "sshd") {
        Some("SSH daemon accepting remote shell connections")
    } else if is_lit(l, "systemd") {
        Some("Init system and service manager (PID 1)")
    } else if is_lit(l, "dockerd") {
        Some("Docker container daemon")
    } else if is_lit(l, "containerd") {
        Some("Container runtime daemon (containerd)")
    } else if is_lit(l, "kubelet") {
        Some("Kubernetes node agent (kubelet)")
    } else if is_lit(l, "node") {
        Some("Node.js runtime process")
    } else if is_lit(l, "python") || is_lit(l, "python3") {
        Some("Python interpreter process")
    } else if is_lit(l, "java") {
        Some("JVM process (Java application)")
    } else if is_lit(l, "rsyslogd") {
        Some("System logging daemon (rsyslog)")
    } else if is_lit(l, "journald") || is_lit(l, "systemd-journald") {
        Some("systemd journal logging service")
    } else if is_lit(l, "sshd-session") {
        Some("Interactive SSH session")
    } else {
        None
    }
}

/// Well-known binary name → description, matched case-insensitively.
pub fn binary_description(name: &str) -> (r: Option<&'static str>)
    ensures
        match r {
            Some(d) => binary_text(lowercase(name@)) == Some(d@),
            None => binary_text(lowercase(name@)) is None,
        },
{
    let lower = to_lowercase(name);
    binary_description_lowercase(lower.as_str())
}

/// Seccomp mode → label.
pub open spec fn seccomp_text(v: u32) -> Seq<char> {
    if v == 0 {
        "disabled"@
    } else if v == 1 {
        "strict"@
    } else if v == 2 {
        "filter active"@
    } else {
        "unknown"@
    }
}

/// Seccomp mode number → label.
pub fn seccomp_label(v: u32) -> (r: &'static str)
    ensures
        r@ == seccomp_text(v),
{
    if v == 0 {
        "disabled"
    } else if v == 1 {
        "strict"
    } else if v == 2 {
        "filter active"
    } else {
        "unknown"
    }
}

/// Every syscall the number table names has a description of its own, not
/// the generic "System call".
pub proof fn lemma_named_syscalls_described(num: u64)
    requires
        syscall_name_spec(num) is Some,
    ensures
        syscall_desc_text(syscall_name_spec(num)->0) != "System call"@,
{
    let name = syscall_name_spec(num)->0;
    let d = syscall_desc_text(name);
    reveal_strlit("Accepting a new incoming network connection");
    reveal_strlit("Closing a file descriptor");
    reveal_strlit("Creating a new process");
    reveal_strlit("Creating a new thread or process");
    reveal_strlit("Establishing a new outgoing network connection");
    reveal_strlit("Executing a new program image");
    reveal_strlit("Managing the process heap or memory protections");
    reveal_strlit("Mapping files or anonymous memory into the process");
    reveal_strlit("Opening a file or device");
    reveal_strlit("Polling file descriptors for events");
    reveal_strlit("Reading data from a file or socket");
    reveal_strlit("Receiving data from a socket");
    reveal_strlit("Sending data to a socket");
    reveal_strlit("Sleeping for a specified duration");
    reveal_strlit("Submitting or waiting for async I/O via io_uring");
    reveal_strlit("Synchronising threads (futex wait/wake)");
    reveal_strlit("System call");
    reveal_strlit("Transferring file data directly between descriptors");
    reveal_strlit("Unmapping a memory region");
    reveal_strlit("Waiting for I/O events (network or file activity)");
    reveal_strlit("Waiting for child process status changes");
    reveal_strlit("Waiting for readiness on multiple file descriptors");
    reveal_strlit("Writing data to a file or socket");
    assert(d.len() != "System call"@.len());
}

/// Matching is case-insensitive: two names with the same lowercase form
/// (as `str::to_lowercase` gives it) get the same description, or both none.
pub proof fn lemma_binary_match_ignores_case(a: Seq<char>, b: Seq<char>)
    requires
        lowercase(a) == lowercase(b),
    ensures
        binary_text(lowercase(a)) == binary_text(lowercase(b)),
{
}

/// The OOM bands: a negative score is "adjusted", 0 to 100 is low, 101 to
/// 500 moderate, 501 to 900 high and above 900 critical; each band has its
/// own text, so a score gets a band's text exactly when it lies in it.
pub proof fn lemma_oom_bands(score: i32)
    ensures
        (oom_text(score) == "Adjusted below 0 — unlikely to be killed"@) <==> score < 0,
        (oom_text(score) == "Low kill likelihood — kernel prefers to keep this process"@) <==> (0 <= score <= 100),
        (oom_text(score) == "Moderate kill likelihood — may be killed under memory pressure"@) <==> (101 <= score <= 500),
        (oom_text(score) == "High kill likelihood — one of the first OOM kill candidates"@) <==> (501 <= score <= 900),
        (oom_text(score) == "Critical — killed first under any memory pressure"@) <==> score > 900,
{
    reveal_strlit("Adjusted below 0 — unlikely to be killed");
    reveal_strlit("Low kill likelihood — kernel prefers to keep this process");
    reveal_strlit("Moderate kill likelihood — may be killed under memory pressure");
    reveal_strlit("High kill likelihood — one of the first OOM kill candidates");
    reveal_strlit("Critical — killed first under any memory pressure");
    let a = "Adjusted below 0 — unlikely to be killed"@;
    let l = "Low kill likelihood — kernel prefers to keep this process"@;
    let m = "Moderate kill likelihood — may be killed under memory pressure"@;
    let h = "High kill likelihood — one of the first OOM kill candidates"@;
    let c = "Critical — killed first under any memory pressure"@;
    assert(a[0] != l[0] && a[0] != m[0] && a[0] != h[0] && a[0] != c[0]);
    assert(l[0] != m[0] && l[0] != h[0] && l[0] != c[0]);
    assert(m[0] != h[0] && m[0] != c[0]);
    assert(h[0] != c[0]);
}

} // verus!
