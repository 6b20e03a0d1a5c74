//! The data a process snapshot is made of.
use vstd::prelude::*;

verus! {

/// Kernel context of a process.
#[derive(Debug, Clone)]
pub struct KernelInfo {
    pub sched_policy: String,
    pub nice: i32,
    pub priority: i32,
    pub oom_score: i32,
    pub oom_score_adj: i32,
    pub cgroup: String,
    pub namespaces: Vec<NamespaceEntry>,
    pub cap_permitted: String,
    pub cap_effective: String,
    pub seccomp: u32,
    pub voluntary_ctxt_switches: Option<u64>,
    pub nonvoluntary_ctxt_switches: Option<u64>,
}

/// A namespace the process belongs to.
#[derive(Debug, Clone)]
pub struct NamespaceEntry {
    pub ns_type: String,
    pub inode: String,
}

/// A listening socket.
#[derive(Debug, Clone)]
pub struct SocketEntry {
    pub protocol: String,
    pub local_addr: String,
    pub local_port: u16,
}

/// A connected socket.
#[derive(Debug, Clone)]
pub struct ConnectionEntry {
    pub protocol: String,
    pub local_addr: String,
    pub local_port: u16,
    pub remote_addr: String,
    pub remote_port: u16,
    pub state: String,
}

/// An open file descriptor.
#[derive(Debug, Clone)]
pub struct OpenFile {
    pub fd: u32,
    pub fd_type: String,
    pub description: String,
}

/// A node of the process tree.
#[derive(Debug)]
pub struct ProcessNode {
    pub pid: i32,
    pub name: String,
    pub uid: u32,
    pub rss_kb: u64,
    pub children: Vec<ProcessNode>,
}

/// The sections a snapshot should include.
#[derive(Debug, Default, Clone, Copy)]
pub struct CollectOptions {
    pub resources: bool,
    pub kernel: bool,
    pub network: bool,
    pub files: bool,
    pub env: bool,
    pub tree: bool,
    pub gpu: bool,
}

/// Declares `std::io::Error` to the verifier; values are carried, never inspected.
#[verifier::external_type_specification]
#[verifier::external_body]
pub struct ExIoError(std::io::Error);

/// Why a snapshot could not be taken.
#[derive(Debug)]
pub enum PeekError {
    /// The process does not exist.
    NotFound(i32),
    /// Reading `/proc` for the process failed.
    ProcIo { pid: i32, source: std::io::Error },
    /// `/proc` text for the process could not be parsed.
    ProcParse { pid: i32, msg: String },
}

} // verus!
