//! The network section of a process snapshot: listening sockets,
//! connections, Unix sockets and the traffic rate of its namespace.
use vstd::prelude::*;
use crate::model::{ConnectionEntry, SocketEntry};
use crate::proc_reader::{list_unix_sockets, unix_paths, unix_view, UnixSocketEntry};
use crate::sampler::sample_network_rate;
use crate::text::{lines, skip_first};

verus! {

/// Network view of a process.
#[derive(Debug, Clone)]
pub struct NetworkInfo {
    pub listening_tcp: Vec<SocketEntry>,
    pub listening_udp: Vec<SocketEntry>,
    pub connections: Vec<ConnectionEntry>,
    /// `None` when the process has no Unix sockets.
    pub unix_sockets: Option<Vec<UnixSocketEntry>>,
    pub traffic_rx_bytes_per_sec: Option<u64>,
    pub traffic_tx_bytes_per_sec: Option<u64>,
}

/// The TCP/UDP sockets of a process as the socket tables list them.
pub struct RawNetwork {
    pub listening_tcp: Vec<SocketEntry>,
    pub listening_udp: Vec<SocketEntry>,
    pub connections: Vec<ConnectionEntry>,
}

/// A copy of a socket entry.
pub fn copy_socket(s: &SocketEntry) -> (r: SocketEntry)
    ensures
        r == *s,
{
    SocketEntry { protocol: s.protocol.clone(), local_addr: s.local_addr.clone(), local_port: s.local_port }
}

impl NetworkInfo {
    /// All listening sockets: the TCP ones, then the UDP ones.
    pub fn listening(&self) -> (r: Vec<SocketEntry>)
        ensures
            r@ == self.listening_tcp@ + self.listening_udp@,
    {
        let mut out: Vec<SocketEntry> = Vec::new();
        let mut i: usize = 0;
        while i < self.listening_tcp.len()
            invariant
                i <= self.listening_tcp@.len(),
                out@ == self.listening_tcp@.take(i as int),
            decreases self.listening_tcp@.len() - i,
        {
            out.push(copy_socket(&self.listening_tcp[i]));
            assert(self.listening_tcp@.take(i + 1) =~= self.listening_tcp@.take(i as int).push(self.listening_tcp@[i as int]));
            i = i + 1;
        }
        let mut j: usize = 0;
        assert(self.listening_tcp@.take(i as int) =~= self.listening_tcp@);
        while j < self.listening_udp.len()
            invariant
                j <= self.listening_udp@.len(),
                out@ == self.listening_tcp@ + self.listening_udp@.take(j as int),
            decreases self.listening_udp@.len() - j,
        {
            out.push(copy_socket(&self.listening_udp[j]));
            assert(self.listening_tcp@ + self.listening_udp@.take(j + 1) =~= (self.listening_tcp@
                + self.listening_udp@.take(j as int)).push(self.listening_udp@[j as int]));
            j = j + 1;
        }
        assert(self.listening_udp@.take(j as int) =~= self.listening_udp@);
        out
    }
}

/// Assembles the network section: the sockets as the tables list them, the
/// process's Unix sockets found in `/proc/net/unix` text `unix_raw` by the
/// process's socket `inodes` (`None` when there are none), and the traffic
/// rate from two `/proc/<pid>/net/dev` totals taken one second apart.
pub fn collect_network(
    raw: RawNetwork,
    unix_raw: &str,
    inodes: &[u64],
    first: Option<(u64, u64)>,
    second: Option<(u64, u64)>,
) -> (r: NetworkInfo)
    ensures
        r.listening_tcp@ == raw.listening_tcp@,
        r.listening_udp@ == raw.listening_udp@,
        r.connections@ == raw.connections@,
        ({
            let paths = unix_paths(skip_first(lines(unix_raw@)), inodes@);
            match r.unix_sockets {
                None => paths.len() == 0,
                Some(v) => paths.len() > 0 && unix_view(v@) == paths,
            }
        }),
        match (first, second) {
            (Some(a), Some(b)) => {
                &&& r.traffic_rx_bytes_per_sec == Some(if b.0 >= a.0 { (b.0 - a.0) as u64 } else { 0u64 })
                &&& r.traffic_tx_bytes_per_sec == Some(if b.1 >= a.1 { (b.1 - a.1) as u64 } else { 0u64 })
            },
            _ => r.traffic_rx_bytes_per_sec is None && r.traffic_tx_bytes_per_sec is None,
        },
{
    let unix_list = list_unix_sockets(unix_raw, inodes);
    let unix_sockets = if unix_list.len() == 0 {
        None
    } else {
        Some(unix_list)
    };
    let (rx, tx) = match sample_network_rate(first, second) {
        Some((rx, tx)) => (Some(rx), Some(tx)),
        None => (None, None),
    };
    NetworkInfo {
        listening_tcp: raw.listening_tcp,
        listening_udp: raw.listening_udp,
        connections: raw.connections,
        unix_sockets,
        traffic_rx_bytes_per_sec: rx,
        traffic_tx_bytes_per_sec: tx,
    }
}

} // verus!
