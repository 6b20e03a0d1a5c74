//! State of the interactive listening-port monitor: the table of listening
//! sockets, its sort order, the selected row and the status message.
use vstd::prelude::*;
use crate::sorting::{
    lemma_stable_sort_unique, payload_seq, sort_keyed, stably_sorted_by, str_key, str_key_of, keyed_by,
};
use crate::text::{chars_of, fmt_dec, fmt_udec, dec, string_of, starts_with};

verus! {

broadcast use vstd::string::group_string_axioms;

/// A listening socket with its owning process, as the monitor lists it.
#[derive(Debug)]
pub struct ListenerEntry {
    pub protocol: String,
    pub port: u16,
    pub address: String,
    pub process_name: String,
    pub pid: Option<i32>,
}

/// The column the table is sorted by.
#[derive(Debug, Clone, Copy, PartialEq, Eq, Structural)]
pub enum SortMode {
    Port,
    Process,
    Protocol,
    Pid,
}

/// The sort order after `m` when cycling.
pub open spec fn next_mode(m: SortMode) -> SortMode {
    match m {
        SortMode::Port => SortMode::Process,
        SortMode::Process => SortMode::Protocol,
        SortMode::Protocol => SortMode::Pid,
        SortMode::Pid => SortMode::Port,
    }
}

/// The key of an optional PID: no PID sorts first.
pub open spec fn pid_key(p: Option<i32>) -> Seq<i64> {
    match p {
        None => seq![0i64],
        Some(v) => seq![1i64, v as i64],
    }
}

/// The sort key of a row under mode `m`: (port, protocol), (process name,
/// port), (protocol, port) or (PID, port).
pub open spec fn row_key(m: SortMode, e: ListenerEntry) -> Seq<i64> {
    match m {
        SortMode::Port => seq![e.port as i64] + str_key(e.protocol@),
        SortMode::Process => str_key(e.process_name@) + seq![e.port as i64],
        SortMode::Protocol => str_key(e.protocol@) + seq![e.port as i64],
        SortMode::Pid => pid_key(e.pid) + seq![e.port as i64],
    }
}

/// [`row_key`] under `m`, as a function value.
pub open spec fn mode_key(m: SortMode) -> spec_fn(ListenerEntry) -> Seq<i64> {
    |e: ListenerEntry| row_key(m, e)
}

/// The selected row after moving down from `sel` in a table of `len` rows.
pub open spec fn next_sel(sel: nat, len: nat) -> nat {
    if len == 0 { sel } else { (sel + 1) % len }
}

/// The selected row after moving up from `sel` in a table of `len` rows.
pub open spec fn prev_sel(sel: nat, len: nat) -> nat {
    if len == 0 { sel } else if sel == 0 { (len - 1) as nat } else { (sel - 1) as nat }
}

/// The selection kept when a table of `len` rows replaces the rows.
pub open spec fn clamp_sel(sel: nat, len: nat) -> nat {
    if len == 0 { 0 } else if sel < len { sel } else { (len - 1) as nat }
}

/// A key press, as far as the monitor tells keys apart.
pub enum KeyInput {
    /// A character, with whether Control was held.
    Char(char, bool),
    Up,
    Down,
    Other,
}

/// What the caller has to do after a key press.
#[derive(Debug, Clone, Copy, PartialEq, Eq, Structural)]
pub enum KeyEffect {
    Nothing,
    /// Collect the listeners again and hand them to [`PortMonitorApp::load_rows`].
    Refresh,
    /// Send SIGTERM to the selected row's process (see [`PortMonitorApp::kill_target`]).
    Kill,
}

/// State of the port monitor.
pub struct PortMonitorApp {
    rows: Vec<ListenerEntry>,
    selected: usize,
    sort_mode: SortMode,
    should_quit: bool,
    last_error: Option<String>,
}

impl PortMonitorApp {
    /// The rows, in display order.
    pub closed spec fn rows_view(&self) -> Seq<ListenerEntry> {
        self.rows@
    }

    /// The selected row.
    pub closed spec fn sel(&self) -> nat {
        self.selected as nat
    }

    /// The sort order.
    pub closed spec fn mode(&self) -> SortMode {
        self.sort_mode
    }

    /// Whether the monitor should stop.
    pub closed spec fn quitting(&self) -> bool {
        self.should_quit
    }

    /// The status message.
    pub closed spec fn message(&self) -> Option<Seq<char>> {
        match self.last_error {
            Some(m) => Some(m@),
            None => None,
        }
    }

    /// The selection is a row of the table, or 0 when the table is empty.
    pub open spec fn wf(&self) -> bool {
        &&& self.rows_view().len() == 0 ==> self.sel() == 0
        &&& self.rows_view().len() > 0 ==> self.sel() < self.rows_view().len()
    }

    /// An empty monitor sorted by port.
    pub fn new() -> (r: Self)
        ensures
            r.wf(),
            r.rows_view().len() == 0,
            r.sel() == 0,
            r.mode() == SortMode::Port,
            !r.quitting(),
            r.message() is None,
    {
        PortMonitorApp {
            rows: Vec::new(),
            selected: 0,
            sort_mode: SortMode::Port,
            should_quit: false,
            last_error: None,
        }
    }

    fn sorted_rows(rows: Vec<ListenerEntry>, mode: SortMode) -> (r: Vec<ListenerEntry>)
        ensures
            stably_sorted_by(r@, rows@, mode_key(mode)),
            r@.len() == rows@.len(),
    {
        let ghost orig = rows@;
        let ghost kf = mode_key(mode);
        let mut keyed: Vec<(Vec<i64>, ListenerEntry)> = Vec::new();
        let mut src = rows;
        let n0 = src.len();
        let mut i: usize = 0;
        assert(src@ =~= orig.skip(0));
        while src.len() > 0
            invariant
                orig.len() == n0,
                i + src@.len() == n0,
                src@ == orig.skip(i as int),
                payload_seq(keyed@) == orig.take(i as int),
                keyed_by(keyed@, kf),
                kf == mode_key(mode),
            decreases src@.len(),
        {
            let e = src.remove(0);
            let k: Vec<i64> = match mode {
                SortMode::Port => {
                    let mut k = vec![e.port as i64];
                    let mut s = str_key_of(e.protocol.as_str());
                    k.append(&mut s);
                    k
                },
                SortMode::Process => {
                    let mut k = str_key_of(e.process_name.as_str());
                    k.push(e.port as i64);
                    k
                },
                SortMode::Protocol => {
                    let mut k = str_key_of(e.protocol.as_str());
                    k.push(e.port as i64);
                    k
                },
                SortMode::Pid => {
                    let mut k = match e.pid {
                        None => vec![0i64],
                        Some(p) => vec![1i64, p as i64],
                    };
                    k.push(e.port as i64);
                    k
                },
            };
            assert(k@ =~= row_key(mode, e));
            let ghost before = keyed@;
            keyed.push((k, e));
            assert(payload_seq(keyed@) =~= payload_seq(before).push(e));
            assert(orig.take(i + 1) =~= orig.take(i as int).push(e));
            i = i + 1;
            assert(src@ =~= orig.skip(i as int));
        }
        assert(orig.take(i as int) =~= orig);
        sort_keyed(keyed, Ghost(kf))
    }

    /// Sorts the rows by the current mode, stably (see [`row_key`]).
    pub fn apply_sort(&mut self)
        requires
            old(self).wf(),
        ensures
            final(self).wf(),
            stably_sorted_by(final(self).rows_view(), old(self).rows_view(), mode_key(old(self).mode())),
            final(self).sel() == old(self).sel(),
            final(self).mode() == old(self).mode(),
            final(self).quitting() == old(self).quitting(),
            final(self).message() == old(self).message(),
    {
        let mut rows: Vec<ListenerEntry> = Vec::new();
        std::mem::swap(&mut rows, &mut self.rows);
        self.rows = Self::sorted_rows(rows, self.sort_mode);
    }

    /// Moves the selection down one row, wrapping to the top.
    pub fn next_row(&mut self)
        requires
            old(self).wf(),
        ensures
            final(self).wf(),
            final(self).sel() == next_sel(old(self).sel(), old(self).rows_view().len()),
            final(self).rows_view() == old(self).rows_view(),
            final(self).mode() == old(self).mode(),
            final(self).quitting() == old(self).quitting(),
            final(self).message() == old(self).message(),
    {
        if self.rows.len() == 0 {
            return;
        }
        self.selected = (self.selected + 1) % self.rows.len();
    }

    /// Moves the selection up one row, wrapping to the bottom.
    pub fn prev_row(&mut self)
        requires
            old(self).wf(),
        ensures
            final(self).wf(),
            final(self).sel() == prev_sel(old(self).sel(), old(self).rows_view().len()),
            final(self).rows_view() == old(self).rows_view(),
            final(self).mode() == old(self).mode(),
            final(self).quitting() == old(self).quitting(),
            final(self).message() == old(self).message(),
    {
        if self.rows.len() == 0 {
            return;
        }
        if self.selected == 0 {
            self.selected = self.rows.len() - 1;
        } else {
            self.selected = self.selected - 1;
        }
    }

    /// Switches to the next sort order and re-sorts.
    pub fn cycle_sort(&mut self)
        requires
            old(self).wf(),
        ensures
            final(self).wf(),
            final(self).mode() == next_mode(old(self).mode()),
            stably_sorted_by(final(self).rows_view(), old(self).rows_view(), mode_key(next_mode(old(self).mode()))),
            final(self).sel() == old(self).sel(),
            final(self).quitting() == old(self).quitting(),
            final(self).message() == old(self).message(),
    {
        self.sort_mode = match self.sort_mode {
            SortMode::Port => SortMode::Process,
            SortMode::Process => SortMode::Protocol,
            SortMode::Protocol => SortMode::Pid,
            SortMode::Pid => SortMode::Port,
        };
        self.apply_sort();
    }

    /// Replaces the rows by freshly collected listeners, sorted by the
    /// current mode; the selection is kept when it still names a row and
    /// moves to the last row otherwise; the status message is cleared.
    pub fn load_rows(&mut self, listeners: Vec<ListenerEntry>)
        requires
            old(self).wf(),
        ensures
            final(self).wf(),
            stably_sorted_by(final(self).rows_view(), listeners@, mode_key(old(self).mode())),
            final(self).sel() == clamp_sel(old(self).sel(), listeners@.len()),
            final(self).mode() == old(self).mode(),
            final(self).quitting() == old(self).quitting(),
            final(self).message() is None,
    {
        let rows = Self::sorted_rows(listeners, self.sort_mode);
        let n = rows.len();
        let sel = if n == 0 {
            0
        } else if self.selected < n {
            self.selected
        } else {
            n - 1
        };
        self.rows = rows;
        self.selected = sel;
        self.last_error = None;
    }

    /// Records that collecting the listeners failed; the rows stay.
    pub fn refresh_failed(&mut self)
        requires
            old(self).wf(),
        ensures
            final(self).wf(),
            final(self).message() == Some("failed to collect listeners"@),
            final(self).rows_view() == old(self).rows_view(),
            final(self).sel() == old(self).sel(),
            final(self).mode() == old(self).mode(),
            final(self).quitting() == old(self).quitting(),
    {
        self.last_error = Some(String::from_str("failed to collect listeners"));
    }

    /// The PID to send SIGTERM to for the selected row: `None` when the
    /// table is empty (nothing changes) or when the row has no positive PID
    /// (the status message then says so).
    pub fn kill_target(&mut self) -> (r: Option<i32>)
        requires
            old(self).wf(),
        ensures
            final(self).wf(),
            final(self).rows_view() == old(self).rows_view(),
            final(self).sel() == old(self).sel(),
            final(self).mode() == old(self).mode(),
            final(self).quitting() == old(self).quitting(),
            old(self).rows_view().len() == 0 ==> r is None && final(self).message() == old(self).message(),
            old(self).rows_view().len() > 0 ==> {
                let row = old(self).rows_view()[old(self).sel() as int];
                match row.pid {
                    Some(p) if p > 0 => r == Some(p) && final(self).message() == old(self).message(),
                    _ => r is None && final(self).message() == Some("no PID for selected socket"@),
                }
            },
    {
        if self.rows.len() == 0 {
            return None;
        }
        match self.rows[self.selected].pid {
            Some(p) if p > 0 => Some(p),
            _ => {
                self.last_error = Some(String::from_str("no PID for selected socket"));
                None
            },
        }
    }

    /// Records the outcome of sending SIGTERM to `pid`: `Ok` or the error's text.
    pub fn kill_outcome(&mut self, pid: i32, outcome: Result<(), String>)
        requires
            old(self).wf(),
        ensures
            final(self).wf(),
            final(self).message() == Some(
                match outcome {
                    Ok(()) => "sent SIGTERM to pid "@ + dec(pid as int),
                    Err(e) => "failed to send SIGTERM to "@ + dec(pid as int) + ": "@ + e@,
                },
            ),
            final(self).rows_view() == old(self).rows_view(),
            final(self).sel() == old(self).sel(),
            final(self).mode() == old(self).mode(),
            final(self).quitting() == old(self).quitting(),
    {
        let digits = fmt_dec(pid as i64);
        let mut msg = match outcome {
            Ok(()) => {
                let mut m = chars_of("sent SIGTERM to pid ");
                m.extend_from_slice(digits.as_slice());
                m
            },
            Err(e) => {
                let mut m = chars_of("failed to send SIGTERM to ");
                m.extend_from_slice(digits.as_slice());
                let mut sep = chars_of(": ");
                m.append(&mut sep);
                let mut es = chars_of(e.as_str());
                m.append(&mut es);
                m
            },
        };
        self.last_error = Some(string_of(msg.as_slice()));
    }

    /// Handles a key press: `q`/`Q` or Control-C quits, Down/`j` and Up/`k`
    /// move the selection, `s` cycles the sort order, `r` asks for a
    /// refresh and `K` for killing the selected row's process.
    pub fn handle_key(&mut self, key: KeyInput) -> (r: KeyEffect)
        requires
            old(self).wf(),
        ensures
            final(self).wf(),
            final(self).message() == old(self).message(),
            match key {
                KeyInput::Char(c, ctrl) => if c == 'q' || c == 'Q' || (c == 'c' && ctrl) {
                    &&& final(self).quitting()
                    &&& r == KeyEffect::Nothing
                    &&& final(self).rows_view() == old(self).rows_view()
                    &&& final(self).sel() == old(self).sel()
                    &&& final(self).mode() == old(self).mode()
                } else if c == 'j' {
                    &&& final(self).sel() == next_sel(old(self).sel(), old(self).rows_view().len())
                    &&& r == KeyEffect::Nothing
                    &&& final(self).rows_view() == old(self).rows_view()
                    &&& final(self).mode() == old(self).mode()
                    &&& final(self).quitting() == old(self).quitting()
                } else if c == 'k' {
                    &&& final(self).sel() == prev_sel(old(self).sel(), old(self).rows_view().len())
                    &&& r == KeyEffect::Nothing
                    &&& final(self).rows_view() == old(self).rows_view()
                    &&& final(self).mode() == old(self).mode()
                    &&& final(self).quitting() == old(self).quitting()
                } else if c == 's' {
                    &&& final(self).mode() == next_mode(old(self).mode())
                    &&& stably_sorted_by(final(self).rows_view(), old(self).rows_view(), mode_key(next_mode(old(self).mode())))
                    &&& r == KeyEffect::Nothing
                    &&& final(self).sel() == old(self).sel()
                    &&& final(self).quitting() == old(self).quitting()
                } else {
                    &&& r == (if c == 'r' { KeyEffect::Refresh } else if c == 'K' { KeyEffect::Kill } else { KeyEffect::Nothing })
                    &&& final(self).rows_view() == old(self).rows_view()
                    &&& final(self).sel() == old(self).sel()
                    &&& final(self).mode() == old(self).mode()
                    &&& final(self).quitting() == old(self).quitting()
                },
                KeyInput::Down => {
                    &&& final(self).sel() == next_sel(old(self).sel(), old(self).rows_view().len())
                    &&& r == KeyEffect::Nothing
                    &&& final(self).rows_view() == old(self).rows_view()
                    &&& final(self).mode() == old(self).mode()
                    &&& final(self).quitting() == old(self).quitting()
                },
                KeyInput::Up => {
                    &&& final(self).sel() == prev_sel(old(self).sel(), old(self).rows_view().len())
                    &&& r == KeyEffect::Nothing
                    &&& final(self).rows_view() == old(self).rows_view()
                    &&& final(self).mode() == old(self).mode()
                    &&& final(self).quitting() == old(self).quitting()
                },
                KeyInput::Other => {
                    &&& r == KeyEffect::Nothing
                    &&& final(self).rows_view() == old(self).rows_view()
                    &&& final(self).sel() == old(self).sel()
                    &&& final(self).mode() == old(self).mode()
                    &&& final(self).quitting() == old(self).quitting()
                },
            },
    {
        match key {
            KeyInput::Char(c, ctrl) => {
                if c == 'q' || c == 'Q' || (c == 'c' && ctrl) {
                    self.should_quit = true;
                    KeyEffect::Nothing
                } else if c == 'j' {
                    self.next_row();
                    KeyEffect::Nothing
                } else if c == 'k' {
                    self.prev_row();
                    KeyEffect::Nothing
                } else if c == 's' {
                    self.cycle_sort();
                    KeyEffect::Nothing
                } else if c == 'r' {
                    KeyEffect::Refresh
                } else if c == 'K' {
                    KeyEffect::Kill
                } else {
                    KeyEffect::Nothing
                }
            },
            KeyInput::Down => {
                self.next_row();
                KeyEffect::Nothing
            },
            KeyInput::Up => {
                self.prev_row();
                KeyEffect::Nothing
            },
            KeyInput::Other => KeyEffect::Nothing,
        }
    }

    /// The rows, in display order.
    pub fn rows(&self) -> (r: &Vec<ListenerEntry>)
        ensures
            r@ == self.rows_view(),
    {
        &self.rows
    }

    /// The selected row's index.
    pub fn selected(&self) -> (r: usize)
        ensures
            r == self.sel(),
    {
        self.selected
    }

    /// The sort order.
    pub fn sort_mode(&self) -> (r: SortMode)
        ensures
            r == self.mode(),
    {
        self.sort_mode
    }

    /// Whether the monitor should stop.
    pub fn should_quit(&self) -> (r: bool)
        ensures
            r == self.quitting(),
    {
        self.should_quit
    }

    /// The status message, if any.
    pub fn last_error(&self) -> (r: Option<String>)
        ensures
            match r {
                Some(m) => self.message() == Some(m@),
                None => self.message() is None,
            },
    {
        match &self.last_error {
            Some(m) => Some(m.clone()),
            None => None,
        }
    }
}

/// The name of a sort order as the header shows it.
pub open spec fn sort_label_text(m: SortMode) -> Seq<char> {
    match m {
        SortMode::Port => "port"@,
        SortMode::Process => "process"@,
        SortMode::Protocol => "protocol"@,
        SortMode::Pid => "pid"@,
    }
}

/// The name of a sort order as the header shows it.
pub fn sort_label(m: SortMode) -> (r: &'static str)
    ensures
        r@ == sort_label_text(m),
{
    match m {
        SortMode::Port => "port",
        SortMode::Process => "process",
        SortMode::Protocol => "protocol",
        SortMode::Pid => "pid",
    }
}

/// The cells of a table row: protocol, port, address, process name and
/// PID (`-` when unknown).
pub fn row_cells(e: &ListenerEntry) -> (r: Vec<String>)
    ensures
        r@.len() == 5,
        r@[0]@ == e.protocol@,
        r@[1]@ == dec(e.port as int),
        r@[2]@ == e.address@,
        r@[3]@ == e.process_name@,
        r@[4]@ == match e.pid {
            Some(p) => dec(p as int),
            None => "-"@,
        },
{
    let port = fmt_udec(e.port as u64);
    let pid = match e.pid {
        Some(p) => string_of(fmt_dec(p as i64).as_slice()),
        None => String::from_str("-"),
    };
    let mut r: Vec<String> = Vec::new();
    r.push(e.protocol.clone());
    r.push(string_of(port.as_slice()));
    r.push(e.address.clone());
    r.push(e.process_name.clone());
    r.push(pid);
    r
}

/// Whether a row's protocol is a TCP one (shown in green rather than cyan).
pub fn is_tcp(e: &ListenerEntry) -> (r: bool)
    ensures
        r == ("TCP"@.is_prefix_of(e.protocol@)),
{
    let p = chars_of(e.protocol.as_str());
    let t = chars_of("TCP");
    starts_with(p.as_slice(), t.as_slice())
}

/// Moving down then up, or up then down, comes back to the same row.
pub proof fn lemma_next_prev_inverse(sel: nat, len: nat)
    requires
        sel < len,
    ensures
        prev_sel(next_sel(sel, len), len) == sel,
        next_sel(prev_sel(sel, len), len) == sel,
        next_sel(sel, len) < len,
        prev_sel(sel, len) < len,
{
    if sel + 1 < len {
        assert((sel + 1) % len == sel + 1) by (nonlinear_arith)
            requires sel + 1 < len;
    } else {
        assert((sel + 1) % len == 0) by (nonlinear_arith)
            requires sel + 1 == len;
    }
    if sel == 0 {
        assert(((len - 1) as nat + 1) % len == 0) by (nonlinear_arith)
            requires len > 0;
    } else {
        assert(((sel - 1) as nat + 1) % len == sel) by (nonlinear_arith)
            requires 0 < sel < len;
    }
}

/// Cycling the sort order four times comes back to the same order.
pub proof fn lemma_cycle_four(m: SortMode)
    ensures
        next_mode(next_mode(next_mode(next_mode(m)))) == m,
        next_mode(m) != m,
{
}

/// Sorting is idempotent: rows re-sorted by the order they are already
/// sorted by (as [`PortMonitorApp::apply_sort`] leaves them) stay as they are.
pub proof fn lemma_sort_twice(rows0: Seq<ListenerEntry>, rows1: Seq<ListenerEntry>, rows2: Seq<ListenerEntry>, m: SortMode)
    requires
        stably_sorted_by(rows1, rows0, mode_key(m)),
        stably_sorted_by(rows2, rows1, mode_key(m)),
    ensures
        rows2 == rows1,
{
    lemma_stable_sort_unique(rows2, rows1, mode_key(m));
}

} // verus!
