//! Interactive control of processes: finding the processes that use a
//! port, the choices of the kill/control panel, and the export formats.
use vstd::prelude::*;
use crate::explain::{lowercase, to_lowercase};
use crate::model::{ConnectionEntry, SocketEntry};
use crate::network::NetworkInfo;
use crate::text::{chars_of, dec, fmt_udec, fmt_dec, push_all, push_str, string_of, trim, trim_chars};

verus! {

broadcast use vstd::string::group_string_axioms;

// ─── Port search ─────────────────────────────────────────────────────────────

/// A socket of a process that uses the searched port.
#[derive(Debug)]
pub struct PortHit {
    pub pid: i32,
    pub name: String,
    /// `LISTEN/<proto>` or `CONN/<proto> (<local|remote|both>)`.
    pub kind: String,
    /// `address:port` on this side.
    pub local: String,
    /// `address:port` of the peer, `-` for a listening socket.
    pub remote: String,
}

/// `addr:port`.
pub open spec fn endpoint(addr: Seq<char>, port: u16) -> Seq<char> {
    addr + ":"@ + dec(port as int)
}

/// Kind, local and remote text of a listening socket.
pub open spec fn listen_hit(s: SocketEntry) -> (Seq<char>, Seq<char>, Seq<char>) {
    ("LISTEN/"@ + s.protocol@, endpoint(s.local_addr@, s.local_port), "-"@)
}

/// Which side of a connection uses `port`.
pub open spec fn conn_side(c: ConnectionEntry, port: u16) -> Seq<char> {
    if c.local_port == port && c.remote_port == port {
        "both"@
    } else if c.local_port == port {
        "local"@
    } else {
        "remote"@
    }
}

/// Kind, local and remote text of a connection using `port`.
pub open spec fn conn_hit(c: ConnectionEntry, port: u16) -> (Seq<char>, Seq<char>, Seq<char>) {
    (
        "CONN/"@ + c.protocol@ + " ("@ + conn_side(c, port) + ")"@,
        endpoint(c.local_addr@, c.local_port),
        endpoint(c.remote_addr@, c.remote_port),
    )
}

/// The hits of the listening sockets `ls` on `port`, in order.
pub open spec fn listen_hits(ls: Seq<SocketEntry>, port: u16) -> Seq<(Seq<char>, Seq<char>, Seq<char>)>
    decreases ls.len(),
{
    if ls.len() == 0 {
        Seq::empty()
    } else {
        let prev = listen_hits(ls.drop_last(), port);
        if ls.last().local_port == port {
            prev.push(listen_hit(ls.last()))
        } else {
            prev
        }
    }
}

/// The hits of the connections `cs` with either end on `port`, in order.
pub open spec fn conn_hits(cs: Seq<ConnectionEntry>, port: u16) -> Seq<(Seq<char>, Seq<char>, Seq<char>)>
    decreases cs.len(),
{
    if cs.len() == 0 {
        Seq::empty()
    } else {
        let prev = conn_hits(cs.drop_last(), port);
        let c = cs.last();
        if c.local_port == port || c.remote_port == port {
            prev.push(conn_hit(c, port))
        } else {
            prev
        }
    }
}

/// The texts of a hit.
pub open spec fn hit_view(h: PortHit) -> (Seq<char>, Seq<char>, Seq<char>) {
    (h.kind@, h.local@, h.remote@)
}

fn endpoint_text(addr: &String, port: u16) -> (r: String)
    ensures
        r@ == endpoint(addr@, port),
{
    let mut out = String::new();
    push_str(&mut out, addr.as_str());
    push_str(&mut out, ":");
    push_all(&mut out, fmt_udec(port as u64).as_slice());
    out
}

/// The sockets of process `pid` (named `name`) that use `port`: its
/// listening sockets on the port (TCP, then UDP), then its connections
/// with either end on the port.
pub fn port_hits(port: u16, pid: i32, name: &str, net: &NetworkInfo) -> (r: Vec<PortHit>)
    ensures
        forall|i: int| 0 <= i < r@.len() ==> (#[trigger] r@[i]).pid == pid && r@[i].name@ == name@,
        r@.map_values(|h: PortHit| hit_view(h)) == listen_hits(
            net.listening_tcp@ + net.listening_udp@,
            port,
        ) + conn_hits(net.connections@, port),
{
    let listening = net.listening();
    let ghost ls = listening@;
    let mut out: Vec<PortHit> = Vec::new();
    let mut i: usize = 0;
    while i < listening.len()
        invariant
            ls == listening@,
            i <= ls.len(),
            forall|k: int| 0 <= k < out@.len() ==> (#[trigger] out@[k]).pid == pid && out@[k].name@ == name@,
            out@.map_values(|h: PortHit| hit_view(h)) == listen_hits(ls.take(i as int), port),
        decreases ls.len() - i,
    {
        let s = &listening[i];
        assert(ls.take(i + 1).drop_last() =~= ls.take(i as int));
        assert(ls.take(i + 1).last() == ls[i as int]);
        if s.local_port == port {
            let mut kind = String::new();
            push_str(&mut kind, "LISTEN/");
            push_str(&mut kind, s.protocol.as_str());
            let h = PortHit {
                pid,
                name: string_of(chars_of(name).as_slice()),
                kind,
                local: endpoint_text(&s.local_addr, s.local_port),
                remote: String::from_str("-"),
            };
            let ghost before = out@;
            out.push(h);
            assert(out@.map_values(|h: PortHit| hit_view(h)) =~= before.map_values(|h: PortHit| hit_view(h)).push(listen_hit(ls[i as int])));
        }
        i = i + 1;
    }
    assert(ls.take(i as int) =~= ls);
    let ghost head = out@.map_values(|h: PortHit| hit_view(h));
    let ghost cs = net.connections@;
    let mut j: usize = 0;
    assert(head + conn_hits(cs.take(0), port) =~= head);
    while j < net.connections.len()
        invariant
            cs == net.connections@,
            j <= cs.len(),
            forall|k: int| 0 <= k < out@.len() ==> (#[trigger] out@[k]).pid == pid && out@[k].name@ == name@,
            out@.map_values(|h: PortHit| hit_view(h)) == head + conn_hits(cs.take(j as int), port),
        decreases cs.len() - j,
    {
        let c = &net.connections[j];
        assert(cs.take(j + 1).drop_last() =~= cs.take(j as int));
        assert(cs.take(j + 1).last() == cs[j as int]);
        if c.local_port == port || c.remote_port == port {
            let side = if c.local_port == port && c.remote_port == port {
                "both"
            } else if c.local_port == port {
                "local"
            } else {
                "remote"
            };
            let mut kind = String::new();
            push_str(&mut kind, "CONN/");
            push_str(&mut kind, c.protocol.as_str());
            push_str(&mut kind, " (");
            push_str(&mut kind, side);
            push_str(&mut kind, ")");
            let h = PortHit {
                pid,
                name: string_of(chars_of(name).as_slice()),
                kind,
                local: endpoint_text(&c.local_addr, c.local_port),
                remote: endpoint_text(&c.remote_addr, c.remote_port),
            };
            let ghost before = out@;
            out.push(h);
            assert(out@.map_values(|h: PortHit| hit_view(h)) =~= before.map_values(|h: PortHit| hit_view(h)).push(conn_hit(cs[j as int], port)));
            assert(head + conn_hits(cs.take(j + 1), port) =~= (head + conn_hits(cs.take(j as int), port)).push(conn_hit(cs[j as int], port)));
        }
        j = j + 1;
    }
    assert(cs.take(j as int) =~= cs);
    out
}

// ─── Kill / control panel ────────────────────────────────────────────────────

/// A signal the panel can send.
#[derive(Debug, Clone, Copy, PartialEq, Eq, Structural)]
pub enum SignalKind {
    /// SIGTERM: asks the process to exit cleanly.
    Term,
    /// SIGKILL: forces immediate termination.
    Kill,
    /// SIGSTOP: suspends execution.
    Stop,
    /// SIGCONT: resumes a stopped process.
    Cont,
    /// SIGHUP: the usual configuration-reload signal.
    Hup,
    /// SIGUSR1.
    Usr1,
    /// SIGUSR2.
    Usr2,
}

/// The Linux number of a signal.
pub open spec fn signal_number_spec(k: SignalKind) -> i32 {
    match k {
        SignalKind::Term => 15,
        SignalKind::Kill => 9,
        SignalKind::Stop => 19,
        SignalKind::Cont => 18,
        SignalKind::Hup => 1,
        SignalKind::Usr1 => 10,
        SignalKind::Usr2 => 12,
    }
}

/// The Linux number of a signal.
pub fn signal_number(k: SignalKind) -> (r: i32)
    ensures
        r == signal_number_spec(k),
{
    match k {
        SignalKind::Term => 15,
        SignalKind::Kill => 9,
        SignalKind::Stop => 19,
        SignalKind::Cont => 18,
        SignalKind::Hup => 1,
        SignalKind::Usr1 => 10,
        SignalKind::Usr2 => 12,
    }
}

/// A `systemctl` action on the process's unit.
#[derive(Debug, Clone, Copy, PartialEq, Eq, Structural)]
pub enum UnitAction {
    Stop,
    Restart,
}

/// What the panel does for an entered choice.
#[derive(Debug, PartialEq, Eq)]
pub enum PanelChoice {
    /// Send the signal; the flag says whether to ask for confirmation first.
    Send(SignalKind, bool),
    /// Run `systemctl <action> <unit>`.
    Systemctl(UnitAction, String),
    /// A systemctl choice without a detected unit: say so and ask again.
    NoUnit,
    /// Do nothing and leave.
    Quit,
    /// Not a choice: ask again.
    Unknown,
}

/// The panel's reading of an entered line (surrounding whitespace ignored):
/// `1`–`7` send SIGTERM, SIGKILL (confirmed first), SIGSTOP, SIGCONT,
/// SIGHUP, SIGUSR1, SIGUSR2; `s` and `R` stop and restart the systemd
/// unit when there is one; `q`, `Q` or an empty line quit.
pub open spec fn panel_choice_spec(line: Seq<char>, unit: Option<Seq<char>>) -> PanelChoiceView {
    let c = trim(line);
    if c == "1"@ {
        PanelChoiceView::Send(SignalKind::Term, false)
    } else if c == "2"@ {
        PanelChoiceView::Send(SignalKind::Kill, true)
    } else if c == "3"@ {
        PanelChoiceView::Send(SignalKind::Stop, false)
    } else if c == "4"@ {
        PanelChoiceView::Send(SignalKind::Cont, false)
    } else if c == "5"@ {
        PanelChoiceView::Send(SignalKind::Hup, false)
    } else if c == "6"@ {
        PanelChoiceView::Send(SignalKind::Usr1, false)
    } else if c == "7"@ {
        PanelChoiceView::Send(SignalKind::Usr2, false)
    } else if c == "s"@ || c == "R"@ {
        match unit {
            Some(u) => PanelChoiceView::Systemctl(
                if c == "s"@ { UnitAction::Stop } else { UnitAction::Restart },
                u,
            ),
            None => PanelChoiceView::NoUnit,
        }
    } else if c == "q"@ || c == "Q"@ || c.len() == 0 {
        PanelChoiceView::Quit
    } else {
        PanelChoiceView::Unknown
    }
}

/// [`PanelChoice`] with its unit name as characters.
pub enum PanelChoiceView {
    Send(SignalKind, bool),
    Systemctl(UnitAction, Seq<char>),
    NoUnit,
    Quit,
    Unknown,
}

/// The view of a panel choice.
pub open spec fn choice_view(c: PanelChoice) -> PanelChoiceView {
    match c {
        PanelChoice::Send(k, confirm) => PanelChoiceView::Send(k, confirm),
        PanelChoice::Systemctl(a, u) => PanelChoiceView::Systemctl(a, u@),
        PanelChoice::NoUnit => PanelChoiceView::NoUnit,
        PanelChoice::Quit => PanelChoiceView::Quit,
        PanelChoice::Unknown => PanelChoiceView::Unknown,
    }
}

/// The panel's reading of an entered line, for a process managed by
/// `unit` (see [`panel_choice_spec`]).
pub fn panel_choice(line: &str, unit: &Option<String>) -> (r: PanelChoice)
    ensures
        choice_view(r) == panel_choice_spec(
            line@,
            match unit {
                Some(u) => Some(u@),
                None => None,
            },
        ),
{
    let raw = chars_of(line);
    let c = trim_chars(raw.as_slice());
    let is = |lit: &str| -> (b: bool)
        ensures
            b == (c@ == lit@),
        { crate::text::is_lit(c.as_slice(), lit) };
    if is("1") {
        PanelChoice::Send(SignalKind::Term, false)
    } else if is("2") {
        PanelChoice::Send(SignalKind::Kill, true)
    } else if is("3") {
        PanelChoice::Send(SignalKind::Stop, false)
    } else if is("4") {
        PanelChoice::Send(SignalKind::Cont, false)
    } else if is("5") {
        PanelChoice::Send(SignalKind::Hup, false)
    } else if is("6") {
        PanelChoice::Send(SignalKind::Usr1, false)
    } else if is("7") {
        PanelChoice::Send(SignalKind::Usr2, false)
    } else if is("s") || is("R") {
        match unit {
            Some(u) => PanelChoice::Systemctl(
                if is("s") { UnitAction::Stop } else { UnitAction::Restart },
                u.clone(),
            ),
            None => PanelChoice::NoUnit,
        }
    } else if is("q") || is("Q") || c.len() == 0 {
        PanelChoice::Quit
    } else {
        PanelChoice::Unknown
    }
}

/// Whether a confirmation answer is yes: `y` in any case, surrounding
/// whitespace ignored.
pub fn confirmed(answer: &str) -> (r: bool)
    ensures
        r == (lowercase(trim(answer@)) == "y"@),
{
    let raw = chars_of(answer);
    let t = string_of(trim_chars(raw.as_slice()).as_slice());
    let l = to_lowercase(t.as_str());
    let lc = chars_of(l.as_str());
    crate::text::is_lit(lc.as_slice(), "y")
}

/// The word `systemctl` takes for an action.
pub fn unit_action_word(a: UnitAction) -> (r: &'static str)
    ensures
        r@ == match a {
            UnitAction::Stop => "stop"@,
            UnitAction::Restart => "restart"@,
        },
{
    match a {
        UnitAction::Stop => "stop",
        UnitAction::Restart => "restart",
    }
}

// ─── Export ──────────────────────────────────────────────────────────────────

/// A report format.
#[derive(Debug, Clone, Copy, PartialEq, Eq, Structural)]
pub enum ExportFormat {
    Json,
    Markdown,
    Html,
    Pdf,
}

/// The format a name selects, case-insensitively: `json`, `md` or
/// `markdown`, `html`, `pdf`; anything else is refused with a message.
pub open spec fn export_format_spec(name: Seq<char>) -> Result<ExportFormat, Seq<char>> {
    let l = lowercase(name);
    if l == "json"@ {
        Ok(ExportFormat::Json)
    } else if l == "md"@ || l == "markdown"@ {
        Ok(ExportFormat::Markdown)
    } else if l == "html"@ {
        Ok(ExportFormat::Html)
    } else if l == "pdf"@ {
        Ok(ExportFormat::Pdf)
    } else {
        Err("unknown format '"@ + l + "' (json | html | md | pdf)"@)
    }
}

/// The format a name selects (see [`export_format_spec`]).
pub fn export_format(name: &str) -> (r: Result<ExportFormat, String>)
    ensures
        match r {
            Ok(f) => export_format_spec(name@) == Ok::<ExportFormat, Seq<char>>(f),
            Err(m) => export_format_spec(name@) == Err::<ExportFormat, Seq<char>>(m@),
        },
{
    let l = to_lowercase(name);
    let lc = chars_of(l.as_str());
    if crate::text::is_lit(lc.as_slice(), "json") {
        Ok(ExportFormat::Json)
    } else if crate::text::is_lit(lc.as_slice(), "md") || crate::text::is_lit(lc.as_slice(), "markdown") {
        Ok(ExportFormat::Markdown)
    } else if crate::text::is_lit(lc.as_slice(), "html") {
        Ok(ExportFormat::Html)
    } else if crate::text::is_lit(lc.as_slice(), "pdf") {
        Ok(ExportFormat::Pdf)
    } else {
        let mut m = String::new();
        push_str(&mut m, "unknown format '");
        push_str(&mut m, l.as_str());
        push_str(&mut m, "' (json | html | md | pdf)");
        Err(m)
    }
}

/// The PDF file name for a process: `peek-<name>-<pid>.pdf`.
pub fn pdf_filename(name: &str, pid: i32) -> (r: String)
    ensures
        r@ == "peek-"@ + name@ + "-"@ + dec(pid as int) + ".pdf"@,
{
    let mut out = String::new();
    push_str(&mut out, "peek-");
    push_str(&mut out, name);
    push_str(&mut out, "-");
    push_all(&mut out, fmt_dec(pid as i64).as_slice());
    push_str(&mut out, ".pdf");
    out
}

/// The temporary HTML file name for a process: `peek-<pid>.html`.
pub fn html_temp_name(pid: i32) -> (r: String)
    ensures
        r@ == "peek-"@ + dec(pid as int) + ".html"@,
{
    let mut out = String::new();
    push_str(&mut out, "peek-");
    push_all(&mut out, fmt_dec(pid as i64).as_slice());
    push_str(&mut out, ".html");
    out
}

/// The PDF renderers tried, in order.
pub open spec fn renderer_name(i: int) -> Seq<char> {
    if i == 0 {
        "wkhtmltopdf"@
    } else if i == 1 {
        "weasyprint"@
    } else if i == 2 {
        "chromium"@
    } else {
        "google-chrome"@
    }
}

/// The PDF renderers tried, in order: wkhtmltopdf, weasyprint, chromium, google-chrome.
pub fn renderers() -> (r: Vec<&'static str>)
    ensures
        r@.len() == 4,
        forall|i: int| 0 <= i < 4 ==> (#[trigger] r@[i])@ == renderer_name(i),
{
    vec!["wkhtmltopdf", "weasyprint", "chromium", "google-chrome"]
}

/// The arguments for a renderer writing `html_path` to `out_path`:
/// wkhtmltopdf and weasyprint take the two paths; a browser prints the
/// `file://` URL headless.
pub fn renderer_args(renderer: &str, html_path: &str, out_path: &str) -> (r: Vec<String>)
    ensures
        (renderer@ == "wkhtmltopdf"@ || renderer@ == "weasyprint"@) ==> r@.map_values(|s: String| s@) == seq![html_path@, out_path@],
        !(renderer@ == "wkhtmltopdf"@ || renderer@ == "weasyprint"@) ==> r@.map_values(|s: String| s@) == seq![
            "--headless"@,
            "--disable-gpu"@,
            "--print-to-pdf"@,
            out_path@,
            "file://"@ + html_path@,
        ],
{
    let rc = chars_of(renderer);
    let own = |s: &str| -> (o: String)
        ensures
            o@ == s@,
        {
            let mut o = String::new();
            push_str(&mut o, s);
            o
        };
    let mut v: Vec<String> = Vec::new();
    if crate::text::is_lit(rc.as_slice(), "wkhtmltopdf") || crate::text::is_lit(rc.as_slice(), "weasyprint") {
        v.push(own(html_path));
        v.push(own(out_path));
        assert(v@.map_values(|s: String| s@) =~= seq![html_path@, out_path@]);
    } else {
        v.push(own("--headless"));
        v.push(own("--disable-gpu"));
        v.push(own("--print-to-pdf"));
        v.push(own(out_path));
        let mut url = own("file://");
        push_str(&mut url, html_path);
        v.push(url);
        assert(v@.map_values(|s: String| s@) =~= seq![
            "--headless"@,
            "--disable-gpu"@,
            "--print-to-pdf"@,
            out_path@,
            "file://"@ + html_path@,
        ]);
    }
    v
}

// ─── HTML page ───────────────────────────────────────────────────────────────

/// The page text before the process name.
pub const HTML_HEAD: &'static str = "<!DOCTYPE html>\n<html lang=\"en\">\n<head>\n<meta charset=\"UTF-8\">\n<meta name=\"viewport\" content=\"width=device-width,initial-scale=1\">\n<title>peek — ";

/// The page text between the PID and the report.
pub const HTML_MIDDLE: &'static str = ")</title>\n<style>\n  body{font-family:monospace;max-width:960px;margin:2rem auto;padding:1rem;background:#0d1117;color:#c9d1d9}\n  h1{color:#58a6ff} h2{color:#79c0ff;border-bottom:1px solid #30363d;padding-bottom:.3rem;margin-top:2rem}\n  table{border-collapse:collapse;width:100%;margin:1rem 0}\n  th,td{border:1px solid #30363d;padding:.4rem .8rem;text-align:left}\n  th{background:#161b22;color:#58a6ff}\n  code{background:#161b22;padding:.1rem .3rem;border-radius:3px;color:#79c0ff}\n  pre{background:#161b22;padding:1rem;overflow-x:auto;border-radius:6px}\n  blockquote{border-left:4px solid #388bfd;padding-left:1rem;color:#8b949e}\n</style>\n</head>\n<body>\n<pre><code>";

/// The page text after the report.
pub const HTML_TAIL: &'static str = "</code></pre>\n</body>\n</html>";

/// The HTML form of one character: `&`, `<` and `>` escaped.
pub open spec fn escape_char(c: char) -> Seq<char> {
    if c == '&' {
        "&amp;"@
    } else if c == '<' {
        "&lt;"@
    } else if c == '>' {
        "&gt;"@
    } else {
        seq![c]
    }
}

/// `s` with `&`, `<` and `>` escaped for HTML.
pub open spec fn escape_html_spec(s: Seq<char>) -> Seq<char>
    decreases s.len(),
{
    if s.len() == 0 {
        Seq::empty()
    } else {
        escape_html_spec(s.drop_last()) + escape_char(s.last())
    }
}

/// `s` with `&`, `<` and `>` escaped for HTML.
pub fn escape_html(s: &str) -> (r: String)
    ensures
        r@ == escape_html_spec(s@),
{
    let cs = chars_of(s);
    let mut out = String::new();
    let mut i: usize = 0;
    while i < cs.len()
        invariant
            i <= cs@.len(),
            cs@ == s@,
            out@ == escape_html_spec(cs@.take(i as int)),
        decreases cs@.len() - i,
    {
        let c = cs[i];
        assert(cs@.take(i + 1).drop_last() =~= cs@.take(i as int));
        assert(cs@.take(i + 1).last() == c);
        if c == '&' {
            push_str(&mut out, "&amp;");
        } else if c == '<' {
            push_str(&mut out, "&lt;");
        } else if c == '>' {
            push_str(&mut out, "&gt;");
        } else {
            crate::text::push_char(&mut out, c);
            assert(out@ =~= escape_html_spec(cs@.take(i as int)) + seq![c]);
        }
        i = i + 1;
    }
    assert(cs@.take(i as int) =~= cs@);
    out
}

/// The standalone dark-themed HTML page showing the Markdown report `md`
/// of process `name` (`pid`), escaped, in a preformatted block.
pub open spec fn html_page(name: Seq<char>, pid: i32, md: Seq<char>) -> Seq<char> {
    HTML_HEAD@ + name + " ("@ + dec(pid as int) + HTML_MIDDLE@ + escape_html_spec(md) + HTML_TAIL@
}

/// The HTML report page (see [`html_page`]).
pub fn render_html(name: &str, pid: i32, md: &str) -> (r: String)
    ensures
        r@ == html_page(name@, pid, md@),
{
    let mut out = String::new();
    push_str(&mut out, HTML_HEAD);
    push_str(&mut out, name);
    push_str(&mut out, " (");
    push_all(&mut out, fmt_dec(pid as i64).as_slice());
    push_str(&mut out, HTML_MIDDLE);
    let e = escape_html(md);
    push_str(&mut out, e.as_str());
    push_str(&mut out, HTML_TAIL);
    out
}

/// Escaped text holds no `<` or `>`, so the report cannot open or close
/// an HTML element of the page.
pub proof fn lemma_escaped_has_no_angle_brackets(s: Seq<char>)
    ensures
        !escape_html_spec(s).contains('<'),
        !escape_html_spec(s).contains('>'),
    decreases s.len(),
{
    if s.len() > 0 {
        lemma_escaped_has_no_angle_brackets(s.drop_last());
        let prev = escape_html_spec(s.drop_last());
        let e = escape_char(s.last());
        reveal_strlit("&amp;");
        reveal_strlit("&lt;");
        reveal_strlit("&gt;");
        assert(!e.contains('<') && !e.contains('>')) by {
            if e.contains('<') {
                let k = choose|k: int| 0 <= k < e.len() && e[k] == '<';
            }
            if e.contains('>') {
                let k = choose|k: int| 0 <= k < e.len() && e[k] == '>';
            }
        }
        assert forall|c: char| c == '<' || c == '>' implies !(prev + e).contains(c) by {
            if (prev + e).contains(c) {
                let k = choose|k: int| 0 <= k < (prev + e).len() && (prev + e)[k] == c;
                if k < prev.len() {
                    assert(prev[k] == c);
                    assert(prev.contains(c));
                } else {
                    assert(e[k - prev.len()] == c);
                    assert(e.contains(c));
                }
            }
        }
    }
}

/// HTML text with the entities `&lt;`, `&gt;` and `&amp;` read back as the
/// characters they stand for, left to right.
pub open spec fn unescape_html_spec(s: Seq<char>) -> Seq<char>
    decreases s.len(),
{
    if s.len() == 0 {
        Seq::empty()
    } else if s.len() >= 4 && s.take(4) == "&lt;"@ {
        seq!['<'] + unescape_html_spec(s.skip(4))
    } else if s.len() >= 4 && s.take(4) == "&gt;"@ {
        seq!['>'] + unescape_html_spec(s.skip(4))
    } else if s.len() >= 5 && s.take(5) == "&amp;"@ {
        seq!['&'] + unescape_html_spec(s.skip(5))
    } else {
        seq![s[0]] + unescape_html_spec(s.skip(1))
    }
}

proof fn lemma_unescape_char(c: char, t: Seq<char>)
    ensures
        unescape_html_spec(escape_char(c) + t) == seq![c] + unescape_html_spec(t),
{
    reveal_strlit("&amp;");
    reveal_strlit("&lt;");
    reveal_strlit("&gt;");
    let u = escape_char(c) + t;
    if c == '&' {
        assert(u[1] == 'a');
        if u.len() >= 4 && u.take(4) == "&lt;"@ { assert(u.take(4)[1] == u[1]); }
        if u.len() >= 4 && u.take(4) == "&gt;"@ { assert(u.take(4)[1] == u[1]); }
        assert(u.take(5) =~= "&amp;"@);
        assert(u.skip(5) =~= t);
    } else if c == '<' {
        assert(u.take(4) =~= "&lt;"@);
        assert(u.skip(4) =~= t);
    } else if c == '>' {
        assert(u[1] == 'g');
        if u.len() >= 4 && u.take(4) == "&lt;"@ { assert(u.take(4)[1] == u[1]); }
        assert(u.take(4) =~= "&gt;"@);
        assert(u.skip(4) =~= t);
    } else {
        assert(u[0] == c);
        if u.len() >= 4 && u.take(4) == "&lt;"@ { assert(u.take(4)[0] == u[0]); }
        if u.len() >= 4 && u.take(4) == "&gt;"@ { assert(u.take(4)[0] == u[0]); }
        if u.len() >= 5 && u.take(5) == "&amp;"@ { assert(u.take(5)[0] == u[0]); }
        assert(u.skip(1) =~= t);
    }
}

proof fn lemma_unescape_prefix(s: Seq<char>, t: Seq<char>)
    ensures
        unescape_html_spec(escape_html_spec(s) + t) == s + unescape_html_spec(t),
    decreases s.len(),
{
    if s.len() > 0 {
        let c = s.last();
        let p = s.drop_last();
        lemma_unescape_char(c, t);
        lemma_unescape_prefix(p, escape_char(c) + t);
        assert(escape_html_spec(s) + t =~= escape_html_spec(p) + (escape_char(c) + t));
        assert(s =~= p + seq![c]);
        assert(p + (seq![c] + unescape_html_spec(t)) =~= s + unescape_html_spec(t));
    } else {
        assert(escape_html_spec(s) + t =~= t);
        assert(s + unescape_html_spec(t) =~= unescape_html_spec(t));
    }
}

/// Escaping loses nothing: reading the entities back gives the text that
/// was escaped, so the page shows the report exactly.
pub proof fn lemma_unescape_escaped(s: Seq<char>)
    ensures
        unescape_html_spec(escape_html_spec(s)) == s,
{
    lemma_unescape_prefix(s, Seq::empty());
    assert(escape_html_spec(s) + Seq::<char>::empty() =~= escape_html_spec(s));
    assert(s + unescape_html_spec(Seq::<char>::empty()) =~= s);
}

} // verus!
