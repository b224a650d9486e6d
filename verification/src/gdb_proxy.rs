//! GDB proxy model: connection status, the step-packet injector, the
//! per-connection phase machine, and the decisions of one byte-copy
//! leg. The sockets themselves live with the embedding.

use vstd::prelude::*;

use crate::hexnum::{spec_dec_chars, u64_to_dec_chars};
use crate::options::{append_copy, GdbOptions};
use crate::text::{chars_to_string, str_to_chars};
use vstd::string::StringExecFns;

verus! {

/// Whether a GDB frontend is connected through the proxy.
#[derive(Clone, Copy, Debug, PartialEq, Eq, Structural)]
pub enum GdbStatus {
    Connected,
    NotConnected,
}

impl GdbStatus {
    /// Wire text of the status, as the UI receives it.
    pub fn to_text(&self) -> (r: String)
        ensures
            *self == GdbStatus::Connected ==> r@ == "Connected"@,
            *self == GdbStatus::NotConnected ==> r@ == "NotConnected"@,
    {
        match self {
            GdbStatus::Connected => String::from_str("Connected"),
            GdbStatus::NotConnected => String::from_str("NotConnected"),
        }
    }
}

/// The single-step-continue packet spliced into the GDB stream.
pub open spec fn spec_step_packet() -> Seq<char> {
    "$vCont;c#a8"@
}

/// `n` copies of the step packet, in one piece per packet.
pub open spec fn spec_step_packets(n: nat) -> Seq<char>
    decreases n,
{
    if n == 0 {
        Seq::<char>::empty()
    } else {
        spec_step_packets((n - 1) as nat) + spec_step_packet()
    }
}

/// Builds the bytes injected for one step command: exactly `n`
/// consecutive copies of the step packet, nothing between them.
pub fn step_packet_text(n: u32) -> (r: String)
    ensures
        r@ == spec_step_packets(n as nat),
{
    let packet = str_to_chars("$vCont;c#a8");
    let mut out: Vec<char> = Vec::new();
    let mut i: u32 = 0;
    proof {
        assert(out@ =~= spec_step_packets(0));
    }
    while i < n
        invariant
            0 <= i <= n,
            out@ == spec_step_packets(i as nat),
            packet@ == spec_step_packet(),
        decreases n - i,
    {
        append_copy(&mut out, &packet);
        i = i + 1;
    }
    chars_to_string(&out)
}

/// Phase of the proxy's accept cycle.
#[derive(Clone, Copy, Debug, PartialEq, Eq, Structural)]
pub enum ProxyPhase {
    /// Waiting for a downstream GDB frontend.
    Waiting,
    /// Relaying between a frontend and the VP's debug stub.
    Relaying,
}

/// Event observed by the proxy's accept cycle.
#[derive(Clone, Copy, Debug, PartialEq, Eq, Structural)]
pub enum ProxyEvent {
    /// A downstream frontend was accepted and the upstream dial
    /// succeeded or failed.
    Accepted { dial_ok: bool },
    /// Both copy legs finished; the connection is over.
    LegsClosed,
}

/// One transition of the proxy's accept cycle: what status to publish,
/// and the next phase. A successful dial publishes `Connected`; a
/// failed dial or a finished connection publishes `NotConnected` and
/// returns to waiting.
pub fn proxy_transition(phase: ProxyPhase, event: ProxyEvent) -> (r: (ProxyPhase, GdbStatus))
    ensures
        event == (ProxyEvent::Accepted { dial_ok: true }) ==> r == (
            ProxyPhase::Relaying,
            GdbStatus::Connected,
        ),
        event == (ProxyEvent::Accepted { dial_ok: false }) ==> r == (
            ProxyPhase::Waiting,
            GdbStatus::NotConnected,
        ),
        event == ProxyEvent::LegsClosed ==> r == (ProxyPhase::Waiting, GdbStatus::NotConnected),
    {
    match event {
        ProxyEvent::Accepted { dial_ok } => {
            if dial_ok {
                (ProxyPhase::Relaying, GdbStatus::Connected)
            } else {
                (ProxyPhase::Waiting, GdbStatus::NotConnected)
            }
        },
        ProxyEvent::LegsClosed => (ProxyPhase::Waiting, GdbStatus::NotConnected),
    }
}

/// The status the proxy publishes when it starts: no frontend yet.
pub fn proxy_initial_status() -> (r: GdbStatus)
    ensures
        r == GdbStatus::NotConnected,
{
    GdbStatus::NotConnected
}

/// Event observed by one byte-copy leg.
#[derive(Debug, PartialEq)]
pub enum CopyEvent {
    /// A read returned this many bytes (zero meaning end of stream; a
    /// reset or abort is reported as zero too, a clean close).
    Read(usize),
    /// A step command with this count arrived on the injection channel.
    Inject(u32),
    /// The peer leg finished; the shared cancellation fired.
    Killed,
}

/// Decision of one byte-copy leg for one event.
#[derive(Debug, PartialEq)]
pub enum CopyDecision {
    /// Write the first `n` buffered bytes downstream-verbatim.
    Forward(usize),
    /// Write this many whole step packets, then resume reading.
    InjectPackets(u32),
    /// Leave the loop.
    Stop,
}

/// Decides one iteration of a copy leg: data is forwarded verbatim, a
/// read of zero bytes or a cancellation stops the leg, and a step
/// command injects whole packets without consuming stream bytes.
pub fn copy_step(event: CopyEvent) -> (r: CopyDecision)
    ensures
        forall|n: usize| event == CopyEvent::Read(n) && n > 0 ==> r == CopyDecision::Forward(n),
        event == CopyEvent::Read(0usize) ==> r == CopyDecision::Stop,
        forall|n: u32| event == CopyEvent::Inject(n) ==> r == CopyDecision::InjectPackets(n),
        event == CopyEvent::Killed ==> r == CopyDecision::Stop,
{
    match event {
        CopyEvent::Read(n) => {
            if n == 0 {
                CopyDecision::Stop
            } else {
                CopyDecision::Forward(n)
            }
        },
        CopyEvent::Inject(n) => CopyDecision::InjectPackets(n),
        CopyEvent::Killed => CopyDecision::Stop,
    }
}

/// Contents of the scratch command file written for the GDB helper:
/// the target architecture and the proxy endpoint to attach to.
pub open spec fn spec_gdbcmd_contents(arch: Seq<char>, proxy_port: u16) -> Seq<char> {
    "set architecture riscv:"@ + arch + "\ntarget remote 127.0.0.1:"@ + spec_dec_chars(
        proxy_port as nat,
    )
}

/// Builds the scratch command file for the GDB helper.
pub fn gdbcmd_contents(arch: &str, proxy_port: u16) -> (r: String)
    ensures
        r@ == spec_gdbcmd_contents(arch@, proxy_port),
{
    let mut out: Vec<char> = Vec::new();
    let mut head = str_to_chars("set architecture riscv:");
    out.append(&mut head);
    append_copy(&mut out, &str_to_chars(arch));
    let mut mid = str_to_chars("\ntarget remote 127.0.0.1:");
    out.append(&mut mid);
    let port_chars = u64_to_dec_chars(proxy_port as u64);
    append_copy(&mut out, &port_chars);
    proof {
        assert(out@ =~= spec_gdbcmd_contents(arch@, proxy_port));
    }
    chars_to_string(&out)
}

/// The argument list handed to the GDB helper: its port, and the
/// nested GDB command line naming the scratch file and the binary.
pub open spec fn spec_gdbgui_arg_list(opts: GdbOptions, bin_path: Seq<char>) -> Seq<Seq<char>> {
    seq![
        "-p"@,
        spec_dec_chars(opts.gdbgui_port as nat),
        "-g"@,
        opts.gdb_bin@ + " --command gdbcmd "@ + bin_path,
    ]
}

/// Builds the argument list for the GDB helper.
pub fn gdbgui_args(opts: &GdbOptions, bin_path: &str) -> (r: Vec<String>)
    ensures
        r.deep_view() == spec_gdbgui_arg_list(*opts, bin_path@),
{
    let mut r: Vec<String> = Vec::new();
    r.push(String::from_str("-p"));
    let port_chars = u64_to_dec_chars(opts.gdbgui_port as u64);
    r.push(chars_to_string(&port_chars));
    r.push(String::from_str("-g"));
    let mut g_arg = str_to_chars(opts.gdb_bin.as_str());
    append_copy(&mut g_arg, &str_to_chars(" --command gdbcmd "));
    append_copy(&mut g_arg, &str_to_chars(bin_path));
    r.push(chars_to_string(&g_arg));
    proof {
        assert(r.deep_view() =~~= spec_gdbgui_arg_list(*opts, bin_path@));
    }
    r
}

} // verus!
