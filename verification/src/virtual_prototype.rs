//! The virtual-prototype model: lifecycle state, the bus layout, and
//! the trace-ingest state machine that classifies incoming lines and
//! debounces notifications.

use vstd::prelude::*;

use crate::text::chars_to_string;
use crate::transaction::{
    spec_line_fields, spec_line_transaction, spec_transaction_line_ok, spec_valid_transaction,
    Transaction,
};

verus! {

/// Control signal on the VP bus: new transactions, new layout entries,
/// or a shutdown order.
#[derive(Clone, Copy, Debug, PartialEq, Eq, Structural)]
pub enum VPCtrlMsg {
    RecvTransaction,
    RecvModule,
    Shutdown,
}

/// Run mode of the VP: free-running trace streaming, or GDB-driven
/// stepping with retained history.
#[derive(Clone, Copy, Debug, PartialEq, Eq, Structural)]
pub enum VPMode {
    Stream,
    Step,
}

/// The bus layout: three parallel sequences, indexed together; index
/// `i` names one bus module with its address range.
#[derive(Debug)]
pub struct VPLayout {
    pub modules: Vec<String>,
    pub start_addrs: Vec<String>,
    pub end_addrs: Vec<String>,
}

impl VPLayout {
    /// The three sequences run in parallel.
    pub open spec fn wf(&self) -> bool {
        self.modules@.len() == self.start_addrs@.len() && self.modules@.len()
            == self.end_addrs@.len()
    }

    /// An empty layout.
    pub fn new() -> (r: VPLayout)
        ensures
            r.wf(),
            r.modules@.len() == 0,
    {
        VPLayout { modules: Vec::new(), start_addrs: Vec::new(), end_addrs: Vec::new() }
    }

    /// Appends one bus module with its address range.
    pub fn push_entry(&mut self, module: String, start_addr: String, end_addr: String)
        requires
            old(self).wf(),
        ensures
            final(self).wf(),
            final(self).modules@ == old(self).modules@.push(module),
            final(self).start_addrs@ == old(self).start_addrs@.push(start_addr),
            final(self).end_addrs@ == old(self).end_addrs@.push(end_addr),
    {
        self.modules.push(module);
        self.start_addrs.push(start_addr);
        self.end_addrs.push(end_addr);
    }

    /// Number of bus modules in the layout.
    pub fn len(&self) -> (r: usize)
        ensures
            r == self.modules@.len(),
    {
        self.modules.len()
    }
}

impl Default for VPLayout {
    fn default() -> (r: VPLayout)
        ensures
            r.wf(),
            r.modules@.len() == 0,
    {
        VPLayout::new()
    }
}

/// State of one running VP: lifecycle flag, mode, retained trace
/// buffer, bus layout, cumulative transaction count, and whether a GDB
/// helper child is attached. Process and socket handles live with the
/// embedding, outside this model.
#[derive(Debug)]
pub struct VP {
    pub is_running: bool,
    pub gdbgui: bool,
    pub steps: Vec<Transaction>,
    pub arch: VPLayout,
    pub mode: VPMode,
    pub tcount: usize,
}

impl VP {
    /// Every buffered transaction is serializable and the layout is
    /// well-formed.
    pub open spec fn wf(&self) -> bool {
        &&& self.arch.wf()
        &&& forall|i: int|
            0 <= i < self.steps@.len() ==> spec_valid_transaction(#[trigger] self.steps@[i])
    }

    /// State of a VP whose subprocess was spawned and whose trace
    /// socket was just connected: running, empty buffers, count zero.
    pub fn started(mode: VPMode) -> (r: VP)
        ensures
            r.wf(),
            r.is_running,
            !r.gdbgui,
            r.steps@.len() == 0,
            r.arch.modules@.len() == 0,
            r.mode == mode,
            r.tcount == 0,
    {
        VP {
            is_running: true,
            gdbgui: false,
            steps: Vec::new(),
            arch: VPLayout::new(),
            mode,
            tcount: 0,
        }
    }

    /// Records the outcome of stopping the VP: the state is no longer
    /// running and the helper child is detached. `shutdown_acked` says
    /// whether at least one bus subscriber received the shutdown
    /// broadcast; `kill_ok` whether the subprocess kill succeeded. The
    /// stop counts as clean only when both hold.
    pub fn stop(&mut self, shutdown_acked: bool, kill_ok: bool) -> (r: bool)
        ensures
            !final(self).is_running,
            !final(self).gdbgui,
            final(self).steps == old(self).steps,
            final(self).arch == old(self).arch,
            final(self).mode == old(self).mode,
            final(self).tcount == old(self).tcount,
            r == (kill_ok && shutdown_acked),
    {
        self.is_running = false;
        self.gdbgui = false;
        kill_ok && shutdown_acked
    }
}

/// State of the trace ingestor for one VP life: whether the last lines
/// were layout lines, which notifications are pending, and whether a
/// shutdown order arrived.
#[derive(Clone, Copy, Debug, PartialEq, Eq, Structural)]
pub struct IngestState {
    pub parsing_layout: bool,
    pub pending_trans: bool,
    pub pending_module: bool,
    pub terminated: bool,
}

/// A line that extends the layout: it is rejected by the transaction
/// parser and has exactly four `;`-separated fields.
pub open spec fn spec_is_layout_line(s: Seq<char>) -> bool {
    !spec_transaction_line_ok(s) && spec_line_fields(s).len() == 4
}

impl IngestState {
    /// Initial ingestor state: nothing pending, not terminated.
    pub fn new() -> (r: IngestState)
        ensures
            r == (IngestState {
                parsing_layout: false,
                pending_trans: false,
                pending_module: false,
                terminated: false,
            }),
    {
        IngestState {
            parsing_layout: false,
            pending_trans: false,
            pending_module: false,
            terminated: false,
        }
    }

    /// Consumes one line of trace text. A transaction line is appended
    /// to the buffer and flags a pending transaction notification — and
    /// a pending module notification too when it ends a layout block. A
    /// layout line is appended to the layout and opens a layout block.
    /// Any other line is ignored.
    pub fn on_line(&mut self, vp: &mut VP, line: &Vec<char>)
        requires
            old(vp).wf(),
        ensures
            final(vp).wf(),
            final(vp).is_running == old(vp).is_running,
            final(vp).gdbgui == old(vp).gdbgui,
            final(vp).mode == old(vp).mode,
            final(vp).tcount == old(vp).tcount,
            final(self).terminated == old(self).terminated,
            spec_transaction_line_ok(line@) ==> {
                &&& final(vp).steps@.len() == old(vp).steps@.len() + 1
                &&& final(vp).steps@.drop_last() == old(vp).steps@
                &&& spec_line_transaction(line@, final(vp).steps@.last())
                &&& final(vp).arch == old(vp).arch
                &&& !final(self).parsing_layout
                &&& final(self).pending_trans
                &&& final(self).pending_module == (old(self).pending_module
                    || old(self).parsing_layout)
            },
            spec_is_layout_line(line@) ==> {
                &&& final(vp).steps@ == old(vp).steps@
                &&& final(vp).arch.modules@.len() == old(vp).arch.modules@.len() + 1
                &&& final(vp).arch.modules@.last()@ == spec_line_fields(line@)[1]
                &&& final(vp).arch.start_addrs@.last()@ == spec_line_fields(line@)[2]
                &&& final(vp).arch.end_addrs@.last()@ == spec_line_fields(line@)[3]
                &&& final(vp).arch.modules@.drop_last() == old(vp).arch.modules@
                &&& final(vp).arch.start_addrs@.drop_last() == old(vp).arch.start_addrs@
                &&& final(vp).arch.end_addrs@.drop_last() == old(vp).arch.end_addrs@
                &&& final(self).parsing_layout
                &&& final(self).pending_trans == old(self).pending_trans
                &&& final(self).pending_module == old(self).pending_module
            },
            !spec_transaction_line_ok(line@) && !spec_is_layout_line(line@) ==> {
                &&& final(vp).steps@ == old(vp).steps@
                &&& final(vp).arch == old(vp).arch
                &&& *final(self) == *old(self)
            },
    {
        match Transaction::from_chars(line) {
            Ok(t) => {
                vp.steps.push(t);
                if self.parsing_layout {
                    self.parsing_layout = false;
                    self.pending_module = true;
                }
                self.pending_trans = true;
                proof {
                    assert(final(vp).steps@.drop_last() =~= old(vp).steps@);
                }
            },
            Err(()) => {
                let fields = crate::text::split_chars(&crate::text::trim_newlines(line), ';');
                if fields.len() == 4 {
                    assert(fields[1]@ =~= spec_line_fields(line@)[1]);
                    assert(fields[2]@ =~= spec_line_fields(line@)[2]);
                    assert(fields[3]@ =~= spec_line_fields(line@)[3]);
                    let module = chars_to_string(&fields[1]);
                    let start_addr = chars_to_string(&fields[2]);
                    let end_addr = chars_to_string(&fields[3]);
                    self.parsing_layout = true;
                    vp.arch.push_entry(module, start_addr, end_addr);
                }
            },
        }
    }

    /// One debounce tick: a pending module notification is emitted
    /// first — layout must reach clients before the transactions that
    /// refer to it — else a pending transaction notification; at most
    /// one signal per tick, and none when nothing is pending.
    pub fn on_tick(&mut self) -> (r: Option<VPCtrlMsg>)
        ensures
            final(self).parsing_layout == old(self).parsing_layout,
            final(self).terminated == old(self).terminated,
            old(self).pending_module ==> r == Some(VPCtrlMsg::RecvModule)
                && !final(self).pending_module && final(self).pending_trans == old(
                self,
            ).pending_trans,
            !old(self).pending_module && old(self).pending_trans ==> r == Some(
                VPCtrlMsg::RecvTransaction,
            ) && !final(self).pending_trans && !final(self).pending_module,
            !old(self).pending_module && !old(self).pending_trans ==> r is None && *final(self)
                == *old(self),
    {
        if self.pending_module {
            self.pending_module = false;
            Some(VPCtrlMsg::RecvModule)
        } else if self.pending_trans {
            self.pending_trans = false;
            Some(VPCtrlMsg::RecvTransaction)
        } else {
            None
        }
    }

    /// Consumes one control-bus message: a shutdown order terminates
    /// the ingestor; any other message leaves it unchanged.
    pub fn on_ctrl(&mut self, msg: VPCtrlMsg)
        ensures
            msg == VPCtrlMsg::Shutdown ==> *final(self) == (IngestState {
                terminated: true,
                ..*old(self)
            }),
            msg != VPCtrlMsg::Shutdown ==> *final(self) == *old(self),
    {
        if msg == VPCtrlMsg::Shutdown {
            self.terminated = true;
        }
    }
}

/// Law: a shutdown order is at-most-once in effect. The ingestor's
/// shutdown transition and the VP's stop transition are both
/// idempotent: applying either to its own result changes nothing, so
/// several shutdown broadcasts are equivalent to one.
pub proof fn lemma_shutdown_idempotent(st: IngestState, vp: VP)
    ensures
        (IngestState { terminated: true, ..(IngestState { terminated: true, ..st }) })
            == (IngestState { terminated: true, ..st }),
        (VP { is_running: false, gdbgui: false, ..(VP { is_running: false, gdbgui: false, ..vp }) })
            == (VP { is_running: false, gdbgui: false, ..vp }),
{
}

} // verus!
