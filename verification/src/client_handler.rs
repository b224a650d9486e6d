//! Per-client session logic: the transaction flush protocol, the UI
//! command dispatch, and the guarded process-wide VP slot.

use vstd::prelude::*;

use crate::command::{Command, GenericCommand};
use crate::gdb_proxy::GdbStatus;
use crate::hexnum::u64_to_dec_chars;
use crate::json::{encode_generic, encode_layout, spec_encode_generic, spec_encode_layout};
use crate::options::{encode_project_transfer, spec_encode_project_transfer, ProjectTranfer};
use crate::hexnum::{parse_dec_u32, spec_all_dec_digits, spec_dec_nat};
use crate::text::{chars_to_string, str_to_chars};
use vstd::string::StringExecFns;
use crate::transaction::{spec_transaction_bytes, ToBinary, Transaction};
use crate::virtual_prototype::{VPMode, VP};

verus! {

/// Per-client session state: how many cumulative transactions this
/// client has already been sent.
pub struct LocalState {
    pub sent_steps: usize,
}

/// Concatenation of the 28-byte frames of the given transactions.
pub open spec fn spec_concat_frames(ts: Seq<Transaction>) -> Seq<u8>
    decreases ts.len(),
{
    if ts.len() == 0 {
        Seq::<u8>::empty()
    } else {
        spec_concat_frames(ts.drop_last()) + spec_transaction_bytes(ts.last())
    }
}

/// One binary delta packet: an 8-byte little-endian cumulative count,
/// then the frames of the delivered transactions.
pub open spec fn spec_flush_frame(count: u64, ts: Seq<Transaction>) -> Seq<u8> {
    vstd::bytes::spec_u64_to_le_bytes(count) + spec_concat_frames(ts)
}

/// Length of the concatenated frames: 28 bytes per transaction.
pub proof fn lemma_concat_frames_len(ts: Seq<Transaction>)
    ensures
        spec_concat_frames(ts).len() == 28 * ts.len(),
    decreases ts.len(),
{
    if ts.len() > 0 {
        lemma_concat_frames_len(ts.drop_last());
        crate::transaction::lemma_transaction_bytes_len(ts.last());
    }
}

/// Produces the delta packet owed to this client, if any, and applies
/// the post-flush bookkeeping: the cumulative count grows by the
/// number of delivered transactions; in Stream mode the buffer is then
/// emptied, in Step mode it is retained and the client's `sent_steps`
/// catches up with the cumulative count. The packet's header is the
/// post-flush cumulative count.
pub fn flush_transactions(vp: &mut VP, l_state: &mut LocalState) -> (r: Option<Vec<u8>>)
    requires
        old(vp).wf(),
        old(vp).tcount + old(vp).steps@.len() <= usize::MAX,
    ensures
        final(vp).wf(),
        final(vp).is_running == old(vp).is_running,
        final(vp).gdbgui == old(vp).gdbgui,
        final(vp).mode == old(vp).mode,
        final(vp).arch == old(vp).arch,
        old(vp).steps@.len() == 0 || old(l_state).sent_steps >= old(vp).steps@.len() ==> {
            &&& r is None
            &&& *final(vp) == *old(vp)
            &&& final(l_state).sent_steps == old(l_state).sent_steps
        },
        old(l_state).sent_steps < old(vp).steps@.len() ==> {
            let len = old(vp).steps@.len() as int;
            let sent = old(l_state).sent_steps as int;
            let k = len - sent;
            let cnt = old(vp).tcount + k;
            &&& r is Some
            &&& r->0@ == spec_flush_frame(cnt as u64, old(vp).steps@.subrange(sent, len))
            &&& r->0@.len() == 8 + 28 * k
            &&& final(vp).tcount == cnt
            &&& (old(vp).mode == VPMode::Stream ==> final(vp).steps@.len() == 0
                && final(l_state).sent_steps == old(l_state).sent_steps)
            &&& (old(vp).mode == VPMode::Step ==> final(vp).steps@ == old(vp).steps@
                && final(l_state).sent_steps == cnt)
        },
{
    let len = vp.steps.len();
    let sent = l_state.sent_steps;
    if len == 0 || sent >= len {
        return None;
    }
    let k = len - sent;
    let cnt_usize = vp.tcount + k;
    let cnt: u64 = cnt_usize as u64;
    let mut buffer: Vec<u8> = vstd::bytes::u64_to_le_bytes(cnt);
    let mut i: usize = sent;
    proof {
        assert(vp.steps@.subrange(sent as int, sent as int) =~= Seq::<Transaction>::empty());
        assert(buffer@ =~= spec_flush_frame(cnt, vp.steps@.subrange(sent as int, sent as int)));
    }
    while i < len
        invariant
            vp.wf(),
            *vp == *old(vp),
            sent <= i <= len == vp.steps@.len(),
            buffer@ == spec_flush_frame(cnt, vp.steps@.subrange(sent as int, i as int)),
        decreases len - i,
    {
        let mut frame = vp.steps[i].to_binary();
        buffer.append(&mut frame);
        proof {
            assert(vp.steps@.subrange(sent as int, i + 1).drop_last() =~= vp.steps@.subrange(
                sent as int,
                i as int,
            ));
            assert(vp.steps@.subrange(sent as int, i + 1).last() == vp.steps@[i as int]);
            assert(buffer@ =~= spec_flush_frame(cnt, vp.steps@.subrange(sent as int, i + 1)));
        }
        i = i + 1;
    }
    proof {
        vstd::bytes::lemma_auto_spec_u64_to_from_le_bytes();
        lemma_concat_frames_len(vp.steps@.subrange(sent as int, len as int));
    }
    vp.tcount = cnt_usize;
    if vp.mode == VPMode::Stream {
        vp.steps.clear();
    } else {
        l_state.sent_steps = cnt_usize;
    }
    Some(buffer)
}

/// What the session does with one inbound UI message.
#[derive(Debug, PartialEq)]
pub enum UiAction {
    /// Stop the running VP and reset the client's delivery counter.
    StopVp,
    /// Resolve and start a VP from the given payload.
    TryStart(String),
    /// Reply with the current VP status.
    ReplyStatus,
    /// Publish this step count to the GDB proxy.
    PublishSteps(u32),
    /// Skip the message.
    Ignore,
}

/// The step count denoted by a `Step` payload, if it is a well-formed
/// decimal numeral fitting in a `u32`.
pub open spec fn spec_step_count(s: Seq<char>) -> Option<u32> {
    if s.len() > 0 && spec_all_dec_digits(s) && spec_dec_nat(s) <= u32::MAX {
        Some(spec_dec_nat(s) as u32)
    } else {
        None
    }
}

/// Dispatches one inbound UI command, as a pure decision: `Start` with
/// an empty payload stops a running VP, `Start` otherwise carries a
/// payload to resolve; `Status` is answered; `Step` publishes its
/// count when it is a numeral of at least 1; everything else is
/// skipped.
pub fn dispatch_command(cmd: GenericCommand, vp_running: bool) -> (r: UiAction)
    ensures
        cmd.command == Command::Start && vp_running && cmd.value@.len() == 0 ==> r
            == UiAction::StopVp,
        cmd.command == Command::Start && !(vp_running && cmd.value@.len() == 0) ==> r
            == UiAction::TryStart(cmd.value),
        cmd.command == Command::Status ==> r == UiAction::ReplyStatus,
        cmd.command == Command::Step ==> r == (match spec_step_count(cmd.value@) {
            Some(n) => if n >= 1 {
                UiAction::PublishSteps(n)
            } else {
                UiAction::Ignore
            },
            None => UiAction::Ignore,
        }),
        cmd.command == Command::Options ==> r == UiAction::Ignore,
{
    match cmd.command {
        Command::Start => {
            if vp_running && cmd.value.as_str().is_empty() {
                UiAction::StopVp
            } else {
                UiAction::TryStart(cmd.value)
            }
        },
        Command::Status => UiAction::ReplyStatus,
        Command::Step => {
            let chars = str_to_chars(cmd.value.as_str());
            match parse_dec_u32(&chars) {
                Some(n) => {
                    if n >= 1 {
                        UiAction::PublishSteps(n)
                    } else {
                        UiAction::Ignore
                    }
                },
                None => UiAction::Ignore,
            }
        },
        Command::Options => UiAction::Ignore,
    }
}

/// The process-wide VP slot: at most one VP exists, and the slot is
/// the only door to it.
pub struct VpSlot {
    pub vp: Option<VP>,
}

/// The slot's VP, when present, is well-formed.
pub open spec fn spec_slot_wf(s: VpSlot) -> bool {
    s.vp is Some ==> s.vp->0.wf()
}

/// The slot holds a running VP.
pub open spec fn spec_slot_running(s: VpSlot) -> bool {
    s.vp is Some && s.vp->0.is_running
}

impl VpSlot {
    /// An empty slot.
    pub fn new() -> (r: VpSlot)
        ensures
            r.vp is None,
            spec_slot_wf(r),
    {
        VpSlot { vp: None }
    }

    /// Whether a VP is present and running.
    pub fn get_status(&self) -> (r: bool)
        ensures
            r == spec_slot_running(*self),
    {
        match &self.vp {
            Some(vp) => vp.is_running,
            None => false,
        }
    }

    /// Installs a freshly started VP, unless one is already running: a
    /// start while a VP runs leaves the slot untouched and reports
    /// failure.
    pub fn try_install(&mut self, new_vp: VP) -> (r: bool)
        requires
            spec_slot_wf(*old(self)),
            new_vp.wf(),
        ensures
            spec_slot_wf(*final(self)),
            spec_slot_running(*old(self)) ==> !r && *final(self) == *old(self),
            !spec_slot_running(*old(self)) ==> r && final(self).vp == Some(new_vp),
    {
        if self.get_status() {
            return false;
        }
        self.vp = Some(new_vp);
        true
    }

    /// Finishes a stop order: when a VP is present, records the stop
    /// outcome in it; only a clean stop (kill succeeded and some bus
    /// subscriber acknowledged the shutdown) empties the slot and is
    /// confirmed to the caller.
    pub fn finish_stop(&mut self, shutdown_acked: bool, kill_ok: bool) -> (r: bool)
        requires
            spec_slot_wf(*old(self)),
        ensures
            spec_slot_wf(*final(self)),
            old(self).vp is None ==> !r && *final(self) == *old(self),
            old(self).vp is Some ==> {
                &&& r == (kill_ok && shutdown_acked)
                &&& (r ==> final(self).vp is None)
                &&& (!r ==> final(self).vp is Some && !final(self).vp->0.is_running)
            },
    {
        let vp = match self.vp.take() {
            Some(v) => v,
            None => {
                return false;
            },
        };
        let mut vp = vp;
        let clean = vp.stop(shutdown_acked, kill_ok);
        if clean {
            true
        } else {
            self.vp = Some(vp);
            false
        }
    }
}

/// The delivery counter a fresh client session starts from: one less
/// than the buffer length when a VP with a non-empty buffer exists —
/// the most recent transaction is re-delivered on reconnect — and zero
/// otherwise.
pub fn initial_sent_steps(slot: &VpSlot) -> (r: usize)
    ensures
        match slot.vp {
            Some(vp) => if vp.steps@.len() > 0 {
                r == vp.steps@.len() - 1
            } else {
                r == 0
            },
            None => r == 0,
        },
{
    match &slot.vp {
        Some(vp) => {
            let len = vp.steps.len();
            if len > 0 {
                len - 1
            } else {
                0
            }
        },
        None => 0,
    }
}

/// One outbound UI frame: text or binary.
#[derive(Debug)]
pub enum OutMsg {
    Text(String),
    Binary(Vec<u8>),
}

/// Wire text of a boolean, as the status replies carry it.
pub open spec fn spec_bool_text(b: bool) -> Seq<char> {
    if b {
        "true"@
    } else {
        "false"@
    }
}

/// Formats a boolean for a status reply.
pub fn bool_text(b: bool) -> (r: String)
    ensures
        r@ == spec_bool_text(b),
{
    if b {
        String::from_str("true")
    } else {
        String::from_str("false")
    }
}

/// The frames owed to a freshly connected client, in order: the VP
/// status, the inventory snapshot, the current layout (when a VP is
/// present and has modules), the GDB status, the proxy port as an
/// `Options` message, and finally the pending-transaction delta (when
/// a VP with a non-empty buffer is present). The delivery counter
/// starts one below the buffer length, so the newest transaction is
/// re-delivered. A binary frame, if any, is the last message and comes
/// after the layout frame: a client never sees a transaction before
/// the layout it refers to.
pub fn session_connect(
    slot: &mut VpSlot,
    inventory: &ProjectTranfer,
    gdb_status: GdbStatus,
    gdbproxy_port: u16,
) -> (r: (Vec<OutMsg>, LocalState))
    requires
        spec_slot_wf(*old(slot)),
        old(slot).vp is Some ==> old(slot).vp->0.tcount + old(slot).vp->0.steps@.len()
            <= usize::MAX,
    ensures
        spec_slot_wf(*final(slot)),
        final(slot).vp is Some <==> old(slot).vp is Some,
        ({
            let msgs = r.0@;
            let had_vp = old(slot).vp is Some;
            let vp0 = old(slot).vp->0;
            let has_layout = had_vp && vp0.arch.modules@.len() > 0;
            let has_frame = had_vp && vp0.steps@.len() > 0;
            let li = 2int;
            let gi = if has_layout { 3int } else { 2int };
            let oi = gi + 1;
            let bi = oi + 1;
            &&& msgs.len() == 4 + (if has_layout { 1int } else { 0int }) + (if has_frame {
                1int
            } else {
                0int
            })
            &&& msgs[0] is Text && msgs[0]->Text_0@ == spec_encode_generic(
                Command::Status,
                spec_bool_text(spec_slot_running(*old(slot))),
            )
            &&& msgs[1] is Text && msgs[1]->Text_0@ == spec_encode_project_transfer(*inventory)
            &&& (has_layout ==> msgs[li] is Text && msgs[li]->Text_0@ == spec_encode_layout(
                vp0.arch,
            ))
            &&& msgs[gi] is Text && msgs[gi]->Text_0@ == spec_encode_generic(
                Command::Status,
                if gdb_status == GdbStatus::Connected {
                    "Connected"@
                } else {
                    "NotConnected"@
                },
            )
            &&& msgs[oi] is Text && msgs[oi]->Text_0@ == spec_encode_generic(
                Command::Options,
                crate::hexnum::spec_dec_chars(gdbproxy_port as nat),
            )
            &&& (has_frame ==> msgs[bi] is Binary && msgs[bi]->Binary_0@ == spec_flush_frame(
                (vp0.tcount + 1) as u64,
                vp0.steps@.subrange(vp0.steps@.len() - 1, vp0.steps@.len() as int),
            ))
            &&& (forall|t: int| 0 <= t < msgs.len() && msgs[t] is Binary ==> t == bi)
            &&& (has_frame && has_layout ==> li < bi && msgs[li] is Text && msgs[bi]
                is Binary)
            &&& (r.1.sent_steps == if !has_frame {
                0int
            } else if vp0.mode == VPMode::Step {
                vp0.tcount + 1
            } else {
                vp0.steps@.len() - 1
            })
        }),
{
    let mut msgs: Vec<OutMsg> = Vec::new();
    let running = slot.get_status();
    msgs.push(
        OutMsg::Text(encode_generic(&GenericCommand { command: Command::Status, value: bool_text(running) })),
    );
    msgs.push(OutMsg::Text(encode_project_transfer(inventory)));
    match &slot.vp {
        Some(vp) => {
            if vp.arch.len() > 0 {
                msgs.push(OutMsg::Text(encode_layout(&vp.arch)));
            }
        },
        None => {},
    }
    msgs.push(
        OutMsg::Text(
            encode_generic(
                &GenericCommand { command: Command::Status, value: gdb_status.to_text() },
            ),
        ),
    );
    let port_chars = u64_to_dec_chars(gdbproxy_port as u64);
    msgs.push(
        OutMsg::Text(
            encode_generic(
                &GenericCommand { command: Command::Options, value: chars_to_string(&port_chars) },
            ),
        ),
    );
    let sent = initial_sent_steps(slot);
    let mut l_state = LocalState { sent_steps: sent };
    let taken = self_take(slot);
    match taken {
        Some(mut vp) => {
            let frame = flush_transactions(&mut vp, &mut l_state);
            slot.vp = Some(vp);
            match frame {
                Some(bytes) => {
                    msgs.push(OutMsg::Binary(bytes));
                },
                None => {},
            }
        },
        None => {},
    }
    (msgs, l_state)
}

/// Takes the slot's VP out, leaving the slot empty.
fn self_take(slot: &mut VpSlot) -> (r: Option<VP>)
    ensures
        r == old(slot).vp,
        final(slot).vp is None,
{
    slot.vp.take()
}

/// Concatenation of a sequence of transaction batches, in order.
pub open spec fn spec_concat_batches(bs: Seq<Seq<Transaction>>) -> Seq<Transaction>
    decreases bs.len(),
{
    if bs.len() == 0 {
        Seq::<Transaction>::empty()
    } else {
        spec_concat_batches(bs.drop_last()) + bs.last()
    }
}

/// The trace buffer of a Step-mode VP life after its first `k` batches
/// arrived: Step mode never clears the buffer, so it is the
/// concatenation of the batches.
pub open spec fn spec_step_buffer(batches: Seq<Seq<Transaction>>, k: int) -> Seq<Transaction> {
    spec_concat_batches(batches.take(k))
}

/// Law: delta framing in Step mode. Over one VP lifetime in Step mode,
/// the client flushes after each batch; by the flush contract the
/// `i`-th payload is `buffer[sent..len]` where `sent` and the
/// cumulative count both equal the previous buffer length, and the
/// header is the post-flush cumulative count. So the `i`-th payload is
/// exactly the `i`-th batch — concatenating all payloads yields every
/// transaction of the lifetime in order, with no duplicates and no
/// gaps — and the `i`-th header is the length of everything delivered
/// so far.
pub proof fn lemma_step_delta_framing(batches: Seq<Seq<Transaction>>, i: int)
    requires
        0 <= i < batches.len(),
    ensures
        spec_step_buffer(batches, i).len() <= spec_step_buffer(batches, i + 1).len(),
        spec_step_buffer(batches, i + 1).subrange(
            spec_step_buffer(batches, i).len() as int,
            spec_step_buffer(batches, i + 1).len() as int,
        ) == batches[i],
        spec_step_buffer(batches, i + 1).len() == spec_step_buffer(batches, i).len()
            + batches[i].len(),
        spec_step_buffer(batches, i + 1).take(spec_step_buffer(batches, i).len() as int)
            == spec_step_buffer(batches, i),
{
    assert(batches.take(i + 1).drop_last() =~= batches.take(i));
    assert(batches.take(i + 1).last() == batches[i]);
    assert(spec_step_buffer(batches, i + 1) == spec_step_buffer(batches, i) + batches[i]);
    assert(spec_step_buffer(batches, i + 1).subrange(
        spec_step_buffer(batches, i).len() as int,
        spec_step_buffer(batches, i + 1).len() as int,
    ) =~= batches[i]);
    assert(spec_step_buffer(batches, i + 1).take(spec_step_buffer(batches, i).len() as int)
        =~= spec_step_buffer(batches, i));
}

} // verus!
