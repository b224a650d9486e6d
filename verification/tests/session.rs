use pls::client_handler::{
    dispatch_command, flush_transactions, initial_sent_steps, session_connect, LocalState,
    OutMsg, UiAction, VpSlot,
};
use pls::command::{Command, GenericCommand};
use pls::gdb_proxy::GdbStatus;
use pls::options::ProjectTranfer;
use pls::text::str_to_chars;
use pls::virtual_prototype::{IngestState, VPCtrlMsg, VPMode, VP};

fn feed(vp: &mut VP, st: &mut IngestState, line: &str) {
    let chars = str_to_chars(line);
    st.on_line(vp, &chars);
}

#[test]
fn ingest_layout_then_transactions() {
    // the Start-Stream-Stop scenario, seen from the ingest and flush side:
    // three layout lines and two transaction lines arrive
    let mut vp = VP::started(VPMode::Stream);
    let mut st = IngestState::new();
    feed(&mut vp, &mut st, "I;uart;0;fff");
    feed(&mut vp, &mut st, "I;ram;1000;8fff");
    feed(&mut vp, &mut st, "I;rom;9000;9fff");
    assert_eq!(vp.arch.modules, vec!["uart", "ram", "rom"]);
    assert_eq!(vp.arch.start_addrs, vec!["0", "1000", "9000"]);
    assert_eq!(vp.arch.end_addrs, vec!["fff", "8fff", "9fff"]);
    assert_eq!(vp.steps.len(), 0);
    feed(&mut vp, &mut st, "R;cpu0;1;a0;7;4;1f");
    feed(&mut vp, &mut st, "W;cpu0;1;a4;9;4;2f");
    assert_eq!(vp.steps.len(), 2);

    // the first tick flushes the module signal, the second the
    // transaction signal, then the ticker is quiet
    assert_eq!(st.on_tick(), Some(VPCtrlMsg::RecvModule));
    assert_eq!(st.on_tick(), Some(VPCtrlMsg::RecvTransaction));
    assert_eq!(st.on_tick(), None);

    // the flush frame holds the post-flush count 2 and two 28-byte frames
    let mut l = LocalState { sent_steps: 0 };
    let frame = flush_transactions(&mut vp, &mut l).unwrap();
    assert_eq!(frame.len(), 8 + 2 * 28);
    assert_eq!(&frame[0..8], &2u64.to_le_bytes());
    // stream mode: the buffer is empty after the flush
    assert_eq!(vp.steps.len(), 0);
    assert_eq!(vp.tcount, 2);
    assert_eq!(l.sent_steps, 0);
}

#[test]
fn ingest_rejects_short_info_lines() {
    // a four-field info line becomes a layout record, never a
    // transaction; anything else is dropped
    let mut vp = VP::started(VPMode::Stream);
    let mut st = IngestState::new();
    feed(&mut vp, &mut st, "I;debug;foo;bar");
    assert_eq!(vp.steps.len(), 0);
    assert_eq!(vp.arch.modules, vec!["debug"]);
    feed(&mut vp, &mut st, "I;debug;foo");
    feed(&mut vp, &mut st, "garbage");
    assert_eq!(vp.steps.len(), 0);
    assert_eq!(vp.arch.modules.len(), 1);
}

#[test]
fn ingest_shutdown_is_idempotent() {
    let mut st = IngestState::new();
    st.on_ctrl(VPCtrlMsg::RecvTransaction);
    assert!(!st.terminated);
    st.on_ctrl(VPCtrlMsg::Shutdown);
    assert!(st.terminated);
    let snapshot = st;
    st.on_ctrl(VPCtrlMsg::Shutdown);
    assert_eq!(st, snapshot);
}

#[test]
fn step_mode_retains_buffer() {
    // Step-mode retention: five transactions, one flush with header 5,
    // buffer still holds the five
    let mut vp = VP::started(VPMode::Step);
    let mut st = IngestState::new();
    for i in 0..5u32 {
        feed(&mut vp, &mut st, &format!("R;cpu0;1;a0;{i};4;1f"));
    }
    let mut l = LocalState { sent_steps: 0 };
    let frame = flush_transactions(&mut vp, &mut l).unwrap();
    assert_eq!(&frame[0..8], &5u64.to_le_bytes());
    assert_eq!(frame.len(), 8 + 5 * 28);
    assert_eq!(vp.steps.len(), 5);
    assert_eq!(vp.tcount, 5);
    assert_eq!(l.sent_steps, 5);

    // a reconnecting client starts one below the buffer length and is
    // sent a single transaction
    let mut slot = VpSlot::new();
    assert!(slot.try_install(vp));
    assert_eq!(initial_sent_steps(&slot), 4);
    let mut l2 = LocalState { sent_steps: initial_sent_steps(&slot) };
    let mut vp = slot.vp.take().unwrap();
    let frame2 = flush_transactions(&mut vp, &mut l2).unwrap();
    assert_eq!(frame2.len(), 8 + 28);
    assert_eq!(&frame2[0..8], &6u64.to_le_bytes());
}

#[test]
fn flush_skips_when_nothing_is_owed() {
    let mut vp = VP::started(VPMode::Step);
    let mut l = LocalState { sent_steps: 0 };
    assert!(flush_transactions(&mut vp, &mut l).is_none());
    let mut st = IngestState::new();
    feed(&mut vp, &mut st, "R;cpu0;1;a0;7;4;1f");
    let mut l2 = LocalState { sent_steps: 1 };
    assert!(flush_transactions(&mut vp, &mut l2).is_none());
    assert_eq!(vp.steps.len(), 1);
}

#[test]
fn dispatch_start_stop_and_steps() {
    let stop = dispatch_command(
        GenericCommand { command: Command::Start, value: String::new() },
        true,
    );
    assert_eq!(stop, UiAction::StopVp);
    let start = dispatch_command(
        GenericCommand { command: Command::Start, value: String::from("{}") },
        true,
    );
    assert_eq!(start, UiAction::TryStart(String::from("{}")));
    let idle_start = dispatch_command(
        GenericCommand { command: Command::Start, value: String::new() },
        false,
    );
    assert_eq!(idle_start, UiAction::TryStart(String::new()));
    let status = dispatch_command(
        GenericCommand { command: Command::Status, value: String::new() },
        false,
    );
    assert_eq!(status, UiAction::ReplyStatus);
    let step = dispatch_command(
        GenericCommand { command: Command::Step, value: String::from("3") },
        true,
    );
    assert_eq!(step, UiAction::PublishSteps(3));
    let step0 = dispatch_command(
        GenericCommand { command: Command::Step, value: String::from("0") },
        true,
    );
    assert_eq!(step0, UiAction::Ignore);
    let stepbad = dispatch_command(
        GenericCommand { command: Command::Step, value: String::from("x") },
        true,
    );
    assert_eq!(stepbad, UiAction::Ignore);
    let opts = dispatch_command(
        GenericCommand { command: Command::Options, value: String::new() },
        true,
    );
    assert_eq!(opts, UiAction::Ignore);
}

#[test]
fn second_start_leaves_running_vp_untouched() {
    // the single-VP rule: installing over a running VP is refused
    let mut slot = VpSlot::new();
    assert!(!slot.get_status());
    assert!(slot.try_install(VP::started(VPMode::Stream)));
    assert!(slot.get_status());
    let second = VP::started(VPMode::Step);
    assert!(!slot.try_install(second));
    assert_eq!(slot.vp.as_ref().unwrap().mode, VPMode::Stream);
}

#[test]
fn finish_stop_outcomes() {
    let mut slot = VpSlot::new();
    assert!(!slot.finish_stop(true, true));

    slot.try_install(VP::started(VPMode::Stream));
    // no subscriber acknowledged: the stop is not confirmed, the slot
    // keeps the stopped state
    assert!(!slot.finish_stop(false, true));
    assert!(slot.vp.is_some());
    assert!(!slot.vp.as_ref().unwrap().is_running);

    let mut slot2 = VpSlot::new();
    slot2.try_install(VP::started(VPMode::Stream));
    assert!(slot2.finish_stop(true, true));
    assert!(slot2.vp.is_none());
}

#[test]
fn connect_burst_layout_precedes_binary() {
    // a fresh client subscription: the layout text frame comes before
    // the one binary frame
    let mut vp = VP::started(VPMode::Step);
    let mut st = IngestState::new();
    feed(&mut vp, &mut st, "I;uart;0;fff");
    feed(&mut vp, &mut st, "R;cpu0;1;a0;7;4;1f");
    feed(&mut vp, &mut st, "W;cpu0;1;a4;9;4;2f");
    let mut slot = VpSlot::new();
    slot.try_install(vp);
    let inv = ProjectTranfer { dirs: vec![String::from("p1")], vps: vec![String::from("vp64")] };
    let (msgs, l_state) = session_connect(&mut slot, &inv, GdbStatus::NotConnected, 50000);
    assert_eq!(msgs.len(), 6);
    match &msgs[0] {
        OutMsg::Text(t) => assert_eq!(t, "{\"command\":\"Status\",\"value\":\"true\"}"),
        OutMsg::Binary(_) => panic!("status frame must be text"),
    }
    match &msgs[1] {
        OutMsg::Text(t) => assert_eq!(t, "{\"dirs\":[\"p1\"],\"vps\":[\"vp64\"]}"),
        OutMsg::Binary(_) => panic!("inventory frame must be text"),
    }
    let layout_at = msgs.iter().position(|m| match m {
        OutMsg::Text(t) => t.starts_with("{\"modules\""),
        OutMsg::Binary(_) => false,
    });
    let binary_at = msgs.iter().position(|m| matches!(m, OutMsg::Binary(_)));
    assert_eq!(layout_at, Some(2));
    assert_eq!(binary_at, Some(5));
    match &msgs[4] {
        OutMsg::Text(t) => assert_eq!(t, "{\"command\":\"Options\",\"value\":\"50000\"}"),
        OutMsg::Binary(_) => panic!("options frame must be text"),
    }
    // sent_steps was initialized to len - 1 = 1, so one transaction was
    // delivered and the counter caught up with the count
    match &msgs[5] {
        OutMsg::Binary(b) => {
            assert_eq!(b.len(), 8 + 28);
            assert_eq!(&b[0..8], &1u64.to_le_bytes());
        },
        OutMsg::Text(_) => panic!("delta frame must be binary"),
    }
    assert_eq!(l_state.sent_steps, 1);
}

#[test]
fn connect_burst_without_vp() {
    let mut slot = VpSlot::new();
    let inv = ProjectTranfer { dirs: vec![], vps: vec![] };
    let (msgs, l_state) = session_connect(&mut slot, &inv, GdbStatus::Connected, 7);
    assert_eq!(msgs.len(), 4);
    match &msgs[2] {
        OutMsg::Text(t) => assert_eq!(t, "{\"command\":\"Status\",\"value\":\"Connected\"}"),
        OutMsg::Binary(_) => panic!("gdb status frame must be text"),
    }
    assert_eq!(l_state.sent_steps, 0);
    assert!(!msgs.iter().any(|m| matches!(m, OutMsg::Binary(_))));
}

#[test]
fn vp_stop_reports_clean_only_with_ack_and_kill() {
    let mut vp = VP::started(VPMode::Stream);
    assert!(vp.is_running);
    assert!(!vp.stop(true, false));
    assert!(!vp.is_running);
    let mut vp2 = VP::started(VPMode::Stream);
    assert!(!vp2.stop(false, true));
    let mut vp3 = VP::started(VPMode::Stream);
    assert!(vp3.stop(true, true));
}
