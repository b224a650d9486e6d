use pls::command::{Command, GenericCommand, StepUntilCommand};
use pls::gdb_proxy::GdbStatus;
use pls::json::{decode_generic, decode_start_command, encode_generic, encode_layout};
use pls::transaction::{ToBinary, Transaction, TransactionCmd, TRANSACTION_BIN_SIZE};
use pls::virtual_prototype::VPLayout;

#[test]
fn cmd_from_str_accepts_r_and_w() {
    assert_eq!(TransactionCmd::from_str("R"), Ok(TransactionCmd::Read));
    assert_eq!(TransactionCmd::from_str("W"), Ok(TransactionCmd::Write));
    assert_eq!(TransactionCmd::from_str(""), Err(()));
    assert_eq!(TransactionCmd::from_str("I"), Err(()));
    assert_eq!(TransactionCmd::from_str("RW"), Err(()));
}

#[test]
fn cmd_to_byte_and_text() {
    assert_eq!(TransactionCmd::Read.to_byte(), 0);
    assert_eq!(TransactionCmd::Write.to_byte(), 1);
    assert_eq!(TransactionCmd::Read.to_text(), "Read");
    assert_eq!(TransactionCmd::Write.to_text(), "Write");
}

#[test]
fn transaction_parses_seven_fields() {
    let t = Transaction::from_str("W;dbg;3;ff00;12;2;beef").unwrap();
    assert_eq!(t.action, TransactionCmd::Write);
    assert_eq!(t.initiator, "dbg");
    assert_eq!(t.target, 3);
    assert_eq!(t.address, "ff00");
    assert_eq!(t.sim_time, 12);
    assert_eq!(t.data_length, 2);
    assert_eq!(t.data, "beef");
}

#[test]
fn transaction_parses_six_fields_with_empty_data() {
    let t = Transaction::from_str("R;cpu0;0;0;5;0").unwrap();
    assert_eq!(t.action, TransactionCmd::Read);
    assert_eq!(t.data, "");
}

#[test]
fn transaction_tolerates_trailing_newline() {
    let t = Transaction::from_str("R;cpu0;1;a0;7;4;1f\n").unwrap();
    assert_eq!(t.data, "1f");
    assert_eq!(t.data_length, 4);
}

#[test]
fn transaction_rejects_info_lines() {
    assert!(Transaction::from_str("I;debug;foo;bar").is_err());
    assert!(Transaction::from_str("I;a;1;ff;2;3").is_err());
}

#[test]
fn transaction_rejects_malformed_lines() {
    assert!(Transaction::from_str("").is_err());
    assert!(Transaction::from_str("R;cpu0;1;a0;7").is_err());
    assert!(Transaction::from_str("X;cpu0;1;a0;7;4").is_err());
    assert!(Transaction::from_str("R;cpu0;256;a0;7;4").is_err());
    assert!(Transaction::from_str("R;cpu0;1;zz;7;4").is_err());
    assert!(Transaction::from_str("R;cpu0;1;a0;x;4").is_err());
    assert!(Transaction::from_str("R;;1;a0;7;4").is_err());
}

#[test]
fn transaction_binary_layout() {
    // round trip: parse the canonical text, then encode to binary
    let t = Transaction::from_str("W;dbg;3;ff00;12;2;beef").unwrap();
    let b = t.to_binary();
    assert_eq!(b.len(), TRANSACTION_BIN_SIZE);
    assert_eq!(&b[0..8], &12u64.to_le_bytes());
    assert_eq!(b[8], 1); // Write
    assert_eq!(b[9], b'g'); // last byte of "dbg" at offset 9
    assert_eq!(b[10], 3);
    assert_eq!(&b[11..19], &0xff00u64.to_le_bytes());
    assert_eq!(b[19], 2);
    assert_eq!(&b[20..28], &0xbeefu64.to_le_bytes());
}

#[test]
fn transaction_binary_empty_data_encodes_zero() {
    let t = Transaction::from_str("R;cpu0;0;10;5;0").unwrap();
    let b = t.to_binary();
    assert_eq!(b[8], 0); // Read
    assert_eq!(&b[20..28], &0u64.to_le_bytes());
}

#[test]
fn decode_generic_plain() {
    let c = decode_generic("{\"command\":\"Start\",\"value\":\"x\"}").unwrap();
    assert_eq!(c.command, Command::Start);
    assert_eq!(c.value, "x");
}

#[test]
fn decode_generic_whitespace_and_order() {
    let c = decode_generic(" { \"value\" : \"3\" , \"command\" : \"Step\" } ").unwrap();
    assert_eq!(c.command, Command::Step);
    assert_eq!(c.value, "3");
}

#[test]
fn decode_generic_escapes() {
    let c = decode_generic("{\"command\":\"Status\",\"value\":\"a\\\"b\\\\c\\nd\\u0041\"}")
        .unwrap();
    assert_eq!(c.command, Command::Status);
    assert_eq!(c.value, "a\"b\\c\nd\u{41}");
}

#[test]
fn decode_generic_rejections() {
    assert!(decode_generic("").is_none());
    assert!(decode_generic("{}").is_none());
    assert!(decode_generic("{\"command\":\"Start\"}").is_none());
    assert!(decode_generic("{\"command\":\"Begin\",\"value\":\"\"}").is_none());
    assert!(decode_generic("{\"command\":\"Start\",\"value\":\"\",\"command\":\"Stop\"}")
        .is_none());
    assert!(decode_generic("{\"command\":\"Start\",\"value\":\"\"} junk").is_none());
    assert!(decode_generic("{\"command\":\"Start\",\"value\":\"\\ud800\"}").is_none());
}

#[test]
fn encode_generic_exact() {
    let msg = encode_generic(&GenericCommand {
        command: Command::Status,
        value: String::from("true"),
    });
    assert_eq!(msg, "{\"command\":\"Status\",\"value\":\"true\"}");
}

#[test]
fn encode_generic_escapes_value() {
    let msg = encode_generic(&GenericCommand {
        command: Command::Start,
        value: String::from("a\"b\\c\nd\u{1}"),
    });
    assert_eq!(msg, "{\"command\":\"Start\",\"value\":\"a\\\"b\\\\c\\nd\\u0001\"}");
}

#[test]
fn encode_decode_round_trip() {
    let sent = GenericCommand {
        command: Command::Options,
        value: String::from("50000"),
    };
    let text = encode_generic(&sent);
    let back = decode_generic(&text).unwrap();
    assert_eq!(back.command, Command::Options);
    assert_eq!(back.value, "50000");
}

#[test]
fn decode_start_command_fields() {
    let s = decode_start_command(
        "{\"vp\":\"vp64\",\"proj\":\"p1\",\"args\":\"--debug-bus-mode\",\"gdb_arch\":\"\"}",
    )
    .unwrap();
    assert_eq!(s.vp, "vp64");
    assert_eq!(s.proj, "p1");
    assert_eq!(s.args, "--debug-bus-mode");
    assert_eq!(s.gdb_arch, "");
    assert!(decode_start_command("{\"vp\":\"vp64\"}").is_none());
}

#[test]
fn encode_layout_exact() {
    let l = VPLayout {
        modules: vec![String::from("uart"), String::from("ram")],
        start_addrs: vec![String::from("0"), String::from("1000")],
        end_addrs: vec![String::from("fff"), String::from("8fff")],
    };
    let text = encode_layout(&l);
    assert_eq!(
        text,
        "{\"modules\":[\"uart\",\"ram\"],\"start_addrs\":[\"0\",\"1000\"],\"end_addrs\":[\"fff\",\"8fff\"]}"
    );
}

#[test]
fn gdb_status_text() {
    assert_eq!(GdbStatus::Connected.to_text(), "Connected");
    assert_eq!(GdbStatus::NotConnected.to_text(), "NotConnected");
}

#[test]
fn parse_addrs_reads_hex_range() {
    let mut c = StepUntilCommand {
        action: String::new(),
        module: String::new(),
        start_addr: String::from("10"),
        end_addr: String::from("ff"),
        data: String::new(),
        time: String::new(),
        max_steps: 0,
        batch_trans: false,
    };
    assert_eq!(c.parse_addrs(), Ok((Some(0x10), Some(0xff))));
    c.start_addr = String::from("100");
    c.end_addr = String::from("ff");
    assert!(c.parse_addrs().is_err());
    c.start_addr = String::from("zz");
    c.end_addr = String::from("ff");
    assert_eq!(c.parse_addrs(), Ok((None, Some(0xff))));
    c.start_addr = String::from("10");
    c.end_addr = String::from("zz");
    assert!(c.parse_addrs().is_err());
}
