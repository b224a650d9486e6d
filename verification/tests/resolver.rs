use pls::gdb_proxy::{
    copy_step, gdbcmd_contents, gdbgui_args, proxy_initial_status, proxy_transition, step_packet_text,
    CopyDecision, CopyEvent, GdbStatus, ProxyEvent, ProxyPhase,
};
use pls::hexnum::{parse_dec_u64, parse_hex_u64, u64_to_dec_chars};
use pls::options::{
    get_guivp_args, get_vp_args, GdbOptions, Options, Project, ProjectTranfer, ServerOptions,
    VPOptions,
};
use pls::command::StartCommand;
use pls::text::str_to_chars;
use pls::virtual_prototype::VPMode;

fn opts() -> Options {
    Options {
        serv_opt: ServerOptions {
            static_dir: String::from("static"),
            port: 8080,
            address: String::from("127.0.0.1"),
        },
        vp_opt: VPOptions { vp_debug_port: 5005, vp_trace_port: 5006 },
        gdb_opt: GdbOptions {
            gdbgui_port: 5001,
            gdbproxy_port: 50000,
            gdb_bin: String::from("/usr/bin/gdb"),
            gdbgui: String::from("/usr/bin/gdbgui"),
        },
        bin_dir: String::from("/srv/projects"),
        vp_dir: String::from("/srv/vps"),
        gui_vp_kit_dir: String::from("/srv/kit"),
        gui_vp_args: String::from("--base"),
    }
}

fn inventory() -> (Vec<Project>, Vec<String>) {
    let projects = vec![Project {
        directory: String::from("/srv/projects/p1"),
        binary: String::from("prog.elf"),
        source: String::from("main.c"),
    }];
    let vps = vec![String::from("/srv/vps/vp64"), String::from("/srv/vps/vp32-linux-mc")];
    (projects, vps)
}

#[test]
fn resolver_stream_mode() {
    let (projects, vps) = inventory();
    let cmd = StartCommand {
        vp: String::from("vp64"),
        proj: String::from("p1"),
        args: String::from("--debug-bus-mode"),
        gdb_arch: String::from(""),
    };
    let so = get_vp_args(cmd, &projects, &vps, &opts()).unwrap();
    assert_eq!(so.vp, "/srv/vps/vp64");
    assert_eq!(so.binary, "/srv/projects/p1/prog.elf");
    assert_eq!(so.args, vec!["--debug-bus-mode", "--debug-bus-port", "5006"]);
    assert_eq!(so.arch, None);
    assert_eq!(so.mode, VPMode::Stream);
}

#[test]
fn resolver_step_mode_appends_debug_port() {
    let (projects, vps) = inventory();
    let cmd = StartCommand {
        vp: String::from("vp64"),
        proj: String::from("p1"),
        args: String::from("--debug-mode --debug-bus-mode"),
        gdb_arch: String::from("rv64"),
    };
    let so = get_vp_args(cmd, &projects, &vps, &opts()).unwrap();
    assert_eq!(
        so.args,
        vec!["--debug-mode", "--debug-bus-mode", "--debug-port", "5005", "--debug-bus-port",
            "5006"]
    );
    assert_eq!(so.arch.as_deref(), Some("rv64"));
    assert_eq!(so.mode, VPMode::Step);
}

#[test]
fn resolver_rejects_missing_bus_mode() {
    // the invalid-start scenario: no --debug-bus-mode, no launch plan
    let (projects, vps) = inventory();
    let cmd = StartCommand {
        vp: String::from("vp64"),
        proj: String::from("p1"),
        args: String::from(""),
        gdb_arch: String::from(""),
    };
    assert!(get_vp_args(cmd, &projects, &vps, &opts()).is_none());
}

#[test]
fn resolver_rejects_debug_without_arch() {
    let (projects, vps) = inventory();
    let cmd = StartCommand {
        vp: String::from("vp64"),
        proj: String::from("p1"),
        args: String::from("--debug-mode --debug-bus-mode"),
        gdb_arch: String::from("armv7"),
    };
    assert!(get_vp_args(cmd, &projects, &vps, &opts()).is_none());
}

#[test]
fn resolver_rejects_unknown_vp_and_project() {
    let (projects, vps) = inventory();
    let cmd = StartCommand {
        vp: String::from("vp128"),
        proj: String::from("p1"),
        args: String::from("--debug-bus-mode"),
        gdb_arch: String::from(""),
    };
    assert!(get_vp_args(cmd, &projects, &vps, &opts()).is_none());
    let (projects, vps) = inventory();
    let cmd = StartCommand {
        vp: String::from("vp64"),
        proj: String::from("p9"),
        args: String::from("--debug-bus-mode"),
        gdb_arch: String::from(""),
    };
    assert!(get_vp_args(cmd, &projects, &vps, &opts()).is_none());
}

#[test]
fn resolver_linux_vp_overrides_binary() {
    let (projects, vps) = inventory();
    let cmd = StartCommand {
        vp: String::from("vp32-linux-mc"),
        proj: String::from("p1"),
        args: String::from("--debug-bus-mode"),
        gdb_arch: String::from(""),
    };
    let so = get_vp_args(cmd, &projects, &vps, &opts()).unwrap();
    assert_eq!(so.binary, "/srv/kit/buildroot_rv32/output/images/fw_jump.elf");
    assert!(so.args.contains(&String::from("--base")));
    assert!(so.args.contains(&String::from("--memory-size")));
    assert!(so.args.contains(&String::from("1073741824")));
    assert!(so.args.contains(&String::from("--dtb-file=/srv/kit/dt/linux-vp_rv32_mc.dtb")));
}

#[test]
fn guivp_args_exact() {
    let (args, binary) = get_guivp_args("vp64", "/k", "--x");
    assert_eq!(binary, "/k/buildroot_rv64/output/images/fw_jump.elf");
    assert_eq!(
        args,
        " --x --dtb-file=/k/dt/linux-vp_rv64_sc.dtb --kernel-file /k/buildroot_rv64/output/images/Image --mram-root-image /k/runtime_mram/mram_rv64_root.img --mram-data-image /k/runtime_mram/mram_rv64_data.img --memory-size 2147483648"
    );
}

#[test]
fn inventory_snapshot_uses_basenames() {
    let (projects, vps) = inventory();
    let p = ProjectTranfer::from_inventory(&projects, &vps);
    assert_eq!(p.dirs, vec!["p1"]);
    assert_eq!(p.vps, vec!["vp64", "vp32-linux-mc"]);
}

#[test]
fn step_packets_exact() {
    // the step-injection scenario: a count of 3 injects exactly three
    // consecutive packets and nothing else
    assert_eq!(step_packet_text(3), "$vCont;c#a8$vCont;c#a8$vCont;c#a8");
    assert_eq!(step_packet_text(0), "");
    assert_eq!(step_packet_text(1), "$vCont;c#a8");
}

#[test]
fn proxy_reconnect_publishes_in_order() {
    // the proxy-reconnect scenario: close, then re-accept
    assert_eq!(proxy_initial_status(), GdbStatus::NotConnected);
    let (phase, status) = proxy_transition(ProxyPhase::Relaying, ProxyEvent::LegsClosed);
    assert_eq!(status, GdbStatus::NotConnected);
    assert_eq!(phase, ProxyPhase::Waiting);
    let (phase, status) = proxy_transition(phase, ProxyEvent::Accepted { dial_ok: true });
    assert_eq!(status, GdbStatus::Connected);
    assert_eq!(phase, ProxyPhase::Relaying);
    let (_, status) = proxy_transition(ProxyPhase::Waiting, ProxyEvent::Accepted {
        dial_ok: false,
    });
    assert_eq!(status, GdbStatus::NotConnected);
}

#[test]
fn copy_leg_decisions() {
    assert_eq!(copy_step(CopyEvent::Read(100)), CopyDecision::Forward(100));
    assert_eq!(copy_step(CopyEvent::Read(0)), CopyDecision::Stop);
    assert_eq!(copy_step(CopyEvent::Inject(4)), CopyDecision::InjectPackets(4));
    assert_eq!(copy_step(CopyEvent::Killed), CopyDecision::Stop);
}

#[test]
fn gdbcmd_file_contents() {
    assert_eq!(
        gdbcmd_contents("rv64", 50000),
        "set architecture riscv:rv64\ntarget remote 127.0.0.1:50000"
    );
}

#[test]
fn gdbgui_argument_list() {
    let o = opts();
    let args = gdbgui_args(&o.gdb_opt, "/srv/projects/p1/prog.elf");
    assert_eq!(
        args,
        vec!["-p", "5001", "-g", "/usr/bin/gdb --command gdbcmd /srv/projects/p1/prog.elf"]
    );
}

#[test]
fn numeral_parsers_are_strict() {
    assert_eq!(parse_dec_u64(&str_to_chars("12")), Some(12));
    assert_eq!(parse_dec_u64(&str_to_chars("")), None);
    assert_eq!(parse_dec_u64(&str_to_chars("1a")), None);
    assert_eq!(parse_dec_u64(&str_to_chars("18446744073709551615")), Some(u64::MAX));
    assert_eq!(parse_dec_u64(&str_to_chars("18446744073709551616")), None);
    assert_eq!(parse_hex_u64(&str_to_chars("ff")), Some(255));
    assert_eq!(parse_hex_u64(&str_to_chars("FFFFFFFFFFFFFFFF")), Some(u64::MAX));
    assert_eq!(parse_hex_u64(&str_to_chars("10000000000000000")), None);
    assert_eq!(parse_hex_u64(&str_to_chars("0x10")), None);
    let chars = u64_to_dec_chars(50000);
    let text: String = chars.iter().collect();
    assert_eq!(text, "50000");
    let zero: String = u64_to_dec_chars(0).iter().collect();
    assert_eq!(zero, "0");
}
