//! Configuration records, the inventory snapshot, and the
//! start-options resolver that turns a UI start request into a VP
//! launch plan.

use vstd::prelude::*;

use crate::command::StartCommand;
use crate::hexnum::{spec_dec_chars, u64_to_dec_chars};
use crate::json::{spec_json_array, write_json_array};
use crate::text::{
    chars_to_string, contains_sub, spec_contains_sub, str_to_chars, subrange_chars,
};
use crate::virtual_prototype::VPMode;

verus! {

/// Server configuration: addresses, ports, directories, binary paths.
#[derive(Debug)]
pub struct Options {
    pub serv_opt: ServerOptions,
    pub vp_opt: VPOptions,
    pub gdb_opt: GdbOptions,
    pub bin_dir: String,
    pub vp_dir: String,
    pub gui_vp_kit_dir: String,
    pub gui_vp_args: String,
}

/// Ports of the VP subprocess.
#[derive(Debug)]
pub struct VPOptions {
    pub vp_debug_port: u16,
    pub vp_trace_port: u16,
}

/// The serving endpoint and static file directory.
#[derive(Debug)]
pub struct ServerOptions {
    pub static_dir: String,
    pub port: u16,
    pub address: String,
}

/// GDB tooling configuration.
#[derive(Debug)]
pub struct GdbOptions {
    pub gdbgui_port: u16,
    pub gdbproxy_port: u16,
    pub gdb_bin: String,
    pub gdbgui: String,
}

/// One discovered source project: its directory, nominated executable
/// and source file.
#[derive(Debug)]
pub struct Project {
    pub directory: String,
    pub binary: String,
    pub source: String,
}

/// The inventory snapshot shipped to the UI: project directory
/// basenames and VP basenames.
#[derive(Debug)]
pub struct ProjectTranfer {
    pub dirs: Vec<String>,
    pub vps: Vec<String>,
}

/// A resolved VP launch plan.
#[derive(Debug)]
pub struct StartOptions {
    pub vp: String,
    pub binary: String,
    pub args: Vec<String>,
    pub arch: Option<String>,
    pub mode: VPMode,
}

/// The final path component: everything after the last `/` (the whole
/// text when no `/` occurs).
pub open spec fn spec_basename(s: Seq<char>) -> Seq<char>
    decreases s.len(),
{
    if s.len() == 0 {
        s
    } else if s.last() == '/' {
        Seq::<char>::empty()
    } else {
        spec_basename(s.drop_last()) + seq![s.last()]
    }
}

/// Extracts the final path component.
pub fn basename(v: &Vec<char>) -> (r: Vec<char>)
    ensures
        r@ == spec_basename(v@),
{
    let mut start: usize = 0;
    let mut i: usize = 0;
    proof {
        assert(v@.take(0int).subrange(0int, 0int) =~= spec_basename(v@.take(0int)));
    }
    while i < v.len()
        invariant
            0 <= start <= i <= v@.len(),
            spec_basename(v@.take(i as int)) == v@.subrange(start as int, i as int),
        decreases v@.len() - i,
    {
        proof {
            assert(v@.take(i + 1).drop_last() =~= v@.take(i as int));
            assert(v@.take(i + 1).last() == v@[i as int]);
        }
        if v[i] == '/' {
            start = i + 1;
            proof {
                assert(spec_basename(v@.take(i + 1)) =~= v@.subrange(start as int, i + 1));
            }
        } else {
            proof {
                assert(spec_basename(v@.take(i + 1)) =~= v@.subrange(start as int, i + 1));
            }
        }
        i = i + 1;
    }
    proof {
        assert(v@.take(v@.len() as int) =~= v@);
    }
    subrange_chars(v, start, v.len())
}

impl ProjectTranfer {
    /// Builds the inventory snapshot: the basename of every project
    /// directory and of every VP path, in order.
    pub fn from_inventory(projects: &Vec<Project>, vps: &Vec<String>) -> (r: ProjectTranfer)
        ensures
            r.dirs@.len() == projects@.len(),
            forall|i: int|
                0 <= i < projects@.len() ==> r.dirs@[i]@ == spec_basename(
                    #[trigger] projects@[i].directory@,
                ),
            r.vps@.len() == vps@.len(),
            forall|i: int|
                0 <= i < vps@.len() ==> r.vps@[i]@ == spec_basename(#[trigger] vps@[i]@),
    {
        let mut dirs: Vec<String> = Vec::new();
        let mut i: usize = 0;
        while i < projects.len()
            invariant
                0 <= i <= projects@.len(),
                dirs@.len() == i,
                forall|t: int|
                    0 <= t < i ==> dirs@[t]@ == spec_basename(
                        #[trigger] projects@[t].directory@,
                    ),
            decreases projects@.len() - i,
        {
            let chars = str_to_chars(projects[i].directory.as_str());
            let base = basename(&chars);
            dirs.push(chars_to_string(&base));
            i = i + 1;
        }
        let mut vp_names: Vec<String> = Vec::new();
        let mut j: usize = 0;
        while j < vps.len()
            invariant
                0 <= j <= vps@.len(),
                vp_names@.len() == j,
                forall|t: int|
                    0 <= t < j ==> vp_names@[t]@ == spec_basename(#[trigger] vps@[t]@),
            decreases vps@.len() - j,
        {
            let chars = str_to_chars(vps[j].as_str());
            let base = basename(&chars);
            vp_names.push(chars_to_string(&base));
            j = j + 1;
        }
        ProjectTranfer { dirs, vps: vp_names }
    }
}

/// The outbound text frame of the inventory snapshot.
pub open spec fn spec_encode_project_transfer(p: ProjectTranfer) -> Seq<char> {
    "{\"dirs\":"@ + spec_json_array(p.dirs.deep_view()) + ",\"vps\":"@ + spec_json_array(
        p.vps.deep_view(),
    ) + "}"@
}

/// Serializes the inventory snapshot to its outbound text frame.
pub fn encode_project_transfer(p: &ProjectTranfer) -> (r: String)
    ensures
        r@ == spec_encode_project_transfer(*p),
{
    let mut out: Vec<char> = Vec::new();
    let mut head = str_to_chars("{\"dirs\":");
    out.append(&mut head);
    write_json_array(&mut out, &p.dirs);
    let mut mid = str_to_chars(",\"vps\":");
    out.append(&mut mid);
    write_json_array(&mut out, &p.vps);
    out.push('}');
    proof {
        reveal_strlit("}");
        assert("}"@ =~= seq!['}']);
        assert(out@ =~= spec_encode_project_transfer(*p));
    }
    chars_to_string(&out)
}

/// The first path in the list whose basename equals `name`, if any.
pub open spec fn spec_find_vp(vps: Seq<Seq<char>>, name: Seq<char>) -> Option<Seq<char>>
    decreases vps.len(),
{
    if vps.len() == 0 {
        None
    } else {
        let prev = spec_find_vp(vps.drop_last(), name);
        if prev is Some {
            prev
        } else if spec_basename(vps.last()) == name {
            Some(vps.last())
        } else {
            None
        }
    }
}

/// Finds the path of the requested VP by basename.
fn get_vp(name: &Vec<char>, vps: &Vec<String>) -> (r: Option<String>)
    ensures
        r is Some <==> spec_find_vp(vps.deep_view(), name@) is Some,
        r is Some ==> r->0@ == spec_find_vp(vps.deep_view(), name@)->0,
{
    let ghost gvps = vps.deep_view();
    let mut i: usize = 0;
    while i < vps.len()
        invariant
            0 <= i <= vps@.len(),
            gvps == vps.deep_view(),
            gvps.len() == vps@.len(),
            spec_find_vp(gvps.take(i as int), name@) is None,
        decreases vps@.len() - i,
    {
        let chars = str_to_chars(vps[i].as_str());
        proof {
            assert(chars@ == gvps[i as int]);
            assert(gvps.take(i + 1).drop_last() =~= gvps.take(i as int));
            assert(gvps.take(i + 1).last() == gvps[i as int]);
        }
        let base = basename(&chars);
        if crate::text::eq_chars(&base, name) {
            proof {
                lemma_find_vp_extend(gvps, name@, i as int);
            }
            return Some(vps[i].clone());
        }
        i = i + 1;
    }
    proof {
        assert(gvps.take(gvps.len() as int) =~= gvps);
    }
    None
}

/// Once found, later entries do not change the first match.
proof fn lemma_find_vp_extend(vps: Seq<Seq<char>>, name: Seq<char>, i: int)
    requires
        0 <= i < vps.len(),
        spec_find_vp(vps.take(i), name) is None,
        spec_basename(vps[i]) == name,
    ensures
        spec_find_vp(vps, name) == Some(vps[i]),
    decreases vps.len() - i,
{
    if i + 1 == vps.len() {
        assert(vps.take(vps.len() as int) =~= vps);
        assert(vps.drop_last() =~= vps.take(i));
    } else {
        assert(vps.take(i + 1).take(i) =~= vps.take(i));
        assert(vps.take(i + 1).drop_last() =~= vps.take(i));
        assert(spec_find_vp(vps.take(i + 1), name) == Some(vps[i]));
        lemma_find_vp_mono(vps, name, i + 1);
    }
}

/// A match in a prefix is the match of the whole list.
proof fn lemma_find_vp_mono(vps: Seq<Seq<char>>, name: Seq<char>, k: int)
    requires
        0 <= k <= vps.len(),
        spec_find_vp(vps.take(k), name) is Some,
    ensures
        spec_find_vp(vps, name) == spec_find_vp(vps.take(k), name),
    decreases vps.len() - k,
{
    if k == vps.len() {
        assert(vps.take(k) =~= vps);
    } else {
        assert(vps.take(k + 1).drop_last() =~= vps.take(k));
        lemma_find_vp_mono(vps, name, k + 1);
    }
}

/// Directory and nominated executable of the first project whose
/// directory basename equals `name`, joined by `/`.
pub open spec fn spec_find_binary(projects: Seq<Project>, name: Seq<char>) -> Option<Seq<char>>
    decreases projects.len(),
{
    if projects.len() == 0 {
        None
    } else {
        let prev = spec_find_binary(projects.drop_last(), name);
        if prev is Some {
            prev
        } else if spec_basename(projects.last().directory@) == name {
            Some(projects.last().directory@ + seq!['/'] + projects.last().binary@)
        } else {
            None
        }
    }
}

/// Finds the binary of the requested project by directory basename.
fn get_binary(name: &Vec<char>, projects: &Vec<Project>) -> (r: Option<String>)
    ensures
        r is Some <==> spec_find_binary(projects@, name@) is Some,
        r is Some ==> r->0@ == spec_find_binary(projects@, name@)->0,
{
    let mut i: usize = 0;
    while i < projects.len()
        invariant
            0 <= i <= projects@.len(),
            spec_find_binary(projects@.take(i as int), name@) is None,
        decreases projects@.len() - i,
    {
        let chars = str_to_chars(projects[i].directory.as_str());
        proof {
            assert(projects@.take(i + 1).drop_last() =~= projects@.take(i as int));
            assert(projects@.take(i + 1).last() == projects@[i as int]);
        }
        let base = basename(&chars);
        if crate::text::eq_chars(&base, name) {
            let mut path = str_to_chars(projects[i].directory.as_str());
            path.push('/');
            let mut bin = str_to_chars(projects[i].binary.as_str());
            path.append(&mut bin);
            proof {
                assert(path@ =~= projects@[i as int].directory@ + seq!['/'] + projects@[
                    i as int
                ].binary@);
                lemma_find_binary_extend(projects@, name@, i as int);
            }
            return Some(chars_to_string(&path));
        }
        i = i + 1;
    }
    proof {
        assert(projects@.take(projects@.len() as int) =~= projects@);
    }
    None
}

proof fn lemma_find_binary_extend(projects: Seq<Project>, name: Seq<char>, i: int)
    requires
        0 <= i < projects.len(),
        spec_find_binary(projects.take(i), name) is None,
        spec_basename(projects[i].directory@) == name,
    ensures
        spec_find_binary(projects, name) == Some(
            projects[i].directory@ + seq!['/'] + projects[i].binary@,
        ),
    decreases projects.len() - i,
{
    if i + 1 == projects.len() {
        assert(projects.take(projects.len() as int) =~= projects);
        assert(projects.drop_last() =~= projects.take(i));
    } else {
        assert(projects.take(i + 1).take(i) =~= projects.take(i));
        assert(projects.take(i + 1).drop_last() =~= projects.take(i));
        lemma_find_binary_mono(projects, name, i + 1);
    }
}

proof fn lemma_find_binary_mono(projects: Seq<Project>, name: Seq<char>, k: int)
    requires
        0 <= k <= projects.len(),
        spec_find_binary(projects.take(k), name) is Some,
    ensures
        spec_find_binary(projects, name) == spec_find_binary(projects.take(k), name),
    decreases projects.len() - k,
{
    if k == projects.len() {
        assert(projects.take(k) =~= projects);
    } else {
        assert(projects.take(k + 1).drop_last() =~= projects.take(k));
        lemma_find_binary_mono(projects, name, k + 1);
    }
}

/// ASCII whitespace, as the argument splitter sees it.
pub open spec fn spec_is_ascii_ws(c: char) -> bool {
    c == ' ' || c == '\t' || c == '\n' || c == '\r' || c == '\u{c}'
}

/// Splitting on runs of ASCII whitespace: the maximal non-blank words,
/// in order, with no empty fields.
pub open spec fn spec_split_ws(s: Seq<char>) -> Seq<Seq<char>>
    decreases s.len(),
{
    if s.len() == 0 {
        Seq::<Seq<char>>::empty()
    } else {
        let prev = spec_split_ws(s.drop_last());
        let c = s.last();
        if spec_is_ascii_ws(c) {
            prev
        } else if s.len() >= 2 && !spec_is_ascii_ws(s[s.len() - 2]) {
            prev.update(prev.len() - 1, prev.last().push(c))
        } else {
            prev.push(seq![c])
        }
    }
}


/// Splits `v` into ASCII-whitespace-separated words.
pub fn split_ascii_ws(v: &Vec<char>) -> (r: Vec<Vec<char>>)
    ensures
        r.deep_view() == spec_split_ws(v@),
{
    let mut fields: Vec<Vec<char>> = Vec::new();
    let mut cur: Vec<char> = Vec::new();
    let mut i: usize = 0;
    proof {
        assert(v@.take(0int) =~= Seq::<char>::empty());
    }
    while i < v.len()
        invariant
            0 <= i <= v@.len(),
            i > 0 && !spec_is_ascii_ws(v@[i - 1]) ==> cur@.len() > 0 && spec_split_ws(
                v@.take(i as int),
            ) =~~= fields.deep_view().push(cur@),
            (i == 0 || spec_is_ascii_ws(v@[i - 1])) ==> cur@.len() == 0 && spec_split_ws(
                v@.take(i as int),
            ) =~~= fields.deep_view(),
        decreases v@.len() - i,
    {
        let c = v[i];
        proof {
            assert(v@.take(i + 1).drop_last() =~= v@.take(i as int));
            assert(v@.take(i + 1).last() == v@[i as int]);
        }
        let is_ws = c == ' ' || c == '\t' || c == '\n' || c == '\r' || c == '\u{c}';
        if is_ws {
            if cur.len() > 0 {
                let ghost pf = fields.deep_view();
                let ghost pc = cur@;
                fields.push(cur);
                cur = Vec::new();
                proof {
                    assert(fields.deep_view() =~~= pf.push(pc));
                }
            }
        } else {
            let ghost pc = cur@;
            cur.push(c);
            proof {
                if i > 0 && !spec_is_ascii_ws(v@[i - 1 as int]) {
                    assert(spec_split_ws(v@.take(i + 1)) =~~= fields.deep_view().push(cur@));
                } else {
                    assert(pc =~= Seq::<char>::empty());
                    assert(cur@ =~= seq![c]);
                    assert(spec_split_ws(v@.take(i + 1)) =~~= fields.deep_view().push(cur@));
                }
            }
        }
        i = i + 1;
    }
    proof {
        assert(v@.take(v@.len() as int) =~= v@);
    }
    if cur.len() > 0 {
        let ghost pf = fields.deep_view();
        let ghost pc = cur@;
        fields.push(cur);
        proof {
            assert(fields.deep_view() =~~= pf.push(pc));
        }
    }
    fields
}

/// The extra arguments and overriding binary of a Linux VP, derived
/// from the Linux-helper template: architecture `rv32` when the VP
/// name contains `32`, else `rv64`; multi-core when it contains `mc`;
/// 1 GiB of memory for rv32, 2 GiB for rv64.
pub open spec fn spec_guivp_args(vp_name: Seq<char>, path: Seq<char>, extra: Seq<char>) -> (
    Seq<char>,
    Seq<char>,
) {
    let rv: Seq<char> = if spec_contains_sub(vp_name, "32"@) {
        "32"@
    } else {
        "64"@
    };
    let cores: Seq<char> = if spec_contains_sub(vp_name, "mc"@) {
        "mc"@
    } else {
        "sc"@
    };
    let mem: nat = if spec_contains_sub(vp_name, "32"@) {
        1073741824
    } else {
        2147483648
    };
    let args = " "@ + extra + " --dtb-file="@ + path + "/dt/linux-vp_rv"@ + rv + "_"@ + cores
        + ".dtb --kernel-file "@ + path + "/buildroot_rv"@ + rv + "/output/images/Image --mram-root-image "@
        + path + "/runtime_mram/mram_rv"@ + rv + "_root.img --mram-data-image "@ + path
        + "/runtime_mram/mram_rv"@ + rv + "_data.img --memory-size "@ + spec_dec_chars(mem);
    let binary = path + "/buildroot_rv"@ + rv + "/output/images/fw_jump.elf"@;
    (args, binary)
}

/// Computes the extra arguments and binary for a Linux VP.
pub fn get_guivp_args(vp_name: &str, guivp_path: &str, guivp_args: &str) -> (r: (String, String))
    ensures
        r.0@ == spec_guivp_args(vp_name@, guivp_path@, guivp_args@).0,
        r.1@ == spec_guivp_args(vp_name@, guivp_path@, guivp_args@).1,
{
    let name = str_to_chars(vp_name);
    let path = str_to_chars(guivp_path);
    let extra = str_to_chars(guivp_args);
    let has32 = contains_sub(&name, &str_to_chars("32"));
    let hasmc = contains_sub(&name, &str_to_chars("mc"));
    let rv = if has32 {
        str_to_chars("32")
    } else {
        str_to_chars("64")
    };
    let cores = if hasmc {
        str_to_chars("mc")
    } else {
        str_to_chars("sc")
    };
    let mem: u64 = if has32 {
        1073741824
    } else {
        2147483648
    };
    let mut args: Vec<char> = Vec::new();
    args.push(' ');
    append_copy(&mut args, &extra);
    append_copy(&mut args, &str_to_chars(" --dtb-file="));
    append_copy(&mut args, &path);
    append_copy(&mut args, &str_to_chars("/dt/linux-vp_rv"));
    append_copy(&mut args, &rv);
    append_copy(&mut args, &str_to_chars("_"));
    append_copy(&mut args, &cores);
    append_copy(&mut args, &str_to_chars(".dtb --kernel-file "));
    append_copy(&mut args, &path);
    append_copy(&mut args, &str_to_chars("/buildroot_rv"));
    append_copy(&mut args, &rv);
    append_copy(&mut args, &str_to_chars("/output/images/Image --mram-root-image "));
    append_copy(&mut args, &path);
    append_copy(&mut args, &str_to_chars("/runtime_mram/mram_rv"));
    append_copy(&mut args, &rv);
    append_copy(&mut args, &str_to_chars("_root.img --mram-data-image "));
    append_copy(&mut args, &path);
    append_copy(&mut args, &str_to_chars("/runtime_mram/mram_rv"));
    append_copy(&mut args, &rv);
    append_copy(&mut args, &str_to_chars("_data.img --memory-size "));
    let mem_chars = u64_to_dec_chars(mem);
    append_copy(&mut args, &mem_chars);
    let mut binary: Vec<char> = Vec::new();
    append_copy(&mut binary, &path);
    append_copy(&mut binary, &str_to_chars("/buildroot_rv"));
    append_copy(&mut binary, &rv);
    append_copy(&mut binary, &str_to_chars("/output/images/fw_jump.elf"));
    proof {
        reveal_strlit(" ");
        assert(" "@ =~= seq![' ']);
        assert(args@ =~= spec_guivp_args(vp_name@, guivp_path@, guivp_args@).0);
        assert(binary@ =~= spec_guivp_args(vp_name@, guivp_path@, guivp_args@).1);
    }
    (chars_to_string(&args), chars_to_string(&binary))
}

/// Appends a copy of `src` to `out`.
pub fn append_copy(out: &mut Vec<char>, src: &Vec<char>)
    ensures
        final(out)@ == old(out)@ + src@,
{
    let ghost start = out@;
    let mut i: usize = 0;
    while i < src.len()
        invariant
            0 <= i <= src@.len(),
            out@ =~= start + src@.take(i as int),
        decreases src@.len() - i,
    {
        out.push(src[i]);
        assert(out@ =~= start + src@.take(i + 1));
        i = i + 1;
    }
    proof {
        assert(src@.take(src@.len() as int) =~= src@);
    }
}

/// The launch plan denoted by a start request against the inventory
/// and configuration, if resolution succeeds: the VP path is found by
/// basename; a Linux VP overrides the binary and extends the
/// arguments; debug mode demands a known architecture, selects Step
/// mode and appends the debug port; the arguments must ask for bus
/// tracing, and the trace port is appended; the argument text is then
/// split into words.
pub open spec fn spec_resolve_start(
    cmd: StartCommand,
    projects: Seq<Project>,
    vps: Seq<Seq<char>>,
    opts: Options,
) -> Option<(Seq<char>, Seq<char>, Seq<Seq<char>>, Option<Seq<char>>, VPMode)> {
    match spec_find_vp(vps, cmd.vp@) {
        None => None,
        Some(vp) => {
            let linux = spec_contains_sub(cmd.vp@, "linux"@);
            let args1 = if linux {
                cmd.args@ + spec_guivp_args(cmd.vp@, opts.gui_vp_kit_dir@, opts.gui_vp_args@).0
            } else {
                cmd.args@
            };
            let bin_opt = if linux {
                Some(spec_guivp_args(cmd.vp@, opts.gui_vp_kit_dir@, opts.gui_vp_args@).1)
            } else {
                spec_find_binary(projects, cmd.proj@)
            };
            match bin_opt {
                None => None,
                Some(bin) => {
                    let debug = spec_contains_sub(args1, "--debug-mode"@);
                    if debug && !(cmd.gdb_arch@ == "rv32"@ || cmd.gdb_arch@ == "rv64"@) {
                        None
                    } else {
                        let args2 = if debug {
                            args1 + " --debug-port "@ + spec_dec_chars(
                                opts.vp_opt.vp_debug_port as nat,
                            )
                        } else {
                            args1
                        };
                        if !spec_contains_sub(args2, "--debug-bus-mode"@) {
                            None
                        } else {
                            let args3 = args2 + " --debug-bus-port "@ + spec_dec_chars(
                                opts.vp_opt.vp_trace_port as nat,
                            );
                            Some(
                                (
                                    vp,
                                    bin,
                                    spec_split_ws(args3),
                                    if debug {
                                        Some(cmd.gdb_arch@)
                                    } else {
                                        None
                                    },
                                    if debug {
                                        VPMode::Step
                                    } else {
                                        VPMode::Stream
                                    },
                                ),
                            )
                        }
                    }
                },
            }
        },
    }
}

/// Resolves a start request into a VP launch plan.
pub fn get_vp_args(
    start_cmd: StartCommand,
    projects: &Vec<Project>,
    vps: &Vec<String>,
    opts: &Options,
) -> (r: Option<StartOptions>)
    ensures
        r is Some <==> spec_resolve_start(start_cmd, projects@, vps.deep_view(), *opts)
            is Some,
        r is Some ==> {
            let (vp, bin, args, arch, mode) = spec_resolve_start(
                start_cmd,
                projects@,
                vps.deep_view(),
                *opts,
            )->0;
            &&& r->0.vp@ == vp
            &&& r->0.binary@ == bin
            &&& r->0.args.deep_view() == args
            &&& (r->0.arch is Some <==> arch is Some)
            &&& (r->0.arch is Some ==> r->0.arch->0@ == arch->0)
            &&& r->0.mode == mode
        },
{
    let vp_name = str_to_chars(start_cmd.vp.as_str());
    let vp = match get_vp(&vp_name, vps) {
        Some(v) => v,
        None => {
            return None;
        },
    };

    let linux = contains_sub(&vp_name, &str_to_chars("linux"));
    let mut args_chars = str_to_chars(start_cmd.args.as_str());
    let binary: String = if linux {
        let (gui_args, gui_bin) = get_guivp_args(
            start_cmd.vp.as_str(),
            opts.gui_vp_kit_dir.as_str(),
            opts.gui_vp_args.as_str(),
        );
        let mut ga = str_to_chars(gui_args.as_str());
        args_chars.append(&mut ga);
        gui_bin
    } else {
        let proj_name = str_to_chars(start_cmd.proj.as_str());
        match get_binary(&proj_name, projects) {
            Some(b) => b,
            None => {
                return None;
            },
        }
    };

    let debug = contains_sub(&args_chars, &str_to_chars("--debug-mode"));
    let mut arch: Option<String> = None;
    let mut mode = VPMode::Stream;
    if debug {
        let arch_chars = str_to_chars(start_cmd.gdb_arch.as_str());
        let is32 = crate::text::eq_chars(&arch_chars, &str_to_chars("rv32"));
        let is64 = crate::text::eq_chars(&arch_chars, &str_to_chars("rv64"));
        if !is32 && !is64 {
            return None;
        }
        arch = Some(start_cmd.gdb_arch.clone());
        mode = VPMode::Step;
        append_copy(&mut args_chars, &str_to_chars(" --debug-port "));
        let port_chars = u64_to_dec_chars(opts.vp_opt.vp_debug_port as u64);
        append_copy(&mut args_chars, &port_chars);
    }

    if !contains_sub(&args_chars, &str_to_chars("--debug-bus-mode")) {
        return None;
    }
    append_copy(&mut args_chars, &str_to_chars(" --debug-bus-port "));
    let trace_port_chars = u64_to_dec_chars(opts.vp_opt.vp_trace_port as u64);
    append_copy(&mut args_chars, &trace_port_chars);

    let words = split_ascii_ws(&args_chars);
    let mut arg_list: Vec<String> = Vec::new();
    let mut i: usize = 0;
    while i < words.len()
        invariant
            0 <= i <= words@.len(),
            arg_list@.len() == i,
            forall|t: int| 0 <= t < i ==> arg_list@[t]@ == #[trigger] words@[t]@,
        decreases words@.len() - i,
    {
        arg_list.push(chars_to_string(&words[i]));
        i = i + 1;
    }
    proof {
        assert(arg_list.deep_view() =~~= words.deep_view());
    }

    Some(StartOptions { vp, binary, args: arg_list, arch, mode })
}

} // verus!
