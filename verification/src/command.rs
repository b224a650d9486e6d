//! Control-plane message types exchanged with the UI, and the small
//! parsers on their payloads.

use vstd::prelude::*;

use crate::hexnum::{spec_hex_nat, spec_all_hex_digits, parse_hex_u64};
use crate::text::str_to_chars;
use vstd::string::StringExecFns;

verus! {

/// Kind of a control message.
#[derive(Clone, Copy, Debug, PartialEq, Eq, Structural)]
pub enum Command {
    Start,
    Status,
    Step,
    Options,
}

/// One control message: a kind and a free-form string payload.
#[derive(Debug)]
pub struct GenericCommand {
    pub command: Command,
    pub value: String,
}

/// Payload of a `Start` message: requested VP, project, extra
/// arguments, and the debugger architecture.
#[derive(Debug)]
pub struct StartCommand {
    pub vp: String,
    pub proj: String,
    pub args: String,
    pub gdb_arch: String,
}

/// Request to advance the VP by a number of steps.
#[derive(Debug)]
pub struct StepCommand {
    /// number of steps to be performed on the virtual prototype
    pub steps: u32,
    /// indicates if the transactions should be sent as one message
    pub batch_trans: bool,
}

/// Reply to a step request.
#[derive(Debug)]
pub struct StepResponse {
    pub trans: Vec<String>,
    pub steps_done: u32,
}

/// Request to advance the VP until a matching transaction occurs.
#[derive(Debug)]
pub struct StepUntilCommand {
    pub action: String,
    pub module: String,
    pub start_addr: String,
    pub end_addr: String,
    pub data: String,
    pub time: String,
    pub max_steps: u32,
    pub batch_trans: bool,
}

/// The address denoted by a hexadecimal field, if it is well-formed
/// and fits in 64 bits.
pub open spec fn spec_addr_of(s: Seq<char>) -> Option<u64> {
    if s.len() > 0 && spec_all_hex_digits(s) && spec_hex_nat(s) <= u64::MAX {
        Some(spec_hex_nat(s) as u64)
    } else {
        None
    }
}

/// Order on optional addresses as the range check uses it: an absent
/// value is below every present one.
pub open spec fn spec_opt_addr_gt(a: Option<u64>, b: Option<u64>) -> bool {
    match (a, b) {
        (Some(x), Some(y)) => x > y,
        (Some(_), None) => true,
        _ => false,
    }
}

impl StepUntilCommand {
    /// Reads the optional start and end addresses and checks that the
    /// range is not inverted.
    pub fn parse_addrs(&mut self) -> (r: Result<(Option<u64>, Option<u64>), String>)
        ensures
            *final(self) == *old(self),
            r is Ok <==> !spec_opt_addr_gt(
                spec_addr_of(old(self).start_addr@),
                spec_addr_of(old(self).end_addr@),
            ),
            r is Ok ==> r->Ok_0 == (
                spec_addr_of(old(self).start_addr@),
                spec_addr_of(old(self).end_addr@),
            ),
            r is Err ==> r->Err_0@ == "Start address is bigger than end address"@,
    {
        let s_chars = str_to_chars(self.start_addr.as_str());
        let e_chars = str_to_chars(self.end_addr.as_str());
        let s_addr = parse_hex_u64(&s_chars);
        let e_addr = parse_hex_u64(&e_chars);

        let inverted = match (&s_addr, &e_addr) {
            (Some(x), Some(y)) => *x > *y,
            (Some(_), None) => true,
            _ => false,
        };
        if inverted {
            return Err(String::from_str("Start address is bigger than end address"));
        }
        Ok((s_addr, e_addr))
    }
}

} // verus!
