//! Transaction codec: parses one line of VP trace text into a
//! [`Transaction`] record and serializes a record to its fixed 28-byte
//! little-endian frame.

use vstd::prelude::*;

use crate::hexnum::{
    lemma_dec_chars_digits, lemma_dec_chars_value, parse_dec_u64, parse_dec_u8, parse_hex_u64,
    spec_all_dec_digits, spec_all_hex_digits, spec_dec_chars, spec_dec_nat, spec_hex_nat,
};
use crate::text::{
    chars_to_string, lemma_split_append, lemma_split_single, spec_split, spec_trim_newlines,
    split_chars, str_to_chars, trim_newlines,
};
use vstd::string::StringExecFns;

verus! {

/// Size in bytes of one serialized transaction frame.
pub const TRANSACTION_BIN_SIZE: usize = 28;

/// The direction of one observed bus operation.
#[derive(Clone, Copy, Debug, PartialEq, Eq, Structural)]
pub enum TransactionCmd {
    Read,
    Write,
}

/// Byte tag of an action in the binary frame: `Read` is 0, `Write` is 1.
pub open spec fn spec_cmd_byte(cmd: TransactionCmd) -> u8 {
    if cmd == TransactionCmd::Read {
        0
    } else {
        1
    }
}

/// The action named by a one-letter trace field, if any.
pub open spec fn spec_parse_cmd(s: Seq<char>) -> Option<TransactionCmd> {
    if s == seq!['R'] {
        Some(TransactionCmd::Read)
    } else if s == seq!['W'] {
        Some(TransactionCmd::Write)
    } else {
        None
    }
}

impl TransactionCmd {
    /// Parses the one-letter action field of a trace line.
    pub fn from_str(s: &str) -> (r: Result<TransactionCmd, ()>)
        ensures
            r is Ok <==> spec_parse_cmd(s@) is Some,
            r is Ok ==> r->Ok_0 == spec_parse_cmd(s@)->0,
    {
        let v = str_to_chars(s);
        Self::from_chars(&v)
    }

    /// Parses the one-letter action field, given as characters.
    pub fn from_chars(v: &Vec<char>) -> (r: Result<TransactionCmd, ()>)
        ensures
            r is Ok <==> spec_parse_cmd(v@) is Some,
            r is Ok ==> r->Ok_0 == spec_parse_cmd(v@)->0,
    {
        if v.len() == 1 && v[0] == 'R' {
            proof {
                assert(v@ =~= seq!['R']);
            }
            Ok(TransactionCmd::Read)
        } else if v.len() == 1 && v[0] == 'W' {
            proof {
                assert(v@ =~= seq!['W']);
            }
            Ok(TransactionCmd::Write)
        } else {
            proof {
                if v@ == seq!['R'] {
                    assert(v@[0] == 'R');
                }
                if v@ == seq!['W'] {
                    assert(v@[0] == 'W');
                }
            }
            Err(())
        }
    }

    /// Byte tag of the action in the binary frame.
    pub fn to_byte(&self) -> (r: u8)
        ensures
            r == spec_cmd_byte(*self),
    {
        if *self == TransactionCmd::Read {
            return 0;
        }
        1
    }

    /// Human-readable name of the action.
    pub fn to_text(&self) -> (r: String)
        ensures
            *self == TransactionCmd::Read ==> r@ == "Read"@,
            *self == TransactionCmd::Write ==> r@ == "Write"@,
    {
        match self {
            TransactionCmd::Read => String::from_str("Read"),
            TransactionCmd::Write => String::from_str("Write"),
        }
    }
}

/// One observed bus operation: timestamp, direction, initiator, target,
/// address, length and data. The address and data fields hold
/// hexadecimal text without a `0x` prefix.
#[derive(Debug)]
pub struct Transaction {
    pub sim_time: u64,
    pub action: TransactionCmd,
    pub initiator: String,
    pub target: u8,
    pub address: String,
    pub data_length: u8,
    pub data: String,
}

/// A transaction that the binary serializer accepts: the initiator is
/// non-empty and ends in an ASCII character, the address is hexadecimal
/// text denoting a `u64`, and the data is empty or such text.
pub open spec fn spec_valid_transaction(t: Transaction) -> bool {
    &&& t.initiator@.len() > 0
    &&& t.initiator@.last() as u32 <= 127
    &&& t.address@.len() > 0
    &&& spec_all_hex_digits(t.address@)
    &&& spec_hex_nat(t.address@) <= u64::MAX
    &&& (t.data@.len() == 0 || (spec_all_hex_digits(t.data@) && spec_hex_nat(t.data@)
        <= u64::MAX))
}

/// The 28-byte little-endian frame of a transaction: 8 bytes sim_time,
/// 1 byte action, 1 byte last initiator character, 1 byte target,
/// 8 bytes address value, 1 byte data_length, 8 bytes data value
/// (empty data denotes zero).
pub open spec fn spec_transaction_bytes(t: Transaction) -> Seq<u8> {
    vstd::bytes::spec_u64_to_le_bytes(t.sim_time) + seq![spec_cmd_byte(t.action)] + seq![
        ((t.initiator@.last() as u32) % 256) as u8,
    ] + seq![t.target] + vstd::bytes::spec_u64_to_le_bytes(
        (spec_hex_nat(t.address@) % 0x1_0000_0000_0000_0000) as u64,
    ) + seq![t.data_length] + vstd::bytes::spec_u64_to_le_bytes(
        (spec_hex_nat(t.data@) % 0x1_0000_0000_0000_0000) as u64,
    )
}

/// Serialization of a record to a fixed-size binary frame.
pub trait ToBinary {
    /// Records the serializer accepts.
    spec fn bin_valid(&self) -> bool;

    /// The exact frame the serializer produces.
    spec fn bin_bytes(&self) -> Seq<u8>;

    /// Serializes the record.
    fn to_binary(&self) -> (r: Vec<u8>)
        requires
            self.bin_valid(),
        ensures
            r@ == self.bin_bytes(),
    ;
}

impl ToBinary for Transaction {
    open spec fn bin_valid(&self) -> bool {
        spec_valid_transaction(*self)
    }

    open spec fn bin_bytes(&self) -> Seq<u8> {
        spec_transaction_bytes(*self)
    }

    fn to_binary(&self) -> (r: Vec<u8>) {
        let mut r: Vec<u8> = Vec::new();
        let mut time_bytes = vstd::bytes::u64_to_le_bytes(self.sim_time);
        r.append(&mut time_bytes);
        r.push(self.action.to_byte());
        let ini = str_to_chars(self.initiator.as_str());
        let last_char = ini[ini.len() - 1];
        r.push((last_char as u32) as u8);
        r.push(self.target);
        let addr_chars = str_to_chars(self.address.as_str());
        let addr_val = match parse_hex_u64(&addr_chars) {
            Some(v) => v,
            None => 0,
        };
        let mut addr_bytes = vstd::bytes::u64_to_le_bytes(addr_val);
        r.append(&mut addr_bytes);
        r.push(self.data_length);
        let data_chars = str_to_chars(self.data.as_str());
        let data_val = if data_chars.len() == 0 {
            0u64
        } else {
            match parse_hex_u64(&data_chars) {
                Some(v) => v,
                None => 0,
            }
        };
        let mut data_bytes = vstd::bytes::u64_to_le_bytes(data_val);
        r.append(&mut data_bytes);
        proof {
            assert(r@ =~= spec_transaction_bytes(*self));
        }
        r
    }
}

/// A serialized transaction frame is exactly 28 bytes.
pub proof fn lemma_transaction_bytes_len(t: Transaction)
    ensures
        spec_transaction_bytes(t).len() == TRANSACTION_BIN_SIZE,
{
    vstd::bytes::lemma_auto_spec_u64_to_from_le_bytes();
}

/// Fields of a trace line: trailing newlines stripped, then split on `;`.
pub open spec fn spec_line_fields(s: Seq<char>) -> Seq<Seq<char>> {
    spec_split(spec_trim_newlines(s), ';')
}

/// A decimal field denoting a value of at most `max`.
pub open spec fn spec_dec_field_ok(f: Seq<char>, max: nat) -> bool {
    f.len() > 0 && spec_all_dec_digits(f) && spec_dec_nat(f) <= max
}

/// A hexadecimal field denoting a value of at most `u64::MAX`.
pub open spec fn spec_hex_field_ok(f: Seq<char>) -> bool {
    f.len() > 0 && spec_all_hex_digits(f) && spec_hex_nat(f) <= u64::MAX
}

/// The lines the transaction parser accepts: 6 or 7 `;`-separated
/// fields; a one-letter `R`/`W` action; a non-empty initiator ending in
/// an ASCII character; decimal target, sim_time and data_length fitting
/// their widths; a hexadecimal address; and, when present and
/// non-empty, hexadecimal data.
pub open spec fn spec_transaction_line_ok(s: Seq<char>) -> bool {
    let f = spec_line_fields(s);
    &&& (f.len() == 6 || f.len() == 7)
    &&& spec_parse_cmd(f[0]) is Some
    &&& f[1].len() > 0
    &&& f[1].last() as u32 <= 127
    &&& spec_dec_field_ok(f[2], u8::MAX as nat)
    &&& spec_hex_field_ok(f[3])
    &&& spec_dec_field_ok(f[4], u64::MAX as nat)
    &&& spec_dec_field_ok(f[5], u8::MAX as nat)
    &&& (f.len() == 7 ==> (f[6].len() == 0 || spec_hex_field_ok(f[6])))
}

/// The transaction denoted by an accepted trace line.
pub open spec fn spec_line_transaction(s: Seq<char>, t: Transaction) -> bool {
    let f = spec_line_fields(s);
    &&& t.action == spec_parse_cmd(f[0])->0
    &&& t.initiator@ == f[1]
    &&& t.target == spec_dec_nat(f[2])
    &&& t.address@ == f[3]
    &&& t.sim_time == spec_dec_nat(f[4])
    &&& t.data_length == spec_dec_nat(f[5])
    &&& t.data@ == if f.len() == 7 {
        f[6]
    } else {
        Seq::<char>::empty()
    }
}

impl Transaction {
    /// Parses one line of VP trace text. Trailing newlines are
    /// tolerated; fields are strict, and layout or malformed lines are
    /// rejected.
    pub fn from_str(s: &str) -> (r: Result<Transaction, ()>)
        ensures
            r is Ok <==> spec_transaction_line_ok(s@),
            r is Ok ==> spec_line_transaction(s@, r->Ok_0) && spec_valid_transaction(r->Ok_0),
    {
        let chars = str_to_chars(s);
        Self::from_chars(&chars)
    }

    /// Parses one line of VP trace text, given as characters.
    pub fn from_chars(chars: &Vec<char>) -> (r: Result<Transaction, ()>)
        ensures
            r is Ok <==> spec_transaction_line_ok(chars@),
            r is Ok ==> spec_line_transaction(chars@, r->Ok_0) && spec_valid_transaction(
                r->Ok_0,
            ),
    {
        let trimmed = trim_newlines(chars);
        let fields = split_chars(&trimmed, ';');
        let ghost f = spec_line_fields(chars@);
        proof {
            assert(fields.deep_view() == f);
        }
        if !(fields.len() == 6 || fields.len() == 7) {
            return Err(());
        }
        assert(fields[0]@ =~= f[0]);
        assert(fields[1]@ =~= f[1]);
        assert(fields[2]@ =~= f[2]);
        assert(fields[3]@ =~= f[3]);
        assert(fields[4]@ =~= f[4]);
        assert(fields[5]@ =~= f[5]);
        let action = match TransactionCmd::from_chars(&fields[0]) {
            Ok(a) => a,
            Err(()) => {
                return Err(());
            },
        };
        if fields[1].len() == 0 {
            return Err(());
        }
        let last_ini = fields[1][fields[1].len() - 1];
        if (last_ini as u32) > 127 {
            return Err(());
        }
        let target = match parse_dec_u8(&fields[2]) {
            Some(v) => v,
            None => {
                return Err(());
            },
        };
        if parse_hex_u64(&fields[3]).is_none() {
            return Err(());
        }
        let sim_time = match parse_dec_u64(&fields[4]) {
            Some(v) => v,
            None => {
                return Err(());
            },
        };
        let data_length = match parse_dec_u8(&fields[5]) {
            Some(v) => v,
            None => {
                return Err(());
            },
        };
        let data: String = if fields.len() == 7 {
            assert(fields[6]@ =~= f[6]);
            if fields[6].len() > 0 && parse_hex_u64(&fields[6]).is_none() {
                return Err(());
            }
            chars_to_string(&fields[6])
        } else {
            String::new()
        };
        let t = Transaction {
            action,
            initiator: chars_to_string(&fields[1]),
            target,
            address: chars_to_string(&fields[3]),
            sim_time,
            data_length,
            data,
        };
        Ok(t)
    }
}

/// The canonical text line of a transaction: its seven fields joined
/// by `;` in wire order.
pub open spec fn spec_canonical_line(t: Transaction) -> Seq<char> {
    seq![if t.action == TransactionCmd::Read { 'R' } else { 'W' }] + seq![';'] + t.initiator@
        + seq![';'] + spec_dec_chars(t.target as nat) + seq![';'] + t.address@ + seq![';']
        + spec_dec_chars(t.sim_time as nat) + seq![';'] + spec_dec_chars(t.data_length as nat)
        + seq![';'] + t.data@
}

/// Hexadecimal digits are neither separators nor newlines.
proof fn lemma_hex_no_sep(f: Seq<char>)
    requires
        spec_all_hex_digits(f),
    ensures
        forall|i: int| 0 <= i < f.len() ==> f[i] != ';' && f[i] != '\n',
{
}

/// Decimal numerals are free of separators and newlines.
proof fn lemma_dec_chars_no_sep(n: nat)
    ensures
        forall|i: int|
            0 <= i < spec_dec_chars(n).len() ==> spec_dec_chars(n)[i] != ';'
                && spec_dec_chars(n)[i] != '\n',
{
    lemma_dec_chars_digits(n);
}

/// Law: a serializable transaction whose initiator holds no separator
/// or newline parses back from its canonical text line, and its binary
/// frame is exactly 28 bytes with the fixed little-endian field
/// layout — sim_time at offsets 0..8, the action byte at 8, the last
/// initiator character at 9, the target at 10, the address value at
/// 11..19, the data length at 19, and the data value at 20..28.
pub proof fn lemma_transaction_round_trip(t: Transaction)
    requires
        spec_valid_transaction(t),
        forall|i: int|
            0 <= i < t.initiator@.len() ==> t.initiator@[i] != ';' && t.initiator@[i] != '\n',
    ensures
        spec_transaction_line_ok(spec_canonical_line(t)),
        spec_line_transaction(spec_canonical_line(t), t),
        spec_transaction_bytes(t).len() == 28,
        spec_transaction_bytes(t).subrange(0, 8) == vstd::bytes::spec_u64_to_le_bytes(
            t.sim_time,
        ),
        spec_transaction_bytes(t)[8] == spec_cmd_byte(t.action),
        spec_transaction_bytes(t)[9] == ((t.initiator@.last() as u32) % 256) as u8,
        spec_transaction_bytes(t)[10] == t.target,
        spec_transaction_bytes(t).subrange(11, 19) == vstd::bytes::spec_u64_to_le_bytes(
            spec_hex_nat(t.address@) as u64,
        ),
        spec_transaction_bytes(t)[19] == t.data_length,
        spec_transaction_bytes(t).subrange(20, 28) == vstd::bytes::spec_u64_to_le_bytes(
            spec_hex_nat(t.data@) as u64,
        ),
{
    let line = spec_canonical_line(t);
    let cmd_field = seq![if t.action == TransactionCmd::Read { 'R' } else { 'W' }];
    let f1 = t.initiator@;
    let f2 = spec_dec_chars(t.target as nat);
    let f3 = t.address@;
    let f4 = spec_dec_chars(t.sim_time as nat);
    let f5 = spec_dec_chars(t.data_length as nat);
    let f6 = t.data@;

    lemma_dec_chars_digits(t.target as nat);
    lemma_dec_chars_digits(t.sim_time as nat);
    lemma_dec_chars_digits(t.data_length as nat);
    lemma_dec_chars_no_sep(t.target as nat);
    lemma_dec_chars_no_sep(t.sim_time as nat);
    lemma_dec_chars_no_sep(t.data_length as nat);
    lemma_dec_chars_value(t.target as nat);
    lemma_dec_chars_value(t.sim_time as nat);
    lemma_dec_chars_value(t.data_length as nat);
    lemma_hex_no_sep(f3);
    if f6.len() > 0 {
        lemma_hex_no_sep(f6);
    }

    // the line ends in the data field or in the final separator, never
    // in a newline, so trimming leaves it unchanged
    assert(line.len() > 0);
    assert(line.last() != '\n') by {
        if f6.len() > 0 {
            assert(line.last() == f6.last());
        } else {
            assert(line.last() == ';');
        }
    }
    assert(spec_trim_newlines(line) == line);

    // splitting the joined fields gives back the seven fields
    lemma_split_single(cmd_field, ';');
    let s1 = cmd_field + seq![';'] + f1;
    lemma_split_append(cmd_field, f1, ';');
    let s2 = s1 + seq![';'] + f2;
    lemma_split_append(s1, f2, ';');
    let s3 = s2 + seq![';'] + f3;
    lemma_split_append(s2, f3, ';');
    let s4 = s3 + seq![';'] + f4;
    lemma_split_append(s3, f4, ';');
    let s5 = s4 + seq![';'] + f5;
    lemma_split_append(s4, f5, ';');
    let s6 = s5 + seq![';'] + f6;
    lemma_split_append(s5, f6, ';');
    assert(line =~= s6);
    let fields = spec_split(line, ';');
    assert(fields =~~= seq![cmd_field, f1, f2, f3, f4, f5, f6]);
    assert(spec_line_fields(line) == fields);
    assert(fields.len() == 7);
    assert(fields[0] == cmd_field);
    assert(spec_parse_cmd(fields[0]) == Some(t.action)) by {
        if t.action == TransactionCmd::Read {
            assert(cmd_field =~= seq!['R']);
        } else {
            assert(cmd_field =~= seq!['W']);
            assert(cmd_field != seq!['R']) by {
                assert(cmd_field[0] == 'W');
            }
        }
    }
    assert(spec_transaction_line_ok(line));
    assert(spec_line_transaction(line, t));

    // the frame layout
    vstd::bytes::lemma_auto_spec_u64_to_from_le_bytes();
    let bytes = spec_transaction_bytes(t);
    assert(bytes.len() == 28);
    assert(spec_hex_nat(t.address@) % 0x1_0000_0000_0000_0000 == spec_hex_nat(t.address@));
    assert(spec_hex_nat(t.data@) % 0x1_0000_0000_0000_0000 == spec_hex_nat(t.data@));
    assert(bytes.subrange(0, 8) =~= vstd::bytes::spec_u64_to_le_bytes(t.sim_time));
    assert(bytes[8] == spec_cmd_byte(t.action));
    assert(bytes[9] == ((t.initiator@.last() as u32) % 256) as u8);
    assert(bytes[10] == t.target);
    assert(bytes.subrange(11, 19) =~= vstd::bytes::spec_u64_to_le_bytes(
        spec_hex_nat(t.address@) as u64,
    ));
    assert(bytes[19] == t.data_length);
    assert(bytes.subrange(20, 28) =~= vstd::bytes::spec_u64_to_le_bytes(
        spec_hex_nat(t.data@) as u64,
    ));
}

} // verus!
