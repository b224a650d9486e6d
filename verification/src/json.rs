//! Text codec for the UI control frames: a strict reader and writer
//! for the JSON object shape the control plane uses — an object whose
//! members are string-valued — with full string escaping.

use vstd::prelude::*;

use crate::command::{Command, GenericCommand, StartCommand};
use crate::hexnum::{hex_digit_val, spec_hex_val, spec_is_hex_digit};
use crate::text::{chars_to_string, eq_chars, str_to_chars};
use crate::virtual_prototype::VPLayout;

verus! {

/// JSON whitespace.
pub open spec fn spec_is_ws(c: char) -> bool {
    c == ' ' || c == '\t' || c == '\n' || c == '\r'
}

/// First position at or after `i` holding no whitespace.
pub open spec fn spec_skip_ws(s: Seq<char>, i: int) -> int
    decreases s.len() - i,
{
    if 0 <= i < s.len() && spec_is_ws(s[i]) {
        spec_skip_ws(s, i + 1)
    } else {
        i
    }
}

pub proof fn lemma_skip_ws_bounds(s: Seq<char>, i: int)
    requires
        0 <= i <= s.len(),
    ensures
        i <= spec_skip_ws(s, i) <= s.len(),
    decreases s.len() - i,
{
    if 0 <= i < s.len() && spec_is_ws(s[i]) {
        lemma_skip_ws_bounds(s, i + 1);
    }
}

/// The character named by a single-letter escape, if any.
pub open spec fn spec_unescape_char(c: char) -> Option<char> {
    if c == '"' {
        Some('"')
    } else if c == '\\' {
        Some('\\')
    } else if c == '/' {
        Some('/')
    } else if c == 'b' {
        Some('\u{8}')
    } else if c == 'f' {
        Some('\u{c}')
    } else if c == 'n' {
        Some('\n')
    } else if c == 'r' {
        Some('\r')
    } else if c == 't' {
        Some('\t')
    } else {
        None
    }
}

/// Value of the four hex digits of a `\u` escape, if they are hex
/// digits naming no surrogate.
pub open spec fn spec_u_escape(s: Seq<char>, i: int) -> Option<u32>
    recommends
        0 <= i && i + 4 <= s.len(),
{
    if spec_is_hex_digit(s[i]) && spec_is_hex_digit(s[i + 1]) && spec_is_hex_digit(s[i + 2])
        && spec_is_hex_digit(s[i + 3]) {
        let v = (spec_hex_val(s[i]) * 0x1000 + spec_hex_val(s[i + 1]) * 0x100 + spec_hex_val(
            s[i + 2],
        ) * 0x10 + spec_hex_val(s[i + 3])) as u32;
        if 0xD800 <= v < 0xE000 {
            None
        } else {
            Some(v)
        }
    } else {
        None
    }
}

/// Reads a string body starting just after the opening quote at
/// position `i`: the decoded characters and the position just after
/// the closing quote, or nothing if the text is not a well-formed
/// string there.
pub open spec fn spec_parse_string_body(s: Seq<char>, i: int) -> Option<(Seq<char>, int)>
    decreases s.len() - i,
{
    if i < 0 || i >= s.len() {
        None
    } else if s[i] == '"' {
        Some((Seq::<char>::empty(), i + 1))
    } else if s[i] == '\\' {
        if i + 1 < s.len() {
            if s[i + 1] == 'u' {
                if i + 6 <= s.len() {
                    match spec_u_escape(s, i + 2) {
                        Some(v) => match spec_parse_string_body(s, i + 6) {
                            Some((rest, j)) => Some((seq![v as char] + rest, j)),
                            None => None,
                        },
                        None => None,
                    }
                } else {
                    None
                }
            } else {
                match spec_unescape_char(s[i + 1]) {
                    Some(c) => match spec_parse_string_body(s, i + 2) {
                        Some((rest, j)) => Some((seq![c] + rest, j)),
                        None => None,
                    },
                    None => None,
                }
            }
        } else {
            None
        }
    } else if (s[i] as u32) < 32 {
        None
    } else {
        match spec_parse_string_body(s, i + 1) {
            Some((rest, j)) => Some((seq![s[i]] + rest, j)),
            None => None,
        }
    }
}

pub proof fn lemma_string_body_bounds(s: Seq<char>, i: int)
    requires
        spec_parse_string_body(s, i) is Some,
    ensures
        i < (spec_parse_string_body(s, i)->0).1 <= s.len(),
    decreases s.len() - i,
{
    if 0 <= i < s.len() {
        if s[i] == '"' {
        } else if s[i] == '\\' {
            if i + 1 < s.len() {
                if s[i + 1] == 'u' {
                    if i + 6 <= s.len() && spec_u_escape(s, i + 2) is Some
                        && spec_parse_string_body(s, i + 6) is Some {
                        lemma_string_body_bounds(s, i + 6);
                    }
                } else {
                    if spec_unescape_char(s[i + 1]) is Some && spec_parse_string_body(s, i + 2)
                        is Some {
                        lemma_string_body_bounds(s, i + 2);
                    }
                }
            }
        } else if (s[i] as u32) >= 32 {
            if spec_parse_string_body(s, i + 1) is Some {
                lemma_string_body_bounds(s, i + 1);
            }
        }
    }
}

/// Reads a member list starting at the opening quote of the first key
/// at position `i`: the key/value pairs and the position of the first
/// character after the last value (whitespace skipped), or nothing.
pub open spec fn spec_parse_members(s: Seq<char>, i: int) -> Option<
    (Seq<(Seq<char>, Seq<char>)>, int),
>
    decreases s.len() - i,
    when 0 <= i <= s.len()
    via spec_parse_members_dec
{
    if i < s.len() && s[i] == '"' {
        match spec_parse_string_body(s, i + 1) {
            Some((key, j)) => {
                let j2 = spec_skip_ws(s, j);
                if j2 < s.len() && s[j2] == ':' {
                    let j3 = spec_skip_ws(s, j2 + 1);
                    if j3 < s.len() && s[j3] == '"' {
                        match spec_parse_string_body(s, j3 + 1) {
                            Some((val, j4)) => {
                                let j5 = spec_skip_ws(s, j4);
                                if j5 < s.len() && s[j5] == ',' {
                                    let j6 = spec_skip_ws(s, j5 + 1);
                                    match spec_parse_members(s, j6) {
                                        Some((rest, j7)) => Some(
                                            (seq![(key, val)] + rest, j7),
                                        ),
                                        None => None,
                                    }
                                } else {
                                    Some((seq![(key, val)], j5))
                                }
                            },
                            None => None,
                        }
                    } else {
                        None
                    }
                } else {
                    None
                }
            },
            None => None,
        }
    } else {
        None
    }
}

#[via_fn]
proof fn spec_parse_members_dec(s: Seq<char>, i: int) {
    if i < s.len() && s[i] == '"' {
        if spec_parse_string_body(s, i + 1) is Some {
            let (key, j) = spec_parse_string_body(s, i + 1)->0;
            lemma_string_body_bounds(s, i + 1);
            let j2 = spec_skip_ws(s, j);
            lemma_skip_ws_bounds(s, j);
            if j2 < s.len() && s[j2] == ':' {
                let j3 = spec_skip_ws(s, j2 + 1);
                lemma_skip_ws_bounds(s, j2 + 1);
                if j3 < s.len() && s[j3] == '"' {
                    if spec_parse_string_body(s, j3 + 1) is Some {
                        let (val, j4) = spec_parse_string_body(s, j3 + 1)->0;
                        lemma_string_body_bounds(s, j3 + 1);
                        let j5 = spec_skip_ws(s, j4);
                        lemma_skip_ws_bounds(s, j4);
                        if j5 < s.len() && s[j5] == ',' {
                            let j6 = spec_skip_ws(s, j5 + 1);
                            lemma_skip_ws_bounds(s, j5 + 1);
                        }
                    }
                }
            }
        }
    }
}


/// Reads a whole text as one object of string-valued members: the
/// key/value pairs in order, or nothing if the text is not such an
/// object. Whitespace is allowed around punctuation; nothing may
/// follow the closing brace.
pub open spec fn spec_parse_object(s: Seq<char>) -> Option<Seq<(Seq<char>, Seq<char>)>> {
    let i = spec_skip_ws(s, 0);
    if i < s.len() && s[i] == '{' {
        let j = spec_skip_ws(s, i + 1);
        if j < s.len() && s[j] == '}' {
            if spec_skip_ws(s, j + 1) == s.len() {
                Some(Seq::<(Seq<char>, Seq<char>)>::empty())
            } else {
                None
            }
        } else {
            match spec_parse_members(s, j) {
                Some((ms, k)) => {
                    if k < s.len() && s[k] == '}' && spec_skip_ws(s, k + 1) == s.len() {
                        Some(ms)
                    } else {
                        None
                    }
                },
                None => None,
            }
        }
    } else {
        None
    }
}

/// Advances past whitespace.
fn skip_ws(s: &Vec<char>, i: usize) -> (r: usize)
    requires
        i <= s@.len(),
    ensures
        r == spec_skip_ws(s@, i as int),
        i <= r <= s@.len(),
{
    let mut j = i;
    while j < s.len() && (s[j] == ' ' || s[j] == '\t' || s[j] == '\n' || s[j] == '\r')
        invariant
            i <= j <= s@.len(),
            spec_skip_ws(s@, i as int) == spec_skip_ws(s@, j as int),
        decreases s@.len() - j,
    {
        j = j + 1;
    }
    j
}

/// Reads a string body starting just after an opening quote.
fn parse_string_body(s: &Vec<char>, i: usize) -> (r: Option<(Vec<char>, usize)>)
    requires
        i <= s@.len(),
    ensures
        r is Some <==> spec_parse_string_body(s@, i as int) is Some,
        r is Some ==> {
            let (v, j) = spec_parse_string_body(s@, i as int)->0;
            (r->0).0@ == v && (r->0).1 == j && i < j <= s@.len()
        },
{
    let ghost i0 = i as int;
    let mut acc: Vec<char> = Vec::new();
    let mut p = i;
    let mut ok = true;
    let mut done = false;
    while !done
        invariant
            i <= p <= s@.len(),
            !done ==> ok,
            !done ==> spec_parse_string_body(s@, i0) == (match spec_parse_string_body(
                s@,
                p as int,
            ) {
                Some((v, j)) => Some((acc@ + v, j)),
                None => None::<(Seq<char>, int)>,
            }),
            done && ok ==> spec_parse_string_body(s@, i0) == Some((acc@, p as int)),
            done && !ok ==> spec_parse_string_body(s@, i0) is None,
        decreases s@.len() - p, (if done { 0int } else { 1int }),
    {
        if p >= s.len() {
            proof {
                assert(spec_parse_string_body(s@, p as int) is None);
            }
            ok = false;
            done = true;
        } else {
            let c = s[p];
            if c == '"' {
                proof {
                    assert(spec_parse_string_body(s@, p as int) == Some(
                        (Seq::<char>::empty(), p + 1 as int),
                    ));
                    assert(acc@ + Seq::<char>::empty() =~= acc@);
                }
                p = p + 1;
                done = true;
            } else if c == '\\' {
                if p + 1 >= s.len() {
                    proof {
                        assert(spec_parse_string_body(s@, p as int) is None);
                    }
                    ok = false;
                    done = true;
                } else {
                    let e = s[p + 1];
                    if e == 'u' {
                        if s.len() - p < 6 {
                            proof {
                                assert(spec_parse_string_body(s@, p as int) is None);
                            }
                            ok = false;
                            done = true;
                        } else {
                            let d0 = hex_digit_val(s[p + 2]);
                            let d1 = hex_digit_val(s[p + 3]);
                            let d2 = hex_digit_val(s[p + 4]);
                            let d3 = hex_digit_val(s[p + 5]);
                            match (d0, d1, d2, d3) {
                                (Some(a), Some(b), Some(cc), Some(d)) => {
                                    let v: u32 = (a as u32) * 0x1000 + (b as u32) * 0x100 + (
                                    cc as u32) * 0x10 + (d as u32);
                                    if 0xD800 <= v && v < 0xE000 {
                                        proof {
                                            assert(spec_u_escape(s@, p + 2) is None);
                                            assert(spec_parse_string_body(s@, p as int)
                                                is None);
                                        }
                                        ok = false;
                                        done = true;
                                    } else {
                                        assert(spec_u_escape(s@, p + 2) == Some(v));
                                        let ch = char_from_scalar(v);
                                        let ghost prev = acc@;
                                        acc.push(ch);
                                        proof {
                                            let spn = spec_parse_string_body(s@, p + 6);
                                            if spn is Some {
                                                let rest = (spn->0).0;
                                                assert(prev + (seq![ch] + rest) =~= acc@
                                                    + rest);
                                            }
                                        }
                                        p = p + 6;
                                    }
                                },
                                _ => {
                                    proof {
                                        assert(spec_u_escape(s@, p + 2) is None);
                                        assert(spec_parse_string_body(s@, p as int) is None);
                                    }
                                    ok = false;
                                    done = true;
                                },
                            }
                        }
                    } else {
                        match hex_unescape_char(e) {
                            Some(dec) => {
                                let ghost prev = acc@;
                                acc.push(dec);
                                proof {
                                    let spn = spec_parse_string_body(s@, p + 2);
                                    if spn is Some {
                                        let rest = (spn->0).0;
                                        assert(prev + (seq![dec] + rest) =~= acc@ + rest);
                                    }
                                }
                                p = p + 2;
                            },
                            None => {
                                proof {
                                    assert(spec_parse_string_body(s@, p as int) is None);
                                }
                                ok = false;
                                done = true;
                            },
                        }
                    }
                }
            } else if (c as u32) < 32 {
                proof {
                    assert(spec_parse_string_body(s@, p as int) is None);
                }
                ok = false;
                done = true;
            } else {
                let ghost prev = acc@;
                acc.push(c);
                proof {
                    let spn = spec_parse_string_body(s@, p + 1);
                    if spn is Some {
                        let rest = (spn->0).0;
                        assert(prev + (seq![c] + rest) =~= acc@ + rest);
                    }
                }
                p = p + 1;
            }
        }
    }
    if ok {
        proof {
            lemma_string_body_bounds(s@, i0);
        }
        Some((acc, p))
    } else {
        None
    }
}

/// Decodes one single-letter escape.
fn hex_unescape_char(c: char) -> (r: Option<char>)
    ensures
        r == spec_unescape_char(c),
{
    if c == '"' {
        Some('"')
    } else if c == '\\' {
        Some('\\')
    } else if c == '/' {
        Some('/')
    } else if c == 'b' {
        Some('\u{8}')
    } else if c == 'f' {
        Some('\u{c}')
    } else if c == 'n' {
        Some('\n')
    } else if c == 'r' {
        Some('\r')
    } else if c == 't' {
        Some('\t')
    } else {
        None
    }
}

/// Relies on `char::from_u32`: a scalar value below the surrogate
/// range converts to the character with that value.
#[verifier::external_body]
fn char_from_scalar(v: u32) -> (r: char)
    requires
        v < 0xD800 || (0xE000 <= v && v <= 0x10FFFF),
    ensures
        r == (v as char),
{
    char::from_u32(v).unwrap_or(' ')
}

/// Reads a member list, mirroring [`spec_parse_members`].
fn parse_members(s: &Vec<char>, i: usize) -> (r: Option<(Vec<(Vec<char>, Vec<char>)>, usize)>)
    requires
        i <= s@.len(),
    ensures
        r is Some <==> spec_parse_members(s@, i as int) is Some,
        r is Some ==> {
            let (ms, k) = spec_parse_members(s@, i as int)->0;
            &&& (r->0).1 == k
            &&& i < k <= s@.len()
            &&& (r->0).0@.len() == ms.len()
            &&& forall|t: int|
                0 <= t < ms.len() ==> ((r->0).0@[t].0@ == ms[t].0 && (r->0).0@[t].1@
                    == ms[t].1)
        },
    decreases s@.len() - i,
{
    if !(i < s.len() && s[i] == '"') {
        return None;
    }
    let (key, j) = match parse_string_body(s, i + 1) {
        Some(kj) => kj,
        None => {
            return None;
        },
    };
    let j2 = skip_ws(s, j);
    if !(j2 < s.len() && s[j2] == ':') {
        return None;
    }
    let j3 = skip_ws(s, j2 + 1);
    if !(j3 < s.len() && s[j3] == '"') {
        return None;
    }
    let (val, j4) = match parse_string_body(s, j3 + 1) {
        Some(vj) => vj,
        None => {
            return None;
        },
    };
    let j5 = skip_ws(s, j4);
    if j5 < s.len() && s[j5] == ',' {
        let j6 = skip_ws(s, j5 + 1);
        match parse_members(s, j6) {
            Some((rest, j7)) => {
                let mut out: Vec<(Vec<char>, Vec<char>)> = Vec::new();
                out.push((key, val));
                let mut rest = rest;
                let ghost rest_snap = rest@;
                out.append(&mut rest);
                proof {
                    let (ms, k) = spec_parse_members(s@, i as int)->0;
                    assert(out@.len() == ms.len());
                    assert forall|t: int| 0 <= t < ms.len() implies (out@[t].0@ == ms[t].0
                        && out@[t].1@ == ms[t].1) by {
                        if t > 0 {
                            assert(out@[t] == rest_snap[t - 1]);
                        }
                    }
                }
                Some((out, j7))
            },
            None => None,
        }
    } else {
        let mut out: Vec<(Vec<char>, Vec<char>)> = Vec::new();
        out.push((key, val));
        Some((out, j5))
    }
}

/// Reads a whole text as one object of string-valued members,
/// mirroring [`spec_parse_object`].
pub fn parse_object(s: &Vec<char>) -> (r: Option<Vec<(Vec<char>, Vec<char>)>>)
    ensures
        r is Some <==> spec_parse_object(s@) is Some,
        r is Some ==> {
            let ms = spec_parse_object(s@)->0;
            &&& r->0@.len() == ms.len()
            &&& forall|t: int|
                0 <= t < ms.len() ==> (r->0@[t].0@ == ms[t].0 && r->0@[t].1@ == ms[t].1)
        },
{
    let i = skip_ws(s, 0);
    if !(i < s.len() && s[i] == '{') {
        return None;
    }
    let j = skip_ws(s, i + 1);
    if j < s.len() && s[j] == '}' {
        if skip_ws(s, j + 1) == s.len() {
            let out: Vec<(Vec<char>, Vec<char>)> = Vec::new();
            return Some(out);
        }
        return None;
    }
    match parse_members(s, j) {
        Some((ms, k)) => {
            if k < s.len() && s[k] == '}' && skip_ws(s, k + 1) == s.len() {
                Some(ms)
            } else {
                None
            }
        },
        None => None,
    }
}

/// How many members carry this key.
pub open spec fn spec_key_count(ms: Seq<(Seq<char>, Seq<char>)>, key: Seq<char>) -> nat
    decreases ms.len(),
{
    if ms.len() == 0 {
        0
    } else {
        spec_key_count(ms.drop_last(), key) + if ms.last().0 == key {
            1nat
        } else {
            0nat
        }
    }
}

/// Value of the first member carrying this key (empty if none does).
pub open spec fn spec_key_first(ms: Seq<(Seq<char>, Seq<char>)>, key: Seq<char>) -> Seq<char>
    decreases ms.len(),
{
    if ms.len() == 0 {
        Seq::<char>::empty()
    } else if spec_key_count(ms.drop_last(), key) > 0 {
        spec_key_first(ms.drop_last(), key)
    } else if ms.last().0 == key {
        ms.last().1
    } else {
        Seq::<char>::empty()
    }
}

/// The value of the member carrying this key, provided exactly one
/// does.
fn get_unique(
    ms: &Vec<(Vec<char>, Vec<char>)>,
    key: &Vec<char>,
    gms: Ghost<Seq<(Seq<char>, Seq<char>)>>,
) -> (r: Option<Vec<char>>)
    requires
        ms@.len() == gms@.len(),
        forall|t: int|
            0 <= t < gms@.len() ==> (ms@[t].0@ == gms@[t].0 && ms@[t].1@ == gms@[t].1),
    ensures
        r is Some <==> spec_key_count(gms@, key@) == 1,
        r is Some ==> r->0@ == spec_key_first(gms@, key@),
{
    let ghost gms = gms@;
    let mut cnt: usize = 0;
    let mut found: Option<Vec<char>> = None;
    let mut i: usize = 0;
    while i < ms.len()
        invariant
            0 <= i <= ms@.len() == gms.len(),
            forall|t: int|
                0 <= t < gms.len() ==> (ms@[t].0@ == gms[t].0 && ms@[t].1@ == gms[t].1),
            cnt == spec_key_count(gms.take(i as int), key@),
            cnt <= i,
            cnt > 0 <==> found is Some,
            found is Some ==> found->0@ == spec_key_first(gms.take(i as int), key@),
        decreases ms@.len() - i,
    {
        proof {
            assert(gms.take(i + 1).drop_last() =~= gms.take(i as int));
            assert(gms.take(i + 1).last() == gms[i as int]);
        }
        if eq_chars(&ms[i].0, key) {
            assert(gms[i as int].0 == key@);
            if cnt == 0 {
                let mut copy: Vec<char> = Vec::new();
                let src = &ms[i].1;
                let mut t: usize = 0;
                while t < src.len()
                    invariant
                        0 <= t <= src@.len(),
                        copy@ =~= src@.take(t as int),
                    decreases src@.len() - t,
                {
                    copy.push(src[t]);
                    assert(copy@ =~= src@.take(t + 1));
                    t = t + 1;
                }
                proof {
                    assert(src@.take(src@.len() as int) =~= src@);
                }
                found = Some(copy);
            }
            cnt = cnt + 1;
        } else {
            assert(gms[i as int].0 != key@);
        }
        i = i + 1;
    }
    proof {
        assert(gms.take(gms.len() as int) =~= gms);
    }
    if cnt == 1 {
        found
    } else {
        None
    }
}

/// The command kind named by a member value.
pub open spec fn spec_command_of_name(n: Seq<char>) -> Option<Command> {
    if n == "Start"@ {
        Some(Command::Start)
    } else if n == "Status"@ {
        Some(Command::Status)
    } else if n == "Step"@ {
        Some(Command::Step)
    } else if n == "Options"@ {
        Some(Command::Options)
    } else {
        None
    }
}

/// Wire name of a command kind.
pub open spec fn spec_cmd_name(c: Command) -> Seq<char> {
    match c {
        Command::Start => "Start"@,
        Command::Status => "Status"@,
        Command::Step => "Step"@,
        Command::Options => "Options"@,
    }
}

/// The control message denoted by an inbound text frame, if it is an
/// object with exactly one `command` member naming a kind and exactly
/// one `value` member.
pub open spec fn spec_decode_generic(s: Seq<char>) -> Option<(Command, Seq<char>)> {
    match spec_parse_object(s) {
        Some(ms) => {
            if spec_key_count(ms, "command"@) == 1 && spec_key_count(ms, "value"@) == 1 {
                match spec_command_of_name(spec_key_first(ms, "command"@)) {
                    Some(c) => Some((c, spec_key_first(ms, "value"@))),
                    None => None,
                }
            } else {
                None
            }
        },
        None => None,
    }
}

/// Parses an inbound UI text frame into a control message.
pub fn decode_generic(s: &str) -> (r: Option<GenericCommand>)
    ensures
        r is Some <==> spec_decode_generic(s@) is Some,
        r is Some ==> {
            let (c, v) = spec_decode_generic(s@)->0;
            r->0.command == c && r->0.value@ == v
        },
{
    let chars = str_to_chars(s);
    let ms = match parse_object(&chars) {
        Some(ms) => ms,
        None => {
            return None;
        },
    };
    let ghost gms = spec_parse_object(s@)->0;
    let cmd_key = str_to_chars("command");
    let val_key = str_to_chars("value");
    let cmd_name = match get_unique(&ms, &cmd_key, Ghost(gms)) {
        Some(n) => n,
        None => {
            return None;
        },
    };
    let value = match get_unique(&ms, &val_key, Ghost(gms)) {
        Some(v) => v,
        None => {
            return None;
        },
    };
    let command = if eq_chars(&cmd_name, &str_to_chars("Start")) {
        Command::Start
    } else if eq_chars(&cmd_name, &str_to_chars("Status")) {
        Command::Status
    } else if eq_chars(&cmd_name, &str_to_chars("Step")) {
        Command::Step
    } else if eq_chars(&cmd_name, &str_to_chars("Options")) {
        Command::Options
    } else {
        return None;
    };
    Some(GenericCommand { command, value: chars_to_string(&value) })
}

/// The start request denoted by a `Start` payload, if it is an object
/// with exactly one member for each of `vp`, `proj`, `args` and
/// `gdb_arch`.
pub open spec fn spec_decode_start(s: Seq<char>) -> Option<(Seq<char>, Seq<char>, Seq<char>, Seq<char>)> {
    match spec_parse_object(s) {
        Some(ms) => {
            if spec_key_count(ms, "vp"@) == 1 && spec_key_count(ms, "proj"@) == 1
                && spec_key_count(ms, "args"@) == 1 && spec_key_count(ms, "gdb_arch"@) == 1 {
                Some(
                    (
                        spec_key_first(ms, "vp"@),
                        spec_key_first(ms, "proj"@),
                        spec_key_first(ms, "args"@),
                        spec_key_first(ms, "gdb_arch"@),
                    ),
                )
            } else {
                None
            }
        },
        None => None,
    }
}

/// Parses a `Start` payload into a start request.
pub fn decode_start_command(s: &str) -> (r: Option<StartCommand>)
    ensures
        r is Some <==> spec_decode_start(s@) is Some,
        r is Some ==> {
            let (vp, proj, args, gdb_arch) = spec_decode_start(s@)->0;
            &&& r->0.vp@ == vp
            &&& r->0.proj@ == proj
            &&& r->0.args@ == args
            &&& r->0.gdb_arch@ == gdb_arch
        },
{
    let chars = str_to_chars(s);
    let ms = match parse_object(&chars) {
        Some(ms) => ms,
        None => {
            return None;
        },
    };
    let ghost gms = spec_parse_object(s@)->0;
    let vp = match get_unique(&ms, &str_to_chars("vp"), Ghost(gms)) {
        Some(v) => v,
        None => {
            return None;
        },
    };
    let proj = match get_unique(&ms, &str_to_chars("proj"), Ghost(gms)) {
        Some(v) => v,
        None => {
            return None;
        },
    };
    let args = match get_unique(&ms, &str_to_chars("args"), Ghost(gms)) {
        Some(v) => v,
        None => {
            return None;
        },
    };
    let gdb_arch = match get_unique(&ms, &str_to_chars("gdb_arch"), Ghost(gms)) {
        Some(v) => v,
        None => {
            return None;
        },
    };
    Some(
        StartCommand {
            vp: chars_to_string(&vp),
            proj: chars_to_string(&proj),
            args: chars_to_string(&args),
            gdb_arch: chars_to_string(&gdb_arch),
        },
    )
}

/// Lowercase hexadecimal digit character of a value below sixteen.
pub open spec fn spec_hex_digit_lower(d: nat) -> char {
    if d == 0 { '0' } else if d == 1 { '1' } else if d == 2 { '2' } else if d == 3 { '3' }
    else if d == 4 { '4' } else if d == 5 { '5' } else if d == 6 { '6' } else if d == 7 { '7' }
    else if d == 8 { '8' } else if d == 9 { '9' } else if d == 10 { 'a' } else if d == 11 { 'b' }
    else if d == 12 { 'c' } else if d == 13 { 'd' } else if d == 14 { 'e' } else { 'f' }
}

fn hex_digit_lower(d: u8) -> (r: char)
    requires
        d < 16,
    ensures
        r == spec_hex_digit_lower(d as nat),
{
    if d == 0 { '0' } else if d == 1 { '1' } else if d == 2 { '2' } else if d == 3 { '3' }
    else if d == 4 { '4' } else if d == 5 { '5' } else if d == 6 { '6' } else if d == 7 { '7' }
    else if d == 8 { '8' } else if d == 9 { '9' } else if d == 10 { 'a' } else if d == 11 { 'b' }
    else if d == 12 { 'c' } else if d == 13 { 'd' } else if d == 14 { 'e' } else { 'f' }
}

/// Escape of one character in a JSON string: quote and backslash get a
/// backslash escape, the named control characters their letter form,
/// other control characters the `\u00xx` form, everything else stands
/// as itself.
pub open spec fn spec_escape_char(c: char) -> Seq<char> {
    if c == '"' {
        seq!['\\', '"']
    } else if c == '\\' {
        seq!['\\', '\\']
    } else if c == '\u{8}' {
        seq!['\\', 'b']
    } else if c == '\u{c}' {
        seq!['\\', 'f']
    } else if c == '\n' {
        seq!['\\', 'n']
    } else if c == '\r' {
        seq!['\\', 'r']
    } else if c == '\t' {
        seq!['\\', 't']
    } else if (c as u32) < 32 {
        seq!['\\', 'u', '0', '0', spec_hex_digit_lower((c as u32 / 16) as nat),
            spec_hex_digit_lower((c as u32 % 16) as nat)]
    } else {
        seq![c]
    }
}

/// Escape of a whole string body.
pub open spec fn spec_escape(s: Seq<char>) -> Seq<char>
    decreases s.len(),
{
    if s.len() == 0 {
        Seq::<char>::empty()
    } else {
        spec_escape(s.drop_last()) + spec_escape_char(s.last())
    }
}

/// A JSON string literal: quoted escaped body.
pub open spec fn spec_json_string(s: Seq<char>) -> Seq<char> {
    seq!['"'] + spec_escape(s) + seq!['"']
}

/// Appends the JSON string literal of `s`.
fn write_json_string(out: &mut Vec<char>, s: &Vec<char>)
    ensures
        final(out)@ == old(out)@ + spec_json_string(s@),
{
    let ghost start = out@;
    out.push('"');
    let mut i: usize = 0;
    while i < s.len()
        invariant
            0 <= i <= s@.len(),
            out@ =~= start + seq!['"'] + spec_escape(s@.take(i as int)),
        decreases s@.len() - i,
    {
        let c = s[i];
        proof {
            assert(s@.take(i + 1).drop_last() =~= s@.take(i as int));
            assert(s@.take(i + 1).last() == s@[i as int]);
        }
        if c == '"' {
            out.push('\\');
            out.push('"');
        } else if c == '\\' {
            out.push('\\');
            out.push('\\');
        } else if c == '\u{8}' {
            out.push('\\');
            out.push('b');
        } else if c == '\u{c}' {
            out.push('\\');
            out.push('f');
        } else if c == '\n' {
            out.push('\\');
            out.push('n');
        } else if c == '\r' {
            out.push('\\');
            out.push('r');
        } else if c == '\t' {
            out.push('\\');
            out.push('t');
        } else if (c as u32) < 32 {
            let v = c as u32;
            out.push('\\');
            out.push('u');
            out.push('0');
            out.push('0');
            out.push(hex_digit_lower((v / 16) as u8));
            out.push(hex_digit_lower((v % 16) as u8));
        } else {
            out.push(c);
        }
        proof {
            assert(out@ =~= start + seq!['"'] + spec_escape(s@.take(i + 1)));
        }
        i = i + 1;
    }
    proof {
        assert(s@.take(s@.len() as int) =~= s@);
    }
    out.push('"');
    proof {
        assert(out@ =~= start + spec_json_string(s@));
    }
}

/// Items of a JSON array of string literals, comma-separated.
pub open spec fn spec_array_items(elems: Seq<Seq<char>>) -> Seq<char>
    decreases elems.len(),
{
    if elems.len() == 0 {
        Seq::<char>::empty()
    } else if elems.len() == 1 {
        spec_json_string(elems.last())
    } else {
        spec_array_items(elems.drop_last()) + seq![','] + spec_json_string(elems.last())
    }
}

/// A JSON array of string literals.
pub open spec fn spec_json_array(elems: Seq<Seq<char>>) -> Seq<char> {
    seq!['['] + spec_array_items(elems) + seq![']']
}

/// Appends the JSON array of the given strings.
pub fn write_json_array(out: &mut Vec<char>, elems: &Vec<String>)
    ensures
        final(out)@ == old(out)@ + spec_json_array(elems.deep_view()),
{
    let ghost start = out@;
    out.push('[');
    let mut i: usize = 0;
    while i < elems.len()
        invariant
            0 <= i <= elems@.len(),
            out@ =~= start + seq!['['] + spec_array_items(elems.deep_view().take(i as int)),
        decreases elems@.len() - i,
    {
        if i > 0 {
            out.push(',');
        }
        let chars = str_to_chars(elems[i].as_str());
        proof {
            assert(chars@ == elems.deep_view()[i as int]);
        }
        write_json_string(out, &chars);
        proof {
            assert(elems.deep_view().take(i + 1).drop_last() =~= elems.deep_view().take(
                i as int,
            ));
            assert(elems.deep_view().take(i + 1).last() == elems.deep_view()[i as int]);
            assert(out@ =~= start + seq!['['] + spec_array_items(
                elems.deep_view().take(i + 1),
            ));
        }
        i = i + 1;
    }
    proof {
        assert(elems.deep_view().take(elems.deep_view().len() as int) =~= elems.deep_view());
    }
    out.push(']');
    proof {
        assert(out@ =~= start + spec_json_array(elems.deep_view()));
    }
}

/// The outbound text frame of a control message.
pub open spec fn spec_encode_generic(c: Command, v: Seq<char>) -> Seq<char> {
    "{\"command\":\""@ + spec_cmd_name(c) + "\",\"value\":"@ + spec_json_string(v) + "}"@
}

/// Serializes a control message to its outbound text frame.
pub fn encode_generic(cmd: &GenericCommand) -> (r: String)
    ensures
        r@ == spec_encode_generic(cmd.command, cmd.value@),
{
    let mut out: Vec<char> = Vec::new();
    let mut head = str_to_chars("{\"command\":\"");
    out.append(&mut head);
    let mut name = match cmd.command {
        Command::Start => str_to_chars("Start"),
        Command::Status => str_to_chars("Status"),
        Command::Step => str_to_chars("Step"),
        Command::Options => str_to_chars("Options"),
    };
    out.append(&mut name);
    let mut mid = str_to_chars("\",\"value\":");
    out.append(&mut mid);
    let value_chars = str_to_chars(cmd.value.as_str());
    write_json_string(&mut out, &value_chars);
    out.push('}');
    proof {
        reveal_strlit("}");
        assert("}"@ =~= seq!['}']);
        assert(out@ =~= spec_encode_generic(cmd.command, cmd.value@));
    }
    chars_to_string(&out)
}

/// The outbound text frame of the bus layout.
pub open spec fn spec_encode_layout(l: VPLayout) -> Seq<char> {
    "{\"modules\":"@ + spec_json_array(l.modules.deep_view()) + ",\"start_addrs\":"@
        + spec_json_array(l.start_addrs.deep_view()) + ",\"end_addrs\":"@ + spec_json_array(
        l.end_addrs.deep_view(),
    ) + "}"@
}

/// Serializes the bus layout to its outbound text frame.
pub fn encode_layout(l: &VPLayout) -> (r: String)
    ensures
        r@ == spec_encode_layout(*l),
{
    let mut out: Vec<char> = Vec::new();
    let mut head = str_to_chars("{\"modules\":");
    out.append(&mut head);
    write_json_array(&mut out, &l.modules);
    let mut mid1 = str_to_chars(",\"start_addrs\":");
    out.append(&mut mid1);
    write_json_array(&mut out, &l.start_addrs);
    let mut mid2 = str_to_chars(",\"end_addrs\":");
    out.append(&mut mid2);
    write_json_array(&mut out, &l.end_addrs);
    out.push('}');
    proof {
        reveal_strlit("}");
        assert("}"@ =~= seq!['}']);
        assert(out@ =~= spec_encode_layout(*l));
    }
    chars_to_string(&out)
}

} // verus!
