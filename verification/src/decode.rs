use vstd::prelude::*;
use crate::error::RunnerError;
use crate::json_text::{
    all_ws, dec_input, dec_output, digit_val, hex4_at, hex_val, is_digit, is_num_char, is_ws,
    parse_digits,
    parse_esc, parse_in_members, parse_in_value, parse_jstr, parse_out_members, parse_out_value,
    parse_strmap, parse_strmap_members, parse_u16, skip_items, skip_members, skip_num, skip_value,
    skip_ws, char_of,
};
use crate::kv::{Entries, KvMap, spec_upsert};
use crate::message::{WasmInput, WasmOutput};
use crate::strutil::{char_from_u32, push_char, str_eq};

verus! {

// ---------------------------------------------------------------------------
// Executable parsers, each proved equal to its specification function in
// `json_text`. They walk suffixes of the input string slice.
// ---------------------------------------------------------------------------
fn is_ws_exec(c: char) -> (r: bool)
    ensures
        r == is_ws(c),
{
    c == ' ' || c == '\t' || c == '\n' || c == '\r'
}

fn is_digit_exec(c: char) -> (r: bool)
    ensures
        r == is_digit(c),
{
    let v = c as u32;
    ('0' as u32) <= v && v <= ('9' as u32)
}

fn is_num_char_exec(c: char) -> (r: bool)
    ensures
        r == is_num_char(c),
{
    is_digit_exec(c) || c == '-' || c == '+' || c == '.' || c == 'e' || c == 'E'
}

fn skip_ws_exec<'a>(s: &'a str) -> (r: &'a str)
    ensures
        r@ == skip_ws(s@),
    decreases s@.len(),
{
    let n = s.unicode_len();
    if n > 0 {
        let c = s.get_char(0);
        if is_ws_exec(c) {
            let rest = s.substring_char(1, n);
            proof {
                assert(rest@ =~= s@.drop_first());
            }
            return skip_ws_exec(rest);
        }
    }
    s
}

fn skip_num_exec<'a>(s: &'a str) -> (r: &'a str)
    ensures
        r@ == skip_num(s@),
    decreases s@.len(),
{
    let n = s.unicode_len();
    if n > 0 {
        let c = s.get_char(0);
        if is_num_char_exec(c) {
            let rest = s.substring_char(1, n);
            proof {
                assert(rest@ =~= s@.drop_first());
            }
            return skip_num_exec(rest);
        }
    }
    s
}

fn all_ws_exec(s: &str) -> (r: bool)
    ensures
        r == all_ws(s@),
{
    let n = s.unicode_len();
    let mut i: usize = 0;
    while i < n
        invariant
            n == s@.len(),
            i <= n,
            forall|j: int| 0 <= j < i ==> is_ws(s@[j]),
        decreases n - i,
    {
        if !is_ws_exec(s.get_char(i)) {
            return false;
        }
        i = i + 1;
    }
    true
}

fn hex_val_exec(c: char) -> (r: Option<u8>)
    ensures
        match r {
            Some(v) => hex_val(c) == Some(v as nat) && v < 16,
            None => hex_val(c) is None,
        },
{
    let v = c as u32;
    if ('0' as u32) <= v && v <= ('9' as u32) {
        Some((v - ('0' as u32)) as u8)
    } else if ('a' as u32) <= v && v <= ('f' as u32) {
        Some((v - ('a' as u32) + 10) as u8)
    } else if ('A' as u32) <= v && v <= ('F' as u32) {
        Some((v - ('A' as u32) + 10) as u8)
    } else {
        None
    }
}

/// The four hexadecimal digits at the front of `s`, as a number.
fn hex4_exec(s: &str) -> (r: Option<u32>)
    ensures
        match r {
            Some(v) => hex4_at(s@) == Some(v as nat) && v < 0x10000,
            None => hex4_at(s@) is None,
        },
{
    let n = s.unicode_len();
    if n < 4 {
        return None;
    }
    let a = hex_val_exec(s.get_char(0));
    let b = hex_val_exec(s.get_char(1));
    let c = hex_val_exec(s.get_char(2));
    let d = hex_val_exec(s.get_char(3));
    match (a, b, c, d) {
        (Some(a), Some(b), Some(c), Some(d)) => Some(
            ((a as u32 * 16 + b as u32) * 16 + c as u32) * 16 + d as u32,
        ),
        _ => None,
    }
}

/// One escape sequence, `s` standing just after the backslash.
fn parse_esc_exec<'a>(s: &'a str) -> (r: Option<(char, &'a str)>)
    ensures
        match r {
            Some((c, rest)) => parse_esc(s@) == Some((c, rest@)),
            None => parse_esc(s@) is None,
        },
{
    let n = s.unicode_len();
    if n == 0 {
        return None;
    }
    let c = s.get_char(0);
    if c == '"' || c == '\\' || c == '/' {
        let rest = s.substring_char(1, n);
        proof {
            assert(rest@ =~= s@.drop_first());
        }
        Some((c, rest))
    } else if c == 'b' || c == 'f' || c == 'n' || c == 'r' || c == 't' {
        let rest = s.substring_char(1, n);
        proof {
            assert(rest@ =~= s@.drop_first());
        }
        let d = if c == 'b' {
            '\u{8}'
        } else if c == 'f' {
            '\u{C}'
        } else if c == 'n' {
            '\n'
        } else if c == 'r' {
            '\r'
        } else {
            '\t'
        };
        Some((d, rest))
    } else if c == 'u' {
        let tail1 = s.substring_char(1, n);
        proof {
            assert(tail1@ =~= s@.skip(1));
        }
        match hex4_exec(tail1) {
            None => None,
            Some(v) => {
                if 0xD800 <= v && v < 0xDC00 {
                    if n >= 11 && s.get_char(5) == '\\' && s.get_char(6) == 'u' {
                        let tail7 = s.substring_char(7, n);
                        proof {
                            assert(tail7@ =~= s@.skip(7));
                        }
                        match hex4_exec(tail7) {
                            None => None,
                            Some(w) => {
                                if 0xDC00 <= w && w < 0xE000 {
                                    let code: u32 = 0x10000 + (v - 0xD800) * 0x400 + (w - 0xDC00);
                                    match char_from_u32(code) {
                                        Some(ch) => {
                                            proof {
                                                vstd::utf8::char_u32_cast(ch, code);
                                                assert(ch == char_of(code));
                                            }
                                            let rest = s.substring_char(11, n);
                                            proof {
                                                assert(rest@ =~= s@.skip(11));
                                            }
                                            Some((ch, rest))
                                        },
                                        None => {
                                            proof {
                                                assert(false);
                                            }
                                            None
                                        },
                                    }
                                } else {
                                    None
                                }
                            },
                        }
                    } else {
                        None
                    }
                } else if 0xDC00 <= v && v < 0xE000 {
                    None
                } else {
                    match char_from_u32(v) {
                        Some(ch) => {
                            proof {
                                vstd::utf8::char_u32_cast(ch, v);
                                assert(ch == char_of(v));
                            }
                            let rest = s.substring_char(5, n);
                            proof {
                                assert(rest@ =~= s@.skip(5));
                            }
                            Some((ch, rest))
                        },
                        None => {
                            proof {
                                assert(false);
                            }
                            None
                        },
                    }
                }
            },
        }
    } else {
        None
    }
}

/// A JSON string body, `s` standing just after the opening quote.
fn parse_jstr_exec<'a>(s: &'a str) -> (r: Option<(String, &'a str)>)
    ensures
        match r {
            Some((t, rest)) => parse_jstr(s@) == Some((t@, rest@)),
            None => parse_jstr(s@) is None,
        },
{
    let mut acc = String::new();
    let mut cur = s;
    loop
        invariant
            parse_jstr(s@) is Some <==> parse_jstr(cur@) is Some,
            parse_jstr(cur@) matches Some((t, r)) ==> parse_jstr(s@) == Some((acc@ + t, r)),
        decreases cur@.len(),
    {
        let n = cur.unicode_len();
        if n == 0 {
            return None;
        }
        let c = cur.get_char(0);
        if c == '"' {
            let rest = cur.substring_char(1, n);
            proof {
                assert(rest@ =~= cur@.drop_first());
                assert(parse_jstr(cur@) == Some((Seq::<char>::empty(), rest@)));
                assert(acc@ + Seq::<char>::empty() =~= acc@);
            }
            return Some((acc, rest));
        } else if c == '\\' {
            let after = cur.substring_char(1, n);
            proof {
                assert(after@ =~= cur@.drop_first());
            }
            match parse_esc_exec(after) {
                None => {
                    return None;
                },
                Some((ch, r)) => {
                    let rn = r.unicode_len();
                    if rn < n {
                        let ghost prev = cur@;
                        let ghost acc_prev = acc@;
                        push_char(&mut acc, ch);
                        cur = r;
                        proof {
                            assert(acc@ =~= acc_prev.push(ch));
                            assert(parse_jstr(prev) is Some <==> parse_jstr(cur@) is Some);
                            match parse_jstr(cur@) {
                                Some(p) => {
                                    assert(parse_jstr(prev) == Some((seq![ch] + p.0, p.1)));
                                    assert(acc_prev + (seq![ch] + p.0) =~= acc@ + p.0);
                                },
                                None => {},
                            }
                        }
                    } else {
                        return None;
                    }
                },
            }
        } else {
            let ghost prev = cur@;
            let ghost acc_prev = acc@;
            let rest = cur.substring_char(1, n);
            proof {
                assert(rest@ =~= cur@.drop_first());
            }
            push_char(&mut acc, c);
            cur = rest;
            proof {
                assert(acc@ =~= acc_prev.push(c));
                match parse_jstr(cur@) {
                    Some(p) => {
                        assert(parse_jstr(prev) == Some((seq![c] + p.0, p.1)));
                        assert(acc_prev + (seq![c] + p.0) =~= acc@ + p.0);
                    },
                    None => {},
                }
            }
        }
    }
}

/// A number fitting a `u16`, `s` standing at its first digit.
fn parse_u16_exec<'a>(s: &'a str) -> (r: Option<(u16, &'a str)>)
    ensures
        match r {
            Some((v, rest)) => parse_u16(s@) == Some((v, rest@)),
            None => parse_u16(s@) is None,
        },
{
    let n = s.unicode_len();
    if n == 0 {
        return None;
    }
    let c0 = s.get_char(0);
    if !is_digit_exec(c0) {
        return None;
    }
    if c0 == '0' {
        if n > 1 && is_digit_exec(s.get_char(1)) {
            return None;
        }
        let rest = s.substring_char(1, n);
        proof {
            assert(rest@ =~= s@.drop_first());
        }
        return Some((0, rest));
    }
    let mut cur = s;
    let mut val: u32 = 0;
    let mut big: bool = false;
    let ghost mut g: nat = 0nat;
    loop
        invariant
            s@.len() > 0,
            is_digit(s@[0]),
            s@[0] != '0',
            parse_digits(s@, 0) == parse_digits(cur@, g),
            !big ==> g == val && val <= 65535,
            big ==> g > 65535,
        decreases cur@.len(),
    {
        let m = cur.unicode_len();
        let mut done = m == 0;
        if !done {
            done = !is_digit_exec(cur.get_char(0));
        }
        if done {
            proof {
                assert(parse_digits(cur@, g) == (g, cur@));
            }
            if big {
                return None;
            }
            return Some((val as u16, cur));
        }
        let c = cur.get_char(0);
        let d: u32 = (c as u32) - ('0' as u32);
        let rest = cur.substring_char(1, m);
        proof {
            assert(rest@ =~= cur@.drop_first());
            assert(parse_digits(cur@, g) == parse_digits(rest@, g * 10 + digit_val(c)));
        }
        if !big {
            let nv: u32 = val * 10 + d;
            if nv > 65535 {
                big = true;
            } else {
                val = nv;
            }
        } else {
            proof {
                assert(g * 10 + digit_val(c) > 65535);
            }
        }
        proof {
            g = g * 10 + digit_val(c);
        }
        cur = rest;
    }
}

/// Any JSON value, `s` standing at its first character.
fn skip_value_exec<'a>(s: &'a str) -> (r: Option<&'a str>)
    ensures
        match r {
            Some(rest) => skip_value(s@) == Some(rest@),
            None => skip_value(s@) is None,
        },
    decreases s@.len(), 0int,
{
    let n = s.unicode_len();
    if n == 0 {
        return None;
    }
    let c = s.get_char(0);
    if c == '"' {
        let after = s.substring_char(1, n);
        proof {
            assert(after@ =~= s@.drop_first());
        }
        match parse_jstr_exec(after) {
            None => None,
            Some((_t, rest)) => Some(rest),
        }
    } else if c == '{' {
        let after = s.substring_char(1, n);
        proof {
            assert(after@ =~= s@.drop_first());
        }
        skip_members_exec(after, true)
    } else if c == '[' {
        let after = s.substring_char(1, n);
        proof {
            assert(after@ =~= s@.drop_first());
        }
        skip_items_exec(after, true)
    } else if c == 't' {
        if n >= 4 && s.get_char(1) == 'r' && s.get_char(2) == 'u' && s.get_char(3) == 'e' {
            let rest = s.substring_char(4, n);
            proof {
                assert(rest@ =~= s@.skip(4));
            }
            Some(rest)
        } else {
            None
        }
    } else if c == 'f' {
        if n >= 5 && s.get_char(1) == 'a' && s.get_char(2) == 'l' && s.get_char(3) == 's'
            && s.get_char(4) == 'e' {
            let rest = s.substring_char(5, n);
            proof {
                assert(rest@ =~= s@.skip(5));
            }
            Some(rest)
        } else {
            None
        }
    } else if c == 'n' {
        if n >= 4 && s.get_char(1) == 'u' && s.get_char(2) == 'l' && s.get_char(3) == 'l' {
            let rest = s.substring_char(4, n);
            proof {
                assert(rest@ =~= s@.skip(4));
            }
            Some(rest)
        } else {
            None
        }
    } else if c == '-' || is_digit_exec(c) {
        Some(skip_num_exec(s))
    } else {
        None
    }
}

/// Members of any object, `s` standing after the opening brace (when
/// `first`) or after a comma.
fn skip_members_exec<'a>(s: &'a str, first: bool) -> (r: Option<&'a str>)
    ensures
        match r {
            Some(rest) => skip_members(s@, first) == Some(rest@),
            None => skip_members(s@, first) is None,
        },
    decreases s@.len(), 1int,
{
    let n = s.unicode_len();
    let t = skip_ws_exec(s);
    let m = t.unicode_len();
    if m == 0 {
        return None;
    }
    let c = t.get_char(0);
    if first && c == '}' {
        let rest = t.substring_char(1, m);
        proof {
            assert(rest@ =~= t@.drop_first());
        }
        return Some(rest);
    }
    if c != '"' {
        return None;
    }
    let after = t.substring_char(1, m);
    proof {
        assert(after@ =~= t@.drop_first());
    }
    match parse_jstr_exec(after) {
        None => None,
        Some((_k, r1)) => {
            let r2 = skip_ws_exec(r1);
            let m2 = r2.unicode_len();
            if m2 == 0 || r2.get_char(0) != ':' {
                return None;
            }
            let r2t = r2.substring_char(1, m2);
            proof {
                assert(r2t@ =~= r2@.drop_first());
            }
            let r3 = skip_ws_exec(r2t);
            let m3 = r3.unicode_len();
            if !(m3 <= n) {
                return None;
            }
            match skip_value_exec(r3) {
                None => None,
                Some(r4) => {
                    let r5 = skip_ws_exec(r4);
                    let m5 = r5.unicode_len();
                    if m5 > 0 && r5.get_char(0) == '}' {
                        let rest = r5.substring_char(1, m5);
                        proof {
                            assert(rest@ =~= r5@.drop_first());
                        }
                        return Some(rest);
                    }
                    if m5 > 0 && r5.get_char(0) == ',' {
                        let nxt = r5.substring_char(1, m5);
                        proof {
                            assert(nxt@ =~= r5@.drop_first());
                        }
                        if nxt.unicode_len() < n {
                            return skip_members_exec(nxt, false);
                        }
                        return None;
                    }
                    None
                },
            }
        },
    }
}

/// Items of any array, `s` standing after the opening bracket (when
/// `first`) or after a comma.
fn skip_items_exec<'a>(s: &'a str, first: bool) -> (r: Option<&'a str>)
    ensures
        match r {
            Some(rest) => skip_items(s@, first) == Some(rest@),
            None => skip_items(s@, first) is None,
        },
    decreases s@.len(), 1int,
{
    let n = s.unicode_len();
    let t = skip_ws_exec(s);
    let m = t.unicode_len();
    if m == 0 {
        return None;
    }
    let c = t.get_char(0);
    if first && c == ']' {
        let rest = t.substring_char(1, m);
        proof {
            assert(rest@ =~= t@.drop_first());
        }
        return Some(rest);
    }
    if !(m <= n) {
        return None;
    }
    match skip_value_exec(t) {
        None => None,
        Some(r1) => {
            let r2 = skip_ws_exec(r1);
            let m2 = r2.unicode_len();
            if m2 > 0 && r2.get_char(0) == ']' {
                let rest = r2.substring_char(1, m2);
                proof {
                    assert(rest@ =~= r2@.drop_first());
                }
                return Some(rest);
            }
            if m2 > 0 && r2.get_char(0) == ',' {
                let nxt = r2.substring_char(1, m2);
                proof {
                    assert(nxt@ =~= r2@.drop_first());
                }
                if nxt.unicode_len() < n {
                    return skip_items_exec(nxt, false);
                }
                return None;
            }
            None
        },
    }
}

/// A JSON object of strings, `s` standing at the opening brace; the result
/// mapping carries pairwise distinct keys.
fn parse_strmap_exec<'a>(s: &'a str) -> (r: Option<(KvMap, &'a str)>)
    ensures
        match r {
            Some((m, rest)) => parse_strmap(s@) == Some((m@, rest@)) && m.wf(),
            None => parse_strmap(s@) is None,
        },
{
    let n = s.unicode_len();
    if n == 0 || s.get_char(0) != '{' {
        return None;
    }
    let start = s.substring_char(1, n);
    proof {
        assert(start@ =~= s@.drop_first());
    }
    let mut cur = start;
    let mut acc = KvMap::new();
    let mut first: bool = true;
    loop
        invariant
            acc.wf(),
            s@.len() > 0,
            s@[0] == '{',
            start@ == s@.drop_first(),
            parse_strmap_members(start@, Seq::empty(), true) == parse_strmap_members(
                cur@,
                acc@,
                first,
            ),
        decreases cur@.len(),
    {
        let n0 = cur.unicode_len();
        let t = skip_ws_exec(cur);
        let m = t.unicode_len();
        if m == 0 {
            return None;
        }
        let c = t.get_char(0);
        if first && c == '}' {
            let rest = t.substring_char(1, m);
            proof {
                assert(rest@ =~= t@.drop_first());
            }
            return Some((acc, rest));
        }
        if c != '"' {
            return None;
        }
        let after = t.substring_char(1, m);
        proof {
            assert(after@ =~= t@.drop_first());
        }
        match parse_jstr_exec(after) {
            None => {
                return None;
            },
            Some((k, r1)) => {
                let r2 = skip_ws_exec(r1);
                let m2 = r2.unicode_len();
                if m2 == 0 || r2.get_char(0) != ':' {
                    return None;
                }
                let r2t = r2.substring_char(1, m2);
                proof {
                    assert(r2t@ =~= r2@.drop_first());
                }
                let r3 = skip_ws_exec(r2t);
                let m3 = r3.unicode_len();
                if m3 == 0 || r3.get_char(0) != '"' {
                    return None;
                }
                let r3t = r3.substring_char(1, m3);
                proof {
                    assert(r3t@ =~= r3@.drop_first());
                }
                match parse_jstr_exec(r3t) {
                    None => {
                        return None;
                    },
                    Some((v, r4)) => {
                        let r5 = skip_ws_exec(r4);
                        let m5 = r5.unicode_len();
                        let ghost acc_prev = acc@;
                        let ghost kview = k@;
                        let ghost vview = v@;
                        acc.insert(k, v);
                        proof {
                            assert(acc@ == spec_upsert(acc_prev, kview, vview));
                        }
                        if m5 > 0 && r5.get_char(0) == '}' {
                            let rest = r5.substring_char(1, m5);
                            proof {
                                assert(rest@ =~= r5@.drop_first());
                            }
                            return Some((acc, rest));
                        }
                        if m5 > 0 && r5.get_char(0) == ',' {
                            let nxt = r5.substring_char(1, m5);
                            proof {
                                assert(nxt@ =~= r5@.drop_first());
                            }
                            if nxt.unicode_len() < n0 {
                                cur = nxt;
                                first = false;
                            } else {
                                return None;
                            }
                        } else {
                            return None;
                        }
                    },
                }
            },
        }
    }
}

// ---------------------------------------------------------------------------
// The two wire messages.
// ---------------------------------------------------------------------------
pub open spec fn ov_str(o: Option<String>) -> Option<Seq<char>> {
    match o {
        Some(x) => Some(x@),
        None => None,
    }
}

pub open spec fn ov_map(o: Option<KvMap>) -> Option<Entries> {
    match o {
        Some(m) => Some(m@),
        None => None,
    }
}

/// Assembles a `WasmOutput` once all members are read: every required field
/// present and nothing but whitespace left, or the decode fails.
fn finish_output(
    bo: Option<String>,
    ho: Option<KvMap>,
    sto: Option<u16>,
    ko: Option<KvMap>,
    rest: &str,
) -> (r: Result<WasmOutput, RunnerError>)
    requires
        ho matches Some(m) ==> m.wf(),
        ko matches Some(m) ==> m.wf(),
    ensures
        match (ov_str(bo), ov_map(ho), sto, ov_map(ko)) {
            (Some(b), Some(h), Some(st), Some(k)) => if all_ws(rest@) {
                r matches Ok(o) && o.body@ == b && o.headers@ == h && o.status == st && o.kv@ == k
                    && o.wf()
            } else {
                r matches Err(e) && e == RunnerError::ResponseDecode
            },
            _ => r matches Err(e) && e == RunnerError::ResponseDecode,
        },
{
    match (bo, ho, sto, ko) {
        (Some(b), Some(h), Some(st), Some(k)) => {
            if all_ws_exec(rest) {
                Ok(WasmOutput { body: b, headers: h, status: st, kv: k })
            } else {
                Err(RunnerError::ResponseDecode)
            }
        },
        _ => Err(RunnerError::ResponseDecode),
    }
}

/// Deserializes a `WasmOutput` from the guest's stdout text: one JSON object
/// with members `body`, `headers`, `status` and `kv` in any order, unknown
/// members ignored; anything else is a `ResponseDecode` error.
pub fn decode_wasm_output(s: &str) -> (r: Result<WasmOutput, RunnerError>)
    ensures
        match dec_output(s@) {
            Some(f) => r matches Ok(o) && o.body@ == f.0 && o.headers@ == f.1 && o.status == f.2
                && o.kv@ == f.3 && o.wf(),
            None => r matches Err(e) && e == RunnerError::ResponseDecode,
        },
{
    let t0 = skip_ws_exec(s);
    let n0 = t0.unicode_len();
    if n0 == 0 || t0.get_char(0) != '{' {
        return Err(RunnerError::ResponseDecode);
    }
    let start = t0.substring_char(1, n0);
    proof {
        assert(start@ =~= skip_ws(s@).drop_first());
    }
    let mut cur = start;
    let mut first: bool = true;
    let mut bo: Option<String> = None;
    let mut ho: Option<KvMap> = None;
    let mut sto: Option<u16> = None;
    let mut ko: Option<KvMap> = None;
    loop
        invariant
            skip_ws(s@).len() > 0,
            skip_ws(s@)[0] == '{',
            start@ == skip_ws(s@).drop_first(),
            ho matches Some(m) ==> m.wf(),
            ko matches Some(m) ==> m.wf(),
            parse_out_members(start@, (None, None, None, None), true) == parse_out_members(
                cur@,
                (ov_str(bo), ov_map(ho), sto, ov_map(ko)),
                first,
            ),
        decreases cur@.len(),
    {
        let n1 = cur.unicode_len();
        let t = skip_ws_exec(cur);
        let m = t.unicode_len();
        if m == 0 {
            return Err(RunnerError::ResponseDecode);
        }
        let c = t.get_char(0);
        if first && c == '}' {
            let rest = t.substring_char(1, m);
            proof {
                assert(rest@ =~= t@.drop_first());
            }
            return finish_output(bo, ho, sto, ko, rest);
        }
        if c != '"' {
            return Err(RunnerError::ResponseDecode);
        }
        let after = t.substring_char(1, m);
        proof {
            assert(after@ =~= t@.drop_first());
        }
        match parse_jstr_exec(after) {
            None => {
                return Err(RunnerError::ResponseDecode);
            },
            Some((k, r1)) => {
                let r2 = skip_ws_exec(r1);
                let m2 = r2.unicode_len();
                if m2 == 0 || r2.get_char(0) != ':' {
                    return Err(RunnerError::ResponseDecode);
                }
                let r2t = r2.substring_char(1, m2);
                proof {
                    assert(r2t@ =~= r2@.drop_first());
                }
                let r3 = skip_ws_exec(r2t);
                let ghost acc0 = (ov_str(bo), ov_map(ho), sto, ov_map(ko));
                let r4: &str = if str_eq(k.as_str(), "body") {
                    let m3 = r3.unicode_len();
                    if m3 == 0 || r3.get_char(0) != '"' {
                        return Err(RunnerError::ResponseDecode);
                    }
                    let r3t = r3.substring_char(1, m3);
                    proof {
                        assert(r3t@ =~= r3@.drop_first());
                    }
                    match parse_jstr_exec(r3t) {
                        None => {
                            return Err(RunnerError::ResponseDecode);
                        },
                        Some((v, rr)) => {
                            bo = Some(v);
                            rr
                        },
                    }
                } else if str_eq(k.as_str(), "headers") {
                    match parse_strmap_exec(r3) {
                        None => {
                            return Err(RunnerError::ResponseDecode);
                        },
                        Some((mm, rr)) => {
                            ho = Some(mm);
                            rr
                        },
                    }
                } else if str_eq(k.as_str(), "status") {
                    match parse_u16_exec(r3) {
                        None => {
                            return Err(RunnerError::ResponseDecode);
                        },
                        Some((v, rr)) => {
                            sto = Some(v);
                            rr
                        },
                    }
                } else if str_eq(k.as_str(), "kv") {
                    match parse_strmap_exec(r3) {
                        None => {
                            return Err(RunnerError::ResponseDecode);
                        },
                        Some((mm, rr)) => {
                            ko = Some(mm);
                            rr
                        },
                    }
                } else {
                    match skip_value_exec(r3) {
                        None => {
                            return Err(RunnerError::ResponseDecode);
                        },
                        Some(rr) => rr,
                    }
                };
                proof {
                    assert(parse_out_value(k@, r3@, acc0) == Some(
                        ((ov_str(bo), ov_map(ho), sto, ov_map(ko)), r4@),
                    ));
                }
                let r5 = skip_ws_exec(r4);
                let m5 = r5.unicode_len();
                if m5 > 0 && r5.get_char(0) == '}' {
                    let rest = r5.substring_char(1, m5);
                    proof {
                        assert(rest@ =~= r5@.drop_first());
                    }
                    return finish_output(bo, ho, sto, ko, rest);
                }
                if m5 > 0 && r5.get_char(0) == ',' {
                    let nxt = r5.substring_char(1, m5);
                    proof {
                        assert(nxt@ =~= r5@.drop_first());
                    }
                    if nxt.unicode_len() < n1 {
                        cur = nxt;
                        first = false;
                    } else {
                        return Err(RunnerError::ResponseDecode);
                    }
                } else {
                    return Err(RunnerError::ResponseDecode);
                }
            },
        }
    }
}

/// Assembles a `WasmInput` once all members are read, as `finish_output`
/// does for outputs.
fn finish_input(
    uo: Option<String>,
    mo: Option<String>,
    ho: Option<KvMap>,
    bo: Option<String>,
    ko: Option<KvMap>,
    rest: &str,
) -> (r: Option<WasmInput>)
    requires
        ho matches Some(m) ==> m.wf(),
        ko matches Some(m) ==> m.wf(),
    ensures
        match (ov_str(uo), ov_str(mo), ov_map(ho), ov_str(bo), ov_map(ko)) {
            (Some(u), Some(mt), Some(h), Some(b), Some(k)) => if all_ws(rest@) {
                r matches Some(i) && i.url@ == u && i.method@ == mt && i.headers@ == h && i.body@
                    == b && i.kv@ == k && i.wf()
            } else {
                r is None
            },
            _ => r is None,
        },
{
    match (uo, mo, ho, bo, ko) {
        (Some(u), Some(mt), Some(h), Some(b), Some(k)) => {
            if all_ws_exec(rest) {
                Some(WasmInput { url: u, method: mt, headers: h, body: b, kv: k })
            } else {
                None
            }
        },
        _ => None,
    }
}

/// The value of one `WasmInput` member, dispatched on the key.
#[verifier::rlimit(100)]
fn parse_in_value_exec<'a>(
    k: &str,
    s: &'a str,
    uo: Option<String>,
    mo: Option<String>,
    ho: Option<KvMap>,
    bo: Option<String>,
    ko: Option<KvMap>,
) -> (r: Option<
    ((Option<String>, Option<String>, Option<KvMap>, Option<String>, Option<KvMap>), &'a str),
>)
    requires
        ho matches Some(m) ==> m.wf(),
        ko matches Some(m) ==> m.wf(),
    ensures
        match r {
            Some((acc2, rest)) => parse_in_value(
                k@,
                s@,
                (ov_str(uo), ov_str(mo), ov_map(ho), ov_str(bo), ov_map(ko)),
            ) == Some(
                (
                    (ov_str(acc2.0), ov_str(acc2.1), ov_map(acc2.2), ov_str(acc2.3), ov_map(
                        acc2.4,
                    )),
                    rest@,
                ),
            ) && (acc2.2 matches Some(m) ==> m.wf()) && (acc2.4 matches Some(m) ==> m.wf()),
            None => parse_in_value(
                k@,
                s@,
                (ov_str(uo), ov_str(mo), ov_map(ho), ov_str(bo), ov_map(ko)),
            ) is None,
        },
{
    if str_eq(k, "url") {
        let m3 = s.unicode_len();
        if m3 == 0 || s.get_char(0) != '"' {
            return None;
        }
        let st = s.substring_char(1, m3);
        proof {
            assert(st@ =~= s@.drop_first());
        }
        match parse_jstr_exec(st) {
            None => None,
            Some((v, rr)) => Some(((Some(v), mo, ho, bo, ko), rr)),
        }
    } else if str_eq(k, "method") {
        let m3 = s.unicode_len();
        if m3 == 0 || s.get_char(0) != '"' {
            return None;
        }
        let st = s.substring_char(1, m3);
        proof {
            assert(st@ =~= s@.drop_first());
        }
        match parse_jstr_exec(st) {
            None => None,
            Some((v, rr)) => Some(((uo, Some(v), ho, bo, ko), rr)),
        }
    } else if str_eq(k, "headers") {
        match parse_strmap_exec(s) {
            None => None,
            Some((mm, rr)) => Some(((uo, mo, Some(mm), bo, ko), rr)),
        }
    } else if str_eq(k, "body") {
        let m3 = s.unicode_len();
        if m3 == 0 || s.get_char(0) != '"' {
            return None;
        }
        let st = s.substring_char(1, m3);
        proof {
            assert(st@ =~= s@.drop_first());
        }
        match parse_jstr_exec(st) {
            None => None,
            Some((v, rr)) => Some(((uo, mo, ho, Some(v), ko), rr)),
        }
    } else if str_eq(k, "kv") {
        match parse_strmap_exec(s) {
            None => None,
            Some((mm, rr)) => Some(((uo, mo, ho, bo, Some(mm)), rr)),
        }
    } else {
        match skip_value_exec(s) {
            None => None,
            Some(rr) => Some(((uo, mo, ho, bo, ko), rr)),
        }
    }
}

/// Deserializes a `WasmInput` from wire text: one JSON object with members
/// `url`, `method`, `headers`, `body` and `kv` in any order, unknown members
/// ignored. This inverts `encode_wasm_input`.
#[verifier::rlimit(100)]
pub fn decode_wasm_input(s: &str) -> (r: Option<WasmInput>)
    ensures
        match dec_input(s@) {
            Some(f) => r matches Some(i) && i.url@ == f.0 && i.method@ == f.1 && i.headers@ == f.2
                && i.body@ == f.3 && i.kv@ == f.4 && i.wf(),
            None => r is None,
        },
{
    let t0 = skip_ws_exec(s);
    let n0 = t0.unicode_len();
    if n0 == 0 || t0.get_char(0) != '{' {
        return None;
    }
    let start = t0.substring_char(1, n0);
    proof {
        assert(start@ =~= skip_ws(s@).drop_first());
    }
    let mut cur = start;
    let mut first: bool = true;
    let mut uo: Option<String> = None;
    let mut mo: Option<String> = None;
    let mut ho: Option<KvMap> = None;
    let mut bo: Option<String> = None;
    let mut ko: Option<KvMap> = None;
    loop
        invariant
            skip_ws(s@).len() > 0,
            skip_ws(s@)[0] == '{',
            start@ == skip_ws(s@).drop_first(),
            ho matches Some(m) ==> m.wf(),
            ko matches Some(m) ==> m.wf(),
            parse_in_members(start@, (None, None, None, None, None), true) == parse_in_members(
                cur@,
                (ov_str(uo), ov_str(mo), ov_map(ho), ov_str(bo), ov_map(ko)),
                first,
            ),
        decreases cur@.len(),
    {
        let n1 = cur.unicode_len();
        let t = skip_ws_exec(cur);
        let m = t.unicode_len();
        if m == 0 {
            return None;
        }
        let c = t.get_char(0);
        if first && c == '}' {
            let rest = t.substring_char(1, m);
            proof {
                assert(rest@ =~= t@.drop_first());
            }
            return finish_input(uo, mo, ho, bo, ko, rest);
        }
        if c != '"' {
            return None;
        }
        let after = t.substring_char(1, m);
        proof {
            assert(after@ =~= t@.drop_first());
        }
        match parse_jstr_exec(after) {
            None => {
                return None;
            },
            Some((k, r1)) => {
                let r2 = skip_ws_exec(r1);
                let m2 = r2.unicode_len();
                if m2 == 0 || r2.get_char(0) != ':' {
                    return None;
                }
                let r2t = r2.substring_char(1, m2);
                proof {
                    assert(r2t@ =~= r2@.drop_first());
                }
                let r3 = skip_ws_exec(r2t);
                let ghost acc0 = (ov_str(uo), ov_str(mo), ov_map(ho), ov_str(bo), ov_map(ko));
                let r4: &str;
                match parse_in_value_exec(k.as_str(), r3, uo, mo, ho, bo, ko) {
                    None => {
                        return None;
                    },
                    Some((acc2, rr)) => {
                        uo = acc2.0;
                        mo = acc2.1;
                        ho = acc2.2;
                        bo = acc2.3;
                        ko = acc2.4;
                        r4 = rr;
                    },
                }
                proof {
                    assert(parse_in_value(k@, r3@, acc0) == Some(
                        ((ov_str(uo), ov_str(mo), ov_map(ho), ov_str(bo), ov_map(ko)), r4@),
                    ));
                }
                let r5 = skip_ws_exec(r4);
                let m5 = r5.unicode_len();
                if m5 > 0 && r5.get_char(0) == '}' {
                    let rest = r5.substring_char(1, m5);
                    proof {
                        assert(rest@ =~= r5@.drop_first());
                    }
                    return finish_input(uo, mo, ho, bo, ko, rest);
                }
                if m5 > 0 && r5.get_char(0) == ',' {
                    let nxt = r5.substring_char(1, m5);
                    proof {
                        assert(nxt@ =~= r5@.drop_first());
                    }
                    if nxt.unicode_len() < n1 {
                        cur = nxt;
                        first = false;
                    } else {
                        return None;
                    }
                } else {
                    return None;
                }
            },
        }
    }
}

} // verus!
