use vstd::prelude::*;
use crate::kv::{Entries, spec_upsert};

verus! {

// ---------------------------------------------------------------------------
// The JSON wire text, as mathematics.
//
// The encoder below (`enc_input` and friends) fixes the exact text sent to a
// guest on stdin; the parser (`dec_output`, `dec_input`) fixes which texts
// are accepted from a guest's stdout and what they denote. Executable code
// elsewhere is proved equal to these functions.
// ---------------------------------------------------------------------------
// ----- escaping -----
/// The sixteen hexadecimal digit characters, lower case.
pub open spec fn hex_char(d: nat) -> char {
    if d == 0 {
        '0'
    } else if d == 1 {
        '1'
    } else if d == 2 {
        '2'
    } else if d == 3 {
        '3'
    } else if d == 4 {
        '4'
    } else if d == 5 {
        '5'
    } else if d == 6 {
        '6'
    } else if d == 7 {
        '7'
    } else if d == 8 {
        '8'
    } else if d == 9 {
        '9'
    } else if d == 10 {
        'a'
    } else if d == 11 {
        'b'
    } else if d == 12 {
        'c'
    } else if d == 13 {
        'd'
    } else if d == 14 {
        'e'
    } else {
        'f'
    }
}

/// How one character is written inside a JSON string literal: the two-letter
/// escapes of JSON for the characters that have one, `\u00XX` for the other
/// control characters, the character itself for everything else.
pub open spec fn esc_char(c: char) -> Seq<char> {
    if c == '"' {
        seq!['\\', '"']
    } else if c == '\\' {
        seq!['\\', '\\']
    } else if c == '\u{8}' {
        seq!['\\', 'b']
    } else if c == '\u{C}' {
        seq!['\\', 'f']
    } else if c == '\n' {
        seq!['\\', 'n']
    } else if c == '\r' {
        seq!['\\', 'r']
    } else if c == '\t' {
        seq!['\\', 't']
    } else if (c as u32) < 32 {
        seq!['\\', 'u', '0', '0', hex_char(((c as u32) / 16) as nat), hex_char(
            ((c as u32) % 16) as nat,
        )]
    } else {
        seq![c]
    }
}

pub open spec fn esc(s: Seq<char>) -> Seq<char>
    decreases s.len(),
{
    if s.len() == 0 {
        Seq::empty()
    } else {
        esc(s.drop_last()) + esc_char(s.last())
    }
}

/// A JSON string literal: quote, escaped characters, quote.
pub open spec fn quoted(s: Seq<char>) -> Seq<char> {
    seq!['"'] + esc(s) + seq!['"']
}

// ----- encoding -----
/// `"k":"v"` pairs joined by commas, in entry order.
pub open spec fn enc_entries(e: Entries) -> Seq<char>
    decreases e.len(),
{
    if e.len() == 0 {
        Seq::empty()
    } else if e.len() == 1 {
        quoted(e[0].0) + seq![':'] + quoted(e[0].1)
    } else {
        enc_entries(e.drop_last()) + seq![','] + quoted(e.last().0) + seq![':'] + quoted(
            e.last().1,
        )
    }
}

/// A JSON object holding string values only.
pub open spec fn enc_map(e: Entries) -> Seq<char> {
    seq!['{'] + enc_entries(e) + seq!['}']
}

/// An unsigned number in decimal, no sign, no leading zero.
pub open spec fn dec_digits(n: nat) -> Seq<char>
    decreases n,
{
    if n < 10 {
        seq![hex_char(n)]
    } else {
        dec_digits(n / 10) + seq![hex_char(n % 10)]
    }
}

/// The wire text sent to the guest: a `WasmInput` as one JSON object, fields
/// in the fixed order `url`, `method`, `headers`, `body`, `kv`.
pub open spec fn enc_input(
    url: Seq<char>,
    method: Seq<char>,
    headers: Entries,
    body: Seq<char>,
    kv: Entries,
) -> Seq<char> {
    seq!['{'] + quoted("url"@) + seq![':'] + quoted(url) + seq![','] + quoted("method"@)
        + seq![':'] + quoted(method) + seq![','] + quoted("headers"@) + seq![':'] + enc_map(headers)
        + seq![','] + quoted("body"@) + seq![':'] + quoted(body) + seq![','] + quoted("kv"@)
        + seq![':'] + enc_map(kv) + seq!['}']
}

// ----- parsing: small pieces -----
/// JSON whitespace.
pub open spec fn is_ws(c: char) -> bool {
    c == ' ' || c == '\t' || c == '\n' || c == '\r'
}

pub open spec fn skip_ws(s: Seq<char>) -> Seq<char>
    decreases s.len(),
{
    if s.len() > 0 && is_ws(s[0]) {
        skip_ws(s.drop_first())
    } else {
        s
    }
}

pub open spec fn all_ws(s: Seq<char>) -> bool {
    forall|i: int| 0 <= i < s.len() ==> is_ws(s[i])
}

pub open spec fn is_digit(c: char) -> bool {
    ('0' as u32) <= (c as u32) <= ('9' as u32)
}

pub open spec fn digit_val(c: char) -> nat {
    ((c as u32) - ('0' as u32)) as nat
}

/// Value of a hexadecimal digit character, if it is one.
pub open spec fn hex_val(c: char) -> Option<nat> {
    let v = c as u32;
    if ('0' as u32) <= v <= ('9' as u32) {
        Some((v - ('0' as u32)) as nat)
    } else if ('a' as u32) <= v <= ('f' as u32) {
        Some((v - ('a' as u32) + 10) as nat)
    } else if ('A' as u32) <= v <= ('F' as u32) {
        Some((v - ('A' as u32) + 10) as nat)
    } else {
        None
    }
}

/// Value of the four hexadecimal digits at the front of `s`.
pub open spec fn hex4_at(s: Seq<char>) -> Option<nat> {
    if s.len() >= 4 {
        match (hex_val(s[0]), hex_val(s[1]), hex_val(s[2]), hex_val(s[3])) {
            (Some(a), Some(b), Some(c), Some(d)) => Some(((a * 16 + b) * 16 + c) * 16 + d),
            _ => None,
        }
    } else {
        None
    }
}

pub open spec fn char_of(v: u32) -> char {
    v as char
}

/// One escape sequence, `s` standing just after the backslash. Yields the
/// character it denotes and the rest. A `\u` escape carrying a high
/// surrogate must be followed by a `\u` escape carrying a low one; the pair
/// denotes one supplementary character.
pub open spec fn parse_esc(s: Seq<char>) -> Option<(char, Seq<char>)> {
    if s.len() == 0 {
        None
    } else {
        let c = s[0];
        if c == '"' || c == '\\' || c == '/' {
            Some((c, s.drop_first()))
        } else if c == 'b' {
            Some(('\u{8}', s.drop_first()))
        } else if c == 'f' {
            Some(('\u{C}', s.drop_first()))
        } else if c == 'n' {
            Some(('\n', s.drop_first()))
        } else if c == 'r' {
            Some(('\r', s.drop_first()))
        } else if c == 't' {
            Some(('\t', s.drop_first()))
        } else if c == 'u' {
            match hex4_at(s.skip(1)) {
                None => None,
                Some(v) => if 0xD800 <= v < 0xDC00 {
                    if s.len() >= 11 && s[5] == '\\' && s[6] == 'u' {
                        match hex4_at(s.skip(7)) {
                            None => None,
                            Some(w) => if 0xDC00 <= w < 0xE000 {
                                Some(
                                    (
                                        char_of(
                                            (0x10000 + (v - 0xD800) * 0x400 + (w
                                                - 0xDC00)) as u32,
                                        ),
                                        s.skip(11),
                                    ),
                                )
                            } else {
                                None
                            },
                        }
                    } else {
                        None
                    }
                } else if 0xDC00 <= v < 0xE000 {
                    None
                } else {
                    Some((char_of(v as u32), s.skip(5)))
                },
            }
        } else {
            None
        }
    }
}

/// A JSON string body, `s` standing just after the opening quote. Yields the
/// denoted characters and the rest after the closing quote.
pub open spec fn parse_jstr(s: Seq<char>) -> Option<(Seq<char>, Seq<char>)>
    decreases s.len(),
{
    if s.len() == 0 {
        None
    } else if s[0] == '"' {
        Some((Seq::empty(), s.drop_first()))
    } else if s[0] == '\\' {
        match parse_esc(s.drop_first()) {
            None => None,
            Some((c, r)) => if r.len() < s.len() {
                match parse_jstr(r) {
                    None => None,
                    Some((t, r2)) => Some((seq![c] + t, r2)),
                }
            } else {
                None
            },
        }
    } else {
        match parse_jstr(s.drop_first()) {
            None => None,
            Some((t, r)) => Some((seq![s[0]] + t, r)),
        }
    }
}

/// Greedy run of decimal digits, folded onto `acc` from the left.
pub open spec fn parse_digits(s: Seq<char>, acc: nat) -> (nat, Seq<char>)
    decreases s.len(),
{
    if s.len() > 0 && is_digit(s[0]) {
        parse_digits(s.drop_first(), acc * 10 + digit_val(s[0]))
    } else {
        (acc, s)
    }
}

/// A JSON number that is an unsigned integer fitting a `u16`: digits without
/// a leading zero, value at most 65535.
pub open spec fn parse_u16(s: Seq<char>) -> Option<(u16, Seq<char>)> {
    if s.len() > 0 && is_digit(s[0]) {
        if s[0] == '0' {
            if s.len() > 1 && is_digit(s[1]) {
                None
            } else {
                Some((0, s.drop_first()))
            }
        } else {
            let (v, r) = parse_digits(s, 0);
            if v <= 65535 {
                Some((v as u16, r))
            } else {
                None
            }
        }
    } else {
        None
    }
}

// ----- parsing: objects of strings -----
/// Members of an object whose values are all strings, `s` standing after the
/// opening brace (when `first`) or after a comma. Members fold onto `acc` by
/// upsert, so a repeated key keeps its position and takes the last value.
pub open spec fn parse_strmap_members(s: Seq<char>, acc: Entries, first: bool) -> Option<
    (Entries, Seq<char>),
>
    decreases s.len(),
{
    let t = skip_ws(s);
    if t.len() == 0 {
        None
    } else if first && t[0] == '}' {
        Some((acc, t.drop_first()))
    } else if t[0] == '"' {
        match parse_jstr(t.drop_first()) {
            None => None,
            Some((k, r1)) => {
                let r2 = skip_ws(r1);
                if r2.len() > 0 && r2[0] == ':' {
                    let r3 = skip_ws(r2.drop_first());
                    if r3.len() > 0 && r3[0] == '"' {
                        match parse_jstr(r3.drop_first()) {
                            None => None,
                            Some((v, r4)) => {
                                let r5 = skip_ws(r4);
                                if r5.len() > 0 && r5[0] == '}' {
                                    Some((spec_upsert(acc, k, v), r5.drop_first()))
                                } else if r5.len() > 0 && r5[0] == ',' && r5.drop_first().len()
                                    < s.len() {
                                    parse_strmap_members(
                                        r5.drop_first(),
                                        spec_upsert(acc, k, v),
                                        false,
                                    )
                                } else {
                                    None
                                }
                            },
                        }
                    } else {
                        None
                    }
                } else {
                    None
                }
            },
        }
    } else {
        None
    }
}

/// A JSON object whose values are all strings, `s` standing at the opening
/// brace.
pub open spec fn parse_strmap(s: Seq<char>) -> Option<(Entries, Seq<char>)> {
    if s.len() > 0 && s[0] == '{' {
        parse_strmap_members(s.drop_first(), Seq::empty(), true)
    } else {
        None
    }
}

// ----- parsing: skipping unknown values -----
pub open spec fn is_num_char(c: char) -> bool {
    is_digit(c) || c == '-' || c == '+' || c == '.' || c == 'e' || c == 'E'
}

pub open spec fn skip_num(s: Seq<char>) -> Seq<char>
    decreases s.len(),
{
    if s.len() > 0 && is_num_char(s[0]) {
        skip_num(s.drop_first())
    } else {
        s
    }
}

/// Any JSON value, `s` standing at its first character; yields the rest.
/// Numbers are taken lazily as a run of number characters.
pub open spec fn skip_value(s: Seq<char>) -> Option<Seq<char>>
    decreases s.len(), 0int,
{
    if s.len() == 0 {
        None
    } else if s[0] == '"' {
        match parse_jstr(s.drop_first()) {
            None => None,
            Some((_t, r)) => Some(r),
        }
    } else if s[0] == '{' {
        skip_members(s.drop_first(), true)
    } else if s[0] == '[' {
        skip_items(s.drop_first(), true)
    } else if s[0] == 't' {
        if s.len() >= 4 && s[1] == 'r' && s[2] == 'u' && s[3] == 'e' {
            Some(s.skip(4))
        } else {
            None
        }
    } else if s[0] == 'f' {
        if s.len() >= 5 && s[1] == 'a' && s[2] == 'l' && s[3] == 's' && s[4] == 'e' {
            Some(s.skip(5))
        } else {
            None
        }
    } else if s[0] == 'n' {
        if s.len() >= 4 && s[1] == 'u' && s[2] == 'l' && s[3] == 'l' {
            Some(s.skip(4))
        } else {
            None
        }
    } else if s[0] == '-' || is_digit(s[0]) {
        Some(skip_num(s))
    } else {
        None
    }
}

/// Members of any object, `s` standing after the opening brace (when
/// `first`) or after a comma.
pub open spec fn skip_members(s: Seq<char>, first: bool) -> Option<Seq<char>>
    decreases s.len(), 1int,
{
    let t = skip_ws(s);
    if t.len() == 0 {
        None
    } else if first && t[0] == '}' {
        Some(t.drop_first())
    } else if t[0] == '"' {
        match parse_jstr(t.drop_first()) {
            None => None,
            Some((_k, r1)) => {
                let r2 = skip_ws(r1);
                if r2.len() > 0 && r2[0] == ':' {
                    let r3 = skip_ws(r2.drop_first());
                    if r3.len() <= s.len() {
                        match skip_value(r3) {
                            None => None,
                            Some(r4) => {
                                let r5 = skip_ws(r4);
                                if r5.len() > 0 && r5[0] == '}' {
                                    Some(r5.drop_first())
                                } else if r5.len() > 0 && r5[0] == ',' && r5.drop_first().len()
                                    < s.len() {
                                    skip_members(r5.drop_first(), false)
                                } else {
                                    None
                                }
                            },
                        }
                    } else {
                        None
                    }
                } else {
                    None
                }
            },
        }
    } else {
        None
    }
}

/// Items of any array, `s` standing after the opening bracket (when `first`)
/// or after a comma.
pub open spec fn skip_items(s: Seq<char>, first: bool) -> Option<Seq<char>>
    decreases s.len(), 1int,
{
    let t = skip_ws(s);
    if t.len() == 0 {
        None
    } else if first && t[0] == ']' {
        Some(t.drop_first())
    } else if t.len() <= s.len() {
        match skip_value(t) {
            None => None,
            Some(r1) => {
                let r2 = skip_ws(r1);
                if r2.len() > 0 && r2[0] == ']' {
                    Some(r2.drop_first())
                } else if r2.len() > 0 && r2[0] == ',' && r2.drop_first().len() < s.len() {
                    skip_items(r2.drop_first(), false)
                } else {
                    None
                }
            },
        }
    } else {
        None
    }
}

// ----- parsing: the two wire messages -----
/// Accumulated fields of a `WasmOutput` while its members are read.
pub type OutAcc = (Option<Seq<char>>, Option<Entries>, Option<u16>, Option<Entries>);

/// The value of one `WasmOutput` member, dispatched on the key: `body` a
/// string, `headers` and `kv` objects of strings, `status` a `u16` number,
/// anything else any JSON value, ignored. A repeated known key takes the
/// last value.
pub open spec fn parse_out_value(key: Seq<char>, s: Seq<char>, acc: OutAcc) -> Option<
    (OutAcc, Seq<char>),
> {
    if key == "body"@ {
        if s.len() > 0 && s[0] == '"' {
            match parse_jstr(s.drop_first()) {
                None => None,
                Some((v, r)) => Some(((Some(v), acc.1, acc.2, acc.3), r)),
            }
        } else {
            None
        }
    } else if key == "headers"@ {
        match parse_strmap(s) {
            None => None,
            Some((m, r)) => Some(((acc.0, Some(m), acc.2, acc.3), r)),
        }
    } else if key == "status"@ {
        match parse_u16(s) {
            None => None,
            Some((n, r)) => Some(((acc.0, acc.1, Some(n), acc.3), r)),
        }
    } else if key == "kv"@ {
        match parse_strmap(s) {
            None => None,
            Some((m, r)) => Some(((acc.0, acc.1, acc.2, Some(m)), r)),
        }
    } else {
        match skip_value(s) {
            None => None,
            Some(r) => Some((acc, r)),
        }
    }
}

/// Members of a `WasmOutput` object, `s` standing after the opening brace
/// (when `first`) or after a comma.
pub open spec fn parse_out_members(s: Seq<char>, acc: OutAcc, first: bool) -> Option<
    (OutAcc, Seq<char>),
>
    decreases s.len(),
{
    let t = skip_ws(s);
    if t.len() == 0 {
        None
    } else if first && t[0] == '}' {
        Some((acc, t.drop_first()))
    } else if t[0] == '"' {
        match parse_jstr(t.drop_first()) {
            None => None,
            Some((k, r1)) => {
                let r2 = skip_ws(r1);
                if r2.len() > 0 && r2[0] == ':' {
                    let r3 = skip_ws(r2.drop_first());
                    match parse_out_value(k, r3, acc) {
                        None => None,
                        Some((acc2, r4)) => {
                            let r5 = skip_ws(r4);
                            if r5.len() > 0 && r5[0] == '}' {
                                Some((acc2, r5.drop_first()))
                            } else if r5.len() > 0 && r5[0] == ',' && r5.drop_first().len()
                                < s.len() {
                                parse_out_members(r5.drop_first(), acc2, false)
                            } else {
                                None
                            }
                        },
                    }
                } else {
                    None
                }
            },
        }
    } else {
        None
    }
}

/// The wire text read from the guest: one JSON object with the required
/// members `body`, `headers`, `status`, `kv` in any order, unknown members
/// ignored, nothing but whitespace after it.
pub open spec fn dec_output(s: Seq<char>) -> Option<(Seq<char>, Entries, u16, Entries)> {
    let t = skip_ws(s);
    if t.len() > 0 && t[0] == '{' {
        match parse_out_members(t.drop_first(), (None, None, None, None), true) {
            Some(((Some(b), Some(h), Some(st), Some(k)), r)) => if all_ws(r) {
                Some((b, h, st, k))
            } else {
                None
            },
            _ => None,
        }
    } else {
        None
    }
}

/// Accumulated fields of a `WasmInput` while its members are read.
pub type InAcc = (
    Option<Seq<char>>,
    Option<Seq<char>>,
    Option<Entries>,
    Option<Seq<char>>,
    Option<Entries>,
);

/// The value of one `WasmInput` member, dispatched on the key as
/// `parse_out_value` does.
pub open spec fn parse_in_value(key: Seq<char>, s: Seq<char>, acc: InAcc) -> Option<
    (InAcc, Seq<char>),
> {
    if key == "url"@ {
        if s.len() > 0 && s[0] == '"' {
            match parse_jstr(s.drop_first()) {
                None => None,
                Some((v, r)) => Some(((Some(v), acc.1, acc.2, acc.3, acc.4), r)),
            }
        } else {
            None
        }
    } else if key == "method"@ {
        if s.len() > 0 && s[0] == '"' {
            match parse_jstr(s.drop_first()) {
                None => None,
                Some((v, r)) => Some(((acc.0, Some(v), acc.2, acc.3, acc.4), r)),
            }
        } else {
            None
        }
    } else if key == "headers"@ {
        match parse_strmap(s) {
            None => None,
            Some((m, r)) => Some(((acc.0, acc.1, Some(m), acc.3, acc.4), r)),
        }
    } else if key == "body"@ {
        if s.len() > 0 && s[0] == '"' {
            match parse_jstr(s.drop_first()) {
                None => None,
                Some((v, r)) => Some(((acc.0, acc.1, acc.2, Some(v), acc.4), r)),
            }
        } else {
            None
        }
    } else if key == "kv"@ {
        match parse_strmap(s) {
            None => None,
            Some((m, r)) => Some(((acc.0, acc.1, acc.2, acc.3, Some(m)), r)),
        }
    } else {
        match skip_value(s) {
            None => None,
            Some(r) => Some((acc, r)),
        }
    }
}

/// Members of a `WasmInput` object, `s` standing after the opening brace
/// (when `first`) or after a comma.
pub open spec fn parse_in_members(s: Seq<char>, acc: InAcc, first: bool) -> Option<
    (InAcc, Seq<char>),
>
    decreases s.len(),
{
    let t = skip_ws(s);
    if t.len() == 0 {
        None
    } else if first && t[0] == '}' {
        Some((acc, t.drop_first()))
    } else if t[0] == '"' {
        match parse_jstr(t.drop_first()) {
            None => None,
            Some((k, r1)) => {
                let r2 = skip_ws(r1);
                if r2.len() > 0 && r2[0] == ':' {
                    let r3 = skip_ws(r2.drop_first());
                    match parse_in_value(k, r3, acc) {
                        None => None,
                        Some((acc2, r4)) => {
                            let r5 = skip_ws(r4);
                            if r5.len() > 0 && r5[0] == '}' {
                                Some((acc2, r5.drop_first()))
                            } else if r5.len() > 0 && r5[0] == ',' && r5.drop_first().len()
                                < s.len() {
                                parse_in_members(r5.drop_first(), acc2, false)
                            } else {
                                None
                            }
                        },
                    }
                } else {
                    None
                }
            },
        }
    } else {
        None
    }
}

/// A `WasmInput` read back from wire text: one JSON object with the required
/// members `url`, `method`, `headers`, `body`, `kv` in any order, unknown
/// members ignored, nothing but whitespace after it.
pub open spec fn dec_input(s: Seq<char>) -> Option<
    (Seq<char>, Seq<char>, Entries, Seq<char>, Entries),
> {
    let t = skip_ws(s);
    if t.len() > 0 && t[0] == '{' {
        match parse_in_members(t.drop_first(), (None, None, None, None, None), true) {
            Some(((Some(u), Some(m), Some(h), Some(b), Some(k)), r)) => if all_ws(r) {
                Some((u, m, h, b, k))
            } else {
                None
            },
            _ => None,
        }
    } else {
        None
    }
}

} // verus!
