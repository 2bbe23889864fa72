use vstd::prelude::*;
use crate::json_text::{
    dec_digits, enc_entries, enc_input, enc_map, esc, esc_char, hex_char, quoted,
};
use crate::kv::KvMap;
use crate::message::WasmInput;
use crate::strutil::push_char;

verus! {

/// One hexadecimal digit character, lower case.
fn hex_char_exec(d: u8) -> (c: char)
    requires
        d < 16,
    ensures
        c == hex_char(d as nat),
{
    if d == 0 {
        '0'
    } else if d == 1 {
        '1'
    } else if d == 2 {
        '2'
    } else if d == 3 {
        '3'
    } else if d == 4 {
        '4'
    } else if d == 5 {
        '5'
    } else if d == 6 {
        '6'
    } else if d == 7 {
        '7'
    } else if d == 8 {
        '8'
    } else if d == 9 {
        '9'
    } else if d == 10 {
        'a'
    } else if d == 11 {
        'b'
    } else if d == 12 {
        'c'
    } else if d == 13 {
        'd'
    } else if d == 14 {
        'e'
    } else {
        'f'
    }
}

/// Appends the JSON escape of one character.
fn esc_char_push(out: &mut String, c: char)
    ensures
        final(out)@ == old(out)@ + esc_char(c),
{
    if c == '"' {
        push_char(out, '\\');
        push_char(out, '"');
    } else if c == '\\' {
        push_char(out, '\\');
        push_char(out, '\\');
    } else if c == '\u{8}' {
        push_char(out, '\\');
        push_char(out, 'b');
    } else if c == '\u{C}' {
        push_char(out, '\\');
        push_char(out, 'f');
    } else if c == '\n' {
        push_char(out, '\\');
        push_char(out, 'n');
    } else if c == '\r' {
        push_char(out, '\\');
        push_char(out, 'r');
    } else if c == '\t' {
        push_char(out, '\\');
        push_char(out, 't');
    } else {
        let v = c as u32;
        if v < 32 {
            push_char(out, '\\');
            push_char(out, 'u');
            push_char(out, '0');
            push_char(out, '0');
            push_char(out, hex_char_exec((v / 16) as u8));
            push_char(out, hex_char_exec((v % 16) as u8));
        } else {
            push_char(out, c);
        }
    }
    proof {
        assert(final(out)@ =~= old(out)@ + esc_char(c));
    }
}

/// Appends the escaped form of a whole string.
fn esc_push(out: &mut String, s: &str)
    ensures
        final(out)@ == old(out)@ + esc(s@),
{
    let n = s.unicode_len();
    let mut i: usize = 0;
    while i < n
        invariant
            n == s@.len(),
            i <= n,
            out@ == old(out)@ + esc(s@.take(i as int)),
        decreases n - i,
    {
        let c = s.get_char(i);
        esc_char_push(out, c);
        proof {
            assert(s@.take(i + 1 as int).drop_last() =~= s@.take(i as int));
            assert(s@.take(i + 1 as int).last() == s@[i as int]);
        }
        i = i + 1;
    }
    proof {
        assert(s@.take(n as int) =~= s@);
    }
}

/// Appends a JSON string literal.
fn quoted_push(out: &mut String, s: &str)
    ensures
        final(out)@ == old(out)@ + quoted(s@),
{
    push_char(out, '"');
    esc_push(out, s);
    push_char(out, '"');
    proof {
        assert(final(out)@ =~= old(out)@ + quoted(s@));
    }
}

/// Appends the comma-joined `"k":"v"` pairs of a mapping, in entry order.
fn entries_push(out: &mut String, m: &KvMap)
    ensures
        final(out)@ == old(out)@ + enc_entries(m@),
{
    let n = m.entries.len();
    let mut i: usize = 0;
    while i < n
        invariant
            n == m.entries@.len(),
            n == m@.len(),
            i <= n,
            out@ == old(out)@ + enc_entries(m@.take(i as int)),
        decreases n - i,
    {
        if i > 0 {
            push_char(out, ',');
        }
        quoted_push(out, m.entries[i].0.as_str());
        push_char(out, ':');
        quoted_push(out, m.entries[i].1.as_str());
        proof {
            let e = m@;
            assert(e.take(i + 1 as int).drop_last() =~= e.take(i as int));
            assert(e.take(i + 1 as int).last() == e[i as int]);
            assert(e[i as int].0 == m.entries@[i as int].0@);
            assert(e[i as int].1 == m.entries@[i as int].1@);
            if i == 0 {
                assert(out@ =~= old(out)@ + enc_entries(e.take(i + 1 as int)));
            } else {
                assert(out@ =~= old(out)@ + enc_entries(e.take(i + 1 as int)));
            }
        }
        i = i + 1;
    }
    proof {
        assert(m@.take(n as int) =~= m@);
    }
}

/// Appends a mapping as a JSON object of strings.
fn map_push(out: &mut String, m: &KvMap)
    ensures
        final(out)@ == old(out)@ + enc_map(m@),
{
    push_char(out, '{');
    entries_push(out, m);
    push_char(out, '}');
    proof {
        assert(final(out)@ =~= old(out)@ + enc_map(m@));
    }
}

/// Appends a number in decimal.
fn u16_push(out: &mut String, n: u16)
    ensures
        final(out)@ == old(out)@ + dec_digits(n as nat),
    decreases n,
{
    if n < 10 {
        push_char(out, hex_char_exec(n as u8));
        proof {
            assert(final(out)@ =~= old(out)@ + dec_digits(n as nat));
        }
    } else {
        u16_push(out, n / 10);
        push_char(out, hex_char_exec((n % 10) as u8));
        proof {
            assert(final(out)@ =~= old(out)@ + dec_digits(n as nat));
        }
    }
}

/// Serializes a `WasmInput` to its wire text: one JSON object, fields in
/// the fixed order `url`, `method`, `headers`, `body`, `kv`.
pub fn encode_wasm_input(input: &WasmInput) -> (r: String)
    ensures
        r@ == enc_input(input.url@, input.method@, input.headers@, input.body@, input.kv@),
{
    let mut out = String::new();
    push_char(&mut out, '{');
    quoted_push(&mut out, "url");
    push_char(&mut out, ':');
    quoted_push(&mut out, input.url.as_str());
    push_char(&mut out, ',');
    quoted_push(&mut out, "method");
    push_char(&mut out, ':');
    quoted_push(&mut out, input.method.as_str());
    push_char(&mut out, ',');
    quoted_push(&mut out, "headers");
    push_char(&mut out, ':');
    map_push(&mut out, &input.headers);
    push_char(&mut out, ',');
    quoted_push(&mut out, "body");
    push_char(&mut out, ':');
    quoted_push(&mut out, input.body.as_str());
    push_char(&mut out, ',');
    quoted_push(&mut out, "kv");
    push_char(&mut out, ':');
    map_push(&mut out, &input.kv);
    push_char(&mut out, '}');
    proof {
        assert(out@ =~= enc_input(
            input.url@,
            input.method@,
            input.headers@,
            input.body@,
            input.kv@,
        ));
    }
    out
}

} // verus!
