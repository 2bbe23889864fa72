use vstd::prelude::*;
use vstd::arithmetic::div_mod::lemma_fundamental_div_mod;
use crate::json_text::{
    all_ws, char_of, dec_input, enc_entries, enc_input, enc_map, esc, esc_char, hex4_at,
    hex_char, hex_val, is_ws, parse_esc, parse_in_members, parse_in_value, parse_jstr,
    parse_strmap, parse_strmap_members, quoted, skip_ws, InAcc,
};
use crate::kv::{Entries, lemma_upsert_fresh, map_wf};

verus! {

// ---------------------------------------------------------------------------
// Decoding inverts encoding: parsing the printed wire text of a `WasmInput`
// gives back the very fields that were printed.
// ---------------------------------------------------------------------------
/// A hexadecimal digit character reads back as its value.
proof fn lemma_hex_char_val(d: nat)
    requires
        d < 16,
    ensures
        hex_val(hex_char(d)) == Some(d),
{
}

/// The escape of a string, read from the front.
proof fn lemma_esc_head(s: Seq<char>)
    requires
        s.len() > 0,
    ensures
        esc(s) == esc_char(s[0]) + esc(s.drop_first()),
    decreases s.len(),
{
    if s.len() == 1 {
        assert(s.drop_last() =~= Seq::<char>::empty());
        assert(s.drop_first() =~= Seq::<char>::empty());
        assert(esc(s) =~= esc_char(s[0]) + esc(s.drop_first()));
    } else {
        lemma_esc_head(s.drop_last());
        assert(s.drop_last()[0] == s[0]);
        assert(s.drop_last().drop_first() =~= s.drop_first().drop_last());
        assert(s.drop_first().last() == s.last());
        assert(esc(s.drop_first()) == esc(s.drop_first().drop_last()) + esc_char(
            s.drop_first().last(),
        ));
        assert(esc(s) =~= esc_char(s[0]) + esc(s.drop_first()));
    }
}

/// A printed JSON string literal body parses back to the printed characters,
/// leaving the rest untouched.
#[verifier::rlimit(100)]
proof fn lemma_jstr_of_esc(s: Seq<char>, r: Seq<char>)
    ensures
        parse_jstr(esc(s) + seq!['"'] + r) == Some((s, r)),
    decreases s.len(),
{
    let t = esc(s) + seq!['"'] + r;
    if s.len() == 0 {
        assert(esc(s) =~= Seq::<char>::empty());
        assert(t =~= seq!['"'] + r);
        assert(t[0] == '"');
        assert(t.drop_first() =~= r);
        assert(s =~= Seq::<char>::empty());
    } else {
        let c = s[0];
        lemma_esc_head(s);
        lemma_jstr_of_esc(s.drop_first(), r);
        let t2 = esc(s.drop_first()) + seq!['"'] + r;
        assert(t =~= esc_char(c) + t2);
        if c == '"' || c == '\\' {
            assert(esc_char(c) =~= seq!['\\', c]);
            assert(t[0] == '\\');
            assert(t.drop_first() =~= seq![c] + t2);
            assert((seq![c] + t2)[0] == c);
            assert((seq![c] + t2).drop_first() =~= t2);
            assert(parse_esc(t.drop_first()) == Some((c, t2)));
            assert(t2.len() < t.len());
            assert(parse_jstr(t) == Some((seq![c] + s.drop_first(), r)));
            assert(seq![c] + s.drop_first() =~= s);
        } else if c == '\u{8}' || c == '\u{C}' || c == '\n' || c == '\r' || c == '\t' {
            let x = if c == '\u{8}' {
                'b'
            } else if c == '\u{C}' {
                'f'
            } else if c == '\n' {
                'n'
            } else if c == '\r' {
                'r'
            } else {
                't'
            };
            assert(esc_char(c) =~= seq!['\\', x]);
            assert(t[0] == '\\');
            assert(t.drop_first() =~= seq![x] + t2);
            assert((seq![x] + t2)[0] == x);
            assert((seq![x] + t2).drop_first() =~= t2);
            assert(parse_esc(t.drop_first()) == Some((c, t2)));
            assert(t2.len() < t.len());
            assert(parse_jstr(t) == Some((seq![c] + s.drop_first(), r)));
            assert(seq![c] + s.drop_first() =~= s);
        } else if (c as u32) < 32 {
            let v = c as u32;
            let h1 = hex_char((v / 16) as nat);
            let h2 = hex_char((v % 16) as nat);
            assert(esc_char(c) =~= seq!['\\', 'u', '0', '0', h1, h2]);
            assert(t[0] == '\\');
            let u = t.drop_first();
            assert(u =~= seq!['u', '0', '0', h1, h2] + t2);
            assert(u[0] == 'u');
            let w = u.skip(1);
            assert(w =~= seq!['0', '0', h1, h2] + t2);
            assert(w[0] == '0' && w[1] == '0' && w[2] == h1 && w[3] == h2);
            lemma_hex_char_val((v / 16) as nat);
            lemma_hex_char_val((v % 16) as nat);
            assert(hex_val('0') == Some(0nat));
            lemma_fundamental_div_mod(v as int, 16);
            assert(hex4_at(w) == Some(v as nat));
            assert(v < 0xD800);
            vstd::utf8::char_u32_cast(c, v);
            assert(char_of(v) == c);
            assert(u.skip(5) =~= t2);
            assert(parse_esc(u) == Some((c, t2)));
            assert(t2.len() < t.len());
            assert(parse_jstr(t) == Some((seq![c] + s.drop_first(), r)));
            assert(seq![c] + s.drop_first() =~= s);
        } else {
            assert(esc_char(c) =~= seq![c]);
            assert(t[0] == c);
            assert(c != '"' && c != '\\');
            assert(t.drop_first() =~= t2);
            assert(parse_jstr(t) == Some((seq![c] + s.drop_first(), r)));
            assert(seq![c] + s.drop_first() =~= s);
        }
    }
}

/// The printed entries of a mapping, read from the front.
proof fn lemma_enc_entries_head(e: Entries)
    requires
        e.len() > 0,
    ensures
        enc_entries(e) == quoted(e[0].0) + seq![':'] + quoted(e[0].1) + (if e.len() == 1 {
            Seq::<char>::empty()
        } else {
            seq![','] + enc_entries(e.drop_first())
        }),
    decreases e.len(),
{
    if e.len() == 1 {
        assert(enc_entries(e) =~= quoted(e[0].0) + seq![':'] + quoted(e[0].1)
            + Seq::<char>::empty());
    } else {
        lemma_enc_entries_head(e.drop_last());
        assert(e.drop_last()[0] == e[0]);
        assert(e.drop_last().drop_first() =~= e.drop_first().drop_last());
        assert(e.drop_first().last() == e.last());
        if e.len() == 2 {
            assert(e.drop_last().len() == 1);
            assert(e.drop_first().len() == 1);
            assert(e.drop_first()[0] == e[1]);
            assert(enc_entries(e.drop_first()) == quoted(e[1].0) + seq![':'] + quoted(e[1].1));
            assert(enc_entries(e) =~= quoted(e[0].0) + seq![':'] + quoted(e[0].1) + (seq![',']
                + enc_entries(e.drop_first())));
        } else {
            assert(enc_entries(e.drop_first()) == enc_entries(e.drop_first().drop_last())
                + seq![','] + quoted(e.drop_first().last().0) + seq![':'] + quoted(
                e.drop_first().last().1,
            ));
            assert(enc_entries(e) =~= quoted(e[0].0) + seq![':'] + quoted(e[0].1) + (seq![',']
                + enc_entries(e.drop_first())));
        }
    }
}

/// The printed members of a mapping parse back, appended onto what was read
/// before, provided no key repeats.
#[verifier::rlimit(100)]
proof fn lemma_members_of_entries(e: Entries, acc: Entries, r: Seq<char>, first: bool)
    requires
        e.len() > 0,
        map_wf(e),
        forall|i: int, j: int| 0 <= i < acc.len() && 0 <= j < e.len() ==> acc[i].0 != e[j].0,
    ensures
        parse_strmap_members(enc_entries(e) + seq!['}'] + r, acc, first) == Some((acc + e, r)),
    decreases e.len(),
{
    let k0 = e[0].0;
    let v0 = e[0].1;
    lemma_enc_entries_head(e);
    let tail_txt = if e.len() == 1 {
        seq!['}'] + r
    } else {
        seq![','] + enc_entries(e.drop_first()) + seq!['}'] + r
    };
    let s = enc_entries(e) + seq!['}'] + r;
    assert(s =~= quoted(k0) + seq![':'] + quoted(v0) + tail_txt);
    assert(s[0] == '"');
    assert(skip_ws(s) == s);
    assert(s.drop_first() =~= esc(k0) + seq!['"'] + (seq![':'] + quoted(v0) + tail_txt));
    lemma_jstr_of_esc(k0, seq![':'] + quoted(v0) + tail_txt);
    let r1 = seq![':'] + quoted(v0) + tail_txt;
    assert(parse_jstr(s.drop_first()) == Some((k0, r1)));
    assert(r1[0] == ':');
    assert(skip_ws(r1) == r1);
    let r3 = r1.drop_first();
    assert(r3 =~= quoted(v0) + tail_txt);
    assert(r3[0] == '"');
    assert(skip_ws(r3) == r3);
    assert(r3.drop_first() =~= esc(v0) + seq!['"'] + tail_txt);
    lemma_jstr_of_esc(v0, tail_txt);
    assert(parse_jstr(r3.drop_first()) == Some((v0, tail_txt)));
    assert(forall|i: int| 0 <= i < acc.len() ==> acc[i].0 != k0);
    lemma_upsert_fresh(acc, k0, v0);
    let acc2 = acc.push((k0, v0));
    if e.len() == 1 {
        assert(tail_txt[0] == '}');
        assert(skip_ws(tail_txt) == tail_txt);
        assert(parse_strmap_members(s, acc, first) == Some((acc2, tail_txt.drop_first())));
        assert(tail_txt.drop_first() =~= r);
        assert(acc2 =~= acc + e);
    } else {
        assert(tail_txt[0] == ',');
        assert(skip_ws(tail_txt) == tail_txt);
        let nxt = tail_txt.drop_first();
        assert(nxt =~= enc_entries(e.drop_first()) + seq!['}'] + r);
        assert(nxt.len() < s.len());
        assert(map_wf(e.drop_first())) by {
            assert forall|i: int, j: int|
                0 <= i < j < e.drop_first().len() implies e.drop_first()[i].0
                != e.drop_first()[j].0 by {
                assert(e.drop_first()[i] == e[i + 1] && e.drop_first()[j] == e[j + 1]);
            }
        }
        assert forall|i: int, j: int|
            0 <= i < acc2.len() && 0 <= j < e.drop_first().len() implies acc2[i].0
            != e.drop_first()[j].0 by {
            assert(e.drop_first()[j] == e[j + 1]);
            if i < acc.len() {
                assert(acc2[i] == acc[i]);
            } else {
                assert(acc2[i] == (k0, v0));
            }
        }
        lemma_members_of_entries(e.drop_first(), acc2, r, false);
        assert(parse_strmap_members(s, acc, first) == Some((acc2 + e.drop_first(), r)));
        assert(acc2 + e.drop_first() =~= acc + e);
    }
}

/// A printed mapping parses back to itself, provided no key repeats.
proof fn lemma_strmap_of_enc(e: Entries, r: Seq<char>)
    requires
        map_wf(e),
    ensures
        parse_strmap(enc_map(e) + r) == Some((e, r)),
{
    let s = enc_map(e) + r;
    assert(s[0] == '{');
    assert(s.drop_first() =~= enc_entries(e) + seq!['}'] + r);
    if e.len() == 0 {
        assert(enc_entries(e) =~= Seq::<char>::empty());
        let inner = enc_entries(e) + seq!['}'] + r;
        assert(inner =~= seq!['}'] + r);
        assert(inner[0] == '}');
        assert(skip_ws(inner) == inner);
        assert(inner.drop_first() =~= r);
        assert(parse_strmap_members(inner, Seq::empty(), true) == Some(
            (Seq::<(Seq<char>, Seq<char>)>::empty(), r),
        ));
        assert(Seq::<(Seq<char>, Seq<char>)>::empty() =~= e);
    } else {
        lemma_members_of_entries(e, Seq::empty(), r, true);
        assert(Seq::empty() + e =~= e);
    }
}

/// One member of the input object: reading `"k":<value>` advances to the
/// comma or closing brace behind it.
#[verifier::rlimit(100)]
proof fn lemma_in_member_step(
    k: Seq<char>,
    vchunk: Seq<char>,
    tail: Seq<char>,
    acc: InAcc,
    acc2: InAcc,
    first: bool,
)
    requires
        parse_in_value(k, vchunk + tail, acc) == Some((acc2, tail)),
        vchunk.len() > 0,
        !is_ws(vchunk[0]),
        tail.len() > 0,
        tail[0] == ',' || tail[0] == '}',
    ensures
        tail[0] == '}' ==> parse_in_members(quoted(k) + seq![':'] + vchunk + tail, acc, first)
            == Some((acc2, tail.drop_first())),
        tail[0] == ',' ==> parse_in_members(quoted(k) + seq![':'] + vchunk + tail, acc, first)
            == parse_in_members(tail.drop_first(), acc2, false),
{
    let s = quoted(k) + seq![':'] + vchunk + tail;
    assert(s[0] == '"');
    assert(skip_ws(s) == s);
    assert(s.drop_first() =~= esc(k) + seq!['"'] + (seq![':'] + vchunk + tail));
    lemma_jstr_of_esc(k, seq![':'] + vchunk + tail);
    let r1 = seq![':'] + vchunk + tail;
    assert(parse_jstr(s.drop_first()) == Some((k, r1)));
    assert(r1[0] == ':');
    assert(skip_ws(r1) == r1);
    let r3 = r1.drop_first();
    assert(r3 =~= vchunk + tail);
    assert(!is_ws(r3[0]));
    assert(skip_ws(r3) == r3);
    assert(parse_in_value(k, r3, acc) == Some((acc2, tail)));
    assert(skip_ws(tail) == tail);
    if tail[0] == ',' {
        assert(tail.drop_first().len() < s.len());
    }
}

// The printed input object, cut member by member. Each chunk is opaque so
// that one step of the proof sees only the member it reads.
#[verifier::opaque]
spec fn txt5(kv: Entries) -> Seq<char> {
    quoted("kv"@) + seq![':'] + enc_map(kv) + seq!['}']
}

#[verifier::opaque]
spec fn txt4(body: Seq<char>, kv: Entries) -> Seq<char> {
    quoted("body"@) + seq![':'] + quoted(body) + (seq![','] + txt5(kv))
}

#[verifier::opaque]
spec fn txt3(headers: Entries, body: Seq<char>, kv: Entries) -> Seq<char> {
    quoted("headers"@) + seq![':'] + enc_map(headers) + (seq![','] + txt4(body, kv))
}

#[verifier::opaque]
spec fn txt2(method: Seq<char>, headers: Entries, body: Seq<char>, kv: Entries) -> Seq<char> {
    quoted("method"@) + seq![':'] + quoted(method) + (seq![','] + txt3(headers, body, kv))
}

#[verifier::opaque]
spec fn txt1(
    url: Seq<char>,
    method: Seq<char>,
    headers: Entries,
    body: Seq<char>,
    kv: Entries,
) -> Seq<char> {
    quoted("url"@) + seq![':'] + quoted(url) + (seq![','] + txt2(method, headers, body, kv))
}

/// The encoder prints exactly the brace followed by the five chunks.
#[verifier::rlimit(100)]
proof fn lemma_enc_input_shape(
    url: Seq<char>,
    method: Seq<char>,
    headers: Entries,
    body: Seq<char>,
    kv: Entries,
)
    ensures
        enc_input(url, method, headers, body, kv) == seq!['{'] + txt1(
            url,
            method,
            headers,
            body,
            kv,
        ),
{
    reveal(txt1);
    reveal(txt2);
    reveal(txt3);
    reveal(txt4);
    reveal(txt5);
    assert(enc_input(url, method, headers, body, kv) =~= seq!['{'] + txt1(
        url,
        method,
        headers,
        body,
        kv,
    ));
}

/// Reading the `kv` member closes the object.
proof fn lemma_step5(kv: Entries, acc4: InAcc)
    requires
        map_wf(kv),
    ensures
        parse_in_members(txt5(kv), acc4, false) == Some(
            ((acc4.0, acc4.1, acc4.2, acc4.3, Some(kv)), Seq::<char>::empty()),
        ),
{
    reveal(txt5);
    reveal_strlit("url");
    reveal_strlit("method");
    reveal_strlit("headers");
    reveal_strlit("body");
    reveal_strlit("kv");
    assert("url"@.len() == 3 && "method"@.len() == 6 && "headers"@.len() == 7 && "body"@.len()
        == 4 && "kv"@.len() == 2);
    let rest = seq!['}'];
    let acc5 = (acc4.0, acc4.1, acc4.2, acc4.3, Some(kv));
    lemma_strmap_of_enc(kv, rest);
    assert((enc_map(kv) + rest)[0] == '{');
    assert(parse_in_value("kv"@, enc_map(kv) + rest, acc4) == Some((acc5, rest)));
    lemma_in_member_step("kv"@, enc_map(kv), rest, acc4, acc5, false);
    assert(txt5(kv) =~= quoted("kv"@) + seq![':'] + enc_map(kv) + rest);
    assert(rest.drop_first() =~= Seq::<char>::empty());
}

/// Reading the `body` member advances to the `kv` member.
proof fn lemma_step4(body: Seq<char>, kv: Entries, acc3: InAcc)
    ensures
        parse_in_members(txt4(body, kv), acc3, false) == parse_in_members(
            txt5(kv),
            (acc3.0, acc3.1, acc3.2, Some(body), acc3.4),
            false,
        ),
{
    reveal(txt4);
    reveal_strlit("url");
    reveal_strlit("method");
    reveal_strlit("headers");
    reveal_strlit("body");
    reveal_strlit("kv");
    assert("url"@.len() == 3 && "method"@.len() == 6 && "headers"@.len() == 7 && "body"@.len()
        == 4 && "kv"@.len() == 2);
    let tail = seq![','] + txt5(kv);
    let acc4 = (acc3.0, acc3.1, acc3.2, Some(body), acc3.4);
    assert((quoted(body) + tail).drop_first() =~= esc(body) + seq!['"'] + tail);
    lemma_jstr_of_esc(body, tail);
    assert(parse_in_value("body"@, quoted(body) + tail, acc3) == Some((acc4, tail)));
    assert((quoted(body) + tail)[0] == '"');
    lemma_in_member_step("body"@, quoted(body), tail, acc3, acc4, false);
    assert(txt4(body, kv) == quoted("body"@) + seq![':'] + quoted(body) + tail);
    assert(tail.drop_first() =~= txt5(kv));
}

/// Reading the `headers` member advances to the `body` member.
proof fn lemma_step3(headers: Entries, body: Seq<char>, kv: Entries, acc2: InAcc)
    requires
        map_wf(headers),
    ensures
        parse_in_members(txt3(headers, body, kv), acc2, false) == parse_in_members(
            txt4(body, kv),
            (acc2.0, acc2.1, Some(headers), acc2.3, acc2.4),
            false,
        ),
{
    reveal(txt3);
    reveal_strlit("url");
    reveal_strlit("method");
    reveal_strlit("headers");
    reveal_strlit("body");
    reveal_strlit("kv");
    assert("url"@.len() == 3 && "method"@.len() == 6 && "headers"@.len() == 7 && "body"@.len()
        == 4 && "kv"@.len() == 2);
    let tail = seq![','] + txt4(body, kv);
    let acc3 = (acc2.0, acc2.1, Some(headers), acc2.3, acc2.4);
    lemma_strmap_of_enc(headers, tail);
    assert((enc_map(headers) + tail)[0] == '{');
    assert(parse_in_value("headers"@, enc_map(headers) + tail, acc2) == Some((acc3, tail)));
    lemma_in_member_step("headers"@, enc_map(headers), tail, acc2, acc3, false);
    assert(txt3(headers, body, kv) == quoted("headers"@) + seq![':'] + enc_map(headers) + tail);
    assert(tail.drop_first() =~= txt4(body, kv));
}

/// Reading the `method` member advances to the `headers` member.
proof fn lemma_step2(
    method: Seq<char>,
    headers: Entries,
    body: Seq<char>,
    kv: Entries,
    acc1: InAcc,
)
    ensures
        parse_in_members(txt2(method, headers, body, kv), acc1, false) == parse_in_members(
            txt3(headers, body, kv),
            (acc1.0, Some(method), acc1.2, acc1.3, acc1.4),
            false,
        ),
{
    reveal(txt2);
    reveal_strlit("url");
    reveal_strlit("method");
    reveal_strlit("headers");
    reveal_strlit("body");
    reveal_strlit("kv");
    assert("url"@.len() == 3 && "method"@.len() == 6 && "headers"@.len() == 7 && "body"@.len()
        == 4 && "kv"@.len() == 2);
    let tail = seq![','] + txt3(headers, body, kv);
    let acc2 = (acc1.0, Some(method), acc1.2, acc1.3, acc1.4);
    assert((quoted(method) + tail).drop_first() =~= esc(method) + seq!['"'] + tail);
    lemma_jstr_of_esc(method, tail);
    assert(parse_in_value("method"@, quoted(method) + tail, acc1) == Some((acc2, tail)));
    assert((quoted(method) + tail)[0] == '"');
    lemma_in_member_step("method"@, quoted(method), tail, acc1, acc2, false);
    assert(txt2(method, headers, body, kv) == quoted("method"@) + seq![':'] + quoted(method)
        + tail);
    assert(tail.drop_first() =~= txt3(headers, body, kv));
}

/// Reading the `url` member, the object's first, advances to the `method`
/// member.
proof fn lemma_step1(
    url: Seq<char>,
    method: Seq<char>,
    headers: Entries,
    body: Seq<char>,
    kv: Entries,
    acc0: InAcc,
)
    ensures
        parse_in_members(txt1(url, method, headers, body, kv), acc0, true) == parse_in_members(
            txt2(method, headers, body, kv),
            (Some(url), acc0.1, acc0.2, acc0.3, acc0.4),
            false,
        ),
{
    reveal(txt1);
    reveal_strlit("url");
    assert("url"@.len() == 3);
    let tail = seq![','] + txt2(method, headers, body, kv);
    let acc1 = (Some(url), acc0.1, acc0.2, acc0.3, acc0.4);
    assert((quoted(url) + tail).drop_first() =~= esc(url) + seq!['"'] + tail);
    lemma_jstr_of_esc(url, tail);
    assert(parse_in_value("url"@, quoted(url) + tail, acc0) == Some((acc1, tail)));
    assert((quoted(url) + tail)[0] == '"');
    lemma_in_member_step("url"@, quoted(url), tail, acc0, acc1, true);
    assert(txt1(url, method, headers, body, kv) == quoted("url"@) + seq![':'] + quoted(url)
        + tail);
    assert(tail.drop_first() =~= txt2(method, headers, body, kv));
}

/// Decoding inverts encoding: the wire text of any `WasmInput` whose
/// mappings carry pairwise distinct keys reads back as exactly the fields
/// that were printed.
#[verifier::rlimit(100)]
#[verifier::spinoff_prover]
pub proof fn lemma_decode_inverts_encode(
    url: Seq<char>,
    method: Seq<char>,
    headers: Entries,
    body: Seq<char>,
    kv: Entries,
)
    requires
        map_wf(headers),
        map_wf(kv),
    ensures
        dec_input(enc_input(url, method, headers, body, kv)) == Some(
            (url, method, headers, body, kv),
        ),
{
    let t = enc_input(url, method, headers, body, kv);
    lemma_enc_input_shape(url, method, headers, body, kv);
    assert(t[0] == '{');
    assert(!is_ws('{'));
    assert(skip_ws(t) == t);
    assert(t.drop_first() =~= txt1(url, method, headers, body, kv));
    let acc0: InAcc = (None, None, None, None, None);
    lemma_step1(url, method, headers, body, kv, acc0);
    let acc1: InAcc = (Some(url), None, None, None, None);
    lemma_step2(method, headers, body, kv, acc1);
    let acc2: InAcc = (Some(url), Some(method), None, None, None);
    lemma_step3(headers, body, kv, acc2);
    let acc3: InAcc = (Some(url), Some(method), Some(headers), None, None);
    lemma_step4(body, kv, acc3);
    let acc4: InAcc = (Some(url), Some(method), Some(headers), Some(body), None);
    lemma_step5(kv, acc4);
    let acc5: InAcc = (Some(url), Some(method), Some(headers), Some(body), Some(kv));
    assert(parse_in_members(t.drop_first(), acc0, true) == Some((acc5, Seq::<char>::empty())));
    assert(all_ws(Seq::<char>::empty()));
}

} // verus!
