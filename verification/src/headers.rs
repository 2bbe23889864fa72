use vstd::prelude::*;
use crate::error::RunnerError;
use crate::kv::{Entries, KvMap, spec_upsert};
use crate::strutil::push_char;

verus! {

/// A byte that may appear in a header value's textual form: printable
/// ASCII, or the horizontal tab.
pub open spec fn is_header_text_byte(b: u8) -> bool {
    b == 9 || (32 <= b && b < 127)
}

pub open spec fn all_text(bs: Seq<u8>) -> bool {
    forall|i: int| 0 <= i < bs.len() ==> is_header_text_byte(bs[i])
}

/// The characters of a textual header value.
pub open spec fn text_chars(bs: Seq<u8>) -> Seq<char> {
    bs.map_values(|b: u8| b as char)
}

/// The view of raw header pairs: names as character sequences, values as
/// byte sequences.
pub open spec fn raw_views(raw: Seq<(String, Vec<u8>)>) -> Seq<(Seq<char>, Seq<u8>)> {
    raw.map_values(|p: (String, Vec<u8>)| (p.0@, p.1@))
}

/// Folding the raw pairs into a mapping: each value must be text; a
/// repeated name keeps the last value seen.
pub open spec fn spec_build_headers(raw: Seq<(Seq<char>, Seq<u8>)>, acc: Entries) -> Option<
    Entries,
>
    decreases raw.len(),
{
    if raw.len() == 0 {
        Some(acc)
    } else if all_text(raw[0].1) {
        spec_build_headers(raw.drop_first(), spec_upsert(acc, raw[0].0, text_chars(raw[0].1)))
    } else {
        None
    }
}

/// Decodes one header value to text; a byte outside the textual range is a
/// `HeaderDecode` error.
pub fn header_value_text(bytes: &Vec<u8>) -> (r: Result<String, RunnerError>)
    ensures
        match r {
            Ok(s) => all_text(bytes@) && s@ == text_chars(bytes@),
            Err(e) => e == RunnerError::HeaderDecode && !all_text(bytes@),
        },
{
    let n = bytes.len();
    let mut out = String::new();
    let mut i: usize = 0;
    while i < n
        invariant
            n == bytes@.len(),
            i <= n,
            forall|j: int| 0 <= j < i ==> is_header_text_byte(bytes@[j]),
            out@ == text_chars(bytes@.take(i as int)),
        decreases n - i,
    {
        let b = bytes[i];
        if !(b == 9 || (32 <= b && b < 127)) {
            return Err(RunnerError::HeaderDecode);
        }
        push_char(&mut out, b as char);
        proof {
            assert(out@ =~= text_chars(bytes@.take(i + 1 as int)));
        }
        i = i + 1;
    }
    proof {
        assert(bytes@.take(n as int) =~= bytes@);
    }
    Ok(out)
}

/// Builds the header mapping from the request's header pairs, in their
/// order: each value is decoded to text, and a repeated name overwrites, so
/// the last value observed wins. A non-text value aborts with
/// `HeaderDecode`.
pub fn build_headers_hash(raw: &Vec<(String, Vec<u8>)>) -> (r: Result<KvMap, RunnerError>)
    ensures
        match r {
            Ok(m) => spec_build_headers(raw_views(raw@), Seq::empty()) == Some(m@) && m.wf(),
            Err(e) => e == RunnerError::HeaderDecode && spec_build_headers(
                raw_views(raw@),
                Seq::empty(),
            ) is None,
        },
{
    let n = raw.len();
    let mut m = KvMap::new();
    let mut i: usize = 0;
    proof {
        assert(raw_views(raw@).skip(0) =~= raw_views(raw@));
    }
    while i < n
        invariant
            n == raw@.len(),
            i <= n,
            m.wf(),
            spec_build_headers(raw_views(raw@), Seq::empty()) == spec_build_headers(
                raw_views(raw@).skip(i as int),
                m@,
            ),
        decreases n - i,
    {
        let ghost pre = raw_views(raw@).skip(i as int);
        proof {
            assert(pre[0] == (raw@[i as int].0@, raw@[i as int].1@));
            assert(pre.drop_first() =~= raw_views(raw@).skip(i + 1 as int));
        }
        let v = match header_value_text(&raw[i].1) {
            Ok(v) => v,
            Err(e) => {
                return Err(e);
            },
        };
        let k = raw[i].0.clone();
        m.insert(k, v);
        i = i + 1;
    }
    proof {
        assert(raw_views(raw@).skip(n as int) =~= Seq::<(Seq<char>, Seq<u8>)>::empty());
    }
    Ok(m)
}

} // verus!
