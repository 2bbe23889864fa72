use vstd::prelude::*;

verus! {

/// What kind of artifact a path names.
#[derive(Clone, Copy, PartialEq, Eq, Structural, Debug)]
pub enum RunnerHandlerType {
    /// A native Wasm module.
    Wasm,
    /// A JavaScript source file, run by the embedded engine.
    JavaScript,
}

// ---------------------------------------------------------------------------
// The path model: the final extension, as the standard library's path
// component rules read it (trailing separators and `.` segments ignored, a
// name that is all extension has none).
// ---------------------------------------------------------------------------
/// Drops trailing separators and trailing `.` segments; a bare `.` path is
/// dropped whole.
pub open spec fn strip_tail(p: Seq<char>) -> Seq<char>
    decreases p.len(),
{
    if p.len() > 0 && p.last() == '/' {
        strip_tail(p.drop_last())
    } else if p.len() >= 2 && p.last() == '.' && p[p.len() - 2] == '/' {
        strip_tail(p.drop_last())
    } else if p.len() == 1 && p[0] == '.' {
        Seq::empty()
    } else {
        p
    }
}

/// Index of the last separator, `-1` if there is none.
pub open spec fn last_slash(p: Seq<char>) -> int
    decreases p.len(),
{
    if p.len() == 0 {
        -1
    } else if p.last() == '/' {
        p.len() - 1
    } else {
        last_slash(p.drop_last())
    }
}

/// Index of the last dot, `-1` if there is none.
pub open spec fn last_dot(p: Seq<char>) -> int
    decreases p.len(),
{
    if p.len() == 0 {
        -1
    } else if p.last() == '.' {
        p.len() - 1
    } else {
        last_dot(p.drop_last())
    }
}

/// The path's final component, if it names a file: what follows the last
/// separator once the tail is stripped; a `..` component names none.
pub open spec fn file_name_of(p: Seq<char>) -> Option<Seq<char>> {
    let q = strip_tail(p);
    if q.len() == 0 {
        None
    } else {
        let c = q.skip(last_slash(q) + 1);
        if c.len() == 2 && c[0] == '.' && c[1] == '.' {
            None
        } else {
            Some(c)
        }
    }
}

/// The final extension: what follows the last dot of the file name, when
/// that dot is not its first character.
pub open spec fn extension_of(p: Seq<char>) -> Option<Seq<char>> {
    match file_name_of(p) {
        None => None,
        Some(c) => {
            let d = last_dot(c);
            if d > 0 {
                Some(c.skip(d + 1))
            } else {
                None
            }
        },
    }
}

/// A path names a JavaScript artifact exactly when its final extension,
/// compared case-sensitively, is `js`.
pub open spec fn spec_is_js(p: Seq<char>) -> bool {
    extension_of(p) == Some("js"@)
}

pub open spec fn spec_classify(p: Seq<char>) -> RunnerHandlerType {
    if spec_is_js(p) {
        RunnerHandlerType::JavaScript
    } else {
        RunnerHandlerType::Wasm
    }
}

// ---------------------------------------------------------------------------
// Facts about the model.
// ---------------------------------------------------------------------------
pub proof fn lemma_last_slash(p: Seq<char>)
    ensures
        -1 <= last_slash(p) < p.len(),
        last_slash(p) >= 0 ==> p[last_slash(p)] == '/',
        forall|j: int| last_slash(p) < j < p.len() ==> p[j] != '/',
    decreases p.len(),
{
    if p.len() > 0 && p.last() != '/' {
        lemma_last_slash(p.drop_last());
        assert forall|j: int| last_slash(p) < j < p.len() implies p[j] != '/' by {
            if j < p.len() - 1 {
                assert(p.drop_last()[j] == p[j]);
            }
        }
    }
}

pub proof fn lemma_last_dot(p: Seq<char>)
    ensures
        -1 <= last_dot(p) < p.len(),
        last_dot(p) >= 0 ==> p[last_dot(p)] == '.',
        forall|j: int| last_dot(p) < j < p.len() ==> p[j] != '.',
    decreases p.len(),
{
    if p.len() > 0 && p.last() != '.' {
        lemma_last_dot(p.drop_last());
        assert forall|j: int| last_dot(p) < j < p.len() implies p[j] != '.' by {
            if j < p.len() - 1 {
                assert(p.drop_last()[j] == p[j]);
            }
        }
    }
}

/// The last dot is the greatest index holding a dot.
pub proof fn lemma_last_dot_at(p: Seq<char>, i: int)
    requires
        0 <= i < p.len(),
        p[i] == '.',
        forall|j: int| i < j < p.len() ==> p[j] != '.',
    ensures
        last_dot(p) == i,
    decreases p.len(),
{
    if p.len() - 1 == i {
    } else {
        assert(p.last() != '.');
        assert(p.drop_last()[i] == p[i]);
        assert forall|j: int| i < j < p.drop_last().len() implies p.drop_last()[j] != '.' by {
            assert(p.drop_last()[j] == p[j]);
        }
        lemma_last_dot_at(p.drop_last(), i);
    }
}

/// The last slash is the greatest index holding a slash.
pub proof fn lemma_last_slash_at(p: Seq<char>, i: int)
    requires
        0 <= i < p.len(),
        p[i] == '/',
        forall|j: int| i < j < p.len() ==> p[j] != '/',
    ensures
        last_slash(p) == i,
    decreases p.len(),
{
    if p.len() - 1 == i {
    } else {
        assert(p.last() != '/');
        assert(p.drop_last()[i] == p[i]);
        assert forall|j: int| i < j < p.drop_last().len() implies p.drop_last()[j] != '/' by {
            assert(p.drop_last()[j] == p[j]);
        }
        lemma_last_slash_at(p.drop_last(), i);
    }
}

/// No slash at all: the whole path is the candidate component.
pub proof fn lemma_no_slash(p: Seq<char>)
    requires
        forall|j: int| 0 <= j < p.len() ==> p[j] != '/',
    ensures
        last_slash(p) == -1,
    decreases p.len(),
{
    if p.len() > 0 {
        assert(p.last() != '/');
        assert forall|j: int| 0 <= j < p.drop_last().len() implies p.drop_last()[j] != '/' by {
            assert(p.drop_last()[j] == p[j]);
        }
        lemma_no_slash(p.drop_last());
    }
}

/// No dot at all: the component has no extension.
pub proof fn lemma_no_dot(p: Seq<char>)
    requires
        forall|j: int| 0 <= j < p.len() ==> p[j] != '.',
    ensures
        last_dot(p) == -1,
    decreases p.len(),
{
    if p.len() > 0 {
        assert(p.last() != '.');
        assert forall|j: int| 0 <= j < p.drop_last().len() implies p.drop_last()[j] != '.' by {
            assert(p.drop_last()[j] == p[j]);
        }
        lemma_no_dot(p.drop_last());
    }
}

// ---------------------------------------------------------------------------
// The executable classifier.
// ---------------------------------------------------------------------------
/// Whether the path names a JavaScript artifact: its final extension,
/// compared case-sensitively, is `js`.
pub fn is_js_file(path: &str) -> (r: bool)
    ensures
        r == spec_is_js(path@),
{
    let n = path.unicode_len();
    let mut end: usize = n;
    proof {
        assert(path@.take(n as int) =~= path@);
    }
    loop
        invariant
            n == path@.len(),
            end <= n,
            strip_tail(path@) == strip_tail(path@.take(end as int)),
        ensures
            end <= n,
            strip_tail(path@) == path@.take(end as int),
        decreases end,
    {
        if end > 0 && path.get_char(end - 1) == '/' {
            proof {
                assert(path@.take(end as int).drop_last() =~= path@.take(end - 1 as int));
            }
            end = end - 1;
        } else if end >= 2 && path.get_char(end - 1) == '.' && path.get_char(end - 2) == '/' {
            proof {
                assert(path@.take(end as int).drop_last() =~= path@.take(end - 1 as int));
            }
            end = end - 1;
        } else if end == 1 && path.get_char(0) == '.' {
            proof {
                assert(strip_tail(path@.take(1int)) =~= Seq::<char>::empty());
                assert(path@.take(0int) =~= Seq::<char>::empty());
            }
            end = 0;
            break ;
        } else {
            proof {
                assert(strip_tail(path@.take(end as int)) == path@.take(end as int));
            }
            break ;
        }
    }
    if end == 0 {
        return false;
    }
    let ghost q = path@.take(end as int);
    // Find the last separator inside the stripped path.
    let mut i: usize = end;
    while i > 0 && path.get_char(i - 1) != '/'
        invariant
            n == path@.len(),
            end <= n,
            i <= end,
            0 < end,
            q == path@.take(end as int),
            strip_tail(path@) == q,
            forall|j: int| i <= j < end ==> path@[j] != '/',
        decreases i,
    {
        i = i - 1;
    }
    proof {
        assert forall|j: int| i <= j < q.len() implies q[j] != '/' by {
            assert(q[j] == path@[j]);
        }
        if i == 0 {
            lemma_no_slash(q);
        } else {
            assert(q[i - 1] == path@[i - 1]);
            lemma_last_slash_at(q, i - 1);
        }
        assert(last_slash(q) + 1 == i);
    }
    let ghost c = q.skip(i as int);
    proof {
        assert(c.len() == end - i);
        assert(forall|j: int| 0 <= j < c.len() ==> c[j] == path@[i + j]);
    }
    // A `..` component names no file.
    if end - i == 2 && path.get_char(i) == '.' && path.get_char(i + 1) == '.' {
        proof {
            assert(file_name_of(path@) is None);
        }
        return false;
    }
    proof {
        assert(file_name_of(path@) == Some(c));
    }
    // Find the last dot inside the component.
    let mut j: usize = end;
    while j > i && path.get_char(j - 1) != '.'
        invariant
            n == path@.len(),
            end <= n,
            i <= j <= end,
            forall|jj: int| j <= jj < end ==> path@[jj] != '.',
        decreases j,
    {
        j = j - 1;
    }
    if j == i {
        // No dot: no extension.
        proof {
            assert forall|jj: int| 0 <= jj < c.len() implies c[jj] != '.' by {
                assert(c[jj] == path@[i + jj]);
            }
            lemma_no_dot(c);
        }
        return false;
    }
    proof {
        assert(c[j - 1 - i] == path@[j - 1]);
        assert(path@[j - 1] == '.');
        assert forall|jj: int| j - 1 - i < jj < c.len() implies c[jj] != '.' by {
            assert(c[jj] == path@[i + jj]);
        }
        lemma_last_dot_at(c, j - 1 - i);
    }
    if j == i + 1 {
        // The dot is the component's first character: a dot file, no
        // extension.
        return false;
    }
    let has = end - j == 2 && path.get_char(j) == 'j' && path.get_char(j + 1) == 's';
    proof {
        reveal_strlit("js");
        let d = last_dot(c);
        assert(d == j - 1 - i && d > 0);
        let ext = c.skip(d + 1);
        assert(ext.len() == end - j);
        assert(forall|jj: int| 0 <= jj < ext.len() ==> ext[jj] == path@[j + jj]);
        if has {
            assert(ext =~= "js"@);
        } else {
            if end - j != 2 {
                assert(ext.len() != "js"@.len());
            } else if path@[j as int] != 'j' {
                assert(ext[0] != "js"@[0]);
            } else {
                assert(ext[1] != "js"@[1]);
            }
            assert(ext != "js"@);
        }
    }
    has
}

/// Decides from the artifact path which kind of runner it needs: a path
/// whose final extension is `js` is JavaScript, every other path is a
/// native Wasm module.
pub fn classify(path: &str) -> (r: RunnerHandlerType)
    ensures
        r == spec_classify(path@),
{
    if is_js_file(path) {
        RunnerHandlerType::JavaScript
    } else {
        RunnerHandlerType::Wasm
    }
}

// ---------------------------------------------------------------------------
// Laws of the classifier.
// ---------------------------------------------------------------------------
/// A path ending in `.js` classifies as JavaScript, provided the `.js` is a
/// real extension: some character stands before the dot in the same
/// component (`.js` alone, or `dir/.js`, is a dot file and classifies as
/// Wasm).
pub proof fn lemma_js_suffix_is_js(p: Seq<char>)
    requires
        p.len() >= 4,
        p.subrange(p.len() - 3, p.len() as int) == ".js"@,
        p[p.len() - 4] != '/',
    ensures
        spec_classify(p) == RunnerHandlerType::JavaScript,
{
    reveal_strlit(".js");
    reveal_strlit("js");
    let n = p.len() as int;
    assert(p[n - 3] == p.subrange(n - 3, n)[0]);
    assert(p[n - 2] == p.subrange(n - 3, n)[1]);
    assert(p[n - 1] == p.subrange(n - 3, n)[2]);
    assert(p[n - 3] == '.' && p[n - 2] == 'j' && p[n - 1] == 's');
    assert(strip_tail(p) == p);
    lemma_last_slash(p);
    let ls = last_slash(p);
    assert(ls < n - 4) by {
        if ls >= n - 4 {
            assert(p[ls] == '/');
        }
    }
    let c = p.skip(ls + 1);
    assert(c.len() == n - ls - 1 >= 4);
    assert(forall|k: int| 0 <= k < c.len() ==> c[k] == p[ls + 1 + k]);
    assert(file_name_of(p) == Some(c));
    let d = c.len() - 3;
    assert(c[d] == '.' && c[d + 1] == 'j' && c[d + 2] == 's');
    assert forall|k: int| d < k < c.len() implies c[k] != '.' by {
        assert(c[k] == p[ls + 1 + k]);
    }
    lemma_last_dot_at(c, d);
    assert(d > 0);
    let ext = c.skip(d + 1);
    assert(ext =~= "js"@);
    assert(extension_of(p) == Some("js"@));
}

/// A path not ending in `.js` classifies as Wasm, provided it is clean of
/// trailing separators and `.` segments (a path such as `a.js/` still names
/// `a.js` and classifies as JavaScript).
pub proof fn lemma_no_js_suffix_is_wasm(p: Seq<char>)
    requires
        strip_tail(p) == p,
        p.len() < 3 || p.subrange(p.len() - 3, p.len() as int) != ".js"@,
    ensures
        spec_classify(p) == RunnerHandlerType::Wasm,
{
    reveal_strlit(".js");
    reveal_strlit("js");
    if spec_is_js(p) {
        let n = p.len() as int;
        assert(file_name_of(p) is Some);
        assert(p.len() > 0);
        lemma_last_slash(p);
        let ls = last_slash(p);
        let c = p.skip(ls + 1);
        assert(file_name_of(p) == Some(c));
        let d = last_dot(c);
        assert(d > 0 && c.skip(d + 1) == "js"@);
        lemma_last_dot(c);
        assert(c[d] == '.');
        assert(c.skip(d + 1).len() == 2);
        assert(d == c.len() - 3);
        assert(c.skip(d + 1)[0] == c[d + 1] && c.skip(d + 1)[1] == c[d + 2]);
        assert(c[d + 1] == 'j' && c[d + 2] == 's');
        assert(forall|k: int| 0 <= k < c.len() ==> c[k] == p[ls + 1 + k]);
        assert(n >= ls + 1 + c.len());
        assert(p[n - 3] == '.' && p[n - 2] == 'j' && p[n - 1] == 's');
        assert(p.subrange(n - 3, n) =~= ".js"@);
        assert(false);
    }
}

} // verus!
