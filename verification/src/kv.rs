use vstd::prelude::*;

verus! {

/// The mathematical model of a string-to-string mapping: the entry list, in
/// insertion order, each entry a key and a value.
pub type Entries = Seq<(Seq<char>, Seq<char>)>;

/// Index of the first entry with key `k`, or `-1` if there is none.
pub open spec fn key_idx(e: Entries, k: Seq<char>) -> int
    decreases e.len(),
{
    if e.len() == 0 {
        -1
    } else if e[0].0 == k {
        0
    } else {
        let r = key_idx(e.drop_first(), k);
        if r < 0 {
            -1
        } else {
            r + 1
        }
    }
}

pub open spec fn has_key(e: Entries, k: Seq<char>) -> bool {
    key_idx(e, k) >= 0
}

/// Replaces the value of the first entry with key `k`, or appends a new
/// entry when no entry has that key.
pub open spec fn spec_upsert(e: Entries, k: Seq<char>, v: Seq<char>) -> Entries {
    if has_key(e, k) {
        e.update(key_idx(e, k), (k, v))
    } else {
        e.push((k, v))
    }
}

pub open spec fn spec_get(e: Entries, k: Seq<char>) -> Option<Seq<char>> {
    if has_key(e, k) {
        Some(e[key_idx(e, k)].1)
    } else {
        None
    }
}

/// Keys are pairwise distinct.
pub open spec fn map_wf(e: Entries) -> bool {
    forall|i: int, j: int| 0 <= i < j < e.len() ==> e[i].0 != e[j].0
}

pub proof fn lemma_key_idx(e: Entries, k: Seq<char>)
    ensures
        -1 <= key_idx(e, k) < e.len(),
        key_idx(e, k) >= 0 ==> e[key_idx(e, k)].0 == k,
        forall|j: int| 0 <= j < e.len() && e[j].0 == k ==> key_idx(e, k) >= 0,
        forall|j: int| 0 <= j < key_idx(e, k) ==> e[j].0 != k,
        !has_key(e, k) ==> forall|j: int| 0 <= j < e.len() ==> e[j].0 != k,
    decreases e.len(),
{
    if e.len() > 0 && e[0].0 != k {
        lemma_key_idx(e.drop_first(), k);
        assert forall|j: int| 0 <= j < e.len() && e[j].0 == k implies key_idx(e, k) >= 0 by {
            if j > 0 {
                assert(e.drop_first()[j - 1].0 == k);
            }
        }
        assert forall|j: int| 0 <= j < key_idx(e, k) implies e[j].0 != k by {
            if j > 0 {
                assert(e.drop_first()[j - 1].0 != k);
            }
        }
        if !has_key(e, k) {
            assert forall|j: int| 0 <= j < e.len() implies e[j].0 != k by {
                if j > 0 {
                    assert(e.drop_first()[j - 1].0 != k);
                }
            }
        }
    }
}

/// Inserting a fresh key appends.
pub proof fn lemma_upsert_fresh(e: Entries, k: Seq<char>, v: Seq<char>)
    requires
        forall|i: int| 0 <= i < e.len() ==> e[i].0 != k,
    ensures
        spec_upsert(e, k, v) == e.push((k, v)),
{
    lemma_key_idx(e, k);
}

/// Upserting preserves well-formedness.
pub proof fn lemma_upsert_wf(e: Entries, k: Seq<char>, v: Seq<char>)
    requires
        map_wf(e),
    ensures
        map_wf(spec_upsert(e, k, v)),
{
    lemma_key_idx(e, k);
    if has_key(e, k) {
        let n = key_idx(e, k);
        let r = e.update(n, (k, v));
        assert forall|i: int, j: int| 0 <= i < j < r.len() implies r[i].0 != r[j].0 by {
            if i != n && j != n {
                assert(r[i].0 == e[i].0 && r[j].0 == e[j].0);
            }
        }
    }
}

/// The view of an entry vector: each `String` replaced by its character
/// sequence.
pub open spec fn entry_views(e: Seq<(String, String)>) -> Entries {
    e.map_values(|p: (String, String)| (p.0@, p.1@))
}

/// A string-to-string mapping with insertion order, keys unique.
///
/// It stands in for a hash map in the wire messages; repeated inserts of one
/// key collapse to the last value, as the wire format prescribes.
#[derive(Debug)]
pub struct KvMap {
    pub entries: Vec<(String, String)>,
}

impl View for KvMap {
    type V = Entries;

    open spec fn view(&self) -> Entries {
        entry_views(self.entries@)
    }
}

impl KvMap {
    /// Keys are pairwise distinct.
    pub open spec fn wf(&self) -> bool {
        map_wf(self@)
    }

    pub fn new() -> (r: KvMap)
        ensures
            r@ =~= Seq::<(Seq<char>, Seq<char>)>::empty(),
            r.wf(),
    {
        KvMap { entries: Vec::new() }
    }

    pub fn len(&self) -> (n: usize)
        ensures
            n == self@.len(),
    {
        self.entries.len()
    }

    /// Index of the first entry with the given key, if any.
    fn find_idx(&self, k: &str) -> (r: Option<usize>)
        ensures
            match r {
                Some(i) => key_idx(self@, k@) == i,
                None => !has_key(self@, k@),
            },
    {
        proof {
            lemma_key_idx(self@, k@);
        }
        let n = self.entries.len();
        let mut i: usize = 0;
        while i < n
            invariant
                n == self.entries@.len(),
                i <= n,
                forall|j: int| 0 <= j < i ==> self@[j].0 != k@,
            decreases n - i,
        {
            if crate::strutil::str_eq(self.entries[i].0.as_str(), k) {
                proof {
                    assert(self@[i as int].0 == k@);
                    lemma_key_idx(self@, k@);
                }
                return Some(i);
            }
            i = i + 1;
        }
        None
    }

    /// Inserts `k -> v`; an existing entry with key `k` is overwritten in
    /// place, so the last value inserted for a key wins.
    pub fn insert(&mut self, k: String, v: String)
        ensures
            final(self)@ == spec_upsert(old(self)@, k@, v@),
            old(self).wf() ==> final(self).wf(),
    {
        proof {
            if old(self).wf() {
                lemma_upsert_wf(old(self)@, k@, v@);
            }
        }
        let found = self.find_idx(k.as_str());
        match found {
            Some(i) => {
                let ghost old_view = self@;
                proof {
                    lemma_key_idx(old_view, k@);
                }
                self.entries.set(i, (k, v));
                proof {
                    assert(self@ =~= old_view.update(i as int, (k@, v@)));
                }
            },
            None => {
                let ghost old_view = self@;
                proof {
                    lemma_key_idx(old_view, k@);
                    lemma_upsert_fresh(old_view, k@, v@);
                }
                self.entries.push((k, v));
                proof {
                    assert(self@ =~= old_view.push((k@, v@)));
                }
            },
        }
    }

    /// Looks the key up, returning the value of the first entry with that
    /// key.
    pub fn get(&self, k: &str) -> (r: Option<&String>)
        ensures
            match r {
                Some(v) => spec_get(self@, k@) == Some(v@),
                None => spec_get(self@, k@) is None,
            },
    {
        match self.find_idx(k) {
            Some(i) => {
                proof {
                    lemma_key_idx(self@, k@);
                }
                Some(&self.entries[i].1)
            },
            None => None,
        }
    }
}

} // verus!
