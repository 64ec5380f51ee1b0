use vstd::prelude::*;
use vstd::string::*;

verus! {

/// Header entries as text: key and value.
pub type Entries = Seq<(Seq<char>, Seq<char>)>;

/// No key occurs twice.
pub open spec fn keys_unique(hs: Entries) -> bool {
    forall|i: int, j: int| 0 <= i < j < hs.len() ==> hs[i].0 != hs[j].0
}

/// `i` is a position of key `k`.
pub open spec fn key_at(hs: Entries, k: Seq<char>, i: int) -> bool {
    0 <= i < hs.len() && hs[i].0 == k
}

pub open spec fn has_key(hs: Entries, k: Seq<char>) -> bool {
    exists|i: int| key_at(hs, k, i)
}

/// Setting `k` to `v`: an existing entry of `k` is replaced where it stands,
/// and a new key goes to the end.
pub open spec fn insert_entry(hs: Entries, k: Seq<char>, v: Seq<char>) -> Entries {
    if has_key(hs, k) {
        hs.update(choose|i: int| key_at(hs, k, i), (k, v))
    } else {
        hs.push((k, v))
    }
}

/// The value stored under `k`.
pub open spec fn lookup(hs: Entries, k: Seq<char>) -> Option<Seq<char>> {
    if has_key(hs, k) {
        Some(hs[choose|i: int| key_at(hs, k, i)].1)
    } else {
        None
    }
}

/// The header lines of a response: `key:value` and CRLF for each entry, in
/// order.
pub open spec fn header_block(hs: Entries) -> Seq<char>
    decreases hs.len(),
{
    if hs.len() == 0 {
        seq![]
    } else {
        header_block(hs.drop_last()) + hs.last().0 + seq![':'] + hs.last().1 + seq!['\r', '\n']
    }
}

pub proof fn lemma_key_at_unique(hs: Entries, k: Seq<char>, i: int)
    requires
        keys_unique(hs),
        key_at(hs, k, i),
    ensures
        has_key(hs, k),
        (choose|j: int| key_at(hs, k, j)) == i,
{
    let j = choose|j: int| key_at(hs, k, j);
    assert(key_at(hs, k, j));
    if j < i {
        assert(hs[j].0 != hs[i].0);
    } else if i < j {
        assert(hs[i].0 != hs[j].0);
    }
}

/// Setting a key keeps the keys distinct.
pub proof fn lemma_insert_unique(hs: Entries, k: Seq<char>, v: Seq<char>)
    requires
        keys_unique(hs),
    ensures
        keys_unique(insert_entry(hs, k, v)),
{
    let r = insert_entry(hs, k, v);
    if has_key(hs, k) {
        let idx = choose|i: int| key_at(hs, k, i);
        assert forall|a: int, b: int| 0 <= a < b < r.len() implies r[a].0 != r[b].0 by {
            assert(hs[a].0 != hs[b].0);
        }
    } else {
        assert forall|a: int, b: int| 0 <= a < b < r.len() implies r[a].0 != r[b].0 by {
            if b < hs.len() {
                assert(hs[a].0 != hs[b].0);
            } else {
                assert(!key_at(hs, k, a));
            }
        }
    }
}

/// After setting `k` to `v`, `k` gives `v` and every other key what it gave
/// before.
pub proof fn lemma_insert_lookup(hs: Entries, k: Seq<char>, v: Seq<char>, k2: Seq<char>)
    requires
        keys_unique(hs),
    ensures
        lookup(insert_entry(hs, k, v), k2) == (if k2 == k {
            Some(v)
        } else {
            lookup(hs, k2)
        }),
{
    let r = insert_entry(hs, k, v);
    lemma_insert_unique(hs, k, v);
    if has_key(hs, k) {
        let idx = choose|i: int| key_at(hs, k, i);
        assert(key_at(hs, k, idx));
        if k2 == k {
            lemma_key_at_unique(r, k, idx);
        } else if has_key(hs, k2) {
            let j = choose|i: int| key_at(hs, k2, i);
            assert(key_at(hs, k2, j));
            assert(key_at(r, k2, j));
            lemma_key_at_unique(r, k2, j);
        } else {
            assert forall|j: int| !key_at(r, k2, j) by {
                if key_at(r, k2, j) {
                    assert(key_at(hs, k2, j));
                }
            }
        }
    } else {
        if k2 == k {
            lemma_key_at_unique(r, k, hs.len() as int);
        } else if has_key(hs, k2) {
            let j = choose|i: int| key_at(hs, k2, i);
            assert(key_at(hs, k2, j));
            assert(key_at(r, k2, j));
            lemma_key_at_unique(r, k2, j);
        } else {
            assert forall|j: int| !key_at(r, k2, j) by {
                if key_at(r, k2, j) {
                    assert(key_at(hs, k2, j));
                }
            }
        }
    }
}

/// A mapping from header names to values that keeps the order in which names
/// were first inserted. Names are compared exactly, case included.
#[derive(Debug, Clone, PartialEq, Eq)]
pub struct HeaderMap {
    entries: Vec<(String, String)>,
}

impl View for HeaderMap {
    type V = Entries;

    closed spec fn view(&self) -> Entries {
        self.entries@.map_values(|p: (String, String)| (p.0@, p.1@))
    }
}

impl HeaderMap {
    pub open spec fn wf(&self) -> bool {
        keys_unique(self@)
    }

    /// An empty mapping.
    pub fn new() -> (r: HeaderMap)
        ensures
            r@ == Seq::<(Seq<char>, Seq<char>)>::empty(),
            r.wf(),
    {
        let r = HeaderMap { entries: Vec::new() };
        assert(r@ =~= Seq::<(Seq<char>, Seq<char>)>::empty());
        r
    }

    /// The number of entries.
    pub fn len(&self) -> (r: usize)
        ensures
            r == self@.len(),
    {
        self.entries.len()
    }

    /// Sets `key` to `value`, replacing an earlier value of the same key.
    pub fn insert(&mut self, key: String, value: String)
        requires
            old(self).wf(),
        ensures
            final(self)@ == insert_entry(old(self)@, key@, value@),
            final(self).wf(),
    {
        let n = self.entries.len();
        let mut i: usize = 0;
        while i < n
            invariant
                n == self.entries@.len(),
                i <= n,
                self@.len() == n,
                self.wf(),
                self@ == old(self)@,
                forall|j: int| 0 <= j < i ==> self@[j].0 != key@,
            decreases n - i,
        {
            assert(self@[i as int].0 == self.entries@[i as int].0@);
            if self.entries[i].0 == key {
                proof {
                    lemma_key_at_unique(self@, key@, i as int);
                }
                let ghost before = self@;
                self.entries.set(i, (key, value));
                assert(self@ =~= before.update(i as int, (key@, value@)));
                assert forall|a: int, b: int| 0 <= a < b < self@.len() implies self@[a].0
                    != self@[b].0 by {
                    assert(before[a].0 != before[b].0);
                }
                return;
            }
            i += 1;
        }
        assert(!has_key(self@, key@));
        let ghost before = self@;
        self.entries.push((key, value));
        assert(self@ =~= before.push((key@, value@)));
        assert forall|a: int, b: int| 0 <= a < b < self@.len() implies self@[a].0 != self@[b].0 by {
            if b < before.len() {
                assert(before[a].0 != before[b].0);
            } else {
                assert(!key_at(before, key@, a));
            }
        }
    }

    /// The value stored under `key`.
    pub fn get(&self, key: &str) -> (r: Option<String>)
        requires
            self.wf(),
        ensures
            r matches Some(v) ==> lookup(self@, key@) == Some(v@),
            r is None ==> lookup(self@, key@) is None,
    {
        let k = String::from_str(key);
        let n = self.entries.len();
        let mut i: usize = 0;
        while i < n
            invariant
                n == self.entries@.len(),
                i <= n,
                self@.len() == n,
                k@ == key@,
                self.wf(),
                forall|j: int| 0 <= j < i ==> self@[j].0 != key@,
            decreases n - i,
        {
            assert(self@[i as int].0 == self.entries@[i as int].0@);
            assert(self@[i as int].1 == self.entries@[i as int].1@);
            if self.entries[i].0 == k {
                proof {
                    lemma_key_at_unique(self@, key@, i as int);
                }
                return Some(self.entries[i].1.clone());
            }
            i += 1;
        }
        assert(!has_key(self@, key@));
        None
    }

    /// The header lines, each written `key:value` and ended by CRLF.
    pub fn to_lines(&self) -> (r: String)
        ensures
            r@ == header_block(self@),
    {
        let mut out = String::new();
        let n = self.entries.len();
        let mut i: usize = 0;
        while i < n
            invariant
                n == self.entries@.len(),
                i <= n,
                self@.len() == n,
                out@ == header_block(self@.take(i as int)),
            decreases n - i,
        {
            let ghost prev = out@;
            out.append(self.entries[i].0.as_str());
            out.append(":");
            out.append(self.entries[i].1.as_str());
            out.append("\r\n");
            proof {
                reveal_strlit(":");
                reveal_strlit("\r\n");
                assert(self@.take(i + 1).drop_last() =~= self@.take(i as int));
                assert(out@ =~= header_block(self@.take(i + 1)));
            }
            i += 1;
        }
        assert(self@.take(n as int) =~= self@);
        out
    }
}

} // verus!
