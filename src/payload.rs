//! The flat payload a snapshot is flattened into: string keys mapped to
//! string values, each key present at most once.

use vstd::prelude::*;
use vstd::string::StringExecFns;

verus! {

/// One key and its value, as character sequences.
pub type Entry = (Seq<char>, Seq<char>);

/// Whether some entry of `e` has the key `k`.
pub open spec fn has_key(e: Seq<Entry>, k: Seq<char>) -> bool {
    exists|i: int| 0 <= i < e.len() && #[trigger] e[i].0 == k
}

/// Whether no two entries of `e` share a key.
pub open spec fn unique_keys(e: Seq<Entry>) -> bool {
    forall|i: int, j: int| 0 <= i < e.len() && 0 <= j < e.len() && i != j ==> #[trigger] e[i].0 != #[trigger] e[j].0
}

/// `e` with `k` mapped to `v`: the entry of key `k` takes the new value in
/// place, or a new entry is added at the end.
pub open spec fn put(e: Seq<Entry>, k: Seq<char>, v: Seq<char>) -> Seq<Entry> {
    if has_key(e, k) {
        let i = choose|i: int| 0 <= i < e.len() && #[trigger] e[i].0 == k;
        e.update(i, (k, v))
    } else {
        e.push((k, v))
    }
}

/// `e` after putting each entry of `fs`, first to last.
pub open spec fn put_all(e: Seq<Entry>, fs: Seq<Entry>) -> Seq<Entry>
    decreases fs.len(),
{
    if fs.len() == 0 {
        e
    } else {
        put(put_all(e, fs.drop_last()), fs.last().0, fs.last().1)
    }
}

/// The value of key `k` in `e`, if any.
pub open spec fn lookup(e: Seq<Entry>, k: Seq<char>) -> Option<Seq<char>> {
    if has_key(e, k) {
        let i = choose|i: int| 0 <= i < e.len() && #[trigger] e[i].0 == k;
        Some(e[i].1)
    } else {
        None
    }
}

proof fn lemma_put_unique(e: Seq<Entry>, k: Seq<char>, v: Seq<char>)
    requires
        unique_keys(e),
    ensures
        unique_keys(put(e, k, v)),
        has_key(put(e, k, v), k),
        forall|k2: Seq<char>| #[trigger] has_key(put(e, k, v), k2) <==> (has_key(e, k2) || k2 == k),
{
    let r = put(e, k, v);
    if has_key(e, k) {
        let i = choose|i: int| 0 <= i < e.len() && #[trigger] e[i].0 == k;
        assert(r[i].0 == k);
        assert forall|k2: Seq<char>| #[trigger] has_key(r, k2) <==> (has_key(e, k2) || k2 == k) by {
            if has_key(e, k2) {
                let j = choose|j: int| 0 <= j < e.len() && #[trigger] e[j].0 == k2;
                assert(r[j].0 == k2);
            }
            if has_key(r, k2) {
                let j = choose|j: int| 0 <= j < r.len() && #[trigger] r[j].0 == k2;
                assert(e[j].0 == k2 || j == i);
            }
        }
    } else {
        assert(r[e.len() as int].0 == k);
        assert forall|k2: Seq<char>| #[trigger] has_key(r, k2) <==> (has_key(e, k2) || k2 == k) by {
            if has_key(e, k2) {
                let j = choose|j: int| 0 <= j < e.len() && #[trigger] e[j].0 == k2;
                assert(r[j].0 == k2);
            }
            if has_key(r, k2) {
                let j = choose|j: int| 0 <= j < r.len() && #[trigger] r[j].0 == k2;
                if j < e.len() {
                    assert(e[j].0 == k2);
                }
            }
        }
    }
}

/// A map from string keys to string values that keeps its entries in the
/// order their keys were first inserted.
pub struct Payload {
    entries: Vec<(String, String)>,
}

impl View for Payload {
    type V = Seq<Entry>;

    closed spec fn view(&self) -> Seq<Entry> {
        self.entries@.map_values(|p: (String, String)| (p.0@, p.1@))
    }
}

impl Payload {
    /// Each key is held once.
    pub open spec fn wf(&self) -> bool {
        unique_keys(self@)
    }

    /// An empty payload.
    pub fn new() -> (r: Payload)
        ensures
            r.wf(),
            r@ == Seq::<Entry>::empty(),
    {
        let r = Payload { entries: Vec::new() };
        assert(r@ =~= Seq::<Entry>::empty());
        r
    }

    /// Maps `key` to `value`, replacing the value an equal key had.
    pub fn insert(&mut self, key: String, value: String)
        requires
            old(self).wf(),
        ensures
            final(self).wf(),
            final(self)@ == put(old(self)@, key@, value@),
    {
        proof {
            lemma_put_unique(self@, key@, value@);
        }
        let ghost e = self@;
        let mut i: usize = 0;
        while i < self.entries.len()
            invariant
                i <= self.entries.len(),
                self@ == e,
                e == old(self)@,
                unique_keys(e),
                forall|j: int| 0 <= j < i ==> #[trigger] e[j].0 != key@,
            decreases self.entries.len() - i,
        {
            assert(e[i as int] == (self.entries@[i as int].0@, self.entries@[i as int].1@));
            if self.entries[i].0 == key {
                proof {
                    assert(e[i as int].0 == key@);
                    assert(has_key(e, key@));
                    let c = choose|c: int| 0 <= c < e.len() && #[trigger] e[c].0 == key@;
                    assert(c == i);
                }
                let ghost kv = (key@, value@);
                self.entries.set(i, (key, value));
                assert forall|j: int| 0 <= j < e.len() implies #[trigger] self@[j] == e.update(i as int, kv)[j] by {
                    assert(self@[j] == (self.entries@[j].0@, self.entries@[j].1@));
                }
                assert(self@ =~= put(e, kv.0, kv.1));
                return;
            }
            i = i + 1;
        }
        assert(!has_key(e, key@));
        let ghost kv = (key@, value@);
        self.entries.push((key, value));
        assert forall|j: int| 0 <= j < self@.len() implies #[trigger] self@[j] == e.push(kv)[j] by {
            assert(self@[j] == (self.entries@[j].0@, self.entries@[j].1@));
        }
        assert(self@ =~= put(e, kv.0, kv.1));
    }

    /// The value of `key`, if it is present.
    pub fn get(&self, key: &str) -> (r: Option<String>)
        requires
            self.wf(),
        ensures
            match r {
                Some(v) => lookup(self@, key@) == Some(v@),
                None => lookup(self@, key@) is None,
            },
    {
        let k = String::from_str(key);
        let mut i: usize = 0;
        while i < self.entries.len()
            invariant
                i <= self.entries.len(),
                self.wf(),
                k@ == key@,
                forall|j: int| 0 <= j < i ==> #[trigger] self@[j].0 != key@,
            decreases self.entries.len() - i,
        {
            assert(self@[i as int] == (self.entries@[i as int].0@, self.entries@[i as int].1@));
            if self.entries[i].0 == k {
                proof {
                    assert(self@[i as int].0 == key@);
                    let c = choose|c: int| 0 <= c < self@.len() && #[trigger] self@[c].0 == key@;
                    assert(c == i);
                    assert(lookup(self@, key@) == Some(self@[i as int].1));
                }
                return Some(self.entries[i].1.clone());
            }
            i = i + 1;
        }
        None
    }

    /// The number of keys.
    pub fn len(&self) -> (r: usize)
        ensures
            r == self@.len(),
    {
        self.entries.len()
    }

    /// The key and the value at position `i`, in insertion order.
    pub fn entry(&self, i: usize) -> (r: (&String, &String))
        requires
            i < self@.len(),
        ensures
            r.0@ == self@[i as int].0,
            r.1@ == self@[i as int].1,
    {
        (&self.entries[i].0, &self.entries[i].1)
    }
}

} // verus!
