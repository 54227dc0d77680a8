//! An insertion-ordered map keyed by strings.
//!
//! Entries keep the order in which their keys were first inserted; inserting
//! an existing key replaces its value in place, and removing a key shifts the
//! later entries down (the behaviour of `IndexMap::insert` and
//! `IndexMap::shift_remove`).
use vstd::prelude::*;

use crate::text::chars_of;
use crate::text::chars_eq;

verus! {

/// An insertion-ordered map from strings to `V`.
#[derive(Debug)]
pub struct OrderedMap<V> {
    /// The entries, in order.
    pub entries: Vec<(String, V)>,
}

/// The position of the first entry of `s` whose key is `k`.
pub open spec fn index_of<V>(s: Seq<(String, V)>, k: Seq<char>) -> Option<int>
    decreases s.len(),
{
    if s.len() == 0 {
        None
    } else {
        match index_of(s.drop_last(), k) {
            Some(i) => Some(i),
            None => if s.last().0@ == k {
                Some(s.len() - 1)
            } else {
                None
            },
        }
    }
}

/// The value stored under `k` in `s`.
pub open spec fn lookup<V>(s: Seq<(String, V)>, k: Seq<char>) -> Option<V> {
    match index_of(s, k) {
        Some(i) => Some(s[i].1),
        None => None,
    }
}

/// The entries after inserting `v` under `k`.
pub open spec fn insert_entry<V>(s: Seq<(String, V)>, k: String, v: V) -> Seq<(String, V)> {
    match index_of(s, k@) {
        Some(i) => s.update(i, (k, v)),
        None => s.push((k, v)),
    }
}

/// The entries after removing the key `k`.
pub open spec fn remove_entry<V>(s: Seq<(String, V)>, k: Seq<char>) -> Seq<(String, V)> {
    match index_of(s, k) {
        Some(i) => s.remove(i),
        None => s,
    }
}

/// No key occurs twice.
pub open spec fn distinct_keys<V>(s: Seq<(String, V)>) -> bool {
    forall|i: int, j: int| 0 <= i < j < s.len() ==> s[i].0@ != s[j].0@
}

pub proof fn lemma_index_of<V>(s: Seq<(String, V)>, k: Seq<char>)
    ensures
        index_of(s, k) matches Some(i) ==> 0 <= i < s.len() && s[i].0@ == k && (forall|j: int|
            0 <= j < i ==> s[j].0@ != k),
        index_of(s, k) is None ==> forall|j: int| 0 <= j < s.len() ==> s[j].0@ != k,
    decreases s.len(),
{
    if s.len() > 0 {
        let t = s.drop_last();
        lemma_index_of(t, k);
        assert(forall|j: int| 0 <= j < t.len() ==> t[j] == s[j]);
    }
}

impl<V> View for OrderedMap<V> {
    type V = Seq<(String, V)>;

    open spec fn view(&self) -> Seq<(String, V)> {
        self.entries@
    }
}

impl<V> OrderedMap<V> {
    /// An empty map.
    pub fn new() -> (r: Self)
        ensures
            r@ == Seq::<(String, V)>::empty(),
    {
        OrderedMap { entries: Vec::new() }
    }

    pub fn len(&self) -> (r: usize)
        ensures
            r == self@.len(),
    {
        self.entries.len()
    }

    pub fn is_empty(&self) -> (r: bool)
        ensures
            r == (self@.len() == 0),
    {
        self.entries.len() == 0
    }

    /// The key of the entry at position `i`.
    pub fn key_at(&self, i: usize) -> (r: &String)
        requires
            i < self@.len(),
        ensures
            *r == self@[i as int].0,
    {
        &self.entries[i].0
    }

    /// The value of the entry at position `i`.
    pub fn value_at(&self, i: usize) -> (r: &V)
        requires
            i < self@.len(),
        ensures
            *r == self@[i as int].1,
    {
        &self.entries[i].1
    }

    /// The position of the key `k`, if present.
    pub fn position(&self, k: &str) -> (r: Option<usize>)
        ensures
            r matches Some(i) ==> index_of(self@, k@) == Some(i as int),
            r is None ==> index_of(self@, k@) is None,
    {
        let kv = chars_of(k);
        let mut i: usize = 0;
        while i < self.entries.len()
            invariant
                i <= self@.len(),
                kv@ == k@,
                forall|j: int| 0 <= j < i ==> self@[j].0@ != k@,
            decreases self@.len() - i,
        {
            let ki = chars_of(self.entries[i].0.as_str());
            if chars_eq(ki.as_slice(), kv.as_slice()) {
                proof {
                    lemma_index_of(self@, k@);
                    if index_of(self@, k@) is None {
                        assert(self@[i as int].0@ == k@);
                    } else {
                        let m = index_of(self@, k@)->0;
                        assert(!(m < i));
                        assert(!(m > i));
                    }
                }
                return Some(i);
            }
            i = i + 1;
        }
        proof {
            lemma_index_of(self@, k@);
        }
        None
    }

    /// The value stored under `k` (`IndexMap::get`).
    pub fn get(&self, k: &str) -> (r: Option<&V>)
        ensures
            r matches Some(v) ==> lookup(self@, k@) == Some(*v),
            r is None ==> lookup(self@, k@) is None,
    {
        match self.position(k) {
            Some(i) => {
                proof {
                    lemma_index_of(self@, k@);
                }
                Some(&self.entries[i].1)
            },
            None => None,
        }
    }

    pub fn contains_key(&self, k: &str) -> (r: bool)
        ensures
            r == (index_of(self@, k@) is Some),
    {
        self.position(k).is_some()
    }

    /// Stores `v` under `k`: an existing key keeps its position, a new one
    /// goes last (`IndexMap::insert`).
    pub fn insert(&mut self, k: String, v: V)
        ensures
            final(self)@ == insert_entry(old(self)@, k, v),
            distinct_keys(old(self)@) ==> distinct_keys(final(self)@),
    {
        proof {
            if distinct_keys(self@) {
                law_insert_keeps_keys_distinct(self@, k, v);
            }
        }
        match self.position(k.as_str()) {
            Some(i) => {
                proof {
                    lemma_index_of(self@, k@);
                }
                self.entries.set(i, (k, v));
            },
            None => {
                self.entries.push((k, v));
            },
        }
    }

    /// Removes the entry of `k`, shifting later entries down (`IndexMap::shift_remove`).
    pub fn shift_remove(&mut self, k: &str)
        ensures
            final(self)@ == remove_entry(old(self)@, k@),
            distinct_keys(old(self)@) ==> distinct_keys(final(self)@),
    {
        proof {
            if distinct_keys(self@) {
                law_remove_keeps_keys_distinct(self@, k@);
            }
        }
        match self.position(k) {
            Some(i) => {
                proof {
                    lemma_index_of(self@, k@);
                }
                self.entries.remove(i);
            },
            None => {},
        }
    }
}

/// Inserting keeps keys distinct.
pub proof fn law_insert_keeps_keys_distinct<V>(s: Seq<(String, V)>, k: String, v: V)
    requires
        distinct_keys(s),
    ensures
        distinct_keys(insert_entry(s, k, v)),
{
    lemma_index_of(s, k@);
    let t = insert_entry(s, k, v);
    assert forall|i: int, j: int| 0 <= i < j < t.len() implies t[i].0@ != t[j].0@ by {
        if index_of(s, k@) is None {
            if j == s.len() {
                assert(s[i].0@ != k@);
            }
        }
    }
}

/// Removing keeps keys distinct.
pub proof fn law_remove_keeps_keys_distinct<V>(s: Seq<(String, V)>, k: Seq<char>)
    requires
        distinct_keys(s),
    ensures
        distinct_keys(remove_entry(s, k)),
{
    lemma_index_of(s, k);
    let t = remove_entry(s, k);
    if index_of(s, k) is Some {
        let p = index_of(s, k)->0;
        assert forall|i: int, j: int| 0 <= i < j < t.len() implies t[i].0@ != t[j].0@ by {
            let i2 = if i < p { i } else { i + 1 };
            let j2 = if j < p { j } else { j + 1 };
            assert(t[i] == s[i2] && t[j] == s[j2]);
        }
    }
}

/// A value read back under the key it was just inserted with is that value.
pub proof fn law_lookup_after_insert<V>(s: Seq<(String, V)>, k: String, v: V, other: Seq<char>)
    ensures
        lookup(insert_entry(s, k, v), k@) == Some(v),
        other != k@ ==> lookup(insert_entry(s, k, v), other) == lookup(s, other),
{
    let t = insert_entry(s, k, v);
    lemma_index_of(s, k@);
    lemma_index_of(t, k@);
    lemma_index_of(s, other);
    lemma_index_of(t, other);
    if index_of(t, k@) is Some {
        let m = index_of(t, k@)->0;
        if index_of(s, k@) is Some {
            let i = index_of(s, k@)->0;
            assert(!(m < i));
            assert(!(m > i)) by {
                assert(t[i].0@ == k@);
            }
        } else {
            assert(!(m < s.len())) by {
                if m < s.len() {
                    assert(t[m] == s[m]);
                }
            }
        }
    } else {
        if index_of(s, k@) is Some {
            let i = index_of(s, k@)->0;
            assert(t[i].0@ == k@);
        } else {
            assert(t[s.len() as int].0@ == k@);
        }
    }
    if other != k@ {
        if index_of(s, other) is Some {
            let i = index_of(s, other)->0;
            assert(t[i].0@ == other);
            if index_of(t, other) is Some {
                let m = index_of(t, other)->0;
                assert(!(m < i)) by {
                    if m < i {
                        assert(t[m] == s[m] || t[m].0@ == k@);
                    }
                }
                assert(!(m > i));
            }
        } else {
            if index_of(t, other) is Some {
                let m = index_of(t, other)->0;
                assert(t[m].0@ == other);
                if index_of(s, k@) is Some {
                    let i = index_of(s, k@)->0;
                    if m == i {
                    } else {
                        assert(t[m] == s[m]);
                    }
                } else {
                    if m < s.len() {
                        assert(t[m] == s[m]);
                    }
                }
            }
        }
    }
}

// ---------------------------------------------------------------
// The same operations on views: keys and values as plain values
// ---------------------------------------------------------------

/// The position of the first entry of `s` whose key is `k`.
pub open spec fn key_pos<W>(s: Seq<(Seq<char>, W)>, k: Seq<char>) -> Option<int>
    decreases s.len(),
{
    if s.len() == 0 {
        None
    } else {
        match key_pos(s.drop_last(), k) {
            Some(i) => Some(i),
            None => if s.last().0 == k {
                Some(s.len() - 1)
            } else {
                None
            },
        }
    }
}

/// The value stored under `k`.
pub open spec fn get_key<W>(s: Seq<(Seq<char>, W)>, k: Seq<char>) -> Option<W> {
    match key_pos(s, k) {
        Some(i) => Some(s[i].1),
        None => None,
    }
}

/// The entries after storing `v` under `k` (in place if present, else last).
pub open spec fn put<W>(s: Seq<(Seq<char>, W)>, k: Seq<char>, v: W) -> Seq<(Seq<char>, W)> {
    match key_pos(s, k) {
        Some(i) => s.update(i, (k, v)),
        None => s.push((k, v)),
    }
}

/// The entries without the key `k`.
pub open spec fn drop_key<W>(s: Seq<(Seq<char>, W)>, k: Seq<char>) -> Seq<(Seq<char>, W)> {
    match key_pos(s, k) {
        Some(i) => s.remove(i),
        None => s,
    }
}

/// `w` is `s` with each key read as characters.
pub open spec fn same_keys<V, W>(s: Seq<(String, V)>, w: Seq<(Seq<char>, W)>) -> bool {
    s.len() == w.len() && forall|i: int| 0 <= i < s.len() ==> #[trigger] w[i].0 == s[i].0@
}

pub proof fn lemma_key_pos<V, W>(s: Seq<(String, V)>, w: Seq<(Seq<char>, W)>, k: Seq<char>)
    requires
        same_keys(s, w),
    ensures
        key_pos(w, k) == index_of(s, k),
    decreases s.len(),
{
    if s.len() > 0 {
        let s1 = s.drop_last();
        let w1 = w.drop_last();
        assert(same_keys(s1, w1)) by {
            assert forall|i: int| 0 <= i < s1.len() implies #[trigger] w1[i].0 == s1[i].0@ by {
                assert(w1[i] == w[i]);
                assert(s1[i] == s[i]);
            }
        }
        lemma_key_pos(s1, w1, k);
        assert(w.last().0 == s.last().0@) by {
            assert(w[w.len() - 1].0 == s[s.len() - 1].0@);
        }
    }
}

pub proof fn lemma_key_pos_some<W>(s: Seq<(Seq<char>, W)>, k: Seq<char>)
    ensures
        key_pos(s, k) matches Some(i) ==> 0 <= i < s.len() && s[i].0 == k && (forall|j: int|
            0 <= j < i ==> s[j].0 != k),
        key_pos(s, k) is None ==> forall|j: int| 0 <= j < s.len() ==> s[j].0 != k,
    decreases s.len(),
{
    if s.len() > 0 {
        let t = s.drop_last();
        lemma_key_pos_some(t, k);
        assert(forall|j: int| 0 <= j < t.len() ==> t[j] == s[j]);
    }
}

/// The entries of a map with keys and values read through their views.
pub open spec fn kv_view<V: View>(s: Seq<(String, V)>) -> Seq<(Seq<char>, V::V)> {
    Seq::new(s.len(), |i: int| (s[i].0@, s[i].1@))
}

/// Inserting, seen through the views.
pub proof fn lemma_kv_view_insert<V: View>(s: Seq<(String, V)>, k: String, v: V)
    ensures
        kv_view(insert_entry(s, k, v)) == put(kv_view(s), k@, v@),
{
    let w = kv_view(s);
    lemma_index_of(s, k@);
    assert(same_keys(s, w));
    lemma_key_pos(s, w, k@);
    let t = insert_entry(s, k, v);
    assert forall|j: int| 0 <= j < t.len() implies kv_view(t)[j] == put(w, k@, v@)[j] by {
        match index_of(s, k@) {
            Some(i) => {
                if j != i {
                    assert(t[j] == s[j]);
                }
            },
            None => {
                if j < s.len() {
                    assert(t[j] == s[j]);
                }
            },
        }
    }
    assert(kv_view(t) =~= put(w, k@, v@));
}

/// Removing, seen through the views.
pub proof fn lemma_kv_view_remove<V: View>(s: Seq<(String, V)>, k: Seq<char>)
    ensures
        kv_view(remove_entry(s, k)) == drop_key(kv_view(s), k),
{
    let w = kv_view(s);
    assert(same_keys(s, w));
    lemma_key_pos(s, w, k);
    lemma_index_of(s, k);
    match index_of(s, k) {
        Some(i) => {
            let t = remove_entry(s, k);
            assert forall|j: int| 0 <= j < t.len() implies kv_view(t)[j] == drop_key(w, k)[j] by {
                if j < i {
                    assert(t[j] == s[j]);
                } else {
                    assert(t[j] == s[j + 1]);
                }
            }
            assert(kv_view(t) =~= drop_key(w, k));
        },
        None => {},
    }
}

/// Reading a key, seen through the views.
pub proof fn lemma_kv_view_lookup<V: View>(s: Seq<(String, V)>, k: Seq<char>)
    ensures
        get_key(kv_view(s), k) == match lookup(s, k) {
            Some(v) => Some(v@),
            None => None,
        },
{
    let w = kv_view(s);
    assert(same_keys(s, w));
    lemma_key_pos(s, w, k);
    lemma_index_of(s, k);
}

} // verus!