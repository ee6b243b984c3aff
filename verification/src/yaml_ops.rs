//! Reading and updating YAML values and mappings with string keys.

use vstd::prelude::*;
use crate::text;
use crate::text::chars_of;
use crate::yaml::{YamlMapping, YamlV, YamlValue};
use crate::yaml;

verus! {

broadcast use {yaml::lemma_items_view, yaml::lemma_entries_view};

/// The value under any number of tags.
pub open spec fn untag(v: YamlV) -> YamlV
    decreases v,
{
    match v {
        YamlV::Tagged(_, b) => untag(*b),
        _ => v,
    }
}

/// `Value::as_str`: the text of an (untagged) string.
pub open spec fn as_str_v(v: YamlV) -> Option<Seq<char>> {
    match untag(v) {
        YamlV::Str(s) => Some(s),
        _ => None,
    }
}

/// `Value::as_bool`: the value of an (untagged) boolean.
pub open spec fn as_bool_v(v: YamlV) -> Option<bool> {
    match untag(v) {
        YamlV::Bool(b) => Some(b),
        _ => None,
    }
}

/// `Value::as_sequence`: the items of an (untagged) sequence.
pub open spec fn as_list_v(v: YamlV) -> Option<Seq<YamlV>> {
    match untag(v) {
        YamlV::List(items) => Some(items),
        _ => None,
    }
}

/// `Value::is_null`: the (untagged) value is null.
pub open spec fn is_null_v(v: YamlV) -> bool {
    untag(v) is Null
}

/// The first position at or after `i` of an entry whose key is the string `k`.
pub open spec fn key_index_from(m: Seq<(YamlV, YamlV)>, k: Seq<char>, i: int) -> Option<int>
    decreases m.len() - i,
{
    if i < 0 || i >= m.len() {
        None
    } else if m[i].0 == YamlV::Str(k) {
        Some(i)
    } else {
        key_index_from(m, k, i + 1)
    }
}

/// The position of the entry whose key is the string `k`.
pub open spec fn key_index(m: Seq<(YamlV, YamlV)>, k: Seq<char>) -> Option<int> {
    key_index_from(m, k, 0)
}

/// `Mapping::get` with a string key.
pub open spec fn map_get(m: Seq<(YamlV, YamlV)>, k: Seq<char>) -> Option<YamlV> {
    match key_index(m, k) {
        Some(i) => Some(m[i].1),
        None => None,
    }
}

/// `Mapping::insert` with a string key: an existing entry keeps its place and takes
/// the new value; otherwise the entry is added at the end.
pub open spec fn map_insert(m: Seq<(YamlV, YamlV)>, k: Seq<char>, v: YamlV) -> Seq<(YamlV, YamlV)> {
    match key_index(m, k) {
        Some(i) => m.update(i, (m[i].0, v)),
        None => m.push((YamlV::Str(k), v)),
    }
}

/// `Mapping::remove` with a string key: the last entry moves into the removed one's
/// place.
pub open spec fn map_remove(m: Seq<(YamlV, YamlV)>, k: Seq<char>) -> Seq<(YamlV, YamlV)> {
    match key_index(m, k) {
        Some(i) => m.update(i, m.last()).drop_last(),
        None => m,
    }
}

/// What `key_index_from` finds: the first matching entry, or none at all.
pub proof fn lemma_key_index_from(m: Seq<(YamlV, YamlV)>, k: Seq<char>, i: int)
    requires
        0 <= i,
    ensures
        match key_index_from(m, k, i) {
            Some(j) => i <= j < m.len() && m[j].0 == YamlV::Str(k) && forall|l: int|
                i <= l < j ==> m[l].0 != YamlV::Str(k),
            None => forall|l: int| i <= l < m.len() ==> m[l].0 != YamlV::Str(k),
        },
    decreases m.len() - i,
{
    if i < m.len() && m[i].0 != YamlV::Str(k) {
        lemma_key_index_from(m, k, i + 1);
    }
}

/// What `key_index` finds: the first matching entry, or none at all.
pub proof fn lemma_key_index(m: Seq<(YamlV, YamlV)>, k: Seq<char>)
    ensures
        match key_index(m, k) {
            Some(j) => 0 <= j < m.len() && m[j].0 == YamlV::Str(k) && forall|l: int|
                0 <= l < j ==> m[l].0 != YamlV::Str(k),
            None => forall|l: int| 0 <= l < m.len() ==> m[l].0 != YamlV::Str(k),
        },
{
    lemma_key_index_from(m, k, 0);
}

/// The first entry whose key is `k` is the one at `j`.
pub proof fn lemma_key_index_at(m: Seq<(YamlV, YamlV)>, k: Seq<char>, j: int)
    requires
        0 <= j < m.len(),
        m[j].0 == YamlV::Str(k),
        forall|l: int| 0 <= l < j ==> m[l].0 != YamlV::Str(k),
    ensures
        key_index(m, k) == Some(j),
{
    lemma_key_index(m, k);
    if key_index(m, k) is Some {
        let i = key_index(m, k)->0;
        if i > j {
            assert(m[j].0 != YamlV::Str(k));
        }
    }
}

impl YamlValue {
    /// The key is the string `key`.
    pub fn is_str_key(&self, key: &Vec<char>) -> (b: bool)
        ensures
            b == (self@ == YamlV::Str(key@)),
    {
        match self {
            YamlValue::String(s) => {
                let c = chars_of(s.as_str());
                text::vec_eq(&c, key)
            },
            _ => false,
        }
    }

    /// `Value::as_str`.
    pub fn as_str(&self) -> (r: Option<&String>)
        ensures
            match r {
                Some(s) => as_str_v(self@) == Some(s@),
                None => as_str_v(self@) is None,
            },
        decreases self,
    {
        match self {
            YamlValue::String(s) => Some(s),
            YamlValue::Tagged(_, b) => b.as_str(),
            _ => None,
        }
    }

    /// `Value::as_bool`.
    pub fn as_bool(&self) -> (r: Option<bool>)
        ensures
            r == as_bool_v(self@),
        decreases self,
    {
        match self {
            YamlValue::Bool(b) => Some(*b),
            YamlValue::Tagged(_, b) => b.as_bool(),
            _ => None,
        }
    }

    /// `Value::as_sequence`.
    pub fn as_sequence(&self) -> (r: Option<&Vec<YamlValue>>)
        ensures
            match r {
                Some(v) => as_list_v(self@) == Some(yaml::items_view(v@)),
                None => as_list_v(self@) is None,
            },
        decreases self,
    {
        match self {
            YamlValue::Sequence(v) => Some(v),
            YamlValue::Tagged(_, b) => b.as_sequence(),
            _ => None,
        }
    }

    /// `Value::is_null`.
    pub fn is_null(&self) -> (b: bool)
        ensures
            b == is_null_v(self@),
        decreases self,
    {
        match self {
            YamlValue::Null => true,
            YamlValue::Tagged(_, b) => b.is_null(),
            _ => false,
        }
    }
}

impl YamlMapping {
    /// An empty mapping.
    pub fn new() -> (r: YamlMapping)
        ensures
            r@ == Seq::<(YamlV, YamlV)>::empty(),
    {
        YamlMapping { entries: Vec::new() }
    }

    /// The number of entries.
    pub fn len(&self) -> (n: usize)
        ensures
            n == self@.len(),
    {
        self.entries.len()
    }

    /// The mapping has no entries.
    pub fn is_empty(&self) -> (b: bool)
        ensures
            b == (self@.len() == 0),
    {
        self.entries.len() == 0
    }

    /// The position of the entry whose key is the string `key`.
    pub fn index_of(&self, key: &str) -> (r: Option<usize>)
        ensures
            match r {
                Some(i) => key_index(self@, key@) == Some(i as int) && i < self.entries.len()
                    && self@[i as int].0 == YamlV::Str(key@),
                None => key_index(self@, key@) is None,
            },
    {
        proof {
            yaml::lemma_entries_view(self.entries@);
        }
        let k = chars_of(key);
        let mut i: usize = 0;
        while i < self.entries.len()
            invariant
                i <= self.entries.len(),
                k@ == key@,
                self@.len() == self.entries.len(),
                forall|l: int| 0 <= l < i ==> self@[l].0 != YamlV::Str(key@),
            decreases self.entries.len() - i,
        {
            if self.entries[i].0.is_str_key(&k) {
                proof {
                    lemma_key_index_at(self@, key@, i as int);
                }
                return Some(i);
            }
            i += 1;
        }
        proof {
            lemma_key_index(self@, key@);
            if key_index(self@, key@) is Some {
                let j = key_index(self@, key@)->0;
                assert(self@[j].0 != YamlV::Str(key@));
            }
        }
        None
    }

    /// `Mapping::contains_key` with a string key.
    pub fn contains_key(&self, key: &str) -> (b: bool)
        ensures
            b == (key_index(self@, key@) is Some),
    {
        self.index_of(key).is_some()
    }

    /// `Mapping::get` with a string key.
    pub fn get(&self, key: &str) -> (r: Option<&YamlValue>)
        ensures
            match r {
                Some(v) => map_get(self@, key@) == Some(v@),
                None => map_get(self@, key@) is None,
            },
    {
        match self.index_of(key) {
            Some(i) => Some(&self.entries[i].1),
            None => None,
        }
    }

    /// `Mapping::insert` with a string key.
    pub fn insert(&mut self, key: &str, value: YamlValue)
        ensures
            final(self)@ == map_insert(old(self)@, key@, value@),
    {
        let ghost old_view = self@;
        let k = String::from_str(key);
        match self.index_of(key) {
            Some(i) => {
                let kc = self.entries[i].0.copy();
                let ghost before = self.entries@;
                self.entries.set(i, (kc, value));
                proof {
                    yaml::lemma_entries_view_ext(self.entries@, old_view.update(i as int, (old_view[i as int].0, value@)));
                }
            },
            None => {
                let ghost before = self.entries@;
                self.entries.push((YamlValue::String(k), value));
                proof {
                    yaml::lemma_entries_view_ext(self.entries@, old_view.push((YamlV::Str(key@), value@)));
                }
            },
        }
    }

    /// `Mapping::remove` with a string key: returns the removed value.
    pub fn remove(&mut self, key: &str) -> (r: Option<YamlValue>)
        ensures
            final(self)@ == map_remove(old(self)@, key@),
            match r {
                Some(v) => map_get(old(self)@, key@) == Some(v@),
                None => map_get(old(self)@, key@) is None,
            },
    {
        let ghost old_view = self@;
        proof {
            yaml::lemma_entries_view(self.entries@);
        }
        match self.index_of(key) {
            Some(i) => {
                let (_, v) = self.entries.swap_remove(i);
                proof {
                    yaml::lemma_entries_view_ext(self.entries@, old_view.update(i as int, old_view.last()).drop_last());
                }
                Some(v)
            },
            None => None,
        }
    }

    /// A copy with the same content.
    pub fn copy(&self) -> (r: YamlMapping)
        ensures
            r@ == self@,
    {
        let mut out: Vec<(YamlValue, YamlValue)> = Vec::new();
        let mut i: usize = 0;
        while i < self.entries.len()
            invariant
                i <= self.entries.len(),
                out.len() == i,
                forall|j: int|
                    0 <= j < i ==> (yaml::value_view(#[trigger] out@[j].0), yaml::value_view(out@[j].1))
                        == self@[j],
            decreases self.entries.len() - i,
        {
            proof {
                yaml::lemma_entries_view(self.entries@);
            }
            let k = self.entries[i].0.copy();
            let v = self.entries[i].1.copy();
            out.push((k, v));
            i += 1;
        }
        proof {
            yaml::lemma_entries_view(self.entries@);
            yaml::lemma_entries_view_ext(out@, self@);
        }
        YamlMapping { entries: out }
    }
}

} // verus!

verus! {

/// Entries with the same keys in the same places find a key at the same place.
pub proof fn lemma_key_index_same_keys(a: Seq<(YamlV, YamlV)>, b: Seq<(YamlV, YamlV)>, k: Seq<char>)
    requires
        a.len() == b.len(),
        forall|i: int| 0 <= i < a.len() ==> #[trigger] a[i].0 == b[i].0,
    ensures
        key_index(a, k) == key_index(b, k),
{
    lemma_key_index(a, k);
    lemma_key_index(b, k);
    match key_index(a, k) {
        Some(j) => {
            assert(a[j].0 == b[j].0);
            assert forall|l: int| 0 <= l < j implies b[l].0 != YamlV::Str(k) by {
                assert(a[l].0 == b[l].0);
            }
            lemma_key_index_at(b, k, j);
        },
        None => {
            if key_index(b, k) is Some {
                let j = key_index(b, k)->0;
                assert(a[j].0 == b[j].0);
            }
        },
    }
}

/// What `map_insert` does to lookups: the inserted key now gives the new value, every
/// other key what it gave before.
pub proof fn lemma_map_insert_get(m: Seq<(YamlV, YamlV)>, k: Seq<char>, v: YamlV, k2: Seq<char>)
    ensures
        map_get(map_insert(m, k, v), k2) == if k2 == k {
            Some(v)
        } else {
            map_get(m, k2)
        },
        key_index(map_insert(m, k, v), k2) is Some <==> (k2 == k || key_index(m, k2) is Some),
{
    lemma_key_index(m, k);
    lemma_key_index(m, k2);
    let r = map_insert(m, k, v);
    match key_index(m, k) {
        Some(i) => {
            assert forall|j: int| 0 <= j < m.len() implies #[trigger] r[j].0 == m[j].0 by {}
            lemma_key_index_same_keys(r, m, k2);
            if k2 == k {
                assert(key_index(r, k2) == Some(i));
            }
        },
        None => {
            lemma_key_index(r, k2);
            if k2 == k {
                lemma_key_index_at(r, k2, m.len() as int);
            } else {
                match key_index(m, k2) {
                    Some(j) => {
                        lemma_key_index_at(r, k2, j);
                    },
                    None => {
                        if key_index(r, k2) is Some {
                            let j = key_index(r, k2)->0;
                            if j < m.len() {
                                assert(r[j] == m[j]);
                            }
                        }
                    },
                }
            }
        },
    }
}

} // verus!

verus! {

/// No two entries have the same key.
pub open spec fn unique_keys(m: Seq<(YamlV, YamlV)>) -> bool {
    forall|i: int, j: int| 0 <= i < j < m.len() ==> #[trigger] m[i].0 != #[trigger] m[j].0
}

/// Inserting keeps keys unique, and inserting a key's own value changes nothing.
pub proof fn lemma_map_insert_unique(m: Seq<(YamlV, YamlV)>, k: Seq<char>, v: YamlV)
    ensures
        unique_keys(m) ==> unique_keys(map_insert(m, k, v)),
        map_get(m, k) == Some(v) ==> map_insert(m, k, v) == m,
{
    lemma_key_index(m, k);
    let r = map_insert(m, k, v);
    match key_index(m, k) {
        Some(i) => {
            if unique_keys(m) {
                assert forall|a: int, b: int| 0 <= a < b < r.len() implies #[trigger] r[a].0 != #[trigger] r[b].0 by {
                    assert(r[a].0 == m[a].0 && r[b].0 == m[b].0);
                }
            }
            if map_get(m, k) == Some(v) {
                assert(r =~= m);
            }
        },
        None => {
            if unique_keys(m) {
                assert forall|a: int, b: int| 0 <= a < b < r.len() implies #[trigger] r[a].0 != #[trigger] r[b].0 by {
                    if b == m.len() {
                        assert(r[a] == m[a]);
                    } else {
                        assert(r[a] == m[a] && r[b] == m[b]);
                    }
                }
            }
        },
    }
}

/// Removing a key from a mapping with unique keys: the key is gone, the other keys
/// give what they gave, and keys stay unique.
pub proof fn lemma_map_remove(m: Seq<(YamlV, YamlV)>, k: Seq<char>, k2: Seq<char>)
    requires
        unique_keys(m),
    ensures
        unique_keys(map_remove(m, k)),
        map_get(map_remove(m, k), k2) == if k2 == k {
            None
        } else {
            map_get(m, k2)
        },
{
    lemma_key_index(m, k);
    lemma_key_index(m, k2);
    let r = map_remove(m, k);
    match key_index(m, k) {
        None => {},
        Some(i) => {
            let n = m.len();
            assert(r.len() == n - 1);
            assert forall|a: int| 0 <= a < r.len() implies #[trigger] r[a] == (if a == i {
                m[n - 1]
            } else {
                m[a]
            }) by {}
            assert forall|a: int, b: int| 0 <= a < b < r.len() implies #[trigger] r[a].0 != #[trigger] r[b].0 by {
                if a == i {
                    assert(m[n - 1].0 != m[b].0);
                } else if b == i {
                    assert(m[a].0 != m[n - 1].0);
                } else {
                    assert(m[a].0 != m[b].0);
                }
            }
            lemma_key_index(r, k2);
            if k2 == k {
                if key_index(r, k2) is Some {
                    let j = key_index(r, k2)->0;
                    if j == i {
                        assert(m[n - 1].0 == YamlV::Str(k));
                        if n - 1 != i {
                            assert(m[i].0 != m[n - 1].0);
                        }
                    } else {
                        assert(m[j].0 == YamlV::Str(k));
                        if j < i {
                        } else {
                            assert(m[i].0 != m[j].0);
                        }
                    }
                }
            } else {
                match key_index(m, k2) {
                    Some(j) => {
                        // The entry for k2 is at j, or moved into i when it was last.
                        let t = if j == n - 1 { i } else { j };
                        assert(r[t] == m[j]);
                        assert forall|l: int| 0 <= l < r.len() && l != t implies r[l].0 != YamlV::Str(k2) by {
                            if l == i {
                                assert(m[n - 1].0 != m[j].0 || n - 1 == j);
                            } else {
                                assert(r[l] == m[l]);
                                if l != j {
                                    if l < j {
                                    } else {
                                        assert(m[l].0 != m[j].0);
                                    }
                                }
                            }
                        }
                        if key_index(r, k2) is Some {
                            let q = key_index(r, k2)->0;
                            assert(q == t);
                        } else {
                            assert(r[t].0 == YamlV::Str(k2));
                        }
                    },
                    None => {
                        if key_index(r, k2) is Some {
                            let q = key_index(r, k2)->0;
                            if q == i {
                                assert(m[n - 1].0 == YamlV::Str(k2));
                            } else {
                                assert(r[q] == m[q]);
                            }
                        }
                    },
                }
            }
        },
    }
}

} // verus!
