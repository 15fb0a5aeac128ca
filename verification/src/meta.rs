//! Free-form metadata: an ordered list of key and value pairs in which the
//! first entry of a key is the one that counts.

use vstd::prelude::*;

verus! {

/// One metadata entry.
#[derive(Debug, PartialEq, Eq)]
pub struct Meta {
    /// The entry's key.
    pub key: String,
    /// The entry's value.
    pub value: String,
}

/// A list of metadata entries.
pub type MetaVec = Vec<Meta>;

/// What a metadata entry holds.
pub struct MetaEntry {
    /// The entry's key.
    pub key: Seq<char>,
    /// The entry's value.
    pub value: Seq<char>,
}

impl View for Meta {
    type V = MetaEntry;

    open spec fn view(&self) -> MetaEntry {
        MetaEntry { key: self.key@, value: self.value@ }
    }
}

impl Clone for Meta {
    fn clone(&self) -> (r: Meta)
        ensures
            r@ == self@,
    {
        Meta { key: self.key.clone(), value: self.value.clone() }
    }
}

/// What a list of metadata entries holds.
pub open spec fn meta_entries(v: Seq<Meta>) -> Seq<MetaEntry> {
    Seq::new(v.len(), |i: int| v[i]@)
}

/// The position of the first entry with the given key.
pub open spec fn meta_index(m: Seq<MetaEntry>, key: Seq<char>) -> Option<int>
    decreases m.len(),
{
    if m.len() == 0 {
        None
    } else {
        match meta_index(m.drop_last(), key) {
            Some(i) => Some(i),
            None => if m.last().key == key {
                Some(m.len() - 1)
            } else {
                None
            },
        }
    }
}

/// The value of the first entry with the given key.
pub open spec fn meta_value(m: Seq<MetaEntry>, key: Seq<char>) -> Option<Seq<char>> {
    match meta_index(m, key) {
        Some(i) => Some(m[i].value),
        None => None,
    }
}

/// The list after a key is given a value: the first entry of the key takes
/// the value, or a new entry is added at the end where the key has none.
pub open spec fn meta_updated(m: Seq<MetaEntry>, key: Seq<char>, value: Seq<char>) -> Seq<
    MetaEntry,
> {
    match meta_index(m, key) {
        Some(i) => m.update(i, MetaEntry { key, value }),
        None => m.push(MetaEntry { key, value }),
    }
}

/// `meta_index` finds the least position that holds the key, and none only
/// where no position holds it.
pub proof fn lemma_meta_index(m: Seq<MetaEntry>, key: Seq<char>)
    ensures
        match meta_index(m, key) {
            Some(i) => 0 <= i < m.len() && m[i].key == key && forall|j: int|
                0 <= j < i ==> (#[trigger] m[j]).key != key,
            None => forall|j: int| 0 <= j < m.len() ==> (#[trigger] m[j]).key != key,
        },
    decreases m.len(),
{
    if m.len() > 0 {
        lemma_meta_index(m.drop_last(), key);
        assert forall|j: int| 0 <= j < m.len() - 1 implies m.drop_last()[j] == m[j] by {}
        match meta_index(m.drop_last(), key) {
            Some(i) => {
                assert(forall|j: int| 0 <= j < i ==> m.drop_last()[j] == m[j]);
            },
            None => {
                assert forall|j: int| 0 <= j < m.len() - 1 implies (#[trigger] m[j]).key
                    != key by {
                    assert(m.drop_last()[j] == m[j]);
                }
            },
        }
    }
}

/// A position that holds the key and has no earlier one that does is the
/// one `meta_index` finds; where no position holds the key it finds none.
pub proof fn lemma_meta_index_is(m: Seq<MetaEntry>, key: Seq<char>, found: Option<int>)
    requires
        match found {
            Some(i) => 0 <= i < m.len() && m[i].key == key && forall|j: int|
                0 <= j < i ==> (#[trigger] m[j]).key != key,
            None => forall|j: int| 0 <= j < m.len() ==> (#[trigger] m[j]).key != key,
        },
    ensures
        meta_index(m, key) == found,
{
    lemma_meta_index(m, key);
    match (meta_index(m, key), found) {
        (Some(a), Some(b)) => {
            if a < b {
                assert(m[a].key != key);
            } else if b < a {
                assert(m[b].key != key);
            }
        },
        (Some(a), None) => {
            assert(m[a].key != key);
        },
        (None, Some(b)) => {
            assert(m[b].key != key);
        },
        (None, None) => {},
    }
}

/// The position of the first entry with the given key.
pub fn meta_find(meta: &Vec<Meta>, key: &str) -> (r: Option<usize>)
    ensures
        match r {
            Some(i) => meta_index(meta_entries(meta@), key@) == Some(i as int) && i < meta.len(),
            None => meta_index(meta_entries(meta@), key@) == None::<int>,
        },
{
    let wanted: String = String::from_str(key);
    let n: usize = meta.len();
    let mut i: usize = 0;
    while i < n
        invariant
            i <= n,
            n == meta.len(),
            wanted@ == key@,
            forall|j: int| 0 <= j < i ==> (#[trigger] meta_entries(meta@)[j]).key != key@,
        decreases n - i,
    {
        if meta[i].key == wanted {
            proof {
                assert(meta_entries(meta@)[i as int].key == key@);
                lemma_meta_index_is(meta_entries(meta@), key@, Some(i as int));
            }
            return Some(i);
        }
        assert(meta_entries(meta@)[i as int].key != key@);
        i = i + 1;
    }
    proof {
        lemma_meta_index_is(meta_entries(meta@), key@, None);
    }
    None
}

/// The value of the first entry with the given key.
pub fn meta_get(meta: &Vec<Meta>, key: &str) -> (r: Option<String>)
    ensures
        match r {
            Some(v) => meta_value(meta_entries(meta@), key@) == Some(v@),
            None => meta_value(meta_entries(meta@), key@) == None::<Seq<char>>,
        },
{
    match meta_find(meta, key) {
        Some(i) => {
            let v: String = meta[i].value.clone();
            Some(v)
        },
        None => None,
    }
}

/// Gives a key a value: the first entry of the key takes the value, or a
/// new entry is added at the end where the key has none.
pub fn meta_update(meta: &mut Vec<Meta>, key: &str, value: &str)
    ensures
        meta_entries(final(meta)@) == meta_updated(meta_entries(old(meta)@), key@, value@),
{
    let entry: Meta = Meta { key: String::from_str(key), value: String::from_str(value) };
    match meta_find(meta, key) {
        Some(i) => {
            meta.set(i, entry);
        },
        None => {
            meta.push(entry);
        },
    }
    assert(meta_entries(meta@) =~= meta_updated(meta_entries(old(meta)@), key@, value@));
}

/// A copy of a list of metadata entries.
pub fn meta_copy(meta: &Vec<Meta>) -> (r: Vec<Meta>)
    ensures
        meta_entries(r@) == meta_entries(meta@),
{
    let mut out: Vec<Meta> = Vec::new();
    let n: usize = meta.len();
    let mut i: usize = 0;
    while i < n
        invariant
            i <= n,
            n == meta.len(),
            out.len() == i,
            forall|j: int| 0 <= j < i ==> (#[trigger] out[j])@ == meta[j]@,
        decreases n - i,
    {
        out.push(Meta { key: meta[i].key.clone(), value: meta[i].value.clone() });
        i = i + 1;
    }
    assert(meta_entries(out@) =~= meta_entries(meta@));
    out
}

/// A key has the value that it was given last.
pub proof fn lemma_meta_updated_same(m: Seq<MetaEntry>, key: Seq<char>, value: Seq<char>)
    ensures
        meta_value(meta_updated(m, key, value), key) == Some(value),
{
    lemma_meta_index(m, key);
    let u = meta_updated(m, key, value);
    match meta_index(m, key) {
        Some(i) => {
            assert forall|j: int| 0 <= j < i implies (#[trigger] u[j]).key != key by {
                assert(u[j] == m[j]);
            }
            lemma_meta_index_is(u, key, Some(i));
        },
        None => {
            assert forall|j: int| 0 <= j < m.len() implies (#[trigger] u[j]).key != key by {
                assert(u[j] == m[j]);
            }
            lemma_meta_index_is(u, key, Some(m.len() as int));
        },
    }
}

/// Giving a key a value leaves the values of all other keys as they are.
pub proof fn lemma_meta_updated_other(
    m: Seq<MetaEntry>,
    key: Seq<char>,
    value: Seq<char>,
    other: Seq<char>,
)
    requires
        key != other,
    ensures
        meta_value(meta_updated(m, key, value), other) == meta_value(m, other),
{
    lemma_meta_index(m, key);
    lemma_meta_index(m, other);
    let u = meta_updated(m, key, value);
    assert forall|j: int| 0 <= j < m.len() implies ((#[trigger] u[j]).key == other) == (m[j].key
        == other) by {}
    match meta_index(m, other) {
        Some(i) => {
            assert(u[i].key == other);
            assert(u[i] == m[i]);
            assert forall|j: int| 0 <= j < i implies (#[trigger] u[j]).key != other by {
                assert(m[j].key != other);
            }
            lemma_meta_index_is(u, other, Some(i));
        },
        None => {
            assert forall|j: int| 0 <= j < u.len() implies (#[trigger] u[j]).key != other by {
                if j < m.len() {
                    assert(m[j].key != other);
                }
            }
            lemma_meta_index_is(u, other, None);
        },
    }
}

} // verus!
