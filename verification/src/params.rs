//! The parameters of a challenge: an association list with unique keys that
//! keeps its keys in the order in which they first came.
//!
//! The order matters: the query of a token request lists the parameters as
//! the header did, the same on every run. A hash map would walk them in an
//! order of its own, and of a map keyed by strings nothing could be proved
//! here; of this list everything is.

use vstd::prelude::*;
use crate::text::Text;

verus! {

/// Position of the first entry of `m` with key `k`, or the length of `m`
/// where no entry has it.
pub open spec fn key_index(m: Seq<(Text, Text)>, k: Text) -> int
    decreases m.len(),
{
    if m.len() == 0 {
        0
    } else if m[0].0 == k {
        0
    } else {
        1 + key_index(m.drop_first(), k)
    }
}

/// The value that `m` holds for `k`.
pub open spec fn lookup(m: Seq<(Text, Text)>, k: Text) -> Option<Text> {
    let i = key_index(m, k);
    if i < m.len() {
        Some(m[i].1)
    } else {
        None
    }
}

/// `m` with `k` set to `v`: the entry for `k` is replaced where it stands,
/// a new key goes to the end.
pub open spec fn put(m: Seq<(Text, Text)>, k: Text, v: Text) -> Seq<(Text, Text)> {
    let i = key_index(m, k);
    if i < m.len() {
        m.update(i, (k, v))
    } else {
        m.push((k, v))
    }
}

/// The association list that results from setting the pairs one after the
/// other, first to last: of two pairs with one key the later one wins.
pub open spec fn collect(pairs: Seq<(Text, Text)>) -> Seq<(Text, Text)>
    decreases pairs.len(),
{
    if pairs.len() == 0 {
        Seq::empty()
    } else {
        put(collect(pairs.drop_last()), pairs.last().0, pairs.last().1)
    }
}

/// Whether no two entries of `m` share a key.
pub open spec fn distinct_keys(m: Seq<(Text, Text)>) -> bool {
    forall|i: int, j: int| 0 <= i < j < m.len() ==> (#[trigger] m[i]).0 != (#[trigger] m[j]).0
}

/// `key_index` returns the first position whose key is `k`.
pub proof fn lemma_key_index(m: Seq<(Text, Text)>, k: Text)
    ensures
        0 <= key_index(m, k) <= m.len(),
        key_index(m, k) < m.len() ==> m[key_index(m, k)].0 == k,
        forall|j: int| 0 <= j < key_index(m, k) ==> (#[trigger] m[j]).0 != k,
    decreases m.len(),
{
    if m.len() > 0 && m[0].0 != k {
        let rest = m.drop_first();
        lemma_key_index(rest, k);
        assert forall|j: int| 0 <= j < key_index(m, k) implies (#[trigger] m[j]).0 != k by {
            if j > 0 {
                assert(m[j] == rest[j - 1]);
            }
        }
    }
}

/// A position whose key is `k`, with no such key before it, is what
/// `key_index` returns.
pub proof fn lemma_key_index_unique(m: Seq<(Text, Text)>, k: Text, at: int)
    requires
        0 <= at <= m.len(),
        at < m.len() ==> m[at].0 == k,
        forall|j: int| 0 <= j < at ==> (#[trigger] m[j]).0 != k,
    ensures
        key_index(m, k) == at,
    decreases m.len(),
{
    if at > 0 {
        let rest = m.drop_first();
        assert(m[0].0 != k);
        assert forall|j: int| 0 <= j < at - 1 implies (#[trigger] rest[j]).0 != k by {
            assert(rest[j] == m[j + 1]);
        }
        lemma_key_index_unique(rest, k, at - 1);
    }
}

/// After `put`, the key holds the new value, every other key holds what it
/// held before, and the keys stay distinct.
pub proof fn lemma_put(m: Seq<(Text, Text)>, k: Text, v: Text)
    ensures
        lookup(put(m, k, v), k) == Some(v),
        forall|other: Text| other != k ==> lookup(put(m, k, v), other) == lookup(m, other),
        distinct_keys(m) ==> distinct_keys(put(m, k, v)),
{
    lemma_key_index(m, k);
    let i = key_index(m, k);
    let after = put(m, k, v);
    lemma_key_index_unique(after, k, i);
    assert forall|other: Text| other != k implies lookup(after, other) == lookup(m, other) by {
        lemma_key_index(m, other);
        let j = key_index(m, other);
        assert forall|x: int| 0 <= x < j implies (#[trigger] after[x]).0 != other by {
            if x < m.len() && x != i {
                assert(after[x] == m[x]);
            }
        }
        lemma_key_index_unique(after, other, if j < m.len() { j } else { after.len() as int });
    }
    if distinct_keys(m) {
        assert forall|a: int, b: int| 0 <= a < b < after.len() implies (#[trigger] after[a]).0 != (
        #[trigger] after[b]).0 by {
            if i < m.len() {
                assert(m[a].0 != m[b].0);
            } else if b < m.len() {
                assert(m[a].0 != m[b].0);
            } else {
                assert(m[a].0 != k);
            }
        }
    }
}

/// What `collect` returns has distinct keys.
pub proof fn lemma_collect_distinct(pairs: Seq<(Text, Text)>)
    ensures
        distinct_keys(collect(pairs)),
    decreases pairs.len(),
{
    if pairs.len() > 0 {
        lemma_collect_distinct(pairs.drop_last());
        lemma_put(collect(pairs.drop_last()), pairs.last().0, pairs.last().1);
    }
}

/// Looking a key up after `collect` gives the value of the last pair with
/// that key, and nothing for a key that no pair has.
pub proof fn lemma_collect_lookup(pairs: Seq<(Text, Text)>, k: Text)
    ensures
        match lookup(collect(pairs), k) {
            Some(v) => exists|i: int|
                0 <= i < pairs.len() && #[trigger] pairs[i] == (k, v) && forall|j: int|
                    i < j < pairs.len() ==> (#[trigger] pairs[j]).0 != k,
            None => forall|i: int| 0 <= i < pairs.len() ==> (#[trigger] pairs[i]).0 != k,
        },
    decreases pairs.len(),
{
    if pairs.len() > 0 {
        let front = pairs.drop_last();
        let last = pairs.last();
        lemma_collect_lookup(front, k);
        lemma_put(collect(front), last.0, last.1);
        if last.0 == k {
            assert(pairs[pairs.len() - 1] == (k, last.1));
        } else {
            match lookup(collect(front), k) {
                Some(v) => {
                    let i = choose|i: int|
                        0 <= i < front.len() && #[trigger] front[i] == (k, v) && forall|j: int|
                            i < j < front.len() ==> (#[trigger] front[j]).0 != k;
                    assert(pairs[i] == (k, v));
                    assert forall|j: int| i < j < pairs.len() implies (#[trigger] pairs[j]).0
                        != k by {
                        if j < front.len() {
                            assert(front[j] == pairs[j]);
                        }
                    }
                },
                None => {
                    assert forall|i: int| 0 <= i < pairs.len() implies (#[trigger] pairs[i]).0
                        != k by {
                        if i < front.len() {
                            assert(front[i] == pairs[i]);
                        }
                    }
                },
            }
        }
    }
}

/// Where the keys of the pairs are distinct, `collect` returns the pairs as
/// they are, and each key holds its own value.
pub proof fn lemma_collect_of_distinct(pairs: Seq<(Text, Text)>)
    requires
        distinct_keys(pairs),
    ensures
        collect(pairs) == pairs,
        forall|i: int| 0 <= i < pairs.len() ==> lookup(pairs, (#[trigger] pairs[i]).0) == Some(
            pairs[i].1,
        ),
    decreases pairs.len(),
{
    if pairs.len() > 0 {
        let front = pairs.drop_last();
        let last = pairs.last();
        assert forall|i: int, j: int| 0 <= i < j < front.len() implies (#[trigger] front[i]).0 != (
        #[trigger] front[j]).0 by {
            assert(front[i] == pairs[i] && front[j] == pairs[j]);
        }
        lemma_collect_of_distinct(front);
        assert forall|j: int| 0 <= j < front.len() implies (#[trigger] front[j]).0 != last.0 by {
            assert(front[j] == pairs[j]);
            assert(pairs[pairs.len() - 1] == last);
        }
        lemma_key_index_unique(front, last.0, front.len() as int);
        assert(collect(pairs) =~= pairs);
    }
    assert forall|i: int| 0 <= i < pairs.len() implies lookup(pairs, (#[trigger] pairs[i]).0)
        == Some(pairs[i].1) by {
        assert forall|j: int| 0 <= j < i implies (#[trigger] pairs[j]).0 != pairs[i].0 by {}
        lemma_key_index_unique(pairs, pairs[i].0, i);
    }
}

/// Key/value parameters with unique keys, in the order in which the keys
/// first came.
#[derive(Debug)]
pub struct Params {
    entries: Vec<(String, String)>,
}

impl View for Params {
    type V = Seq<(Text, Text)>;

    closed spec fn view(&self) -> Seq<(Text, Text)> {
        pair_views(self.entries@)
    }
}

/// The views of a vector of pairs of strings, in order.
pub open spec fn pair_views(entries: Seq<(String, String)>) -> Seq<(Text, Text)> {
    Seq::new(entries.len(), |i: int| (entries[i].0@, entries[i].1@))
}

impl Params {
    /// What holds of every value of this type: no key occurs twice.
    #[verifier::type_invariant]
    pub open spec fn keys_are_distinct(self) -> bool {
        distinct_keys(self@)
    }

    /// No parameters.
    pub fn new() -> (r: Params)
        ensures
            r@ == Seq::<(Text, Text)>::empty(),
    {
        let r = Params { entries: Vec::new() };
        assert(r@ =~= Seq::<(Text, Text)>::empty());
        r
    }

    /// The number of parameters.
    pub fn len(&self) -> (r: usize)
        ensures
            r == self@.len(),
    {
        self.entries.len()
    }

    /// Position of the entry for `key`, or the number of entries if there is none.
    fn position(&self, key: &str) -> (r: usize)
        ensures
            r == key_index(self@, key@),
            r <= self@.len(),
            r <= self.entries@.len(),
    {
        let wanted = key.to_owned();
        let mut i: usize = 0;
        while i < self.entries.len()
            invariant
                i <= self.entries@.len(),
                wanted@ == key@,
                forall|j: int| 0 <= j < i ==> (#[trigger] self@[j]).0 != key@,
            decreases self.entries@.len() - i,
        {
            if self.entries[i].0 == wanted {
                proof {
                    assert(self@[i as int].0 == key@);
                    lemma_key_index_unique(self@, key@, i as int);
                }
                return i;
            }
            assert(self@[i as int].0 != key@);
            i += 1;
        }
        proof {
            lemma_key_index_unique(self@, key@, i as int);
        }
        i
    }

    /// The value for `key`, if the parameters hold one.
    pub fn get(&self, key: &str) -> (r: Option<&String>)
        ensures
            match r {
                Some(v) => lookup(self@, key@) == Some(v@),
                None => lookup(self@, key@) is None,
            },
    {
        let i = self.position(key);
        if i < self.entries.len() {
            Some(&self.entries[i].1)
        } else {
            None
        }
    }

    /// Whether the parameters hold a value for `key`.
    pub fn contains_key(&self, key: &str) -> (r: bool)
        ensures
            r == lookup(self@, key@).is_some(),
    {
        self.position(key) < self.entries.len()
    }

    /// Sets `key` to `value`. An earlier value for `key` is replaced and the
    /// key keeps its place; a new key goes to the end.
    pub fn insert(&mut self, key: String, value: String)
        ensures
            final(self)@ == put(old(self)@, key@, value@),
            distinct_keys(final(self)@),
    {
        proof {
            use_type_invariant(&*self);
            lemma_put(self@, key@, value@);
        }
        let i = self.position(key.as_str());
        let mut taken = Params::new();
        core::mem::swap(self, &mut taken);
        let Params { entries } = taken;
        let mut entries = entries;
        if i < entries.len() {
            entries.set(i, (key, value));
        } else {
            entries.push((key, value));
        }
        assert(pair_views(entries@) =~= put(old(self)@, key@, value@));
        *self = Params { entries };
    }

    /// The key and the value at position `i`.
    pub fn entry(&self, i: usize) -> (r: (&String, &String))
        requires
            i < self@.len(),
        ensures
            (r.0@, r.1@) == self@[i as int],
    {
        (&self.entries[i].0, &self.entries[i].1)
    }
}

} // verus!
