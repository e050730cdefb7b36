//! The metadata mapping: keys to ordered lists of string values.
//!
//! A key may be absent, present with no values, or present with several;
//! the three states are distinct, and lookups answer the first entry that
//! carries the key.

use crate::text::str_eq;
use vstd::prelude::*;

verus! {

/// One metadata key together with its ordered values.
pub struct MetaEntry {
    pub key: String,
    pub values: Vec<String>,
}

/// One key/value pair as the container parser reports it, in document order.
pub struct MetaPair {
    pub key: String,
    pub value: String,
}

/// A container's metadata mapping.
pub struct Metadata {
    pub entries: Vec<MetaEntry>,
}

/// The views of a list of owned strings.
pub open spec fn views_of(vs: Seq<String>) -> Seq<Seq<char>> {
    vs.map_values(|v: String| v@)
}

/// The values of the first entry carrying the given key, if any.
pub open spec fn lookup_in(entries: Seq<MetaEntry>, key: Seq<char>) -> Option<Seq<Seq<char>>>
    decreases entries.len(),
{
    if entries.len() == 0 {
        None
    } else if entries.first().key@ == key {
        Some(views_of(entries.first().values@))
    } else {
        lookup_in(entries.drop_first(), key)
    }
}

proof fn lemma_lookup_at(entries: Seq<MetaEntry>, key: Seq<char>, j: int)
    requires
        0 <= j < entries.len(),
        forall|i: int| 0 <= i < j ==> entries[i].key@ != key,
        entries[j].key@ == key,
    ensures
        lookup_in(entries, key) == Some(views_of(entries[j].values@)),
    decreases j,
{
    if j > 0 {
        lemma_lookup_at(entries.drop_first(), key, j - 1);
    }
}

proof fn lemma_lookup_none(entries: Seq<MetaEntry>, key: Seq<char>)
    requires
        forall|i: int| 0 <= i < entries.len() ==> entries[i].key@ != key,
    ensures
        lookup_in(entries, key) is None,
    decreases entries.len(),
{
    if entries.len() > 0 {
        lemma_lookup_none(entries.drop_first(), key);
    }
}

proof fn lemma_lookup_update(entries: Seq<MetaEntry>, j: int, e: MetaEntry, k: Seq<char>)
    requires
        0 <= j < entries.len(),
        forall|i: int| 0 <= i < j ==> entries[i].key@ != entries[j].key@,
        e.key@ == entries[j].key@,
    ensures
        lookup_in(entries.update(j, e), k) == (if k == entries[j].key@ {
            Some(views_of(e.values@))
        } else {
            lookup_in(entries, k)
        }),
    decreases j,
{
    let u = entries.update(j, e);
    if j == 0 {
        if k != entries[0].key@ {
            assert(u.drop_first() =~= entries.drop_first());
        }
    } else {
        assert(u.first() == entries.first());
        if k != entries.first().key@ {
            assert(u.drop_first() =~= entries.drop_first().update(j - 1, e));
            lemma_lookup_update(entries.drop_first(), j - 1, e, k);
        }
    }
}

proof fn lemma_lookup_push(entries: Seq<MetaEntry>, e: MetaEntry, k: Seq<char>)
    requires
        forall|i: int| 0 <= i < entries.len() ==> entries[i].key@ != e.key@,
    ensures
        lookup_in(entries.push(e), k) == (if k == e.key@ {
            Some(views_of(e.values@))
        } else {
            lookup_in(entries, k)
        }),
    decreases entries.len(),
{
    let p = entries.push(e);
    if entries.len() == 0 {
        assert(p.first() == e);
        if k != e.key@ {
            assert(p.drop_first() =~= Seq::<MetaEntry>::empty());
        }
    } else {
        assert(p.first() == entries.first());
        if k != entries.first().key@ {
            assert(p.drop_first() =~= entries.drop_first().push(e));
            lemma_lookup_push(entries.drop_first(), e, k);
        }
    }
}

/// Whether some pair carries the given key.
pub open spec fn has_key(pairs: Seq<MetaPair>, key: Seq<char>) -> bool {
    exists|i: int| 0 <= i < pairs.len() && pairs[i].key@ == key
}

/// The values the pairs give a key, in the order they were reported.
pub open spec fn values_for(pairs: Seq<MetaPair>, key: Seq<char>) -> Seq<Seq<char>>
    decreases pairs.len(),
{
    if pairs.len() == 0 {
        Seq::empty()
    } else {
        let rest = values_for(pairs.drop_last(), key);
        if pairs.last().key@ == key {
            rest.push(pairs.last().value@)
        } else {
            rest
        }
    }
}

proof fn lemma_values_for_absent(pairs: Seq<MetaPair>, key: Seq<char>)
    requires
        !has_key(pairs, key),
    ensures
        values_for(pairs, key) == Seq::<Seq<char>>::empty(),
    decreases pairs.len(),
{
    if pairs.len() > 0 {
        assert(pairs.last().key@ != key);
        assert(!has_key(pairs.drop_last(), key));
        lemma_values_for_absent(pairs.drop_last(), key);
    }
}

/// A mapping answers the pairs it was grouped from: every key that occurs
/// maps to its values in reported order, and every other key is absent.
pub open spec fn grouped(pairs: Seq<MetaPair>, m: Metadata) -> bool {
    forall|k: Seq<char>|
        #![trigger m.lookup(k)]
        m.lookup(k) == (if has_key(pairs, k) {
            Some(values_for(pairs, k))
        } else {
            None::<Seq<Seq<char>>>
        })
}

impl Metadata {
    /// The value list under a key, or `None` where the key is absent.
    pub open spec fn lookup(self, key: Seq<char>) -> Option<Seq<Seq<char>>> {
        lookup_in(self.entries@, key)
    }

    /// A mapping with no keys at all.
    pub fn new() -> (m: Metadata)
        ensures
            m.entries@.len() == 0,
            forall|k: Seq<char>| #[trigger] m.lookup(k) is None,
    {
        let m = Metadata { entries: Vec::new() };
        proof {
            assert forall|k: Seq<char>| #[trigger] m.lookup(k) is None by {
                lemma_lookup_none(m.entries@, k);
            }
        }
        m
    }

    /// The values under `key`, or `None` where the key is absent.
    pub fn get<'a>(&'a self, key: &str) -> (r: Option<&'a Vec<String>>)
        ensures
            (match r {
                Some(vs) => self.lookup(key@) == Some(views_of(vs@)),
                None => self.lookup(key@) is None,
            }),
    {
        let n = self.entries.len();
        let mut i: usize = 0;
        while i < n
            invariant_except_break
                0 <= i <= n,
                n == self.entries@.len(),
                forall|m: int| 0 <= m < i ==> self.entries@[m].key@ != key@,
            ensures
                0 <= i <= n,
                n == self.entries@.len(),
                forall|m: int| 0 <= m < i ==> self.entries@[m].key@ != key@,
                i < n ==> self.entries@[i as int].key@ == key@,
            decreases n - i,
        {
            if str_eq(self.entries[i].key.as_str(), key) {
                break;
            }
            i = i + 1;
        }
        if i < n {
            proof {
                lemma_lookup_at(self.entries@, key@, i as int);
            }
            Some(&self.entries[i].values)
        } else {
            proof {
                lemma_lookup_none(self.entries@, key@);
            }
            None
        }
    }

    /// Appends one reported value: onto the entry already carrying the key,
    /// or as a fresh entry where the key is new.
    pub fn add_value(&mut self, key: String, value: String)
        ensures
            forall|k: Seq<char>|
                #![trigger final(self).lookup(k)]
                final(self).lookup(k) == (if k == key@ {
                    match old(self).lookup(k) {
                        Some(vs) => Some(vs.push(value@)),
                        None => Some(seq![value@]),
                    }
                } else {
                    old(self).lookup(k)
                }),
    {
        let ghost old_entries = self.entries@;
        let n = self.entries.len();
        let mut i: usize = 0;
        while i < n
            invariant_except_break
                0 <= i <= n,
                n == self.entries@.len(),
                forall|m: int| 0 <= m < i ==> self.entries@[m].key@ != key@,
            ensures
                0 <= i <= n,
                n == self.entries@.len(),
                forall|m: int| 0 <= m < i ==> self.entries@[m].key@ != key@,
                i < n ==> self.entries@[i as int].key@ == key@,
            decreases n - i,
        {
            if str_eq(self.entries[i].key.as_str(), key.as_str()) {
                break;
            }
            i = i + 1;
        }
        if i < n {
            let mut entry = self.entries.remove(i);
            let ghost old_values = entry.values@;
            entry.values.push(value);
            proof {
                assert(views_of(entry.values@) =~= views_of(old_values).push(entry.values@.last()@));
            }
            self.entries.insert(i, entry);
            proof {
                assert(self.entries@ =~= old_entries.update(i as int, self.entries@[i as int]));
                lemma_lookup_at(old_entries, key@, i as int);
                assert forall|k: Seq<char>|
                    #![trigger lookup_in(self.entries@, k)]
                    lookup_in(self.entries@, k) == (if k == key@ {
                        match lookup_in(old_entries, k) {
                            Some(vs) => Some(vs.push(value@)),
                            None => Some(seq![value@]),
                        }
                    } else {
                        lookup_in(old_entries, k)
                    }) by {
                    lemma_lookup_update(
                        old_entries,
                        i as int,
                        self.entries@[i as int],
                        k,
                    );
                }
            }
        } else {
            let mut values: Vec<String> = Vec::new();
            values.push(value);
            let ghost e_values = values@;
            let entry = MetaEntry { key, values };
            self.entries.push(entry);
            proof {
                assert(self.entries@ =~= old_entries.push(self.entries@.last()));
                lemma_lookup_none(old_entries, key@);
                assert(views_of(e_values) =~= seq![e_values.last()@]);
                assert forall|k: Seq<char>|
                    #![trigger lookup_in(self.entries@, k)]
                    lookup_in(self.entries@, k) == (if k == key@ {
                        Some(seq![value@])
                    } else {
                        lookup_in(old_entries, k)
                    }) by {
                    lemma_lookup_push(old_entries, self.entries@.last(), k);
                }
            }
        }
    }

    /// Groups the parser's ordered key/value pairs into a mapping: each key's
    /// values keep their reported order, and no other key appears.
    pub fn from_pairs(pairs: Vec<MetaPair>) -> (m: Metadata)
        ensures
            grouped(pairs@, m),
    {
        let mut m = Metadata::new();
        let n = pairs.len();
        let mut i: usize = 0;
        proof {
            assert(grouped(pairs@.subrange(0, 0), m));
        }
        while i < n
            invariant
                0 <= i <= n,
                n == pairs@.len(),
                grouped(pairs@.subrange(0, i as int), m),
            decreases n - i,
        {
            let key = pairs[i].key.clone();
            let value = pairs[i].value.clone();
            let ghost prev = m;
            let ghost done = pairs@.subrange(0, i as int);
            m.add_value(key, value);
            proof {
                let next = pairs@.subrange(0, i + 1);
                assert(next.drop_last() =~= done);
                assert(next.last() == pairs@[i as int]);
                assert forall|k: Seq<char>|
                    #![trigger m.lookup(k)]
                    m.lookup(k) == (if has_key(next, k) {
                        Some(values_for(next, k))
                    } else {
                        None::<Seq<Seq<char>>>
                    }) by {
                    assert(prev.lookup(k) == (if has_key(done, k) {
                        Some(values_for(done, k))
                    } else {
                        None::<Seq<Seq<char>>>
                    }));
                    if k == pairs@[i as int].key@ {
                        assert(has_key(next, k));
                        if !has_key(done, k) {
                            lemma_values_for_absent(done, k);
                            assert(values_for(next, k) =~= seq![pairs@[i as int].value@]);
                        }
                    } else {
                        assert(has_key(next, k) == has_key(done, k)) by {
                            if has_key(done, k) {
                                let w = choose|w: int| 0 <= w < done.len() && done[w].key@ == k;
                                assert(next[w].key@ == k);
                            }
                            if has_key(next, k) {
                                let w = choose|w: int| 0 <= w < next.len() && next[w].key@ == k;
                                assert(w < done.len());
                                assert(done[w].key@ == k);
                            }
                        }
                    }
                }
            }
            i = i + 1;
        }
        proof {
            assert(pairs@.subrange(0, n as int) =~= pairs@);
        }
        m
    }
}

} // verus!
