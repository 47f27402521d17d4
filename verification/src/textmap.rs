//! A small map from texts to plain values.
use vstd::prelude::*;

use crate::text::same_text;

verus! {

/// A map keyed by text. Every key has at most one entry.
#[derive(Debug)]
pub struct TextMap<V> {
    pub entries: Vec<(String, V)>,
}

impl<V: Copy> TextMap<V> {
    /// The map that the entries denote.
    pub open spec fn view(&self) -> Map<Seq<char>, V> {
        entries_view(self.entries@)
    }

    /// Whether no key occurs twice.
    pub open spec fn wf(&self) -> bool {
        distinct_keys(self.entries@)
    }

    /// The empty map.
    pub fn new() -> (m: TextMap<V>)
        ensures
            m.wf(),
            m@ == Map::<Seq<char>, V>::empty(),
    {
        TextMap { entries: Vec::new() }
    }

    fn find(&self, key: &str) -> (r: Option<usize>)
        ensures
            match r {
                Some(i) => i < self.entries@.len() && self.entries@[i as int].0@ == key@,
                None => forall|k: int|
                    0 <= k < self.entries@.len() ==> (#[trigger] self.entries@[k]).0@ != key@,
            },
    {
        let mut i: usize = 0;
        while i < self.entries.len()
            invariant
                i <= self.entries@.len(),
                forall|k: int| 0 <= k < i ==> (#[trigger] self.entries@[k]).0@ != key@,
            decreases self.entries@.len() - i,
        {
            if same_text(self.entries[i].0.as_str(), key) {
                return Some(i);
            }
            i += 1;
        }
        None
    }

    /// The value of a key.
    pub fn get(&self, key: &str) -> (r: Option<V>)
        requires
            self.wf(),
        ensures
            match r {
                Some(v) => self@.contains_key(key@) && self@[key@] == v,
                None => !self@.contains_key(key@),
            },
    {
        match self.find(key) {
            Some(i) => {
                proof {
                    lemma_entry(self.entries@, i as int);
                }
                Some(self.entries[i].1)
            },
            None => {
                proof {
                    lemma_no_entry(self.entries@, key@);
                }
                None
            },
        }
    }

    /// Sets the value of a key.
    pub fn set(&mut self, key: &str, value: V)
        requires
            old(self).wf(),
        ensures
            final(self).wf(),
            final(self)@ == old(self)@.insert(key@, value),
    {
        let ghost before = self.entries@;
        match self.find(key) {
            Some(i) => {
                let k = key.to_owned();
                self.entries[i] = (k, value);
                proof {
                    lemma_replace(before, i as int, (k, value));
                }
            },
            None => {
                let k = key.to_owned();
                self.entries.push((k, value));
                proof {
                    assert(self.entries@.drop_last() =~= before);
                    assert forall|i: int, j: int|
                        0 <= i < j < self.entries@.len() implies (#[trigger] self.entries@[i]).0@
                        != (#[trigger] self.entries@[j]).0@ by {
                        if j < before.len() {
                            assert(before[i].0@ != before[j].0@);
                        } else {
                            assert(before[i].0@ != key@);
                        }
                    }
                }
            },
        }
    }
}

/// Whether no key occurs twice among the entries.
pub open spec fn distinct_keys<V>(entries: Seq<(String, V)>) -> bool {
    forall|i: int, j: int|
        0 <= i < j < entries.len() ==> (#[trigger] entries[i]).0@ != (#[trigger] entries[j]).0@
}

/// The map that some entries denote.
pub open spec fn entries_view<V>(entries: Seq<(String, V)>) -> Map<Seq<char>, V>
    decreases entries.len(),
{
    if entries.len() == 0 {
        Map::empty()
    } else {
        entries_view(entries.drop_last()).insert(entries.last().0@, entries.last().1)
    }
}

proof fn lemma_no_entry<V>(entries: Seq<(String, V)>, key: Seq<char>)
    requires
        forall|k: int| 0 <= k < entries.len() ==> (#[trigger] entries[k]).0@ != key,
    ensures
        !entries_view(entries).contains_key(key),
    decreases entries.len(),
{
    if entries.len() > 0 {
        assert(entries[entries.len() - 1].0@ != key);
        assert forall|k: int| 0 <= k < entries.drop_last().len() implies (
        #[trigger] entries.drop_last()[k]).0@ != key by {
            assert(entries[k].0@ != key);
        }
        lemma_no_entry(entries.drop_last(), key);
    }
}

/// An entry gives the value of its key, where no key occurs twice.
pub proof fn lemma_entry<V>(entries: Seq<(String, V)>, i: int)
    requires
        distinct_keys(entries),
        0 <= i < entries.len(),
    ensures
        entries_view(entries).contains_key(entries[i].0@),
        entries_view(entries)[entries[i].0@] == entries[i].1,
    decreases entries.len(),
{
    let last = entries.len() - 1;
    if i < last {
        let shorter = entries.drop_last();
        assert(distinct_keys(shorter)) by {
            assert forall|a: int, b: int| 0 <= a < b < shorter.len() implies (#[trigger] shorter[a]).0@
                != (#[trigger] shorter[b]).0@ by {
                assert(entries[a].0@ != entries[b].0@);
            }
        }
        lemma_entry(shorter, i);
        assert(shorter[i] == entries[i]);
        assert(entries[i].0@ != entries[last].0@);
    }
}

/// Every key of the map has an entry.
pub proof fn lemma_key_has_entry<V>(entries: Seq<(String, V)>, key: Seq<char>)
    requires
        entries_view(entries).contains_key(key),
    ensures
        exists|i: int|
            0 <= i < entries.len() && (#[trigger] entries[i]).0@ == key && entries[i].1
                == entries_view(entries)[key],
    decreases entries.len(),
{
    if entries.len() > 0 {
        let last = entries.len() - 1;
        if entries[last].0@ != key {
            let shorter = entries.drop_last();
            lemma_key_has_entry(shorter, key);
            let i = choose|i: int|
                0 <= i < shorter.len() && (#[trigger] shorter[i]).0@ == key && shorter[i].1
                    == entries_view(shorter)[key];
            assert(entries[i].0@ == key);
        } else {
            assert(entries[last].0@ == key);
        }
    }
}

proof fn lemma_replace<V>(entries: Seq<(String, V)>, i: int, e: (String, V))
    requires
        distinct_keys(entries),
        0 <= i < entries.len(),
        entries[i].0@ == e.0@,
    ensures
        distinct_keys(entries.update(i, e)),
        entries_view(entries.update(i, e)) == entries_view(entries).insert(e.0@, e.1),
    decreases entries.len(),
{
    let last = entries.len() - 1;
    let shorter = entries.drop_last();
    let changed = entries.update(i, e);
    assert(distinct_keys(changed)) by {
        assert forall|a: int, b: int| 0 <= a < b < changed.len() implies (#[trigger] changed[a]).0@
            != (#[trigger] changed[b]).0@ by {
            assert(entries[a].0@ != entries[b].0@);
        }
    }
    if i == last {
        assert(changed.drop_last() =~= shorter);
        assert(entries_view(changed) =~= entries_view(entries).insert(e.0@, e.1));
    } else {
        assert(distinct_keys(shorter)) by {
            assert forall|a: int, b: int| 0 <= a < b < shorter.len() implies (#[trigger] shorter[a]).0@
                != (#[trigger] shorter[b]).0@ by {
                assert(entries[a].0@ != entries[b].0@);
            }
        }
        lemma_replace(shorter, i, e);
        assert(changed.drop_last() =~= shorter.update(i, e));
        assert(entries[i].0@ != entries[last].0@);
        assert(entries_view(changed) =~= entries_view(entries).insert(e.0@, e.1));
    }
}

}
