//! A table from names to values, in which a later entry for a name replaces an earlier one.
use vstd::prelude::*;

use crate::text::str_eq;

verus! {

/// Entries keyed by name. Its view is the map from each name to the value of its last entry.
///
/// std's `HashMap` is specified by vstd only for keys whose hashing model vstd knows
/// (integers, `bool` and boxes of them); `String` keys are not among them, so a table of
/// its own keeps the contracts provable.
#[derive(Clone, Debug)]
pub struct NameTable<V> {
    entries: Vec<(String, V)>,
}

/// The map that a sequence of entries denotes: each entry sets its name, later ones win.
pub open spec fn entries_map<V: DeepView>(entries: Seq<(String, V)>) -> Map<Seq<char>, V::V>
    decreases entries.len(),
{
    if entries.len() == 0 {
        Map::empty()
    } else {
        entries_map(entries.drop_last()).insert(
            entries.last().0@,
            entries.last().1.deep_view(),
        )
    }
}

/// No entry after position `i` has the name `k`.
pub open spec fn last_with_name<V>(entries: Seq<(String, V)>, i: int, k: Seq<char>) -> bool {
    forall|j: int| i < j < entries.len() ==> (#[trigger] entries[j]).0@ != k
}

pub proof fn lemma_entries_map_dom<V: DeepView>(entries: Seq<(String, V)>, k: Seq<char>)
    ensures
        entries_map(entries).contains_key(k) <==> exists|i: int|
            0 <= i < entries.len() && (#[trigger] entries[i]).0@ == k,
    decreases entries.len(),
{
    if entries.len() > 0 {
        let init = entries.drop_last();
        lemma_entries_map_dom(init, k);
        if entries_map(init).contains_key(k) {
            let i: int = choose|i: int| 0 <= i < init.len() && (#[trigger] init[i]).0@ == k;
            assert(entries[i] == init[i]);
        }
        if exists|i: int| 0 <= i < entries.len() && (#[trigger] entries[i]).0@ == k {
            let i: int = choose|i: int| 0 <= i < entries.len() && (#[trigger] entries[i]).0@ == k;
            if i < entries.len() - 1 {
                assert(init[i] == entries[i]);
            }
        }
    }
}

pub proof fn lemma_entries_map_value<V: DeepView>(entries: Seq<(String, V)>, i: int)
    requires
        0 <= i < entries.len(),
        last_with_name(entries, i, entries[i].0@),
    ensures
        entries_map(entries).contains_key(entries[i].0@),
        entries_map(entries)[entries[i].0@] == entries[i].1.deep_view(),
    decreases entries.len(),
{
    let k = entries[i].0@;
    if i < entries.len() - 1 {
        let init = entries.drop_last();
        assert(init[i] == entries[i]);
        assert(entries[entries.len() - 1].0@ != k);
        lemma_entries_map_value(init, i);
    }
}

pub proof fn lemma_entries_map_update<V: DeepView>(
    entries: Seq<(String, V)>,
    i: int,
    e: (String, V),
)
    requires
        0 <= i < entries.len(),
        e.0@ == entries[i].0@,
        last_with_name(entries, i, e.0@),
    ensures
        entries_map(entries.update(i, e)) == entries_map(entries).insert(e.0@, e.1.deep_view()),
    decreases entries.len(),
{
    let upd = entries.update(i, e);
    if i == entries.len() - 1 {
        assert(upd.drop_last() =~= entries.drop_last());
        assert(entries_map(upd) =~= entries_map(entries).insert(e.0@, e.1.deep_view()));
    } else {
        let init = entries.drop_last();
        assert(upd.drop_last() =~= init.update(i, e));
        assert(init[i] == entries[i]);
        assert(last_with_name(init, i, e.0@)) by {
            assert forall|j: int| i < j < init.len() implies (#[trigger] init[j]).0@ != e.0@ by {
                assert(init[j] == entries[j]);
            }
        }
        lemma_entries_map_update(init, i, e);
        assert(entries[entries.len() - 1].0@ != e.0@);
        assert(entries_map(upd) =~= entries_map(entries).insert(e.0@, e.1.deep_view()));
    }
}

impl<V: DeepView> View for NameTable<V> {
    type V = Map<Seq<char>, V::V>;

    closed spec fn view(&self) -> Map<Seq<char>, V::V> {
        entries_map(self.entries@)
    }
}

impl<V: DeepView> NameTable<V> {
    /// An empty table.
    pub fn new() -> (res: Self)
        ensures
            res@ == Map::<Seq<char>, V::V>::empty(),
    {
        NameTable { entries: Vec::new() }
    }

    /// The position of the last entry named `name`.
    fn find(&self, name: &str) -> (res: Option<usize>)
        ensures
            match res {
                Some(i) => i < self.entries@.len() && self.entries@[i as int].0@ == name@
                    && last_with_name(self.entries@, i as int, name@),
                None => forall|j: int|
                    0 <= j < self.entries@.len() ==> (#[trigger] self.entries@[j]).0@ != name@,
            },
    {
        let mut i: usize = self.entries.len();
        while i > 0
            invariant
                i <= self.entries@.len(),
                last_with_name(self.entries@, i as int - 1, name@),
            decreases i,
        {
            if str_eq(self.entries[i - 1].0.as_str(), name) {
                return Some(i - 1);
            }
            i -= 1;
        }
        None
    }

    /// The value set for `name`, if any.
    pub fn get(&self, name: &str) -> (res: Option<&V>)
        ensures
            match res {
                Some(v) => self@.contains_key(name@) && v.deep_view() == self@[name@],
                None => !self@.contains_key(name@),
            },
    {
        proof {
            lemma_entries_map_dom(self.entries@, name@);
        }
        match self.find(name) {
            Some(i) => {
                proof {
                    lemma_entries_map_value(self.entries@, i as int);
                }
                Some(&self.entries[i].1)
            },
            None => None,
        }
    }

    /// Whether a value is set for `name`.
    pub fn contains(&self, name: &str) -> (res: bool)
        ensures
            res == self@.contains_key(name@),
    {
        proof {
            lemma_entries_map_dom(self.entries@, name@);
        }
        self.find(name).is_some()
    }

    /// Sets `name` to `value`, replacing what it was set to before.
    pub fn insert(&mut self, name: String, value: V)
        ensures
            final(self)@ == old(self)@.insert(name@, value.deep_view()),
    {
        match self.find(name.as_str()) {
            Some(i) => {
                let ghost e = (name, value);
                proof {
                    lemma_entries_map_update(self.entries@, i as int, e);
                }
                self.entries.set(i, (name, value));
                assert(self.entries@ == old(self).entries@.update(i as int, e));
            },
            None => {
                let ghost old_entries = self.entries@;
                self.entries.push((name, value));
                assert(self.entries@.drop_last() =~= old_entries);
            },
        }
    }

    /// Whether no entry after position `i` has the same name as entry `i`.
    fn is_last(&self, i: usize) -> (res: bool)
        requires
            i < self.entries@.len(),
        ensures
            res == last_with_name(self.entries@, i as int, self.entries@[i as int].0@),
    {
        let n: usize = self.entries.len();
        let mut j: usize = i + 1;
        while j < n
            invariant
                i < j <= n,
                n == self.entries@.len(),
                forall|m: int| i < m < j ==> (#[trigger] self.entries@[m]).0@
                    != self.entries@[i as int].0@,
            decreases n - j,
        {
            if str_eq(self.entries[j].0.as_str(), self.entries[i].0.as_str()) {
                return false;
            }
            j += 1;
        }
        true
    }

    /// The names that are set, each once.
    pub fn names(&self) -> (res: Vec<String>)
        ensures
            forall|a: int, b: int| 0 <= a < b < res@.len() ==> res@[a]@ != res@[b]@,
            forall|k: Seq<char>|
                self@.contains_key(k) <==> exists|a: int| 0 <= a < res@.len() && (#[trigger] res@[a])@ == k,
    {
        let n: usize = self.entries.len();
        let mut res: Vec<String> = Vec::new();
        let ghost mut src: Seq<int> = Seq::empty();
        for i in 0..n
            invariant
                n == self.entries@.len(),
                src.len() == res@.len(),
                forall|a: int| 0 <= a < src.len() ==> 0 <= #[trigger] src[a] < i,
                forall|a: int, b: int| 0 <= a < b < src.len() ==> src[a] < src[b],
                forall|a: int|
                    0 <= a < src.len() ==> (#[trigger] res@[a])@ == self.entries@[src[a]].0@
                        && last_with_name(self.entries@, src[a], self.entries@[src[a]].0@),
                forall|p: int|
                    0 <= p < i && last_with_name(self.entries@, p, (#[trigger] self.entries@[p]).0@)
                        ==> exists|a: int| 0 <= a < src.len() && src[a] == p,
        {
            let ghost old_src = src;
            let ghost old_res = res@;
            let last = self.is_last(i);
            if last {
                res.push(self.entries[i].0.clone());
                proof {
                    src = src.push(i as int);
                }
            }
            proof {
                assert forall|a: int| 0 <= a < src.len() implies (#[trigger] res@[a])@
                    == self.entries@[src[a]].0@ && last_with_name(
                    self.entries@,
                    src[a],
                    self.entries@[src[a]].0@,
                ) by {
                    if a < old_src.len() {
                        assert(res@[a] == old_res[a]);
                        assert(src[a] == old_src[a]);
                    }
                }
                assert forall|p: int|
                    0 <= p < i + 1 && last_with_name(self.entries@, p, (#[trigger] self.entries@[p]).0@)
                    implies exists|a: int| 0 <= a < src.len() && src[a] == p by {
                    if p < i {
                        let a: int = choose|a: int| 0 <= a < old_src.len() && old_src[a] == p;
                        assert(src[a] == old_src[a]);
                    } else {
                        assert(src[src.len() - 1] == p);
                    }
                }
            }
        }
        proof {
            assert forall|a: int, b: int| 0 <= a < b < res@.len() implies res@[a]@ != res@[b]@ by {
                assert(src[a] < src[b]);
                assert(self.entries@[src[b]].0@ == res@[b]@);
            }
            assert forall|k: Seq<char>|
                self@.contains_key(k) implies exists|a: int| 0 <= a < res@.len() && (#[trigger] res@[a])@ == k by {
                lemma_entries_map_dom(self.entries@, k);
                let i0: int = choose|i: int| 0 <= i < self.entries@.len() && (#[trigger] self.entries@[i]).0@ == k;
                let p: int = Self::lemma_last_occurrence(self.entries@, i0);
                let a: int = choose|a: int| 0 <= a < src.len() && src[a] == p;
                assert(res@[a]@ == k);
            }
            assert forall|k: Seq<char>|
                (exists|a: int| 0 <= a < res@.len() && (#[trigger] res@[a])@ == k) implies self@.contains_key(k) by {
                let a: int = choose|a: int| 0 <= a < res@.len() && (#[trigger] res@[a])@ == k;
                lemma_entries_map_dom(self.entries@, k);
                assert(self.entries@[src[a]].0@ == k);
            }
        }
        res
    }

    proof fn lemma_last_occurrence(entries: Seq<(String, V)>, i: int) -> (p: int)
        requires
            0 <= i < entries.len(),
        ensures
            i <= p < entries.len(),
            entries[p].0@ == entries[i].0@,
            last_with_name(entries, p, entries[i].0@),
        decreases entries.len() - i,
    {
        let k = entries[i].0@;
        if last_with_name(entries, i, k) {
            i
        } else {
            let j: int = choose|j: int| i < j < entries.len() && (#[trigger] entries[j]).0@ == k;
            Self::lemma_last_occurrence(entries, j)
        }
    }

    /// Gives up the entries; setting them in order into an empty map gives back the view.
    pub fn into_entries(self) -> (res: Vec<(String, V)>)
        ensures
            entries_map(res@) == self@,
    {
        self.entries
    }
}

} // verus!
