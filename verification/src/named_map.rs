//! A small association map from string names to values.
//!
//! The map is a vector of `(name, value)` entries where a later entry for
//! the same name shadows an earlier one; its view is the `Map` from each
//! name's character sequence to the value's view.

use vstd::prelude::*;
use crate::strutil::str_eq;

verus! {

/// The map described by an entry sequence: each entry inserted in order,
/// so a later entry for the same name wins.
pub open spec fn pairs_map<T: View>(s: Seq<(String, T)>) -> Map<Seq<char>, T::V>
    decreases s.len(),
{
    if s.len() == 0 {
        Map::empty()
    } else {
        pairs_map(s.drop_last()).insert(s.last().0@, s.last().1@)
    }
}

/// A name is in the map exactly when some entry carries it.
pub proof fn lemma_pairs_map_dom<T: View>(s: Seq<(String, T)>, k: Seq<char>)
    ensures
        pairs_map(s).contains_key(k) <==> exists|i: int| 0 <= i < s.len() && s[i].0@ == k,
    decreases s.len(),
{
    if s.len() > 0 {
        lemma_pairs_map_dom(s.drop_last(), k);
        if pairs_map(s).contains_key(k) {
            if s.last().0@ != k {
                let i = choose|i: int| 0 <= i < s.drop_last().len() && s.drop_last()[i].0@ == k;
                assert(s[i].0@ == k);
            } else {
                assert(s[s.len() - 1].0@ == k);
            }
        }
        if exists|i: int| 0 <= i < s.len() && s[i].0@ == k {
            let i = choose|i: int| 0 <= i < s.len() && s[i].0@ == k;
            if i < s.len() - 1 {
                assert(s.drop_last()[i].0@ == k);
            }
        }
    }
}

/// A map holding each version datum under its name.
#[derive(Debug)]
pub struct NamedMap<T> {
    entries: Vec<(String, T)>,
}

impl<T: View> View for NamedMap<T> {
    type V = Map<Seq<char>, <T as View>::V>;

    closed spec fn view(&self) -> Map<Seq<char>, <T as View>::V> {
        pairs_map(self.entries@)
    }
}

impl<T: View> NamedMap<T> {
    /// The entry sequence behind the map, oldest first.
    pub closed spec fn pairs(&self) -> Seq<(String, T)> {
        self.entries@
    }

    /// The map's view is the entry sequence folded in order.
    pub proof fn lemma_view_pairs(&self)
        ensures
            self@ == pairs_map(self.pairs()),
    {
    }

    /// An empty map.
    pub fn new() -> (r: Self)
        ensures
            r@ == Map::<Seq<char>, <T as View>::V>::empty(),
            r.pairs().len() == 0,
    {
        let entries: Vec<(String, T)> = Vec::new();
        NamedMap { entries }
    }

    /// Binds `name` to `value`, shadowing any earlier binding.
    pub fn insert(&mut self, name: &str, value: T)
        ensures
            final(self)@ == old(self)@.insert(name@, value@),
            final(self).pairs().len() == old(self).pairs().len() + 1,
    {
        let ghost prev = self.entries@;
        self.entries.push((name.to_owned(), value));
        proof {
            assert(self.entries@.drop_last() =~= prev);
        }
    }

    /// How many entries the map holds.
    pub fn num_entries(&self) -> (n: usize)
        ensures
            n == self.pairs().len(),
    {
        self.entries.len()
    }

    /// The entry at a position, oldest first.
    pub fn entry_at(&self, i: usize) -> (r: &(String, T))
        requires
            i < self.pairs().len(),
        ensures
            *r == self.pairs()[i as int],
    {
        &self.entries[i]
    }

    /// Looks a name up, returning the value bound last.
    pub fn get(&self, name: &str) -> (r: Option<&T>)
        ensures
            match r {
                Some(v) => self@.contains_key(name@) && v@ == self@[name@],
                None => !self@.contains_key(name@),
            },
    {
        let mut i = self.entries.len();
        proof {
            assert(self.entries@.take(self.entries@.len() as int) =~= self.entries@);
        }
        while i > 0
            invariant
                0 <= i <= self.entries@.len(),
                forall|j: int| i <= j < self.entries@.len() ==> self.entries@[j].0@ != name@,
                pairs_map(self.entries@).contains_key(name@) == pairs_map(
                    self.entries@.take(i as int),
                ).contains_key(name@),
                pairs_map(self.entries@).contains_key(name@) ==> pairs_map(self.entries@)[name@]
                    == pairs_map(self.entries@.take(i as int))[name@],
            decreases i,
        {
            i = i - 1;
            let entry = &self.entries[i];
            proof {
                assert(self.entries@.take(i + 1).drop_last() =~= self.entries@.take(i as int));
                assert(self.entries@.take(i + 1).last() == self.entries@[i as int]);
            }
            if str_eq(entry.0.as_str(), name) {
                return Some(&entry.1);
            }
        }
        proof {
            assert(self.entries@.take(0) =~= Seq::<(String, T)>::empty());
        }
        None
    }

    /// Whether a name is bound.
    pub fn contains_key(&self, name: &str) -> (r: bool)
        ensures
            r == self@.contains_key(name@),
    {
        self.get(name).is_some()
    }

    /// The bound names, each once, oldest binding first.
    pub fn keys(&self) -> (r: Vec<String>)
        ensures
            forall|k: Seq<char>| self@.contains_key(k) <==> exists|i: int|
                0 <= i < r@.len() && #[trigger] r@[i]@ == k,
            forall|i: int, j: int| 0 <= i < j < r@.len() ==> r@[i]@ != r@[j]@,
    {
        let mut out: Vec<String> = Vec::new();
        let mut i: usize = 0;
        while i < self.entries.len()
            invariant
                0 <= i <= self.entries@.len(),
                forall|j: int| 0 <= j < i ==> exists|a: int|
                    0 <= a < out@.len() && out@[a]@ == #[trigger] self.entries@[j].0@,
                forall|a: int| 0 <= a < out@.len() ==> exists|j: int|
                    0 <= j < i && self.entries@[j].0@ == #[trigger] out@[a]@,
                forall|a: int, b: int| 0 <= a < b < out@.len() ==> out@[a]@ != out@[b]@,
            decreases self.entries@.len() - i,
        {
            let name = &self.entries[i].0;
            let mut seen = false;
            let mut j: usize = 0;
            while j < out.len()
                invariant
                    0 <= j <= out@.len(),
                    seen <==> exists|a: int| 0 <= a < j && out@[a]@ == name@,
                decreases out@.len() - j,
            {
                if str_eq(out[j].as_str(), name.as_str()) {
                    proof {
                        assert(out@[j as int]@ == name@);
                    }
                    seen = true;
                    j = out.len();
                } else {
                    j += 1;
                }
            }
            if !seen {
                let ghost prev_out = out@;
                out.push(name.clone());
                proof {
                    assert(out@[out@.len() - 1]@ == self.entries@[i as int].0@);
                    assert forall|j: int| 0 <= j < i implies exists|a: int|
                        0 <= a < out@.len() && out@[a]@ == #[trigger] self.entries@[j].0@ by {
                        let a = choose|a: int|
                            0 <= a < prev_out.len() && prev_out[a]@ == self.entries@[j].0@;
                        assert(out@[a]@ == self.entries@[j].0@);
                    }
                }
            } else {
                proof {
                    assert(exists|a: int|
                        0 <= a < out@.len() && out@[a]@ == self.entries@[i as int].0@);
                }
            }
            i += 1;
        }
        proof {
            self.lemma_view_pairs();
            assert forall|k: Seq<char>|
                self@.contains_key(k) <==> exists|i2: int|
                    0 <= i2 < out@.len() && #[trigger] out@[i2]@ == k by {
                lemma_pairs_map_dom(self.entries@, k);
                if self@.contains_key(k) {
                    let j = choose|j: int| 0 <= j < self.entries@.len() && self.entries@[j].0@
                        == k;
                    assert(exists|a: int|
                        0 <= a < out@.len() && out@[a]@ == self.entries@[j].0@);
                }
                if exists|i2: int| 0 <= i2 < out@.len() && #[trigger] out@[i2]@ == k {
                    let a = choose|a: int| 0 <= a < out@.len() && out@[a]@ == k;
                    assert(exists|j: int|
                        0 <= j < self.entries@.len() && self.entries@[j].0@ == out@[a]@);
                }
            }
        }
        out
    }
}

impl NamedMap<u32> {
    /// Copies every binding of `other` into `self`; `other`'s bindings win.
    pub fn absorb(&mut self, other: &NamedMap<u32>)
        ensures
            final(self)@ == old(self)@.union_prefer_right(other@),
    {
        let n = other.num_entries();
        let mut i: usize = 0;
        proof {
            assert(old(self)@.union_prefer_right(pairs_map(other.pairs().take(0)))
                =~= old(self)@);
        }
        while i < n
            invariant
                0 <= i <= n,
                n == other.pairs().len(),
                self@ == old(self)@.union_prefer_right(pairs_map(other.pairs().take(i as int))),
            decreases n - i,
        {
            let entry = other.entry_at(i);
            let ghost before = self@;
            self.insert(entry.0.as_str(), entry.1);
            proof {
                assert(other.pairs().take(i + 1).drop_last() =~= other.pairs().take(i as int));
                assert(other.pairs().take(i + 1).last() == other.pairs()[i as int]);
                assert(before.insert(entry.0@, entry.1@) =~= old(self)@.union_prefer_right(
                    pairs_map(other.pairs().take(i + 1)),
                ));
            }
            i += 1;
        }
        proof {
            assert(other.pairs().take(n as int) =~= other.pairs());
            other.lemma_view_pairs();
        }
    }

    /// A copy of the map.
    pub fn duplicate(&self) -> (r: Self)
        ensures
            r@ == self@,
    {
        let mut r = NamedMap::<u32>::new();
        r.absorb(self);
        proof {
            assert(Map::<Seq<char>, u32>::empty().union_prefer_right(self@) =~= self@);
        }
        r
    }
}

impl NamedMap<String> {
    /// A copy of the map.
    pub fn duplicate(&self) -> (r: Self)
        ensures
            r@ == self@,
    {
        let n = self.num_entries();
        let mut r = NamedMap::<String>::new();
        let mut i: usize = 0;
        proof {
            assert(pairs_map(self.pairs().take(0)) =~= Map::<Seq<char>, Seq<char>>::empty());
        }
        while i < n
            invariant
                0 <= i <= n,
                n == self.pairs().len(),
                r@ == pairs_map(self.pairs().take(i as int)),
            decreases n - i,
        {
            let entry = self.entry_at(i);
            r.insert(entry.0.as_str(), entry.1.clone());
            proof {
                assert(self.pairs().take(i + 1).drop_last() =~= self.pairs().take(i as int));
                assert(self.pairs().take(i + 1).last() == self.pairs()[i as int]);
            }
            i += 1;
        }
        proof {
            assert(self.pairs().take(n as int) =~= self.pairs());
            self.lemma_view_pairs();
        }
        r
    }
}

} // verus!
