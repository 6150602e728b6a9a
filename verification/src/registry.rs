//! The registry proper: a mapping from a string name to an integer quantity,
//! held as a vector of entries with pairwise-distinct names and viewed in
//! specifications as a `Map` from character sequences to integers.

use vstd::prelude::*;

verus! {

/// One (name, quantity) pair of the registry. The name is the unique key;
/// the quantity may be any integer, zero and negatives included.
pub struct Entry {
    pub name: String,
    pub quantity: i32,
}

/// The mapping that a sequence of entries denotes: entries are folded in
/// order, so a later entry for the same name overwrites an earlier one.
pub open spec fn entries_map(s: Seq<Entry>) -> Map<Seq<char>, int>
    decreases s.len(),
{
    if s.len() == 0 {
        Map::empty()
    } else {
        entries_map(s.drop_last()).insert(s.last().name@, s.last().quantity as int)
    }
}

/// The names of the entries are pairwise distinct.
pub open spec fn unique_names(s: Seq<Entry>) -> bool {
    forall|i: int, j: int| 0 <= i < j < s.len() ==> s[i].name@ != s[j].name@
}

/// A name is in the denoted mapping exactly when some entry carries it.
pub proof fn lemma_entries_map_domain(s: Seq<Entry>, k: Seq<char>)
    ensures
        entries_map(s).contains_key(k) <==> (exists|i: int|
            0 <= i < s.len() && #[trigger] s[i].name@ == k),
    decreases s.len(),
{
    if s.len() > 0 {
        lemma_entries_map_domain(s.drop_last(), k);
        if entries_map(s).contains_key(k) {
            if k == s.last().name@ {
                assert(s[s.len() - 1].name@ == k);
            } else {
                let i = choose|i: int|
                    0 <= i < s.drop_last().len() && #[trigger] s.drop_last()[i].name@ == k;
                assert(s[i] == s.drop_last()[i]);
                assert(s[i].name@ == k);
            }
        }
        if exists|i: int| 0 <= i < s.len() && #[trigger] s[i].name@ == k {
            let i = choose|i: int| 0 <= i < s.len() && #[trigger] s[i].name@ == k;
            if i < s.len() - 1 {
                assert(s.drop_last()[i].name@ == k);
            } else {
                assert(k == s.last().name@);
            }
            assert(entries_map(s).contains_key(k));
        }
    }
}

/// With distinct names, each entry's own pair stands in the denoted mapping.
pub proof fn lemma_entries_map_index(s: Seq<Entry>, i: int)
    requires
        unique_names(s),
        0 <= i < s.len(),
    ensures
        entries_map(s).contains_key(s[i].name@),
        entries_map(s)[s[i].name@] == s[i].quantity as int,
    decreases s.len(),
{
    if i == s.len() - 1 {
    } else {
        assert(unique_names(s.drop_last()));
        lemma_entries_map_index(s.drop_last(), i);
        assert(s.drop_last()[i] == s[i]);
        assert(s[i].name@ != s.last().name@);
    }
}

/// Removing an entry keeps the remaining names pairwise distinct.
pub proof fn lemma_unique_remove(s: Seq<Entry>, i: int)
    requires
        unique_names(s),
        0 <= i < s.len(),
    ensures
        unique_names(s.remove(i)),
{
    s.remove_ensures(i);
    assert forall|a: int, b: int|
        0 <= a < b < s.remove(i).len() implies s.remove(i)[a].name@ != s.remove(i)[b].name@ by {
        let a0 = if a < i { a } else { a + 1 };
        let b0 = if b < i { b } else { b + 1 };
        assert(s.remove(i)[a] == s[a0]);
        assert(s.remove(i)[b] == s[b0]);
    }
}

/// With distinct names, removing the entry at `i` removes exactly its name
/// from the denoted mapping.
pub proof fn lemma_entries_map_remove_at(s: Seq<Entry>, i: int)
    requires
        unique_names(s),
        0 <= i < s.len(),
    ensures
        entries_map(s.remove(i)) == entries_map(s).remove(s[i].name@),
    decreases s.len(),
{
    s.remove_ensures(i);
    let k = s[i].name@;
    if i == s.len() - 1 {
        assert(s.remove(i) =~= s.drop_last());
        lemma_entries_map_domain(s.drop_last(), k);
        assert forall|j: int| 0 <= j < s.drop_last().len() implies s.drop_last()[j].name@
            != k by {
            assert(s.drop_last()[j] == s[j]);
        }
        assert(!entries_map(s.drop_last()).contains_key(k));
        assert(entries_map(s).remove(k) =~= entries_map(s.drop_last()));
    } else {
        let dl = s.drop_last();
        assert(unique_names(dl));
        lemma_entries_map_remove_at(dl, i);
        dl.remove_ensures(i);
        assert(dl[i] == s[i]);
        assert(s.remove(i).drop_last() =~= dl.remove(i));
        assert(s.remove(i).last() == s.last());
        assert(entries_map(s.remove(i)) == entries_map(dl).remove(k).insert(
            s.last().name@,
            s.last().quantity as int,
        ));
        assert(k != s.last().name@);
        assert(entries_map(s).remove(k) =~= entries_map(dl).remove(k).insert(
            s.last().name@,
            s.last().quantity as int,
        ));
    }
}

/// Two entry sequences that agree pointwise on names and quantities denote
/// the same mapping.
pub proof fn lemma_entries_map_congruence(a: Seq<Entry>, b: Seq<Entry>)
    requires
        a.len() == b.len(),
        forall|j: int|
            0 <= j < a.len() ==> #[trigger] a[j].name@ == b[j].name@ && a[j].quantity
                == b[j].quantity,
    ensures
        entries_map(a) == entries_map(b),
    decreases a.len(),
{
    if a.len() > 0 {
        assert forall|j: int|
            0 <= j < a.drop_last().len() implies #[trigger] a.drop_last()[j].name@
            == b.drop_last()[j].name@ && a.drop_last()[j].quantity == b.drop_last()[j].quantity by {
            assert(a.drop_last()[j] == a[j]);
            assert(b.drop_last()[j] == b[j]);
        }
        lemma_entries_map_congruence(a.drop_last(), b.drop_last());
        assert(a[a.len() - 1].name@ == b[b.len() - 1].name@);
        assert(a[a.len() - 1].quantity == b[b.len() - 1].quantity);
    }
}

/// The registry: entries with pairwise-distinct names, denoting a mapping
/// from name to quantity. The view of a registry is that mapping.
pub struct Registry {
    entries: Vec<Entry>,
}

impl View for Registry {
    type V = Map<Seq<char>, int>;

    closed spec fn view(&self) -> Map<Seq<char>, int> {
        entries_map(self.entries@)
    }
}

impl Registry {
    /// The entries as a sequence, for specifications that speak of the
    /// stored representation rather than the denoted mapping.
    pub closed spec fn entries_seq(self) -> Seq<Entry> {
        self.entries@
    }

    /// Well-formedness: no two entries share a name.
    pub open spec fn wf(self) -> bool {
        unique_names(self.entries_seq())
    }

    /// A registry starts empty.
    pub fn new() -> (r: Self)
        ensures
            r.wf(),
            r@ == Map::<Seq<char>, int>::empty(),
    {
        Registry { entries: Vec::new() }
    }

    /// The index of the entry carrying `name`, if one does.
    fn index_of(&self, name: &String) -> (r: Option<usize>)
        ensures
            match r {
                Some(i) => i < self.entries_seq().len() && self.entries_seq()[i as int].name@
                    == name@,
                None => forall|i: int|
                    0 <= i < self.entries_seq().len() ==> self.entries_seq()[i].name@ != name@,
            },
    {
        let n = self.entries.len();
        let mut i: usize = 0;
        while i < n
            invariant
                n == self.entries_seq().len(),
                i <= n,
                forall|j: int| 0 <= j < i ==> self.entries_seq()[j].name@ != name@,
            decreases n - i,
        {
            if self.entries[i].name == *name {
                return Some(i);
            }
            i = i + 1;
        }
        None
    }

    /// Remove the entry for `name`, if present: the denoted mapping loses
    /// that key. Removing an absent name leaves the registry unchanged.
    pub fn remove(&mut self, name: &String)
        requires
            old(self).wf(),
        ensures
            final(self).wf(),
            final(self)@ == old(self)@.remove(name@),
    {
        match self.index_of(name) {
            Some(i) => {
                proof {
                    lemma_unique_remove(self.entries@, i as int);
                    lemma_entries_map_remove_at(self.entries@, i as int);
                }
                self.entries.remove(i);
            },
            None => {
                proof {
                    lemma_entries_map_domain(self.entries@, name@);
                    assert(entries_map(self.entries@).remove(name@) =~= entries_map(
                        self.entries@,
                    ));
                }
            },
        }
    }

    /// Insert or overwrite the entry for `name`. Always succeeds: the
    /// denoted mapping gains (or re-binds) exactly that key.
    pub fn set(&mut self, name: String, quantity: i32)
        requires
            old(self).wf(),
        ensures
            final(self).wf(),
            final(self)@ == old(self)@.insert(name@, quantity as int),
    {
        let ghost n = name@;
        self.remove(&name);
        proof {
            lemma_entries_map_domain(self.entries@, n);
        }
        let ghost pre = self.entries@;
        self.entries.push(Entry { name, quantity });
        proof {
            assert(self.entries@.drop_last() =~= pre);
            assert(self.entries@.last().name@ == n);
            assert(entries_map(self.entries@) == entries_map(pre).insert(n, quantity as int));
            assert(old(self)@.remove(n).insert(n, quantity as int) =~= old(self)@.insert(
                n,
                quantity as int,
            ));
            assert forall|a: int, b: int|
                0 <= a < b < self.entries@.len() implies self.entries@[a].name@
                != self.entries@[b].name@ by {
                if b < pre.len() {
                    assert(self.entries@[a] == pre[a]);
                    assert(self.entries@[b] == pre[b]);
                } else {
                    assert(self.entries@[a] == pre[a]);
                    assert(self.entries@[b].name@ == n);
                    assert(pre[a].name@ != n);
                }
            }
        }
    }

    /// Look up the quantity stored under `name`.
    pub fn get(&self, name: &String) -> (r: Option<i32>)
        requires
            self.wf(),
        ensures
            match r {
                Some(q) => self@.contains_key(name@) && self@[name@] == q as int,
                None => !self@.contains_key(name@),
            },
    {
        match self.index_of(name) {
            Some(i) => {
                proof {
                    lemma_entries_map_index(self.entries@, i as int);
                }
                Some(self.entries[i].quantity)
            },
            None => {
                proof {
                    lemma_entries_map_domain(self.entries@, name@);
                }
                None
            },
        }
    }

    /// A point-in-time copy of the whole registry: fresh entries with the
    /// same names and quantities, denoting the same mapping.
    pub fn snapshot(&self) -> (r: Vec<Entry>)
        requires
            self.wf(),
        ensures
            unique_names(r@),
            entries_map(r@) == self@,
            r@.len() == self.entries_seq().len(),
    {
        let n = self.entries.len();
        let mut out: Vec<Entry> = Vec::new();
        let mut i: usize = 0;
        while i < n
            invariant
                n == self.entries_seq().len(),
                i <= n,
                out@.len() == i,
                forall|j: int|
                    0 <= j < i ==> #[trigger] out@[j].name@ == self.entries_seq()[j].name@
                        && out@[j].quantity == self.entries_seq()[j].quantity,
            decreases n - i,
        {
            let q = self.entries[i].quantity;
            out.push(Entry { name: self.entries[i].name.clone(), quantity: q });
            i = i + 1;
        }
        proof {
            lemma_entries_map_congruence(out@, self.entries@);
            assert forall|a: int, b: int|
                0 <= a < b < out@.len() implies out@[a].name@ != out@[b].name@ by {
                assert(out@[a].name@ == self.entries@[a].name@);
                assert(out@[b].name@ == self.entries@[b].name@);
            }
        }
        out
    }
}

} // verus!
