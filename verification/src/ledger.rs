//! A small map that keeps its entries in a list, no two under the same key.

use vstd::prelude::*;

verus! {

/// A key that can be compared with others by its contents.
pub trait LedgerKey: View + Sized {
    /// Tests whether two keys have the same contents.
    fn same_as(&self, other: &Self) -> (result: bool)
        ensures
            result == (self@ == other@),
    ;
}

impl LedgerKey for String {
    fn same_as(&self, other: &Self) -> (result: bool) {
        *self == *other
    }
}

/// A map from the contents of keys to values.
#[derive(Debug)]
pub struct Ledger<K: LedgerKey, V: View> {
    entries: Vec<(K, V)>,
}

/// Some entry stands under the key.
spec fn listed<K: LedgerKey, V: View>(entries: Seq<(K, V)>, key: K::V) -> bool {
    exists|i: int| 0 <= i < entries.len() && #[trigger] entries[i].0@ == key
}

/// The place of an entry that stands under the key.
spec fn place<K: LedgerKey, V: View>(entries: Seq<(K, V)>, key: K::V) -> int {
    choose|i: int| 0 <= i < entries.len() && #[trigger] entries[i].0@ == key
}

/// No two entries stand under the same key.
spec fn distinct<K: LedgerKey, V: View>(entries: Seq<(K, V)>) -> bool {
    forall|i: int, j: int|
        0 <= i < j < entries.len() ==> (#[trigger] entries[i]).0@ != (#[trigger] entries[j]).0@
}

/// What the entries say.
spec fn contents<K: LedgerKey, V: View>(entries: Seq<(K, V)>) -> Map<K::V, V::V> {
    Map::new(|key: K::V| listed(entries, key), |key: K::V| entries[place(entries, key)].1@)
}

impl<K: LedgerKey, V: View> View for Ledger<K, V> {
    type V = Map<K::V, V::V>;

    closed spec fn view(&self) -> Map<K::V, V::V> {
        contents(self.entries@)
    }
}

/// An entry is what the contents say under its key.
proof fn lemma_entry<K: LedgerKey, V: View>(entries: Seq<(K, V)>, at: int)
    requires
        distinct(entries),
        0 <= at < entries.len(),
    ensures
        contents(entries).contains_key(entries[at].0@),
        contents(entries)[entries[at].0@] == entries[at].1@,
{
    let key = entries[at].0@;
    assert(listed(entries, key));
    let found = place(entries, key);
    assert(entries[found].0@ == key);
    assert(found == at);
}

/// Appending an entry under a new key.
proof fn lemma_push<K: LedgerKey, V: View>(entries: Seq<(K, V)>, entry: (K, V))
    requires
        distinct(entries),
        !listed(entries, entry.0@),
    ensures
        distinct(entries.push(entry)),
        contents(entries.push(entry)) == contents(entries).insert(entry.0@, entry.1@),
{
    let longer = entries.push(entry);
    assert(distinct(longer)) by {
        assert forall|i: int, j: int| 0 <= i < j < longer.len() implies (#[trigger] longer[i]).0@
            != (#[trigger] longer[j]).0@ by {
            if j == entries.len() {
                assert(longer[i] == entries[i]);
            } else {
                assert(longer[i] == entries[i] && longer[j] == entries[j]);
            }
        }
    }
    assert forall|key: K::V| #[trigger] contents(longer).contains_key(key) == contents(
        entries,
    ).insert(entry.0@, entry.1@).contains_key(key) by {
        if listed(entries, key) {
            let i = place(entries, key);
            assert(longer[i].0@ == key);
        }
        if key == entry.0@ {
            assert(longer[entries.len() as int].0@ == key);
        }
        if listed(longer, key) && key != entry.0@ {
            let i = place(longer, key);
            assert(entries[i].0@ == key);
        }
    }
    assert forall|key: K::V| #[trigger] contents(longer).contains_key(key) implies contents(
        longer,
    )[key] == contents(entries).insert(entry.0@, entry.1@)[key] by {
        let i = place(longer, key);
        lemma_entry(longer, i);
        if key != entry.0@ {
            assert(entries[i] == longer[i]);
            lemma_entry(entries, i);
        } else {
            lemma_entry(longer, entries.len() as int);
        }
    }
    assert(contents(longer) =~= contents(entries).insert(entry.0@, entry.1@));
}

/// Taking an entry out.
proof fn lemma_remove<K: LedgerKey, V: View>(entries: Seq<(K, V)>, at: int)
    requires
        distinct(entries),
        0 <= at < entries.len(),
    ensures
        distinct(entries.remove(at)),
        contents(entries.remove(at)) == contents(entries).remove(entries[at].0@),
{
    let shorter = entries.remove(at);
    let gone = entries[at].0@;
    assert forall|i: int, j: int| 0 <= i < j < shorter.len() implies (#[trigger] shorter[i]).0@ != (
    #[trigger] shorter[j]).0@ by {
        let a = if i < at {
            i
        } else {
            i + 1
        };
        let b = if j < at {
            j
        } else {
            j + 1
        };
        assert(shorter[i] == entries[a] && shorter[j] == entries[b]);
    }
    assert forall|key: K::V| #[trigger] contents(shorter).contains_key(key) == contents(
        entries,
    ).remove(gone).contains_key(key) by {
        if listed(shorter, key) {
            let i = place(shorter, key);
            let a = if i < at {
                i
            } else {
                i + 1
            };
            assert(entries[a] == shorter[i]);
            assert(entries[a].0@ == key);
        }
        if listed(entries, key) && key != gone {
            let a = place(entries, key);
            let i = if a < at {
                a
            } else {
                a - 1
            };
            assert(shorter[i] == entries[a]);
            assert(shorter[i].0@ == key);
        }
    }
    assert forall|key: K::V| #[trigger] contents(shorter).contains_key(key) implies contents(
        shorter,
    )[key] == contents(entries).remove(gone)[key] by {
        let i = place(shorter, key);
        let a = if i < at {
            i
        } else {
            i + 1
        };
        assert(entries[a] == shorter[i]);
        lemma_entry(shorter, i);
        lemma_entry(entries, a);
    }
    assert(contents(shorter) =~= contents(entries).remove(gone));
}

/// The entries before the last one.
proof fn lemma_front<K: LedgerKey, V: View>(entries: Seq<(K, V)>)
    requires
        distinct(entries),
        entries.len() > 0,
    ensures
        distinct(entries.drop_last()),
        !listed(entries.drop_last(), entries.last().0@),
{
    let front = entries.drop_last();
    let entry = entries.last();
    assert forall|i: int, j: int| 0 <= i < j < front.len() implies (#[trigger] front[i]).0@ != (
    #[trigger] front[j]).0@ by {
        assert(front[i] == entries[i] && front[j] == entries[j]);
    }
    if listed(front, entry.0@) {
        let i = place(front, entry.0@);
        assert(front[i] == entries[i]);
        assert(entries[i].0@ == entries[entries.len() - 1].0@);
    }
}

/// There are as many keys as entries.
proof fn lemma_len<K: LedgerKey, V: View>(entries: Seq<(K, V)>)
    requires
        distinct(entries),
    ensures
        contents(entries).dom().finite(),
        contents(entries).len() == entries.len(),
    decreases entries.len(),
{
    if entries.len() == 0 {
        assert(contents(entries).dom() =~= Set::<K::V>::empty());
    } else {
        let front = entries.drop_last();
        let entry = entries.last();
        lemma_front(entries);
        lemma_len(front);
        lemma_push(front, entry);
        assert(front.push(entry) == entries);
        assert(contents(entries).dom() =~= contents(front).dom().insert(entry.0@));
    }
}

impl<K: LedgerKey, V: View> Ledger<K, V> {
    /// No two entries stand under the same key.
    #[verifier::type_invariant]
    closed spec fn well_formed(self) -> bool {
        distinct(self.entries@)
    }

    /// An empty ledger.
    pub fn new() -> (ledger: Self)
        ensures
            ledger@ == Map::<K::V, V::V>::empty(),
    {
        let ledger = Ledger { entries: Vec::new() };
        assert(contents(ledger.entries@) =~= Map::<K::V, V::V>::empty());
        ledger
    }

    /// How many keys there are.
    pub fn len(&self) -> (len: usize)
        ensures
            self@.dom().finite(),
            len == self@.len(),
    {
        proof {
            use_type_invariant(self);
            lemma_len(self.entries@);
        }
        self.entries.len()
    }

    /// Tests for a ledger without entries.
    pub fn is_empty(&self) -> (result: bool)
        ensures
            result == (self@ == Map::<K::V, V::V>::empty()),
    {
        proof {
            use_type_invariant(self);
            if self.entries@.len() == 0 {
                assert(contents(self.entries@) =~= Map::<K::V, V::V>::empty());
            } else {
                lemma_entry(self.entries@, 0);
            }
        }
        self.entries.len() == 0
    }

    /// The place of the entry under the key.
    fn find(&self, key: &K) -> (at: Option<usize>)
        ensures
            match at {
                Some(at) => at < self.entries@.len() && self.entries@[at as int].0@ == key@,
                None => !listed(self.entries@, key@),
            },
    {
        let mut at: usize = 0;
        while at < self.entries.len()
            invariant
                at <= self.entries@.len(),
                forall|i: int| 0 <= i < at ==> #[trigger] self.entries@[i].0@ != key@,
            decreases self.entries@.len() - at,
        {
            if self.entries[at].0.same_as(key) {
                return Some(at);
            }
            at = at + 1;
        }
        None
    }

    /// The value under the key.
    pub fn get(&self, key: &K) -> (value: Option<&V>)
        ensures
            match value {
                Some(value) => self@.contains_key(key@) && value@ == self@[key@],
                None => !self@.contains_key(key@),
            },
    {
        proof {
            use_type_invariant(self);
        }
        match self.find(key) {
            Some(at) => {
                proof {
                    lemma_entry(self.entries@, at as int);
                }
                Some(&self.entries[at].1)
            },
            None => None,
        }
    }

    /// Takes the entry under the key out, if there is one.
    pub fn remove(&mut self, key: &K) -> (value: Option<V>)
        ensures
            final(self)@ == old(self)@.remove(key@),
            match value {
                Some(value) => old(self)@.contains_key(key@) && value@ == old(self)@[key@],
                None => !old(self)@.contains_key(key@),
            },
    {
        proof {
            use_type_invariant(&*self);
        }
        match self.find(key) {
            Some(at) => {
                proof {
                    lemma_entry(self.entries@, at as int);
                    lemma_remove(self.entries@, at as int);
                }
                let mut entries: Vec<(K, V)> = Vec::new();
                std::mem::swap(&mut entries, &mut self.entries);
                let (_, value) = entries.remove(at);
                self.entries = entries;
                Some(value)
            },
            None => {
                assert(contents(self.entries@) =~= contents(self.entries@).remove(key@));
                None
            },
        }
    }

    /// Puts a value under the key, in place of one that stood there.
    pub fn insert(&mut self, key: K, value: V)
        ensures
            final(self)@ == old(self)@.insert(key@, value@),
    {
        let ghost before = self@;
        let _ = self.remove(&key);
        proof {
            use_type_invariant(&*self);
            assert(!self@.contains_key(key@));
            assert(!listed(self.entries@, key@));
            lemma_push(self.entries@, (key, value));
            assert(before.remove(key@).insert(key@, value@) =~= before.insert(key@, value@));
        }
        let mut entries: Vec<(K, V)> = Vec::new();
        std::mem::swap(&mut entries, &mut self.entries);
        entries.push((key, value));
        self.entries = entries;
    }

    /// Puts all entries of another ledger into this one, in place of those
    /// that stood under the same keys.
    pub fn extend(&mut self, other: Self)
        ensures
            final(self)@ == old(self)@.union_prefer_right(other@),
    {
        proof {
            use_type_invariant(&other);
        }
        let ghost goal = self@.union_prefer_right(other@);
        let mut rest = other.entries;
        loop
            invariant
                distinct(rest@),
                goal == self@.union_prefer_right(contents(rest@)),
            ensures
                self@ == goal,
            decreases rest@.len(),
        {
            let ghost before = rest@;
            let ghost so_far = self@;
            match rest.pop() {
                Some((key, value)) => {
                    proof {
                        let entry = (key, value);
                        assert(rest@.push(entry) == before);
                        lemma_front(before);
                        lemma_push(rest@, entry);
                        assert(so_far.union_prefer_right(contents(before)) =~= so_far.insert(
                            key@,
                            value@,
                        ).union_prefer_right(contents(rest@)));
                    }
                    self.insert(key, value);
                },
                None => {
                    assert(self@.union_prefer_right(contents(rest@)) =~= self@);
                    break;
                },
            }
        }
    }
}

} // verus!
