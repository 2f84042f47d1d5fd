//! A map from keys to values, kept as a list of entries.
use vstd::prelude::*;

use crate::backend::ChatId;
use crate::text::same;

verus! {

/// A key that can be told apart by its view.
pub trait TableKey: View + Sized {
    fn same_key(&self, other: &Self) -> (r: bool)
        ensures
            r == (self@ == other@),
    ;
}

impl TableKey for ChatId {
    fn same_key(&self, other: &Self) -> (r: bool) {
        *self == *other
    }
}

impl TableKey for String {
    fn same_key(&self, other: &Self) -> (r: bool) {
        same(self.as_str(), other.as_str())
    }
}

/// A map from keys to values.
#[derive(Debug)]
pub struct Table<K, V> {
    pub entries: Vec<(K, V)>,
}

/// A map from chats.
pub type ChatMap<V> = Table<ChatId, V>;

/// A map from texts.
pub type TextMap<V> = Table<String, V>;

/// A set of texts.
pub type TextSet = Table<String, ()>;

/// The map that a list of entries stands for: later entries win.
pub open spec fn folded<K: View, V: View>(s: Seq<(K, V)>) -> Map<K::V, V::V>
    decreases s.len(),
{
    if s.len() == 0 {
        Map::empty()
    } else {
        folded(s.drop_last()).insert(s.last().0@, s.last().1@)
    }
}

proof fn removing_an_entry<K: View, V: View>(s: Seq<(K, V)>, i: int)
    requires
        0 <= i < s.len(),
    ensures
        folded(s.remove(i)).remove(s[i].0@) == folded(s).remove(s[i].0@),
    decreases s.len(),
{
    let id = s[i].0@;
    if i == s.len() - 1 {
        assert(s.remove(i) =~= s.drop_last());
        assert(folded(s.remove(i)).remove(id) =~= folded(s).remove(id));
    } else {
        let d = s.drop_last();
        removing_an_entry(d, i);
        assert(d[i] == s[i]);
        assert(s.remove(i).drop_last() =~= d.remove(i));
        assert(s.remove(i).last() == s.last());
        let k = s.last().0@;
        assert(folded(s.remove(i)).remove(id) =~= if k == id {
            folded(d.remove(i)).remove(id)
        } else {
            folded(d.remove(i)).remove(id).insert(k, s.last().1@)
        });
        assert(folded(s).remove(id) =~= if k == id {
            folded(d).remove(id)
        } else {
            folded(d).remove(id).insert(k, s.last().1@)
        });
    }
}

proof fn absent<K: View, V: View>(s: Seq<(K, V)>, id: K::V)
    requires
        forall|i: int| 0 <= i < s.len() ==> (#[trigger] s[i]).0@ != id,
    ensures
        !folded(s).dom().contains(id),
    decreases s.len(),
{
    if s.len() > 0 {
        assert forall|i: int| 0 <= i < s.drop_last().len() implies (#[trigger] s.drop_last()[i]).0@
            != id by {
            assert(s.drop_last()[i] == s[i]);
        }
        absent(s.drop_last(), id);
        assert(s[s.len() - 1].0@ != id);
    }
}

proof fn last_entry<K: View, V: View>(s: Seq<(K, V)>, at: int)
    requires
        0 <= at < s.len(),
        forall|i: int| at < i < s.len() ==> (#[trigger] s[i]).0@ != s[at].0@,
    ensures
        folded(s).dom().contains(s[at].0@),
        folded(s)[s[at].0@] == s[at].1@,
    decreases s.len(),
{
    if at < s.len() - 1 {
        assert(s.drop_last()[at] == s[at]);
        assert forall|i: int| at < i < s.drop_last().len() implies (#[trigger] s.drop_last()[i]).0@
            != s.drop_last()[at].0@ by {
            assert(s.drop_last()[i] == s[i]);
        }
        last_entry(s.drop_last(), at);
        assert(s[s.len() - 1].0@ != s[at].0@);
    }
}

impl<K: View, V: View> View for Table<K, V> {
    type V = Map<K::V, V::V>;

    open spec fn view(&self) -> Map<K::V, V::V> {
        folded(self.entries@)
    }
}

impl<K: TableKey, V: View> Table<K, V> {
    /// A map without entries.
    pub fn new() -> (r: Self)
        ensures
            r@ == Map::<K::V, V::V>::empty(),
    {
        Table { entries: Vec::new() }
    }

    /// The value stored for `id`.
    pub fn get(&self, id: &K) -> (r: Option<&V>)
        ensures
            match r {
                Some(v) => self@.dom().contains(id@) && self@[id@] == v@,
                None => !self@.dom().contains(id@),
            },
    {
        let mut i: usize = self.entries.len();
        while i > 0
            invariant
                i <= self.entries@.len(),
                forall|k: int| i <= k < self.entries@.len() ==> (#[trigger] self.entries@[k]).0@ != id@,
            decreases i,
        {
            i -= 1;
            if self.entries[i].0.same_key(id) {
                proof {
                    last_entry(self.entries@, i as int);
                }
                return Some(&self.entries[i].1);
            }
        }
        proof {
            absent(self.entries@, id@);
        }
        None
    }

    /// Forgets what was stored for `id`.
    pub fn remove(&mut self, id: &K)
        ensures
            final(self)@ == old(self)@.remove(id@),
    {
        let mut i: usize = 0;
        while i < self.entries.len()
            invariant
                i <= self.entries@.len(),
                self@.remove(id@) == old(self)@.remove(id@),
                forall|k: int| 0 <= k < i ==> (#[trigger] self.entries@[k]).0@ != id@,
            decreases self.entries@.len() - i,
        {
            if self.entries[i].0.same_key(id) {
                proof {
                    removing_an_entry(self.entries@, i as int);
                }
                let _ = self.entries.remove(i);
            } else {
                i += 1;
            }
        }
        proof {
            absent(self.entries@, id@);
            assert(self@.remove(id@) =~= self@);
        }
    }

    /// Stores `value` for `id`, in place of what was there.
    pub fn insert(&mut self, id: K, value: V)
        ensures
            final(self)@ == old(self)@.insert(id@, value@),
    {
        let ghost m = self@;
        self.remove(&id);
        let ghost before = self.entries@;
        let ghost idv = id@;
        let ghost vv = value@;
        self.entries.push((id, value));
        proof {
            assert(self.entries@.drop_last() =~= before);
            assert(m.remove(idv).insert(idv, vv) =~= m.insert(idv, vv));
        }
    }
}

impl<K: TableKey, V: View> Default for Table<K, V> {
    fn default() -> (r: Self)
        ensures
            r@ == Map::<K::V, V::V>::empty(),
    {
        Table::new()
    }
}

/// Every key of the map stands in an entry.
pub proof fn key_has_entry<K: View, V: View>(s: Seq<(K, V)>, k: K::V)
    requires
        folded(s).dom().contains(k),
    ensures
        exists|i: int| 0 <= i < s.len() && (#[trigger] s[i]).0@ == k,
    decreases s.len(),
{
    if s.len() > 0 {
        if s.last().0@ == k {
            assert(s[s.len() - 1].0@ == k);
        } else {
            key_has_entry(s.drop_last(), k);
            let i = choose|i: int|
                0 <= i < s.drop_last().len() && (#[trigger] s.drop_last()[i]).0@ == k;
            assert(s[i].0@ == k);
        }
    }
}

impl<K: TableKey, V: View> Table<K, V> {
    /// Whether there is a value for `id`.
    pub fn contains_key(&self, id: &K) -> (r: bool)
        ensures
            r == self@.dom().contains(id@),
    {
        self.get(id).is_some()
    }
}

}
