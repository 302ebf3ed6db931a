//! An insertion-ordered map from qualified names to values, with unique keys.

use vstd::prelude::*;
use crate::names::{Multiname, QName, QNameView};

verus! {

/// One binding of a property map.
pub struct Entry<V> {
    pub name: QName,
    pub value: V,
}

/// Bindings in insertion order; no two of them have the same name.
pub struct PropertyMap<V> {
    pub entries: Vec<Entry<V>>,
}

/// The least index at or after `from` whose key is `name`, or the length of
/// `s` when there is none.
pub open spec fn position<V>(s: Seq<(QNameView, V)>, name: QNameView, from: int) -> int
    decreases s.len() - from,
{
    if from < 0 || from >= s.len() {
        s.len() as int
    } else if s[from].0 == name {
        from
    } else {
        position(s, name, from + 1)
    }
}

/// The least index at or after `from` whose key `mn` accepts, or the length
/// of `s` when there is none.
pub open spec fn first_match<V>(s: Seq<(QNameView, V)>, mn: Multiname, from: int) -> int
    decreases s.len() - from,
{
    if from < 0 || from >= s.len() {
        s.len() as int
    } else if mn.accepts(s[from].0) {
        from
    } else {
        first_match(s, mn, from + 1)
    }
}

/// The value bound to `name`, if any.
pub open spec fn lookup<V>(s: Seq<(QNameView, V)>, name: QNameView) -> Option<V> {
    let i = position(s, name, 0);
    if i < s.len() {
        Some(s[i].1)
    } else {
        None
    }
}

/// The earliest binding whose key `mn` accepts, if any.
pub open spec fn resolve<V>(s: Seq<(QNameView, V)>, mn: Multiname) -> Option<(QNameView, V)> {
    let i = first_match(s, mn, 0);
    if i < s.len() {
        Some(s[i])
    } else {
        None
    }
}

/// The bindings after `name` has been bound to `value`: an existing binding
/// is replaced in place, a new one goes to the end.
pub open spec fn bind<V>(s: Seq<(QNameView, V)>, name: QNameView, value: V) -> Seq<(QNameView, V)> {
    let i = position(s, name, 0);
    if i < s.len() {
        s.update(i, (name, value))
    } else {
        s.push((name, value))
    }
}

/// No two bindings have the same key.
pub open spec fn unique_keys<V>(s: Seq<(QNameView, V)>) -> bool {
    forall|i: int, j: int| 0 <= i < j < s.len() ==> (#[trigger] s[i]).0 != (#[trigger] s[j]).0
}

/// `position` returns the first index from `from` on that holds `name`.
pub proof fn lemma_position<V>(s: Seq<(QNameView, V)>, name: QNameView, from: int)
    requires
        0 <= from <= s.len(),
    ensures
        from <= position(s, name, from) <= s.len(),
        position(s, name, from) < s.len() ==> s[position(s, name, from)].0 == name,
        forall|k: int| from <= k < position(s, name, from) ==> (#[trigger] s[k]).0 != name,
    decreases s.len() - from,
{
    if from < s.len() && s[from].0 != name {
        lemma_position(s, name, from + 1);
    }
}

/// `first_match` returns the first index from `from` on that `mn` accepts.
pub proof fn lemma_first_match<V>(s: Seq<(QNameView, V)>, mn: Multiname, from: int)
    requires
        0 <= from <= s.len(),
    ensures
        from <= first_match(s, mn, from) <= s.len(),
        first_match(s, mn, from) < s.len() ==> mn.accepts(s[first_match(s, mn, from)].0),
        forall|k: int| from <= k < first_match(s, mn, from) ==> !mn.accepts((#[trigger] s[k]).0),
    decreases s.len() - from,
{
    if from < s.len() && !mn.accepts(s[from].0) {
        lemma_first_match(s, mn, from + 1);
    }
}

/// Binding a name keeps the keys unique and makes the name resolve to the
/// new value; every other name resolves as before.
pub proof fn lemma_bind<V>(s: Seq<(QNameView, V)>, name: QNameView, value: V)
    requires
        unique_keys(s),
    ensures
        unique_keys(bind(s, name, value)),
        lookup(bind(s, name, value), name) == Some(value),
        forall|other: QNameView| other != name ==> lookup(bind(s, name, value), other) == lookup(s, other),
{
    let t = bind(s, name, value);
    lemma_position(s, name, 0);
    lemma_position(t, name, 0);
    let i = position(s, name, 0);
    assert(t[i].0 == name);
    assert forall|other: QNameView| other != name implies lookup(t, other) == lookup(s, other) by {
        lemma_position(s, other, 0);
        lemma_position(t, other, 0);
        let a = position(s, other, 0);
        let b = position(t, other, 0);
        if a < s.len() {
            assert(t[a].0 == other);
        }
        if b < t.len() {
            if b < s.len() {
                assert(s[b].0 == other);
            }
        }
    }
}

impl<V> View for PropertyMap<V> {
    type V = Seq<(QNameView, V)>;

    open spec fn view(&self) -> Seq<(QNameView, V)> {
        Seq::new(self.entries@.len(), |i: int| (self.entries@[i].name@, self.entries@[i].value))
    }
}

impl<V> PropertyMap<V> {
    /// The invariant of the map: its keys are pairwise different.
    pub open spec fn wf(&self) -> bool {
        unique_keys(self@)
    }

    pub fn new() -> (m: PropertyMap<V>)
        ensures
            m@ == Seq::<(QNameView, V)>::empty(),
            m.wf(),
    {
        let m = PropertyMap { entries: Vec::new() };
        assert(m@ =~= Seq::<(QNameView, V)>::empty());
        m
    }

    pub fn len(&self) -> (n: usize)
        ensures
            n == self@.len(),
    {
        self.entries.len()
    }

    /// Index of the binding of `name`, or the number of bindings.
    fn find(&self, name: &QName) -> (i: usize)
        ensures
            i == position(self@, name@, 0),
            i <= self@.len(),
    {
        let mut i: usize = 0;
        while i < self.entries.len()
            invariant
                i <= self.entries@.len(),
                position(self@, name@, 0) == position(self@, name@, i as int),
            decreases self.entries@.len() - i,
        {
            if self.entries[i].name.same(name) {
                return i;
            }
            i += 1;
        }
        i
    }

    /// Index of the earliest binding that `mn` accepts, or the number of
    /// bindings.
    fn find_for_multiname(&self, mn: &Multiname) -> (i: usize)
        ensures
            i == first_match(self@, *mn, 0),
            i <= self@.len(),
    {
        let mut i: usize = 0;
        while i < self.entries.len()
            invariant
                i <= self.entries@.len(),
                first_match(self@, *mn, 0) == first_match(self@, *mn, i as int),
            decreases self.entries@.len() - i,
        {
            if mn.matches_name(&self.entries[i].name) {
                return i;
            }
            i += 1;
        }
        i
    }

    pub fn contains_key(&self, name: &QName) -> (r: bool)
        ensures
            r == lookup(self@, name@).is_some(),
    {
        self.find(name) < self.entries.len()
    }

    pub fn get(&self, name: &QName) -> (r: Option<&V>)
        ensures
            match r {
                Some(v) => lookup(self@, name@) == Some(*v),
                None => lookup(self@, name@) is None,
            },
    {
        let i = self.find(name);
        if i < self.entries.len() {
            Some(&self.entries[i].value)
        } else {
            None
        }
    }

    /// The earliest binding whose name `mn` accepts: that name and the value.
    pub fn get_with_ns_for_multiname(&self, mn: &Multiname) -> (r: Option<(&QName, &V)>)
        ensures
            match r {
                Some((q, v)) => resolve(self@, *mn) == Some((q@, *v)),
                None => resolve(self@, *mn) is None,
            },
    {
        let i = self.find_for_multiname(mn);
        if i < self.entries.len() {
            Some((&self.entries[i].name, &self.entries[i].value))
        } else {
            None
        }
    }

    /// The value of the earliest binding whose name `mn` accepts.
    pub fn get_for_multiname(&self, mn: &Multiname) -> (r: Option<&V>)
        ensures
            match r {
                Some(v) => resolve(self@, *mn) matches Some(e) && e.1 == *v,
                None => resolve(self@, *mn) is None,
            },
    {
        match self.get_with_ns_for_multiname(mn) {
            Some((_, v)) => Some(v),
            None => None,
        }
    }

    /// Binds `name` to `value`, replacing an existing binding in place.
    pub fn insert(&mut self, name: QName, value: V)
        requires
            old(self).wf(),
        ensures
            final(self)@ == bind(old(self)@, name@, value),
            final(self).wf(),
    {
        let i = self.find(&name);
        proof {
            lemma_bind(self@, name@, value);
        }
        if i < self.entries.len() {
            self.entries[i] = Entry { name, value };
        } else {
            self.entries.push(Entry { name, value });
        }
        assert(self@ =~= bind(old(self)@, name@, value));
    }

    /// The names bound in this map, in insertion order.
    pub fn names(&self) -> (out: Vec<QName>)
        ensures
            out@.len() == self@.len(),
            forall|k: int| 0 <= k < out@.len() ==> (#[trigger] out@[k])@ == self@[k].0,
    {
        let mut out: Vec<QName> = Vec::new();
        let mut i: usize = 0;
        while i < self.entries.len()
            invariant
                i <= self.entries@.len(),
                out@.len() == i,
                forall|k: int| 0 <= k < i ==> (#[trigger] out@[k])@ == self@[k].0,
            decreases self.entries@.len() - i,
        {
            out.push(self.entries[i].name.duplicate());
            i += 1;
        }
        out
    }
}

} // verus!
