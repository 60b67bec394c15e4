//! The identity cache: a mapping from port identifier to the last device
//! record seen attached on that port.
//!
//! A port is present here exactly when, from the subscriber's point of view,
//! an attach for that port has been seen and no matching detach has been
//! delivered yet. The cache fills in the metadata missing from raw detach
//! notifications.

use vstd::prelude::*;

use crate::device::{DeviceInfo, DeviceInfoView};

verus! {

/// The entries as a list of key/record pairs with pairwise-distinct keys.
spec fn keys_distinct(items: Seq<(String, DeviceInfo)>) -> bool {
    forall|i: int, j: int|
        0 <= i < j < items.len() ==> items[i].0@ != items[j].0@
}

/// The mapping that a list of key/record pairs stands for, later pairs
/// overriding earlier ones.
spec fn entries_map(items: Seq<(String, DeviceInfo)>) -> Map<Seq<char>, DeviceInfoView>
    decreases items.len(),
{
    if items.len() == 0 {
        Map::empty()
    } else {
        entries_map(items.drop_last()).insert(items.last().0@, items.last().1@)
    }
}

proof fn lemma_entries_map_domain(items: Seq<(String, DeviceInfo)>)
    ensures
        forall|p: Seq<char>|
            entries_map(items).contains_key(p) <==> exists|i: int|
                0 <= i < items.len() && #[trigger] items[i].0@ == p,
    decreases items.len(),
{
    if items.len() > 0 {
        let prefix = items.drop_last();
        lemma_entries_map_domain(prefix);
        assert forall|p: Seq<char>| entries_map(items).contains_key(p) implies exists|i: int|
            0 <= i < items.len() && #[trigger] items[i].0@ == p by {
            if p == items.last().0@ {
                assert(items[items.len() - 1].0@ == p);
            } else {
                assert(entries_map(prefix).contains_key(p));
                let i = choose|i: int| 0 <= i < prefix.len() && #[trigger] prefix[i].0@ == p;
                assert(prefix[i] == items[i]);
                assert(items[i].0@ == p);
            }
        }
        assert forall|p: Seq<char>|
            (exists|i: int| 0 <= i < items.len() && #[trigger] items[i].0@ == p) implies entries_map(
            items,
        ).contains_key(p) by {
            let i = choose|i: int| 0 <= i < items.len() && #[trigger] items[i].0@ == p;
            if i < items.len() - 1 {
                assert(prefix[i] == items[i]);
                assert(prefix[i].0@ == p);
                assert(entries_map(prefix).contains_key(p));
            }
        }
    }
}

proof fn lemma_entries_map_value(items: Seq<(String, DeviceInfo)>, i: int)
    requires
        keys_distinct(items),
        0 <= i < items.len(),
    ensures
        entries_map(items).contains_key(items[i].0@),
        entries_map(items)[items[i].0@] == items[i].1@,
    decreases items.len(),
{
    if i < items.len() - 1 {
        assert(keys_distinct(items.drop_last()));
        assert(items.drop_last()[i] == items[i]);
        lemma_entries_map_value(items.drop_last(), i);
        assert(items[i].0@ != items.last().0@);
    }
}

proof fn lemma_entries_map_update(items: Seq<(String, DeviceInfo)>, i: int, x: (String, DeviceInfo))
    requires
        keys_distinct(items),
        0 <= i < items.len(),
        items[i].0@ == x.0@,
    ensures
        entries_map(items.update(i, x)) =~= entries_map(items).insert(x.0@, x.1@),
    decreases items.len(),
{
    let updated = items.update(i, x);
    if i == items.len() - 1 {
        assert(updated.drop_last() =~= items.drop_last());
        assert(updated.last() == x);
    } else {
        assert(keys_distinct(items.drop_last()));
        assert(items.drop_last()[i] == items[i]);
        lemma_entries_map_update(items.drop_last(), i, x);
        assert(updated.drop_last() =~= items.drop_last().update(i, x));
        assert(updated.last() == items.last());
        assert(items[i].0@ != items.last().0@);
    }
}

proof fn lemma_entries_map_remove(items: Seq<(String, DeviceInfo)>, i: int)
    requires
        keys_distinct(items),
        0 <= i < items.len(),
    ensures
        entries_map(items.remove(i)) =~= entries_map(items).remove(items[i].0@),
        keys_distinct(items.remove(i)),
    decreases items.len(),
{
    let shrunk = items.remove(i);
    assert(keys_distinct(shrunk)) by {
        assert forall|a: int, b: int| 0 <= a < b < shrunk.len() implies shrunk[a].0@ != shrunk[b].0@ by {
            let a0 = if a < i { a } else { a + 1 };
            let b0 = if b < i { b } else { b + 1 };
            assert(shrunk[a] == items[a0]);
            assert(shrunk[b] == items[b0]);
        }
    }
    if i == items.len() - 1 {
        assert(shrunk =~= items.drop_last());
        lemma_entries_map_domain(items.drop_last());
        assert(!entries_map(items.drop_last()).contains_key(items[i].0@)) by {
            if entries_map(items.drop_last()).contains_key(items[i].0@) {
                let j = choose|j: int|
                    0 <= j < items.drop_last().len() && #[trigger] items.drop_last()[j].0@
                        == items[i].0@;
                assert(items[j].0@ == items[i].0@);
            }
        }
    } else {
        assert(keys_distinct(items.drop_last()));
        assert(items.drop_last()[i] == items[i]);
        lemma_entries_map_remove(items.drop_last(), i);
        assert(shrunk.drop_last() =~= items.drop_last().remove(i));
        assert(shrunk.last() == items.last());
        assert(items[i].0@ != items.last().0@);
    }
}

/// The identity cache: the last device record seen attached on each port.
pub struct IdentityCache {
    items: Vec<(String, DeviceInfo)>,
}

impl View for IdentityCache {
    type V = Map<Seq<char>, DeviceInfoView>;

    closed spec fn view(&self) -> Map<Seq<char>, DeviceInfoView> {
        entries_map(self.items@)
    }
}

impl IdentityCache {
    /// Internal validity: no port occurs twice.
    pub closed spec fn wf(&self) -> bool {
        keys_distinct(self.items@)
    }

    /// An empty cache.
    pub fn new() -> (c: IdentityCache)
        ensures
            c.wf(),
            c@ == Map::<Seq<char>, DeviceInfoView>::empty(),
    {
        IdentityCache { items: Vec::new() }
    }

    /// How many ports are currently recorded as attached.
    pub fn len(&self) -> (n: usize)
        requires
            self.wf(),
        ensures
            n == self@.dom().len(),
    {
        proof {
            lemma_entries_map_len(self.items@);
        }
        self.items.len()
    }

    fn find_index(&self, port: &String) -> (r: Option<usize>)
        ensures
            match r {
                Some(i) => i < self.items@.len() && self.items@[i as int].0@ == port@,
                None => forall|i: int| 0 <= i < self.items@.len() ==> self.items@[i].0@ != port@,
            },
    {
        let n = self.items.len();
        let mut i: usize = 0;
        while i < n
            invariant
                n == self.items@.len(),
                i <= n,
                forall|j: int| 0 <= j < i ==> self.items@[j].0@ != port@,
            decreases n - i,
        {
            if self.items[i].0 == *port {
                return Some(i);
            }
            i = i + 1;
        }
        None
    }

    /// Whether the cache holds a record for this port.
    pub fn contains(&self, port: &String) -> (r: bool)
        ensures
            r == self@.contains_key(port@),
    {
        proof {
            lemma_entries_map_domain(self.items@);
        }
        self.find_index(port).is_some()
    }

    /// The record currently attached on `port`, if any.
    pub fn lookup(&self, port: &String) -> (r: Option<&DeviceInfo>)
        requires
            self.wf(),
        ensures
            match r {
                Some(rec) => self@.contains_key(port@) && rec@ == self@[port@],
                None => !self@.contains_key(port@),
            },
    {
        proof {
            lemma_entries_map_domain(self.items@);
        }
        match self.find_index(port) {
            Some(i) => {
                proof {
                    lemma_entries_map_value(self.items@, i as int);
                }
                Some(&self.items[i].1)
            },
            None => None,
        }
    }

    /// Record `rec` as the device currently attached on `port`, replacing any
    /// earlier record for the same port.
    pub fn insert(&mut self, port: String, rec: DeviceInfo)
        requires
            old(self).wf(),
        ensures
            final(self).wf(),
            final(self)@ == old(self)@.insert(port@, rec@),
    {
        let idx = self.find_index(&port);
        match idx {
            Some(i) => {
                proof {
                    lemma_entries_map_update(self.items@, i as int, (port, rec));
                }
                self.items.set(i, (port, rec));
                proof {
                    assert forall|a: int, b: int|
                        0 <= a < b < self.items@.len() implies self.items@[a].0@
                        != self.items@[b].0@ by {
                        assert(old(self).items@[a].0@ != old(self).items@[b].0@);
                    }
                }
            },
            None => {
                let ghost before = self.items@;
                self.items.push((port, rec));
                proof {
                    assert(self.items@.drop_last() =~= before);
                }
            },
        }
    }

    /// Take the record for `port` out of the cache, if one is present.
    pub fn remove(&mut self, port: &String) -> (r: Option<DeviceInfo>)
        requires
            old(self).wf(),
        ensures
            final(self).wf(),
            r is Some <==> old(self)@.contains_key(port@),
            match r {
                Some(rec) => rec@ == old(self)@[port@] && final(self)@ == old(self)@.remove(port@),
                None => final(self)@ == old(self)@,
            },
    {
        proof {
            lemma_entries_map_domain(self.items@);
        }
        match self.find_index(port) {
            Some(i) => {
                proof {
                    lemma_entries_map_value(self.items@, i as int);
                    lemma_entries_map_remove(self.items@, i as int);
                }
                let pair = self.items.remove(i);
                Some(pair.1)
            },
            None => None,
        }
    }
}

proof fn lemma_entries_map_len(items: Seq<(String, DeviceInfo)>)
    requires
        keys_distinct(items),
    ensures
        entries_map(items).dom().finite(),
        entries_map(items).dom().len() == items.len(),
    decreases items.len(),
{
    if items.len() > 0 {
        assert(keys_distinct(items.drop_last()));
        lemma_entries_map_len(items.drop_last());
        lemma_entries_map_domain(items.drop_last());
        assert(!entries_map(items.drop_last()).contains_key(items.last().0@)) by {
            if entries_map(items.drop_last()).contains_key(items.last().0@) {
                let j = choose|j: int|
                    0 <= j < items.drop_last().len() && #[trigger] items.drop_last()[j].0@
                        == items.last().0@;
                assert(items[j].0@ == items[items.len() - 1].0@);
            }
        }
    }
}

} // verus!
