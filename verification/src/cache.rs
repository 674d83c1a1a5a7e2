//! The sessions that are open, one for each connection key.
use crate::conn::{string_views, ConnKey, ConnView};
use vstd::prelude::*;

verus! {

/// Open sessions by the key that they were opened with. No key occurs twice.
pub struct SessionCache<S> {
    entries: Vec<(ConnKey, S)>,
}

/// Whether the two keys name the same contact points, credentials and keyspace.
fn same_key(a: &ConnKey, b: &ConnKey) -> (same: bool)
    ensures
        same == (a@ == b@),
{
    if a.username != b.username || a.password != b.password || a.keyspace != b.keyspace {
        return false;
    }
    if a.nodes.len() != b.nodes.len() {
        proof {
            assert(a@.nodes.len() != b@.nodes.len());
        }
        return false;
    }
    let mut i: usize = 0;
    while i < a.nodes.len()
        invariant
            0 <= i <= a.nodes@.len(),
            a.nodes@.len() == b.nodes@.len(),
            forall|k: int| 0 <= k < i ==> (#[trigger] a.nodes@[k])@ == b.nodes@[k]@,
        decreases a.nodes@.len() - i,
    {
        if a.nodes[i] != b.nodes[i] {
            proof {
                assert(a@.nodes[i as int] != b@.nodes[i as int]);
            }
            return false;
        }
        i += 1;
    }
    proof {
        assert(string_views(a.nodes@) =~= string_views(b.nodes@));
    }
    true
}

impl<S> SessionCache<S> {
    /// The session under each key.
    pub closed spec fn view(&self) -> Map<ConnView, S> {
        Map::new(
            |key: ConnView| exists|i: int| self.stands_at(key, i),
            |key: ConnView| self.entries@[choose|i: int| self.stands_at(key, i)].1,
        )
    }

    /// Whether the key stands at the index.
    closed spec fn stands_at(self, key: ConnView, i: int) -> bool {
        0 <= i < self.entries@.len() && self.entries@[i].0@ == key
    }

    /// No key occurs twice.
    #[verifier::type_invariant]
    closed spec fn keys_differ(self) -> bool {
        forall|i: int, j: int|
            0 <= i < j < self.entries@.len() ==> self.entries@[i].0@ != self.entries@[j].0@
    }

    /// Where the keys differ, the session under the key at an index is the one
    /// at that index.
    proof fn lemma_stands_at(self, key: ConnView, i: int)
        requires
            self.keys_differ(),
            self.stands_at(key, i),
        ensures
            self@.contains_key(key),
            self@[key] == self.entries@[i].1,
    {
        let k = choose|k: int| self.stands_at(key, k);
        assert(self.stands_at(key, k));
        if k < i {
            assert(self.entries@[k].0@ != self.entries@[i].0@);
        } else if i < k {
            assert(self.entries@[i].0@ != self.entries@[k].0@);
        }
    }

    /// The cache without sessions.
    pub fn new() -> (cache: SessionCache<S>)
        ensures
            cache@ == Map::<ConnView, S>::empty(),
    {
        let cache = SessionCache { entries: Vec::new() };
        proof {
            assert(cache@ =~= Map::<ConnView, S>::empty());
        }
        cache
    }

    /// Where the key stands, if it is there.
    fn position(&self, key: &ConnKey) -> (index: Option<usize>)
        ensures
            match index {
                Some(i) => self.stands_at(key@, i as int),
                None => forall|i: int| !self.stands_at(key@, i),
            },
    {
        let mut i: usize = 0;
        while i < self.entries.len()
            invariant
                0 <= i <= self.entries@.len(),
                forall|k: int| 0 <= k < i ==> !self.stands_at(key@, k),
            decreases self.entries@.len() - i,
        {
            if same_key(&self.entries[i].0, key) {
                return Some(i);
            }
            i += 1;
        }
        None
    }

    /// The session under the key.
    pub fn get(&self, key: &ConnKey) -> (session: Option<&S>)
        ensures
            session == (if self@.contains_key(key@) {
                Some(&self@[key@])
            } else {
                None
            }),
    {
        proof {
            use_type_invariant(self);
        }
        match self.position(key) {
            Some(i) => {
                proof {
                    self.lemma_stands_at(key@, i as int);
                }
                Some(&self.entries[i].1)
            },
            None => None,
        }
    }

    /// Keeps the session under the key, in place of one that was there.
    pub fn insert(&mut self, key: ConnKey, session: S)
        ensures
            final(self)@ == old(self)@.insert(key@, session),
    {
        proof {
            use_type_invariant(&*self);
        }
        let at: Option<usize> = self.position(&key);
        let ghost before = *self;
        let ghost key_view = key@;
        let mut entries: Vec<(ConnKey, S)> = Vec::new();
        std::mem::swap(&mut entries, &mut self.entries);
        let ghost index: int;
        match at {
            Some(i) => {
                entries.set(i, (key, session));
                proof {
                    index = i as int;
                }
            },
            None => {
                entries.push((key, session));
                proof {
                    index = entries@.len() - 1;
                }
            },
        }
        proof {
            assert forall|i: int, j: int| 0 <= i < j < entries@.len() implies entries@[i].0@
                != entries@[j].0@ by {
                if j == index && at is None {
                    assert(!before.stands_at(key_view, i));
                }
            }
        }
        self.entries = entries;
        proof {
            let after = *self;
            let target = before@.insert(key_view, session);
            assert(after.stands_at(key_view, index));
            after.lemma_stands_at(key_view, index);
            assert forall|k: ConnView| after@.contains_key(k) == target.contains_key(k) by {
                if k != key_view {
                    if before@.contains_key(k) {
                        let i = choose|i: int| before.stands_at(k, i);
                        assert(after.stands_at(k, i));
                    }
                    if after@.contains_key(k) {
                        let i = choose|i: int| after.stands_at(k, i);
                        assert(before.stands_at(k, i));
                    }
                }
            }
            assert forall|k: ConnView| after@.contains_key(k) implies #[trigger] after@[k]
                == target[k] by {
                if k != key_view {
                    let i = choose|i: int| after.stands_at(k, i);
                    assert(before.stands_at(k, i));
                    before.lemma_stands_at(k, i);
                    after.lemma_stands_at(k, i);
                }
            }
            assert(after@ =~= target);
        }
    }
}

}
