//! The stateful component registry.
//!
//! Interaction state is keyed by a stable, caller-supplied identity, not
//! by a node's position in the widget tree, so it survives the tree being
//! rebuilt every frame. State is created lazily with a default on first
//! lookup; a full rebuild registers the keys it still uses, and pruning
//! then drops every key that was not re-registered.

use vstd::prelude::*;
use crate::scroll_state::ScrollState;

verus! {

/// A stable identity for one logical component instance. Callers derive
/// it from the declaration site of the component; call sites that are
/// re-entered (say, in a loop) must disambiguate the key themselves.
#[derive(Clone, Copy, Debug, PartialEq, Eq, Hash, Structural)]
pub struct Key {
    pub id: u64,
}

/// One registry slot: a key, its persisted state, and whether the key was
/// registered again during the current rebuild cycle.
#[derive(Clone, Copy, Debug)]
pub struct RegistryEntry {
    pub key: u64,
    pub state: ScrollState,
    pub registered: bool,
}

pub open spec fn entries_wf(s: Seq<RegistryEntry>) -> bool {
    &&& forall|i: int, j: int|
        0 <= i < j < s.len() ==> (#[trigger] s[i]).key != (#[trigger] s[j]).key
    &&& forall|i: int| 0 <= i < s.len() ==> (#[trigger] s[i]).state.wf()
}

pub open spec fn entries_contain(s: Seq<RegistryEntry>, key: u64) -> bool {
    exists|i: int| 0 <= i < s.len() && (#[trigger] s[i]).key == key
}

pub open spec fn entry_index(s: Seq<RegistryEntry>, key: u64) -> int {
    choose|i: int| 0 <= i < s.len() && (#[trigger] s[i]).key == key
}

pub open spec fn entry_state(s: Seq<RegistryEntry>, key: u64) -> ScrollState {
    s[entry_index(s, key)].state
}

pub open spec fn entry_registered(s: Seq<RegistryEntry>, key: u64) -> bool {
    s[entry_index(s, key)].registered
}

/// The entry with its registration mark cleared for the next cycle.
pub open spec fn cleared(e: RegistryEntry) -> RegistryEntry {
    RegistryEntry { key: e.key, state: e.state, registered: false }
}

/// What pruning leaves: the registered entries, in order, marks cleared.
pub open spec fn pruned_entries(s: Seq<RegistryEntry>) -> Seq<RegistryEntry>
    decreases s.len(),
{
    if s.len() == 0 {
        Seq::empty()
    } else if s.last().registered {
        pruned_entries(s.drop_last()).push(cleared(s.last()))
    } else {
        pruned_entries(s.drop_last())
    }
}

/// With unique keys, the entry at any index is the one the lookup
/// functions speak of.
proof fn lemma_entry_facts(s: Seq<RegistryEntry>, i: int)
    requires
        entries_wf(s),
        0 <= i < s.len(),
    ensures
        entries_contain(s, s[i].key),
        entry_index(s, s[i].key) == i,
        entry_state(s, s[i].key) == s[i].state,
        entry_registered(s, s[i].key) == s[i].registered,
{
    let key = s[i].key;
    assert(entries_contain(s, key));
    let ci = entry_index(s, key);
    if ci < i {
        assert(s[ci].key != s[i].key);
    } else if i < ci {
        assert(s[i].key != s[ci].key);
    }
}

/// Membership, state and mark of every key after pruning.
proof fn lemma_pruned_entries(s: Seq<RegistryEntry>)
    requires
        entries_wf(s),
    ensures
        entries_wf(pruned_entries(s)),
        forall|k: u64|
            #[trigger] entries_contain(pruned_entries(s), k) == (entries_contain(s, k)
                && entry_registered(s, k)),
        forall|k: u64|
            entries_contain(pruned_entries(s), k) ==> #[trigger] entry_state(pruned_entries(s), k)
                == entry_state(s, k) && !entry_registered(pruned_entries(s), k),
    decreases s.len(),
{
    if s.len() == 0 {
    } else {
        let front = s.drop_last();
        let e = s.last();
        let p = pruned_entries(s);
        assert(entries_wf(front));
        lemma_pruned_entries(front);
        let pf = pruned_entries(front);
        lemma_entry_facts(s, s.len() - 1);
        // the last key does not occur in the front part
        assert forall|k: u64| k != e.key implies #[trigger] entries_contain(front, k)
            == entries_contain(s, k) && (entries_contain(front, k) ==> entry_state(front, k)
            == entry_state(s, k) && entry_registered(front, k) == entry_registered(s, k)) by {
            if entries_contain(front, k) {
                let i = entry_index(front, k);
                assert(s[i].key == k);
                lemma_entry_facts(s, i);
                lemma_entry_facts(front, i);
            }
            if entries_contain(s, k) {
                let i = entry_index(s, k);
                assert(i < front.len());
                assert(front[i].key == k);
                lemma_entry_facts(s, i);
                lemma_entry_facts(front, i);
            }
        }
        // entries of the pruned front never hold the last key
        assert forall|a: int| 0 <= a < pf.len() implies (#[trigger] pf[a]).key != e.key by {
            lemma_entry_facts(pf, a);
            assert(entries_contain(front, pf[a].key));
        }
        if e.registered {
            assert(p == pf.push(cleared(e)));
            assert(entries_wf(p)) by {
                assert forall|a: int, b: int|
                    0 <= a < b < p.len() implies (#[trigger] p[a]).key != (#[trigger] p[b]).key by {
                    if b < pf.len() {
                        assert(p[a] == pf[a] && p[b] == pf[b]);
                    } else {
                        assert(p[b] == cleared(e));
                        assert(p[a] == pf[a]);
                    }
                }
                assert forall|a: int| 0 <= a < p.len() implies (#[trigger] p[a]).state.wf() by {
                    if a < pf.len() {
                        assert(p[a] == pf[a]);
                    }
                }
            }
            assert forall|k: u64| #[trigger] entries_contain(p, k) == (entries_contain(s, k)
                && entry_registered(s, k)) && (entries_contain(p, k) ==> entry_state(p, k)
                == entry_state(s, k) && !entry_registered(p, k)) by {
                if k == e.key {
                    assert(p[p.len() - 1] == cleared(e));
                    lemma_entry_facts(p, p.len() - 1);
                } else {
                    if entries_contain(p, k) {
                        let a = entry_index(p, k);
                        assert(a < pf.len());
                        assert(pf[a].key == k);
                        lemma_entry_facts(p, a);
                        lemma_entry_facts(pf, a);
                    }
                    if entries_contain(pf, k) {
                        let a = entry_index(pf, k);
                        assert(p[a].key == k);
                        lemma_entry_facts(p, a);
                        lemma_entry_facts(pf, a);
                    }
                }
            }
        } else {
            assert(p == pf);
            assert forall|k: u64| #[trigger] entries_contain(p, k) == (entries_contain(s, k)
                && entry_registered(s, k)) by {
                if k == e.key {
                    assert(!entries_contain(front, k));
                    assert(!entries_contain(p, k));
                }
            }
        }
    }
}

/// The key-to-state store that survives redraw cycles.
pub struct ComponentRegistry {
    entries: Vec<RegistryEntry>,
}

impl ComponentRegistry {
    /// Keys are unique, and every held state is well formed.
    pub closed spec fn wf(self) -> bool {
        entries_wf(self.entries@)
    }

    pub closed spec fn spec_contains(self, key: u64) -> bool {
        entries_contain(self.entries@, key)
    }

    pub closed spec fn spec_state(self, key: u64) -> ScrollState {
        entry_state(self.entries@, key)
    }

    pub closed spec fn spec_registered(self, key: u64) -> bool {
        entry_registered(self.entries@, key)
    }

    pub fn new() -> (r: ComponentRegistry)
        ensures
            r.wf(),
            forall|k: u64| !r.spec_contains(k),
    {
        ComponentRegistry { entries: Vec::new() }
    }

    /// The index of the entry for `key`, when one exists.
    fn find(&self, key: u64) -> (r: Option<usize>)
        ensures
            match r {
                Some(i) => i < self.entries@.len() && self.entries@[i as int].key == key,
                None => !self.spec_contains(key),
            },
    {
        let mut i: usize = 0;
        while i < self.entries.len()
            invariant
                i <= self.entries@.len(),
                forall|j: int| 0 <= j < i ==> (#[trigger] self.entries@[j]).key != key,
            decreases self.entries@.len() - i,
        {
            if self.entries[i].key == key {
                return Some(i);
            }
            i = i + 1;
        }
        None
    }

    /// Registers `key` for the current rebuild cycle, creating its state
    /// with the default when the key is new. Existing state is kept.
    pub fn register_component(&mut self, key: Key)
        requires
            old(self).wf(),
        ensures
            final(self).wf(),
            final(self).spec_contains(key.id),
            final(self).spec_registered(key.id),
            final(self).spec_state(key.id) == if old(self).spec_contains(key.id) {
                old(self).spec_state(key.id)
            } else {
                ScrollState::spec_default()
            },
            forall|k: u64|
                k != key.id ==> #[trigger] final(self).spec_contains(k) == old(self).spec_contains(
                    k,
                ),
            forall|k: u64|
                k != key.id && old(self).spec_contains(k) ==> #[trigger] final(self).spec_state(k)
                    == old(self).spec_state(k),
            forall|k: u64|
                k != key.id && old(self).spec_contains(k) ==> #[trigger] final(self).spec_registered(k) == old(self).spec_registered(k),
    {
        let found = self.find(key.id);
        match found {
            Some(i) => {
                let state = self.entries[i].state;
                self.entries[i] = RegistryEntry { key: key.id, state, registered: true };
                proof {
                    lemma_update_facts(self.entries@, old(self).entries@, i as int, key.id);
                    assert forall|k: u64|
                        k != key.id && old(self).spec_contains(k) implies #[trigger] self.spec_state(
                        k,
                    ) == old(self).spec_state(k) by {
                        assert(entry_state(self.entries@, k) == entry_state(old(self).entries@, k));
                    }
                    assert forall|k: u64|
                        k != key.id && old(self).spec_contains(k) implies #[trigger] self.spec_registered(
                        k,
                    ) == old(self).spec_registered(k) by {
                        assert(entry_state(self.entries@, k) == entry_state(old(self).entries@, k));
                        assert(entry_registered(self.entries@, k) == entry_registered(
                            old(self).entries@,
                            k,
                        ));
                    }
                }
            },
            None => {
                self.entries.push(
                    RegistryEntry { key: key.id, state: ScrollState::new(), registered: true },
                );
                proof {
                    lemma_push_facts(self.entries@, old(self).entries@, key.id);
                    assert forall|k: u64|
                        k != key.id && old(self).spec_contains(k) implies #[trigger] self.spec_state(
                        k,
                    ) == old(self).spec_state(k) by {
                        assert(entry_state(self.entries@, k) == entry_state(old(self).entries@, k));
                    }
                    assert forall|k: u64|
                        k != key.id && old(self).spec_contains(k) implies #[trigger] self.spec_registered(
                        k,
                    ) == old(self).spec_registered(k) by {
                        assert(entry_state(self.entries@, k) == entry_state(old(self).entries@, k));
                        assert(entry_registered(self.entries@, k) == entry_registered(
                            old(self).entries@,
                            k,
                        ));
                    }
                }
            },
        }
    }

    /// The persisted state for `key`, created with the default when the
    /// key is new.
    pub fn state_for(&mut self, key: Key) -> (r: ScrollState)
        requires
            old(self).wf(),
        ensures
            final(self).wf(),
            r.wf(),
            final(self).spec_contains(key.id),
            r == final(self).spec_state(key.id),
            r == if old(self).spec_contains(key.id) {
                old(self).spec_state(key.id)
            } else {
                ScrollState::spec_default()
            },
            forall|k: u64|
                k != key.id ==> #[trigger] final(self).spec_contains(k) == old(self).spec_contains(
                    k,
                ),
            forall|k: u64|
                k != key.id && old(self).spec_contains(k) ==> #[trigger] final(self).spec_state(k)
                    == old(self).spec_state(k),
    {
        let found = self.find(key.id);
        match found {
            Some(i) => {
                proof {
                    lemma_entry_facts(self.entries@, i as int);
                }
                self.entries[i].state
            },
            None => {
                let state = ScrollState::new();
                self.entries.push(RegistryEntry { key: key.id, state, registered: false });
                proof {
                    lemma_push_facts(self.entries@, old(self).entries@, key.id);
                }
                state
            },
        }
    }

    /// Stores mutated interaction state back under its key.
    pub fn save_state(&mut self, key: Key, state: ScrollState)
        requires
            old(self).wf(),
            state.wf(),
        ensures
            final(self).wf(),
            final(self).spec_contains(key.id),
            final(self).spec_state(key.id) == state,
            forall|k: u64|
                k != key.id ==> #[trigger] final(self).spec_contains(k) == old(self).spec_contains(
                    k,
                ),
            forall|k: u64|
                k != key.id && old(self).spec_contains(k) ==> #[trigger] final(self).spec_state(k)
                    == old(self).spec_state(k),
    {
        let found = self.find(key.id);
        match found {
            Some(i) => {
                let registered = self.entries[i].registered;
                self.entries[i] = RegistryEntry { key: key.id, state, registered };
                proof {
                    lemma_update_facts(self.entries@, old(self).entries@, i as int, key.id);
                }
            },
            None => {
                self.entries.push(RegistryEntry { key: key.id, state, registered: false });
                proof {
                    lemma_push_facts(self.entries@, old(self).entries@, key.id);
                }
            },
        }
    }

    /// Drops every key that was not registered during the cycle that just
    /// ended, and clears the registration marks for the next cycle.
    pub fn prune(&mut self)
        requires
            old(self).wf(),
        ensures
            final(self).wf(),
            forall|k: u64|
                #[trigger] final(self).spec_contains(k) == (old(self).spec_contains(k) && old(
                    self,
                ).spec_registered(k)),
            forall|k: u64|
                final(self).spec_contains(k) ==> #[trigger] final(self).spec_state(k) == old(
                    self,
                ).spec_state(k) && !final(self).spec_registered(k),
    {
        let ghost orig = self.entries@;
        let mut kept: Vec<RegistryEntry> = Vec::new();
        let mut i: usize = 0;
        proof {
            assert(orig.take(0) =~= Seq::<RegistryEntry>::empty());
        }
        while i < self.entries.len()
            invariant
                self.entries@ == orig,
                i <= orig.len(),
                kept@ == pruned_entries(orig.take(i as int)),
            decreases orig.len() - i,
        {
            let e = self.entries[i];
            proof {
                assert(orig.take(i as int + 1).drop_last() =~= orig.take(i as int));
                assert(orig.take(i as int + 1).last() == orig[i as int]);
            }
            if e.registered {
                kept.push(RegistryEntry { key: e.key, state: e.state, registered: false });
                proof {
                    assert(kept@ == pruned_entries(orig.take(i as int)).push(cleared(e)));
                }
            }
            i = i + 1;
        }
        proof {
            assert(orig.take(orig.len() as int) =~= orig);
            lemma_pruned_entries(orig);
        }
        self.entries = kept;
    }
}

/// After replacing the entry at `i` with one of the same key, lookups of
/// that key see the new entry and every other key is untouched.
proof fn lemma_update_facts(s: Seq<RegistryEntry>, pre: Seq<RegistryEntry>, i: int, key: u64)
    requires
        entries_wf(pre),
        0 <= i < pre.len(),
        pre[i].key == key,
        s == pre.update(
            i,
            RegistryEntry { key, state: s[i].state, registered: s[i].registered },
        ),
        s[i].state.wf(),
    ensures
        entries_wf(s),
        entries_contain(s, key),
        entry_state(s, key) == s[i].state,
        entry_registered(s, key) == s[i].registered,
        entries_contain(pre, key),
        entry_state(pre, key) == pre[i].state,
        entry_registered(pre, key) == pre[i].registered,
        forall|k: u64| k != key ==> #[trigger] entries_contain(s, k) == entries_contain(pre, k),
        forall|k: u64|
            k != key && entries_contain(pre, k) ==> #[trigger] entry_state(s, k) == entry_state(
                pre,
                k,
            ) && entry_registered(s, k) == entry_registered(pre, k),
{
    assert forall|a: int| 0 <= a < s.len() implies (#[trigger] s[a]).key == pre[a].key
        && s[a].state.wf() by {
        if a != i {
            assert(s[a] == pre[a]);
        }
    }
    assert(entries_wf(s));
    lemma_entry_facts(s, i);
    lemma_entry_facts(pre, i);
    assert forall|k: u64| k != key implies #[trigger] entries_contain(s, k) == entries_contain(
        pre,
        k,
    ) by {
        if entries_contain(pre, k) {
            let j = entry_index(pre, k);
            lemma_entry_facts(pre, j);
            assert(s[j].key == k);
        }
        if entries_contain(s, k) {
            let j = entry_index(s, k);
            assert(pre[j].key == k);
        }
    }
    assert forall|k: u64| k != key && entries_contain(pre, k) implies #[trigger] entry_state(s, k)
        == entry_state(pre, k) && entry_registered(s, k) == entry_registered(pre, k) by {
        let j = entry_index(pre, k);
        lemma_entry_facts(pre, j);
        assert(s[j].key == k);
        lemma_entry_facts(s, j);
        assert(j != i);
        assert(s[j] == pre[j]);
    }
}

/// After pushing a fresh entry for a key the store did not hold, lookups
/// of that key see the new entry and every other key is untouched.
proof fn lemma_push_facts(s: Seq<RegistryEntry>, pre: Seq<RegistryEntry>, key: u64)
    requires
        entries_wf(pre),
        !entries_contain(pre, key),
        s == pre.push(s[pre.len() as int]),
        s[pre.len() as int].key == key,
        s[pre.len() as int].state.wf(),
    ensures
        entries_wf(s),
        entries_contain(s, key),
        entry_state(s, key) == s[pre.len() as int].state,
        entry_registered(s, key) == s[pre.len() as int].registered,
        forall|k: u64| k != key ==> #[trigger] entries_contain(s, k) == entries_contain(pre, k),
        forall|k: u64|
            k != key && entries_contain(pre, k) ==> #[trigger] entry_state(s, k) == entry_state(
                pre,
                k,
            ) && entry_registered(s, k) == entry_registered(pre, k),
{
    let n = pre.len() as int;
    assert forall|a: int| 0 <= a < n implies (#[trigger] s[a]) == pre[a] by {}
    assert(entries_wf(s)) by {
        assert forall|a: int, b: int|
            0 <= a < b < s.len() implies (#[trigger] s[a]).key != (#[trigger] s[b]).key by {
            if b == n {
                if s[a].key == key {
                    assert(pre[a].key == key);
                    assert(entries_contain(pre, key));
                }
            }
        }
        assert forall|a: int| 0 <= a < s.len() implies (#[trigger] s[a]).state.wf() by {
            if a < n {
                assert(s[a] == pre[a]);
            }
        }
    }
    lemma_entry_facts(s, n);
    assert forall|k: u64| k != key implies #[trigger] entries_contain(s, k) == entries_contain(
        pre,
        k,
    ) by {
        if entries_contain(pre, k) {
            let j = entry_index(pre, k);
            lemma_entry_facts(pre, j);
            assert(s[j].key == k);
        }
        if entries_contain(s, k) {
            let j = entry_index(s, k);
            assert(j < n);
            assert(pre[j].key == k);
        }
    }
    assert forall|k: u64| k != key && entries_contain(pre, k) implies #[trigger] entry_state(s, k)
        == entry_state(pre, k) && entry_registered(s, k) == entry_registered(pre, k) by {
        let j = entry_index(pre, k);
        lemma_entry_facts(pre, j);
        assert(s[j].key == k);
        lemma_entry_facts(s, j);
    }
}

} // verus!
