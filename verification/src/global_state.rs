//! The committed, versioned store and its immutable snapshots.
use vstd::prelude::*;
use crate::error::StorageError;
use crate::key::Key;
use crate::key_map::KeyMap;
use crate::transform::{applied, Transform, TransformView};
use crate::value::{content, Duplicate, Value, ValueView};

verus! {

/// The keys touched by one execution, each with the merged transform for it.
pub type EffectSet = KeyMap<Transform>;

/// The mathematical content of the store at one version.
pub struct StateView {
    pub version: u64,
    pub store: Map<Key, ValueView>,
}

/// Whether every transform of `effects` can be applied to what `store`
/// holds for its key.
pub open spec fn applicable(store: Map<Key, ValueView>, effects: Map<Key, TransformView>) -> bool {
    forall|k: Key| #[trigger] effects.contains_key(k) ==> applied(store.get(k), effects[k]) is Ok
}

/// The store after every transform of `effects` has been applied to it.
/// Keys that `effects` does not name keep what they held.
pub open spec fn store_after(store: Map<Key, ValueView>, effects: Map<Key, TransformView>) -> Map<
    Key,
    ValueView,
> {
    Map::new(
        |k: Key| store.contains_key(k) || effects.contains_key(k),
        |k: Key|
            if effects.contains_key(k) {
                applied(store.get(k), effects[k])->Ok_0
            } else {
                store[k]
            },
    )
}

/// The outcome of committing `effects` to `state`: the next version with
/// every transform applied, or the reason why nothing is applied.
pub open spec fn commit_outcome(state: StateView, effects: Map<Key, TransformView>) -> Result<
    StateView,
    StorageError,
> {
    if state.version == u64::MAX {
        Err(StorageError::VersionExhausted)
    } else if !applicable(state.store, effects) {
        Err(StorageError::TypeMismatch)
    } else {
        Ok(
            StateView {
                version: (state.version + 1) as u64,
                store: store_after(state.store, effects),
            },
        )
    }
}

/// What a snapshot taken of `state` holds: the store and the version as
/// they are at that moment.
pub open spec fn snapshot_of(state: StateView) -> StateView {
    state
}

/// An immutable view of the store as of one version. Later commits do not
/// reach it.
#[derive(Clone, Debug)]
pub struct Snapshot {
    version: u64,
    store: KeyMap<Value>,
}

impl View for Snapshot {
    type V = StateView;

    closed spec fn view(&self) -> StateView {
        StateView { version: self.version, store: self.store@ }
    }
}

impl Snapshot {
    /// A copy with the same content.
    pub fn duplicate(&self) -> (copy: Snapshot)
        ensures
            copy@ == self@,
    {
        Snapshot { version: self.version, store: self.store.duplicate() }
    }

    /// The version that this snapshot was taken of.
    pub fn version(&self) -> (version: u64)
        ensures
            version == self@.version,
    {
        self.version
    }

    /// What the snapshot holds for `key`.
    pub fn get(&self, key: &Key) -> (value: Option<Value>)
        ensures
            content(value) == self@.store.get(*key),
    {
        match self.store.get(key) {
            Some(v) => Some(v.duplicate()),
            None => None,
        }
    }
}

/// The committed store. It changes only by a commit, which applies a whole
/// effect set or nothing, and each commit makes a new version.
#[derive(Clone, Debug)]
pub struct GlobalState {
    version: u64,
    store: KeyMap<Value>,
}

impl View for GlobalState {
    type V = StateView;

    closed spec fn view(&self) -> StateView {
        StateView { version: self.version, store: self.store@ }
    }
}

impl GlobalState {
    /// An empty store at version 0.
    pub fn new() -> (state: GlobalState)
        ensures
            state@ == (StateView { version: 0, store: Map::empty() }),
    {
        GlobalState { version: 0, store: KeyMap::new() }
    }

    /// An empty store that begins at `version`.
    pub fn at_version(version: u64) -> (state: GlobalState)
        ensures
            state@ == (StateView { version, store: Map::empty() }),
    {
        GlobalState { version, store: KeyMap::new() }
    }

    /// The current version.
    pub fn version(&self) -> (version: u64)
        ensures
            version == self@.version,
    {
        self.version
    }

    /// An immutable view of the store as it is now.
    pub fn snapshot(&self) -> (snapshot: Snapshot)
        ensures
            snapshot@ == snapshot_of(self@),
    {
        Snapshot { version: self.version, store: self.store.duplicate() }
    }

    /// Point lookup against a snapshot.
    pub fn read(snapshot: &Snapshot, key: &Key) -> (value: Option<Value>)
        ensures
            content(value) == snapshot@.store.get(*key),
    {
        snapshot.get(key)
    }

    /// Applies every transform of `effects` to the store and makes the next
    /// version of it, or fails and leaves the store as it was.
    pub fn commit(&mut self, effects: &EffectSet) -> (result: Result<u64, StorageError>)
        ensures
            match commit_outcome(old(self)@, effects@) {
                Ok(next) => result == Ok::<u64, StorageError>(next.version) && final(self)@ == next,
                Err(e) => result == Err::<u64, StorageError>(e) && final(self)@ == old(self)@,
            },
    {
        if self.version == u64::MAX {
            return Err(StorageError::VersionExhausted);
        }
        let mut next = self.store.duplicate();
        let ghost base = self.store@;
        let n = effects.len();
        let mut i: usize = 0;
        while i < n
            invariant
                i <= n,
                n == effects.keys().len(),
                effects.keys().no_duplicates(),
                effects@.dom() == effects.keys().to_set(),
                base == self.store@,
                *self == *old(self),
                self.version != u64::MAX,
                forall|k: Key|
                    next@.contains_key(k) <==> base.contains_key(k) || (exists|j: int|
                        0 <= j < i && effects.keys()[j] == k),
                forall|j: int|
                    0 <= j < i ==> applied(
                        base.get(#[trigger] effects.keys()[j]),
                        effects@[effects.keys()[j]],
                    ) == Ok::<ValueView, StorageError>(next@[effects.keys()[j]]),
                forall|k: Key|
                    next@.contains_key(k) && !(exists|j: int| 0 <= j < i && effects.keys()[j] == k)
                        ==> next@[k] == base[k],
            decreases n - i,
        {
            let (key, transform) = effects.entry(i);
            let current = next.get(&key);
            assert(crate::value::view_of(current) == base.get(key)) by {
                if exists|j: int| 0 <= j < i && effects.keys()[j] == key {
                    let j = choose|j: int| 0 <= j < i && effects.keys()[j] == key;
                    assert(effects.keys()[j] == effects.keys()[i as int]);
                }
            }
            match transform.apply(current) {
                Ok(value) => {
                    let ghost before = next@;
                    next.insert(key, value);
                    assert forall|j: int| 0 <= j < i + 1 implies applied(
                        base.get(#[trigger] effects.keys()[j]),
                        effects@[effects.keys()[j]],
                    ) == Ok::<ValueView, StorageError>(next@[effects.keys()[j]]) by {
                        if j < i {
                            assert(effects.keys()[j] != effects.keys()[i as int]);
                        }
                    }
                    assert forall|k: Key|
                        next@.contains_key(k) <==> base.contains_key(k) || (exists|j: int|
                            0 <= j < i + 1 && effects.keys()[j] == k) by {
                        if k == key {
                            assert(effects.keys()[i as int] == k);
                        } else if before.contains_key(k) && !base.contains_key(k) {
                            let j = choose|j: int| 0 <= j < i && effects.keys()[j] == k;
                            assert(0 <= j < i + 1 && effects.keys()[j] == k);
                        }
                    }
                },
                Err(e) => {
                    assert(effects@.contains_key(key));
                    assert(!applicable(base, effects@));
                    return Err(e);
                },
            }
            i += 1;
        }
        proof {
            assert forall|k: Key| #[trigger] effects@.contains_key(k) implies applied(
                base.get(k),
                effects@[k],
            ) is Ok && next@.contains_key(k) && next@[k] == applied(base.get(k), effects@[k])->Ok_0 by {
                assert(effects.keys().to_set().contains(k));
                let j = effects.keys().index_of(k);
                assert(effects.keys()[j] == k);
            }
            assert(next@ =~= store_after(base, effects@));
        }
        self.store = next;
        self.version = self.version + 1;
        Ok(self.version)
    }

    /// Commits a single transform to `key`.
    pub fn apply(&mut self, key: Key, transform: Transform) -> (result: Result<(), StorageError>)
        ensures
            match commit_outcome(old(self)@, Map::empty().insert(key, transform@)) {
                Ok(next) => result == Ok::<(), StorageError>(()) && final(self)@ == next,
                Err(e) => result == Err::<(), StorageError>(e) && final(self)@ == old(self)@,
            },
    {
        let mut effects: EffectSet = KeyMap::new();
        effects.insert(key, transform);
        match self.commit(&effects) {
            Ok(_) => Ok(()),
            Err(e) => Err(e),
        }
    }
}

/// Snapshot isolation: a snapshot taken of `state` holds what `state` held,
/// whatever is committed afterwards, and a commit leaves every key that its
/// effects do not name as it was.
pub proof fn lemma_snapshot_isolation(
    state: StateView,
    effects: Map<Key, TransformView>,
    key: Key,
)
    requires
        commit_outcome(state, effects) is Ok,
    ensures
        snapshot_of(state).store.get(key) == state.store.get(key),
        snapshot_of(state).version == state.version,
        commit_outcome(state, effects)->Ok_0.version == state.version + 1,
        !effects.contains_key(key) ==> commit_outcome(state, effects)->Ok_0.store.get(key)
            == snapshot_of(state).store.get(key),
{
}

/// A commit is all or nothing: either every transform of the effect set is
/// applied, each to what the store held for its key, or the outcome is an
/// error and there is no next version.
pub proof fn lemma_commit_all_or_nothing(state: StateView, effects: Map<Key, TransformView>)
    ensures
        match commit_outcome(state, effects) {
            Ok(next) => forall|k: Key| #[trigger]
                effects.contains_key(k) ==> next.store.contains_key(k) && applied(
                    state.store.get(k),
                    effects[k],
                ) == Ok::<ValueView, StorageError>(next.store[k]),
            Err(_) => state.version == u64::MAX || exists|k: Key| #[trigger]
                effects.contains_key(k) && applied(state.store.get(k), effects[k]) is Err,
        },
{
}

/// Two effect sets that share no key do not disturb one another: if each
/// can be applied to a store, each can still be applied after the other,
/// both orders give the same store, and the store after the first alone
/// differs from the base only at the first set's keys.
pub proof fn lemma_disjoint_commits_commute(
    store: Map<Key, ValueView>,
    first: Map<Key, TransformView>,
    second: Map<Key, TransformView>,
)
    requires
        first.dom().disjoint(second.dom()),
        applicable(store, first),
        applicable(store, second),
    ensures
        applicable(store_after(store, first), second),
        applicable(store_after(store, second), first),
        store_after(store_after(store, first), second) == store_after(
            store_after(store, second),
            first,
        ),
        store_after(store_after(store, first), second) == store_after(
            store,
            first.union_prefer_right(second),
        ),
        forall|k: Key| !first.contains_key(k) ==> store_after(store, first).get(k) == store.get(k),
{
    let a = store_after(store, first);
    let b = store_after(store, second);
    assert forall|k: Key| #[trigger] second.contains_key(k) implies applied(a.get(k), second[k]) is Ok by {
        assert(!first.contains_key(k)) by {
            if first.contains_key(k) {
                assert(first.dom().contains(k) && second.dom().contains(k));
            }
        }
        assert(a.get(k) == store.get(k));
    }
    assert forall|k: Key| #[trigger] first.contains_key(k) implies applied(b.get(k), first[k]) is Ok by {
        assert(!second.contains_key(k)) by {
            if second.contains_key(k) {
                assert(first.dom().contains(k) && second.dom().contains(k));
            }
        }
        assert(b.get(k) == store.get(k));
    }
    let both = first.union_prefer_right(second);
    assert forall|k: Key| !(first.contains_key(k) && second.contains_key(k)) by {
        if first.contains_key(k) && second.contains_key(k) {
            assert(first.dom().contains(k) && second.dom().contains(k));
        }
    }
    assert(store_after(a, second) =~= store_after(store, both));
    assert(store_after(b, first) =~= store_after(store, both));
}

} // verus!
