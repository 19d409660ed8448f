//! The transactional overlay of one execution.
use vstd::prelude::*;
use crate::access_rights::Operation;
use crate::error::StorageError;
use crate::global_state::{applicable, store_after, EffectSet, Snapshot};
use crate::key::{Key, Reference};
use crate::key_map::KeyMap;
use crate::transform::{
    applied, lemma_apply_merged, recorded, recorded_all, Transform, TransformView,
};
use crate::value::{content, Duplicate, Value, ValueView};

verus! {

/// The mathematical content of a tracking copy.
pub struct TrackingCopyView {
    /// The snapshot that reads fall through to. It never changes.
    pub snapshot: Map<Key, ValueView>,
    /// What the execution has seen or written so far.
    pub cache: Map<Key, ValueView>,
    /// The merged transform of each key written so far.
    pub effects: Map<Key, TransformView>,
}

/// What the execution sees at `key`: the cached value if there is one,
/// else what the snapshot holds.
pub open spec fn visible(tc: TrackingCopyView, key: Key) -> Option<ValueView> {
    if tc.cache.contains_key(key) {
        Some(tc.cache[key])
    } else {
        tc.snapshot.get(key)
    }
}

/// The invariant that ties the cache to the snapshot and the effects: a
/// key with an effect is cached with the value that the effect makes of the
/// snapshot's, and a cached key without one holds the snapshot's value.
pub open spec fn consistent(tc: TrackingCopyView) -> bool {
    &&& forall|k: Key| #[trigger]
        tc.effects.contains_key(k) ==> tc.cache.contains_key(k) && applied(
            tc.snapshot.get(k),
            tc.effects[k],
        ) == Ok::<ValueView, StorageError>(tc.cache[k])
    &&& forall|k: Key| #[trigger]
        tc.cache.contains_key(k) && !tc.effects.contains_key(k) ==> tc.snapshot.get(k) == Some(
            tc.cache[k],
        )
}

/// A read through `handle`: the tracking copy afterwards, and the result.
pub open spec fn read_outcome(tc: TrackingCopyView, handle: Reference) -> (
    TrackingCopyView,
    Result<Option<ValueView>, StorageError>,
) {
    if !handle.access_rights.permits(Operation::Read) {
        (tc, Err(StorageError::PermissionDenied))
    } else if tc.cache.contains_key(handle.key) || !tc.snapshot.contains_key(handle.key) {
        (tc, Ok(visible(tc, handle.key)))
    } else {
        (
            TrackingCopyView { cache: tc.cache.insert(handle.key, tc.snapshot[handle.key]), ..tc },
            Ok(Some(tc.snapshot[handle.key])),
        )
    }
}

/// A write of `value` through `handle`: the tracking copy afterwards, and
/// the result.
pub open spec fn write_outcome(tc: TrackingCopyView, handle: Reference, value: ValueView) -> (
    TrackingCopyView,
    Result<(), StorageError>,
) {
    if !handle.access_rights.permits(Operation::Write) {
        (tc, Err(StorageError::PermissionDenied))
    } else {
        (
            TrackingCopyView {
                cache: tc.cache.insert(handle.key, value),
                effects: tc.effects.insert(handle.key, TransformView::Write(value)),
                ..tc
            },
            Ok(()),
        )
    }
}

/// An accumulation of `delta` through `handle`: the tracking copy
/// afterwards, and the result.
pub open spec fn add_outcome(tc: TrackingCopyView, handle: Reference, delta: u64) -> (
    TrackingCopyView,
    Result<(), StorageError>,
) {
    if !handle.access_rights.permits(Operation::Add) {
        (tc, Err(StorageError::PermissionDenied))
    } else {
        match (
            applied(visible(tc, handle.key), TransformView::Add(delta)),
            recorded(tc.effects.get(handle.key), TransformView::Add(delta)),
        ) {
            (Ok(sum), Ok(transform)) => (
                TrackingCopyView {
                    cache: tc.cache.insert(handle.key, sum),
                    effects: tc.effects.insert(handle.key, transform),
                    ..tc
                },
                Ok(()),
            ),
            _ => (tc, Err(StorageError::TypeMismatch)),
        }
    }
}

/// A write or an accumulation through `handle`, as the transform says: the
/// tracking copy afterwards, and the result.
pub open spec fn performed(tc: TrackingCopyView, handle: Reference, transform: TransformView) -> (
    TrackingCopyView,
    Result<(), StorageError>,
) {
    match transform {
        TransformView::Write(value) => write_outcome(tc, handle, value),
        TransformView::Add(delta) => add_outcome(tc, handle, delta),
    }
}

/// The tracking copy after the operations of `transforms` have been made
/// through `handle` one after the other, from the left.
pub open spec fn performed_all(
    tc: TrackingCopyView,
    handle: Reference,
    transforms: Seq<TransformView>,
) -> TrackingCopyView
    decreases transforms.len(),
{
    if transforms.len() == 0 {
        tc
    } else {
        performed(performed_all(tc, handle, transforms.drop_last()), handle, transforms.last()).0
    }
}

/// Whether each of those operations succeeds.
pub open spec fn all_succeed(
    tc: TrackingCopyView,
    handle: Reference,
    transforms: Seq<TransformView>,
) -> bool
    decreases transforms.len(),
{
    transforms.len() == 0 || (all_succeed(tc, handle, transforms.drop_last()) && performed(
        performed_all(tc, handle, transforms.drop_last()),
        handle,
        transforms.last(),
    ).1 is Ok)
}

/// The overlay that one execution reads and writes through. It buffers the
/// writes as transforms and never touches the snapshot under it.
#[derive(Debug)]
pub struct TrackingCopy {
    snapshot: Snapshot,
    buffer: Buffer,
}

/// What an execution has buffered: the values it has seen or written, and
/// the transforms of its writes.
#[derive(Debug)]
struct Buffer {
    cache: KeyMap<Value>,
    effects: KeyMap<Transform>,
}

impl Buffer {
    fn new() -> (buffer: Buffer)
        ensures
            buffer.cache@ == Map::<Key, ValueView>::empty(),
            buffer.effects@ == Map::<Key, TransformView>::empty(),
    {
        Buffer { cache: KeyMap::new(), effects: KeyMap::new() }
    }
}

impl View for TrackingCopy {
    type V = TrackingCopyView;

    closed spec fn view(&self) -> TrackingCopyView {
        TrackingCopyView {
            snapshot: self.snapshot@.store,
            cache: self.buffer.cache@,
            effects: self.buffer.effects@,
        }
    }
}

impl Clone for TrackingCopy {
    fn clone(&self) -> (copy: TrackingCopy)
        ensures
            copy@ == self@,
    {
        proof {
            use_type_invariant(self);
        }
        TrackingCopy {
            snapshot: self.snapshot.duplicate(),
            buffer: Buffer {
                cache: self.buffer.cache.duplicate(),
                effects: self.buffer.effects.duplicate(),
            },
        }
    }
}

impl TrackingCopy {
    /// The invariant of the representation: the cache, the snapshot and
    /// the effects are consistent with one another.
    #[verifier::type_invariant]
    spec fn wf(&self) -> bool {
        consistent(self@)
    }

    /// A fresh overlay of `snapshot`: nothing cached, nothing written.
    pub fn new(snapshot: Snapshot) -> (tc: TrackingCopy)
        ensures
            consistent(tc@),
            tc@ == (TrackingCopyView {
                snapshot: snapshot@.store,
                cache: Map::empty(),
                effects: Map::empty(),
            }),
    {
        TrackingCopy { snapshot, buffer: Buffer::new() }
    }

    /// Reads through `handle`, which must be readable. A value written
    /// earlier in this execution is returned as written; otherwise the
    /// snapshot's value is fetched, cached and returned. `None` stands for a
    /// key that was never written.
    pub fn read(&mut self, handle: &Reference) -> (result: Result<Option<Value>, StorageError>)
        ensures
            consistent(final(self)@),
            final(self)@ == read_outcome(old(self)@, *handle).0,
            match result {
                Ok(value) => read_outcome(old(self)@, *handle).1 == Ok::<
                    Option<ValueView>,
                    StorageError,
                >(content(value)),
                Err(e) => read_outcome(old(self)@, *handle).1 == Err::<
                    Option<ValueView>,
                    StorageError,
                >(e),
            },
    {
        proof {
            use_type_invariant(&*self);
        }
        if let Err(e) = handle.check(Operation::Read) {
            return Err(e);
        }
        if let Some(cached) = self.buffer.cache.get(&handle.key) {
            return Ok(Some(cached.duplicate()));
        }
        match self.snapshot.get(&handle.key) {
            Some(value) => {
                let mut buffer = Buffer::new();
                std::mem::swap(&mut buffer, &mut self.buffer);
                buffer.cache.insert(handle.key, value.duplicate());
                self.buffer = buffer;
                Ok(Some(value))
            },
            None => Ok(None),
        }
    }

    /// Writes `value` through `handle`, which must be writeable. The value
    /// is cached, and the transform recorded for the key becomes a write of
    /// it, whatever was recorded before.
    pub fn write(&mut self, handle: &Reference, value: Value) -> (result: Result<(), StorageError>)
        ensures
            consistent(final(self)@),
            final(self)@ == write_outcome(old(self)@, *handle, value@).0,
            result == write_outcome(old(self)@, *handle, value@).1,
    {
        proof {
            use_type_invariant(&*self);
        }
        if let Err(e) = handle.check(Operation::Write) {
            return Err(e);
        }
        let mut buffer = Buffer::new();
        std::mem::swap(&mut buffer, &mut self.buffer);
        buffer.cache.insert(handle.key, value.duplicate());
        buffer.effects.insert(handle.key, Transform::Write(value));
        self.buffer = buffer;
        Ok(())
    }

    /// Accumulates `delta` through `handle`, which must be addable. Fails
    /// with a type mismatch if the value seen at the key is no accumulator.
    /// Otherwise the sum is cached and the addition is merged into the
    /// transform recorded for the key.
    pub fn add(&mut self, handle: &Reference, delta: u64) -> (result: Result<(), StorageError>)
        ensures
            consistent(final(self)@),
            final(self)@ == add_outcome(old(self)@, *handle, delta).0,
            result == add_outcome(old(self)@, *handle, delta).1,
    {
        proof {
            use_type_invariant(&*self);
        }
        if let Err(e) = handle.check(Operation::Add) {
            return Err(e);
        }
        let addition = Transform::Add(delta);
        let summed = match self.buffer.cache.get(&handle.key) {
            Some(cached) => addition.apply(Some(cached)),
            None => {
                let fetched = self.snapshot.get(&handle.key);
                addition.apply(fetched.as_ref())
            },
        };
        let sum = match summed {
            Ok(sum) => sum,
            Err(_) => {
                return Err(StorageError::TypeMismatch);
            },
        };
        let merged = match self.buffer.effects.get(&handle.key) {
            Some(prior) => prior.merge(addition),
            None => Ok(addition),
        };
        let transform = match merged {
            Ok(transform) => transform,
            Err(_) => {
                return Err(StorageError::TypeMismatch);
            },
        };
        proof {
            let tc = self@;
            if tc.effects.contains_key(handle.key) {
                lemma_apply_merged(
                    tc.snapshot.get(handle.key),
                    tc.effects[handle.key],
                    TransformView::Add(delta),
                );
            }
        }
        let mut buffer = Buffer::new();
        std::mem::swap(&mut buffer, &mut self.buffer);
        buffer.cache.insert(handle.key, sum);
        buffer.effects.insert(handle.key, transform);
        self.buffer = buffer;
        Ok(())
    }

    /// The effects accumulated so far: one merged transform for each key
    /// written, as of this call.
    pub fn effects(&self) -> (effects: EffectSet)
        ensures
            consistent(self@),
            effects@ == self@.effects,
    {
        proof {
            use_type_invariant(&*self);
        }
        self.buffer.effects.duplicate()
    }
}

/// An operation through a handle that lacks the right for it is refused,
/// and leaves the tracking copy, its buffered effects among the rest, as it
/// was.
pub proof fn lemma_denied_changes_nothing(
    tc: TrackingCopyView,
    handle: Reference,
    op: Operation,
    value: ValueView,
    delta: u64,
)
    requires
        !handle.access_rights.permits(op),
    ensures
        op == Operation::Read ==> read_outcome(tc, handle) == (
            tc,
            Err::<Option<ValueView>, StorageError>(StorageError::PermissionDenied),
        ),
        op == Operation::Write ==> write_outcome(tc, handle, value) == (
            tc,
            Err::<(), StorageError>(StorageError::PermissionDenied),
        ),
        op == Operation::Add ==> add_outcome(tc, handle, delta) == (
            tc,
            Err::<(), StorageError>(StorageError::PermissionDenied),
        ),
{
}

/// Whatever an operation does, the snapshot under the tracking copy stays
/// as it was, and an operation that fails changes nothing at all.
pub proof fn lemma_snapshot_untouched(
    tc: TrackingCopyView,
    handle: Reference,
    value: ValueView,
    delta: u64,
)
    ensures
        read_outcome(tc, handle).0.snapshot == tc.snapshot,
        write_outcome(tc, handle, value).0.snapshot == tc.snapshot,
        add_outcome(tc, handle, delta).0.snapshot == tc.snapshot,
        read_outcome(tc, handle).0.effects == tc.effects,
        read_outcome(tc, handle).1 is Err ==> read_outcome(tc, handle).0 == tc,
        write_outcome(tc, handle, value).1 is Err ==> write_outcome(tc, handle, value).0 == tc,
        add_outcome(tc, handle, delta).1 is Err ==> add_outcome(tc, handle, delta).0 == tc,
{
}

/// Read-your-writes: after a write of `value` through a writeable handle, a
/// read of the same key through a readable handle returns `value`, while the
/// snapshot still holds what it held.
pub proof fn lemma_read_your_writes(
    tc: TrackingCopyView,
    writer: Reference,
    reader: Reference,
    value: ValueView,
)
    requires
        writer.access_rights.permits(Operation::Write),
        reader.access_rights.permits(Operation::Read),
        reader.key == writer.key,
    ensures
        write_outcome(tc, writer, value).1 is Ok,
        read_outcome(write_outcome(tc, writer, value).0, reader).1 == Ok::<
            Option<ValueView>,
            StorageError,
        >(Some(value)),
        read_outcome(write_outcome(tc, writer, value).0, reader).0.snapshot == tc.snapshot,
{
}

/// After an accumulation that succeeded, a read of the same key returns the
/// sum of the delta and what was seen there before, with a key never
/// written counting as zero.
pub proof fn lemma_read_your_adds(
    tc: TrackingCopyView,
    adder: Reference,
    reader: Reference,
    delta: u64,
)
    requires
        adder.access_rights.permits(Operation::Add),
        reader.access_rights.permits(Operation::Read),
        reader.key == adder.key,
        add_outcome(tc, adder, delta).1 is Ok,
    ensures
        read_outcome(add_outcome(tc, adder, delta).0, reader).1 == Ok::<
            Option<ValueView>,
            StorageError,
        >(Some(applied(visible(tc, adder.key), TransformView::Add(delta))->Ok_0)),
{
}

/// Every operation keeps the cache, the snapshot and the effects
/// consistent with one another.
pub proof fn lemma_operations_keep_consistency(
    tc: TrackingCopyView,
    handle: Reference,
    value: ValueView,
    delta: u64,
)
    requires
        consistent(tc),
    ensures
        consistent(read_outcome(tc, handle).0),
        consistent(write_outcome(tc, handle, value).0),
        consistent(add_outcome(tc, handle, delta).0),
{
    let after = add_outcome(tc, handle, delta).0;
    if after != tc {
        if tc.effects.contains_key(handle.key) {
            lemma_apply_merged(
                tc.snapshot.get(handle.key),
                tc.effects[handle.key],
                TransformView::Add(delta),
            );
        }
    }
}

/// Under the invariant an accumulation fails only where the value seen at
/// the key is no accumulator: merging into the recorded transform cannot
/// fail on its own.
pub proof fn lemma_add_fails_only_on_mismatch(tc: TrackingCopyView, handle: Reference, delta: u64)
    requires
        consistent(tc),
        handle.access_rights.permits(Operation::Add),
    ensures
        add_outcome(tc, handle, delta).1 is Ok <==> applied(
            visible(tc, handle.key),
            TransformView::Add(delta),
        ) is Ok,
{
}

/// The effects of an execution reproduce what it saw: they can all be
/// applied to the snapshot it ran against, and doing so leaves at each key
/// written exactly the value that the execution last saw there.
pub proof fn lemma_effects_reproduce_cache(tc: TrackingCopyView)
    requires
        consistent(tc),
    ensures
        applicable(tc.snapshot, tc.effects),
        forall|k: Key| #[trigger]
            tc.effects.contains_key(k) ==> store_after(tc.snapshot, tc.effects)[k] == tc.cache[k],
        forall|k: Key|
            !tc.effects.contains_key(k) ==> store_after(tc.snapshot, tc.effects).get(k)
                == tc.snapshot.get(k),
{
}

/// The transform recorded for a key after a sequence of writes and
/// accumulations to it is the merge of the sequence, taken from the left
/// onto what was recorded before.
pub proof fn lemma_effects_merge_left_to_right(
    tc: TrackingCopyView,
    handle: Reference,
    transforms: Seq<TransformView>,
)
    requires
        all_succeed(tc, handle, transforms),
    ensures
        recorded_all(tc.effects.get(handle.key), transforms) == Ok::<
            Option<TransformView>,
            StorageError,
        >(performed_all(tc, handle, transforms).effects.get(handle.key)),
    decreases transforms.len(),
{
    if transforms.len() > 0 {
        lemma_effects_merge_left_to_right(tc, handle, transforms.drop_last());
    }
}

/// A write through a writeable handle leaves exactly that write as the
/// transform recorded for the key, whatever was written or accumulated
/// there before.
pub proof fn lemma_last_write_wins(
    tc: TrackingCopyView,
    handle: Reference,
    earlier: Seq<TransformView>,
    value: ValueView,
)
    requires
        handle.access_rights.permits(Operation::Write),
    ensures
        performed_all(tc, handle, earlier.push(TransformView::Write(value))).effects.get(handle.key)
            == Some(TransformView::Write(value)),
{
    let all = earlier.push(TransformView::Write(value));
    assert(all.drop_last() =~= earlier);
    assert(all.last() == TransformView::Write(value));
}

} // verus!
