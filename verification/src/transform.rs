//! Deltas to stored values, and the algebra under which they merge.
use vstd::prelude::*;
use crate::error::StorageError;
use crate::value::{
    accumulated, combine, lemma_combine_associative, view_of, Duplicate, Value, ValueView,
};

verus! {

/// How a stored value is to change.
#[derive(Clone, Debug, PartialEq, Eq)]
pub enum Transform {
    /// Replace whatever is there.
    Write(Value),
    /// Accumulate a delta onto what is there.
    Add(u64),
}

/// The mathematical content of a [`Transform`].
pub enum TransformView {
    Write(ValueView),
    Add(u64),
}

impl View for Transform {
    type V = TransformView;

    open spec fn view(&self) -> TransformView {
        match *self {
            Transform::Write(value) => TransformView::Write(value@),
            Transform::Add(delta) => TransformView::Add(delta),
        }
    }
}

/// The transform that stands for `first` followed by `second` on one key.
/// A write supersedes whatever came before it; an addition is folded into
/// the write or the addition before it.
pub open spec fn merged(first: TransformView, second: TransformView) -> Result<
    TransformView,
    StorageError,
> {
    match (first, second) {
        (_, TransformView::Write(v2)) => Ok(TransformView::Write(v2)),
        (TransformView::Write(v1), TransformView::Add(d2)) => match accumulated(v1, d2) {
            Ok(v) => Ok(TransformView::Write(v)),
            Err(e) => Err(e),
        },
        (TransformView::Add(d1), TransformView::Add(d2)) => Ok(TransformView::Add(combine(d1, d2))),
    }
}

/// The transform recorded for a key once `next` has been observed, where
/// `prior` is what was recorded for it before, if anything.
pub open spec fn recorded(prior: Option<TransformView>, next: TransformView) -> Result<
    TransformView,
    StorageError,
> {
    match prior {
        None => Ok(next),
        Some(first) => merged(first, next),
    }
}

/// What a slot holds once `transform` has been applied to it, where
/// `current` is what it held before, if anything. A slot that was never
/// written counts as the accumulator's zero.
pub open spec fn applied(current: Option<ValueView>, transform: TransformView) -> Result<
    ValueView,
    StorageError,
> {
    match transform {
        TransformView::Write(v) => Ok(v),
        TransformView::Add(d) => match current {
            None => Ok(ValueView::Number(d)),
            Some(v) => accumulated(v, d),
        },
    }
}

/// The transform recorded for a key after the transforms of `later` have
/// been observed one after the other, from the left. A merge that fails
/// ends the fold with its error.
pub open spec fn recorded_all(prior: Option<TransformView>, later: Seq<TransformView>) -> Result<
    Option<TransformView>,
    StorageError,
>
    decreases later.len(),
{
    if later.len() == 0 {
        Ok(prior)
    } else {
        match recorded_all(prior, later.drop_last()) {
            Ok(before) => match recorded(before, later.last()) {
                Ok(t) => Ok(Some(t)),
                Err(e) => Err(e),
            },
            Err(e) => Err(e),
        }
    }
}

impl Duplicate for Transform {
    fn duplicate(&self) -> (copy: Transform) {
        match self {
            Transform::Write(value) => Transform::Write(value.duplicate()),
            Transform::Add(delta) => Transform::Add(*delta),
        }
    }
}

impl Transform {
    /// Merges `next` into this transform, which was observed before it on the
    /// same key.
    pub fn merge(&self, next: Transform) -> (result: Result<Transform, StorageError>)
        ensures
            match result {
                Ok(t) => merged(self@, next@) == Ok::<TransformView, StorageError>(t@),
                Err(e) => merged(self@, next@) == Err::<TransformView, StorageError>(e),
            },
    {
        match next {
            Transform::Write(v2) => Ok(Transform::Write(v2)),
            Transform::Add(d2) => match self {
                Transform::Write(v1) => match v1.accumulate(d2) {
                    Ok(v) => Ok(Transform::Write(v)),
                    Err(e) => Err(e),
                },
                Transform::Add(d1) => Ok(Transform::Add((*d1).wrapping_add(d2))),
            },
        }
    }

    /// Applies this transform to what a slot holds.
    pub fn apply(&self, current: Option<&Value>) -> (result: Result<Value, StorageError>)
        ensures
            match result {
                Ok(v) => applied(view_of(current), self@) == Ok::<ValueView, StorageError>(v@),
                Err(e) => applied(view_of(current), self@) == Err::<ValueView, StorageError>(e),
            },
    {
        match self {
            Transform::Write(v) => Ok(v.duplicate()),
            Transform::Add(d) => match current {
                None => Ok(Value::Number(*d)),
                Some(v) => v.accumulate(*d),
            },
        }
    }
}

/// Two additions merge to the same transform in either order.
pub proof fn lemma_add_commutative(a: u64, b: u64)
    ensures
        merged(TransformView::Add(a), TransformView::Add(b)) == merged(
            TransformView::Add(b),
            TransformView::Add(a),
        ),
        merged(TransformView::Add(a), TransformView::Add(b)) is Ok,
{
}

/// Three additions merge to the same transform however they are grouped:
/// the first two and then the third, or the first and then the other two.
pub proof fn lemma_add_associative(a: u64, b: u64, c: u64)
    ensures
        merged(merged(TransformView::Add(a), TransformView::Add(b))->Ok_0, TransformView::Add(c))
            == merged(
            TransformView::Add(a),
            merged(TransformView::Add(b), TransformView::Add(c))->Ok_0,
        ),
        merged(merged(TransformView::Add(a), TransformView::Add(b))->Ok_0, TransformView::Add(c))
            == Ok::<TransformView, StorageError>(TransformView::Add(combine(combine(a, b), c))),
{
    lemma_combine_associative(a, b, c);
}

/// Three additions leave the same value in a slot in every order and
/// grouping in which they are applied.
pub proof fn lemma_add_any_order(current: Option<ValueView>, a: u64, b: u64, c: u64)
    ensures
        applied(current, TransformView::Add(combine(combine(a, b), c))) == applied(
            current,
            TransformView::Add(combine(a, combine(b, c))),
        ),
        applied(current, TransformView::Add(combine(combine(a, b), c))) == applied(
            current,
            TransformView::Add(combine(combine(c, a), b)),
        ),
        applied(current, TransformView::Add(combine(combine(a, b), c))) == applied(
            current,
            TransformView::Add(combine(combine(b, a), c)),
        ),
{
    lemma_combine_associative(a, b, c);
    lemma_combine_associative(c, a, b);
}

/// Merging is associative wherever the merge from the left succeeds: the
/// first two transforms and then the third give what the first and then the
/// other two give.
pub proof fn lemma_merge_associative(a: TransformView, b: TransformView, c: TransformView)
    requires
        merged(a, b) is Ok,
        merged(merged(a, b)->Ok_0, c) is Ok,
    ensures
        merged(b, c) is Ok,
        merged(a, merged(b, c)->Ok_0) == merged(merged(a, b)->Ok_0, c),
{
    match (a, b, c) {
        (TransformView::Write(ValueView::Number(n)), TransformView::Add(x), TransformView::Add(y)) => {
            lemma_combine_associative(n, x, y);
        },
        (TransformView::Add(x), TransformView::Add(y), TransformView::Add(z)) => {
            lemma_combine_associative(x, y, z);
        },
        _ => {},
    }
}

/// Applying a merged transform is applying its two parts one after the
/// other.
pub proof fn lemma_apply_merged(current: Option<ValueView>, first: TransformView, second: TransformView)
    requires
        applied(current, first) is Ok,
        merged(first, second) is Ok,
    ensures
        applied(current, merged(first, second)->Ok_0) == applied(
            Some(applied(current, first)->Ok_0),
            second,
        ),
{
    match (current, first, second) {
        (Some(ValueView::Number(n)), TransformView::Add(x), TransformView::Add(y)) => {
            lemma_combine_associative(n, x, y);
        },
        _ => {},
    }
}

/// A write supersedes everything observed before it: whatever was recorded
/// for the key, once `Write(value)` has been observed the record is exactly
/// `Write(value)`.
pub proof fn lemma_write_supersedes(prior: Option<TransformView>, value: ValueView)
    ensures
        recorded(prior, TransformView::Write(value)) == Ok::<TransformView, StorageError>(
            TransformView::Write(value),
        ),
{
}

/// A sequence of transforms that ends in `Write(value)` records exactly
/// `Write(value)`, provided that the merges before the last one succeed.
pub proof fn lemma_final_write_wins(prior: Option<TransformView>, earlier: Seq<TransformView>, value: ValueView)
    requires
        recorded_all(prior, earlier) is Ok,
    ensures
        recorded_all(prior, earlier.push(TransformView::Write(value))) == Ok::<
            Option<TransformView>,
            StorageError,
        >(Some(TransformView::Write(value))),
{
    let all = earlier.push(TransformView::Write(value));
    assert(all.drop_last() =~= earlier);
    assert(all.last() == TransformView::Write(value));
}

/// A write, then any additions, then `Write(value)`: if the first value is
/// a number the additions all merge, and the record is exactly
/// `Write(value)`.
pub proof fn lemma_write_adds_write(first: u64, deltas: Seq<u64>, value: ValueView)
    ensures
        recorded_all(
            None,
            seq![TransformView::Write(ValueView::Number(first))] + deltas.map_values(
                |d: u64| TransformView::Add(d),
            ) + seq![TransformView::Write(value)],
        ) == Ok::<Option<TransformView>, StorageError>(Some(TransformView::Write(value))),
{
    let adds = deltas.map_values(|d: u64| TransformView::Add(d));
    let head = seq![TransformView::Write(ValueView::Number(first))];
    lemma_write_then_adds(first, deltas);
    assert(head + adds + seq![TransformView::Write(value)] =~= (head + adds).push(
        TransformView::Write(value),
    ));
    lemma_final_write_wins(None, head + adds, value);
}

/// A write of a number followed by additions records a write of a number.
pub proof fn lemma_write_then_adds(first: u64, deltas: Seq<u64>)
    ensures
        recorded_all(
            None,
            seq![TransformView::Write(ValueView::Number(first))] + deltas.map_values(
                |d: u64| TransformView::Add(d),
            ),
        ) matches Ok(Some(TransformView::Write(ValueView::Number(_)))),
    decreases deltas.len(),
{
    let head = seq![TransformView::Write(ValueView::Number(first))];
    let adds = deltas.map_values(|d: u64| TransformView::Add(d));
    if deltas.len() == 0 {
        assert(head + adds =~= head);
        assert(head.drop_last() =~= Seq::<TransformView>::empty());
        assert(recorded_all(None, head.drop_last()) == Ok::<Option<TransformView>, StorageError>(None));
    } else {
        lemma_write_then_adds(first, deltas.drop_last());
        let before = deltas.drop_last().map_values(|d: u64| TransformView::Add(d));
        assert((head + adds).drop_last() =~= head + before);
        assert((head + adds).last() == TransformView::Add(deltas.last()));
    }
}

} // verus!
