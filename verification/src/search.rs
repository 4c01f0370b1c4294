//! First matches in a sequence.
use vstd::prelude::*;

verus! {

/// The position of the first item at or after `from` that `wanted` holds of.
pub open spec fn first_where<T>(items: Seq<T>, wanted: spec_fn(T) -> bool, from: int) -> Option<int>
    decreases items.len() - from,
{
    if from < 0 || from >= items.len() {
        None
    } else if wanted(items[from]) {
        Some(from)
    } else {
        first_where(items, wanted, from + 1)
    }
}

/// Some item satisfies `wanted`.
pub open spec fn any_where<T>(items: Seq<T>, wanted: spec_fn(T) -> bool) -> bool {
    exists|i: int| 0 <= i < items.len() && wanted(#[trigger] items[i])
}

/// A position as the mathematical integer it is.
pub open spec fn position(at: Option<usize>) -> Option<int> {
    match at {
        Some(at) => Some(at as int),
        None => None,
    }
}

/// [`first_where`] gives a match with none before it, and nothing only where
/// nothing matches.
pub proof fn lemma_first_where<T>(items: Seq<T>, wanted: spec_fn(T) -> bool, from: int)
    requires
        0 <= from,
    ensures
        match first_where(items, wanted, from) {
            Some(at) => {
                &&& from <= at < items.len()
                &&& wanted(items[at])
                &&& forall|i: int| from <= i < at ==> !wanted(#[trigger] items[i])
            },
            None => forall|i: int| from <= i < items.len() ==> !wanted(#[trigger] items[i]),
        },
    decreases items.len() - from,
{
    if from < items.len() && !wanted(items[from]) {
        lemma_first_where(items, wanted, from + 1);
    }
}

/// There is a first match exactly where there is a match.
pub proof fn lemma_first_where_any<T>(items: Seq<T>, wanted: spec_fn(T) -> bool)
    ensures
        first_where(items, wanted, 0) is Some <==> any_where(items, wanted),
{
    lemma_first_where(items, wanted, 0);
}

/// Filtering one item more adds it exactly where it is kept.
pub proof fn lemma_filter_step<T>(items: Seq<T>, keep: spec_fn(T) -> bool, index: int)
    requires
        0 <= index < items.len(),
    ensures
        items.take(index + 1).filter(keep) == if keep(items[index]) {
            items.take(index).filter(keep).push(items[index])
        } else {
            items.take(index).filter(keep)
        },
{
    assert(items.take(index + 1) =~= items.take(index).push(items[index]));
    items.take(index).lemma_filter_push(items[index], keep);
}

/// Keeps only the items that `test` accepts, which is those that `keep` holds of.
pub(crate) fn retain_where<T, F: Fn(&T) -> bool>(
    items: &mut Vec<T>,
    Ghost(keep): Ghost<spec_fn(T) -> bool>,
    test: F,
)
    requires
        forall|item: &T| #[trigger] test.requires((item,)),
        forall|item: &T, kept: bool| #[trigger] test.ensures((item,), kept) ==> kept == keep(*item),
    ensures
        final(items)@ == old(items)@.filter(keep),
{
    let ghost before = items@;
    let mut rest: Vec<T> = Vec::new();
    std::mem::swap(&mut rest, items);
    assert(before.take(0).filter(keep) =~= Seq::<T>::empty());
    while rest.len() > 0
        invariant
            forall|item: &T| #[trigger] test.requires((item,)),
            forall|item: &T, kept: bool| #[trigger]
                test.ensures((item,), kept) ==> kept == keep(*item),
            rest@.len() <= before.len(),
            rest@ == before.skip(before.len() - rest@.len()),
            items@ == before.take(before.len() - rest@.len()).filter(keep),
        decreases rest@.len(),
    {
        let ghost done = before.len() - rest@.len();
        let item = rest.remove(0);
        proof {
            lemma_filter_step(before, keep, done);
            assert(rest@ =~= before.skip(done + 1));
        }
        if test(&item) {
            items.push(item);
        }
    }
    assert(before.take(before.len() as int) =~= before);
}

} // verus!
