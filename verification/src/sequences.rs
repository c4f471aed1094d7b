//! Facts about sequences.

use vstd::prelude::*;

verus! {

/// Keeping what a test accepts and mapping it is the same as mapping what can be mapped,
/// where the test says what can.
pub proof fn lemma_mapped_are_kept<A, B>(
    items: Seq<A>,
    mapped: spec_fn(A) -> Option<B>,
    kept: spec_fn(A) -> bool,
)
    requires
        forall|i: int|
            0 <= i < items.len() ==> ((mapped(#[trigger] items[i]) is Some) == kept(items[i])),
    ensures
        items.filter_map(mapped).len() == items.filter(kept).len(),
        forall|i: int|
            0 <= i < items.filter(kept).len() ==> mapped(#[trigger] items.filter(kept)[i]) == Some(
                items.filter_map(mapped)[i],
            ),
    decreases items.len(),
{
    reveal(Seq::filter);
    if items.len() > 0 {
        let rest = items.drop_last();
        assert forall|i: int| 0 <= i < rest.len() implies ((mapped(#[trigger] rest[i]) is Some)
            == kept(rest[i])) by {
            assert(rest[i] == items[i]);
        }
        lemma_mapped_are_kept(rest, mapped, kept);
        assert(items[items.len() - 1] == items.last());
        let before = rest.filter(kept);
        assert(items.filter(kept) == if kept(items.last()) {
            before.push(items.last())
        } else {
            before
        });
        assert forall|i: int| 0 <= i < items.filter(kept).len() implies mapped(
            #[trigger] items.filter(kept)[i],
        ) == Some(items.filter_map(mapped)[i]) by {
            if i < before.len() {
                assert(items.filter(kept)[i] == before[i]);
            }
        }
    }
}

/// What passes a test is kept, somewhere.
pub proof fn lemma_accepted_are_kept<A>(items: Seq<A>, kept: spec_fn(A) -> bool, at: int) -> (place:
    int)
    requires
        0 <= at < items.len(),
        kept(items[at]),
    ensures
        0 <= place < items.filter(kept).len(),
        items.filter(kept)[place] == items[at],
    decreases items.len(),
{
    reveal(Seq::filter);
    let rest = items.drop_last();
    if at == items.len() - 1 {
        rest.filter(kept).len() as int
    } else {
        assert(rest[at] == items[at]);
        lemma_accepted_are_kept(rest, kept, at)
    }
}

/// Where the image of an item stands: behind the images of the items before it.
pub proof fn lemma_mapped_place<A, B>(items: Seq<A>, mapped: spec_fn(A) -> Option<B>, at: int)
    requires
        0 <= at < items.len(),
        mapped(items[at]) is Some,
    ensures
        items.take(at).filter_map(mapped).len() < items.filter_map(mapped).len(),
        mapped(items[at]) == Some(
            items.filter_map(mapped)[items.take(at).filter_map(mapped).len() as int],
        ),
    decreases items.len(),
{
    let rest = items.drop_last();
    if at == items.len() - 1 {
        assert(items.take(at) =~= rest);
    } else {
        assert(rest.take(at) =~= items.take(at));
        lemma_mapped_place(rest, mapped, at);
    }
}

/// Images stand in the order of the items.
pub proof fn lemma_mapped_in_order<A, B>(
    items: Seq<A>,
    mapped: spec_fn(A) -> Option<B>,
    first: int,
    second: int,
)
    requires
        0 <= first < second <= items.len(),
        mapped(items[first]) is Some,
    ensures
        items.take(first).filter_map(mapped).len() < items.take(second).filter_map(mapped).len(),
{
    let upto = items.take(second);
    assert(upto.take(first) =~= items.take(first));
    lemma_mapped_place(upto, mapped, first);
}

/// What a sequence of options says is what is given in it, each once where no two of them are
/// alike.
pub proof fn lemma_given_are_said<A>(slots: Seq<Option<A>>, item: A)
    ensures
        slots.filter_map(|slot: Option<A>| slot).contains(item) <==> slots.contains(Some(item)),
    decreases slots.len(),
{
    let each = |slot: Option<A>| slot;
    let said = slots.filter_map(each);
    if said.contains(item) {
        slots.lemma_filter_map_contains(each, item);
    }
    if slots.contains(Some(item)) {
        let at = choose|at: int| 0 <= at < slots.len() && slots[at] == Some(item);
        lemma_mapped_place(slots, each, at);
        assert(said[slots.take(at).filter_map(each).len() as int] == item);
    }
}

/// Where no two options that are given are alike, nothing is said twice.
pub proof fn lemma_said_once<A>(slots: Seq<Option<A>>)
    requires
        forall|i: int, j: int|
            0 <= i < j < slots.len() && (#[trigger] slots[i]) is Some ==> slots[i]
                != #[trigger] slots[j],
    ensures
        slots.filter_map(|slot: Option<A>| slot).no_duplicates(),
    decreases slots.len(),
{
    let each = |slot: Option<A>| slot;
    if slots.len() > 0 {
        let rest = slots.drop_last();
        lemma_said_once(rest);
        if let Some(last) = slots.last() {
            lemma_given_are_said(rest, last);
            if rest.contains(Some(last)) {
                let i = choose|i: int| 0 <= i < rest.len() && rest[i] == Some(last);
                assert(slots[i] == slots[slots.len() - 1]);
            }
            let before = rest.filter_map(each);
            assert(!before.contains(last));
            assert(slots.filter_map(each) =~= before.push(last));
            assert forall|i: int, j: int| 0 <= i < j < before.len() + 1 implies before.push(last)[i]
                != before.push(last)[j] by {
                if j == before.len() {
                    assert(before.contains(before[i]));
                }
            }
        }
    }
}

} // verus!
