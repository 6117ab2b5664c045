use vstd::prelude::*;

use crate::filter_map::{
    computes,
    is_filter_map_of,
    lemma_filter_map_determined,
    lemma_keep_every_item,
    lemma_keep_no_item,
    lemma_somes_flatten,
    somes,
};
use crate::partition::{lemma_partition_reassembles, partition_spec};
use crate::results::{all_stored, merged};

verus! {

broadcast use vstd::seq_lib::group_seq_properties;

proof fn lemma_map_flatten<T, U>(parts: Seq<Seq<T>>, g: spec_fn(T) -> Option<U>)
    ensures
        parts.map_values(|c: Seq<T>| c.map_values(g)).flatten() == parts.flatten().map_values(g),
    decreases parts.len(),
{
    if parts.len() == 0 {
        assert(parts.map_values(|c: Seq<T>| c.map_values(g)).flatten() == Seq::<Option<U>>::empty());
    } else {
        let front = parts.drop_last();
        lemma_map_flatten(front, g);
        front.lemma_flatten_push(parts.last());
        assert(front.push(parts.last()) == parts);
        let mapped = parts.map_values(|c: Seq<T>| c.map_values(g));
        mapped.drop_last().lemma_flatten_push(mapped.last());
        assert(mapped.drop_last().push(mapped.last()) == mapped);
        assert(mapped.drop_last() == front.map_values(|c: Seq<T>| c.map_values(g)));
        assert((front.flatten() + parts.last()).map_values(g) == front.flatten().map_values(g)
            + parts.last().map_values(g));
    }
}

/// Each chunk of `items`, split `p` ways, has its result in `slots`, and
/// that result is the filter-map of the chunk by `f`.
pub open spec fn chunk_results_of<T, U, F: Fn(&T) -> Option<U>>(
    f: F,
    items: Seq<T>,
    p: int,
    slots: Seq<Option<Seq<U>>>,
) -> bool {
    &&& slots.len() == partition_spec(items, p).len()
    &&& all_stored(slots)
    &&& forall|k: int|
        0 <= k < slots.len() ==> is_filter_map_of(
            f,
            partition_spec(items, p)[k],
            (#[trigger] slots[k])->Some_0,
        )
}

/// However the chunks were spread over the workers and in whatever order
/// they finished, joining their results in chunk order gives the present
/// values of `f` over the whole input, in input order.
pub proof fn lemma_merged_in_input_order<T, U, F: Fn(&T) -> Option<U>>(
    f: F,
    g: spec_fn(T) -> Option<U>,
    items: Seq<T>,
    p: int,
    slots: Seq<Option<Seq<U>>>,
)
    requires
        1 <= p,
        computes(f, g),
        chunk_results_of(f, items, p, slots),
    ensures
        merged(slots) == somes(items.map_values(g)),
{
    let chunks = partition_spec(items, p);
    let parts = chunks.map_values(|c: Seq<T>| c.map_values(g));
    let results = slots.map_values(|o: Option<Seq<U>>| o->Some_0);
    assert forall|k: int| 0 <= k < slots.len() implies results[k] == parts.map_values(
        |c: Seq<Option<U>>| somes(c),
    )[k] by {
        assert(is_filter_map_of(f, chunks[k], slots[k]->Some_0));
        lemma_filter_map_determined(f, g, chunks[k], slots[k]->Some_0);
    }
    assert(results =~= parts.map_values(|c: Seq<Option<U>>| somes(c)));
    lemma_somes_flatten(parts);
    lemma_map_flatten(chunks, g);
    lemma_partition_reassembles(items, p);
}

/// A parallel map whose function keeps every item unchanged returns the
/// input unchanged, in order.
pub proof fn lemma_identity_map<T, F: Fn(&T) -> Option<T>>(
    f: F,
    items: Seq<T>,
    p: int,
    slots: Seq<Option<Seq<T>>>,
)
    requires
        1 <= p,
        computes(f, |x: T| Some(x)),
        chunk_results_of(f, items, p, slots),
    ensures
        merged(slots) == items,
{
    lemma_merged_in_input_order(f, |x: T| Some(x), items, p, slots);
    lemma_keep_every_item(items);
}

/// A parallel map whose function drops every item returns nothing.
pub proof fn lemma_drop_all_map<T, U, F: Fn(&T) -> Option<U>>(
    f: F,
    items: Seq<T>,
    p: int,
    slots: Seq<Option<Seq<U>>>,
)
    requires
        1 <= p,
        computes(f, |x: T| None::<U>),
        chunk_results_of(f, items, p, slots),
    ensures
        merged(slots) == Seq::<U>::empty(),
{
    lemma_merged_in_input_order(f, |x: T| None::<U>, items, p, slots);
    lemma_keep_no_item::<T, U>(items);
}

/// An empty input is split into no chunks at all, so no task is needed, and
/// a collector of no chunks is complete at once with an empty result.
pub proof fn lemma_empty_input<T, U>(p: int)
    requires
        1 <= p,
    ensures
        partition_spec(Seq::<T>::empty(), p).len() == 0,
        all_stored(Seq::<Option<Seq<U>>>::empty()),
        merged(Seq::<Option<Seq<U>>>::empty()) == Seq::<U>::empty(),
{
    assert(Seq::<Option<Seq<U>>>::empty().map_values(|o: Option<Seq<U>>| o->Some_0)
        =~= Seq::<Seq<U>>::empty());
}

} // verus!
