use vstd::prelude::*;

verus! {

broadcast use vstd::seq_lib::group_seq_properties;

/// The values held by the `Some` entries of `outs`, in order; `None`
/// entries are skipped.
pub open spec fn somes<U>(outs: Seq<Option<U>>) -> Seq<U>
    decreases outs.len(),
{
    if outs.len() == 0 {
        Seq::empty()
    } else {
        let front = somes(outs.drop_last());
        match outs.last() {
            Some(u) => front.push(u),
            None => front,
        }
    }
}

/// `r` is what applying `f` to each of `items` and keeping the present
/// values gives, for some choice of the outcomes `f` may return.
pub open spec fn is_filter_map_of<T, U, F: Fn(&T) -> Option<U>>(
    f: F,
    items: Seq<T>,
    r: Seq<U>,
) -> bool {
    exists|outs: Seq<Option<U>>|
        {
            &&& outs.len() == items.len()
            &&& forall|i: int| 0 <= i < items.len() ==> f.ensures((&items[i],), #[trigger] outs[i])
            &&& r == somes(outs)
        }
}

/// `f` always returns `g` of its argument.
pub open spec fn computes<T, U, F: Fn(&T) -> Option<U>>(f: F, g: spec_fn(T) -> Option<U>) -> bool {
    forall|x: T, o: Option<U>| f.ensures((&x,), o) ==> o == g(x)
}

proof fn lemma_somes_append<U>(a: Seq<Option<U>>, b: Seq<Option<U>>)
    ensures
        somes(a + b) == somes(a) + somes(b),
    decreases b.len(),
{
    if b.len() == 0 {
        assert(a + b == a);
    } else {
        lemma_somes_append(a, b.drop_last());
        assert((a + b).drop_last() == a + b.drop_last());
    }
}

/// Keeping the present values commutes with concatenation: filtering each
/// part and joining the results gives the filter of the joined parts.
pub proof fn lemma_somes_flatten<U>(parts: Seq<Seq<Option<U>>>)
    ensures
        parts.map_values(|p: Seq<Option<U>>| somes(p)).flatten() == somes(parts.flatten()),
    decreases parts.len(),
{
    if parts.len() == 0 {
        assert(parts.map_values(|p: Seq<Option<U>>| somes(p)).flatten() == Seq::<U>::empty());
    } else {
        let front = parts.drop_last();
        lemma_somes_flatten(front);
        front.lemma_flatten_push(parts.last());
        assert(front.push(parts.last()) == parts);
        let mapped = parts.map_values(|p: Seq<Option<U>>| somes(p));
        mapped.drop_last().lemma_flatten_push(mapped.last());
        assert(mapped.drop_last().push(mapped.last()) == mapped);
        assert(mapped.drop_last() == front.map_values(|p: Seq<Option<U>>| somes(p)));
        lemma_somes_append(front.flatten(), parts.last());
    }
}

/// When `f` always returns `g` of its argument, the filter-map of `items`
/// by `f` is exactly the present values of `g` over `items`, in order.
pub proof fn lemma_filter_map_determined<T, U, F: Fn(&T) -> Option<U>>(
    f: F,
    g: spec_fn(T) -> Option<U>,
    items: Seq<T>,
    r: Seq<U>,
)
    requires
        computes(f, g),
        is_filter_map_of(f, items, r),
    ensures
        r == somes(items.map_values(g)),
{
    let outs = choose|outs: Seq<Option<U>>|
        {
            &&& outs.len() == items.len()
            &&& forall|i: int| 0 <= i < items.len() ==> f.ensures((&items[i],), #[trigger] outs[i])
            &&& r == somes(outs)
        };
    assert forall|i: int| 0 <= i < items.len() implies outs[i] == items.map_values(g)[i] by {
        assert(f.ensures((&items[i],), outs[i]));
    }
    assert(outs == items.map_values(g));
}

/// Mapping every item to itself keeps every item, in order.
pub proof fn lemma_keep_every_item<T>(items: Seq<T>)
    ensures
        somes(items.map_values(|x: T| Some(x))) == items,
    decreases items.len(),
{
    if items.len() > 0 {
        lemma_keep_every_item(items.drop_last());
        assert(items.map_values(|x: T| Some(x)).drop_last() == items.drop_last().map_values(
            |x: T| Some(x),
        ));
        assert(items.drop_last().push(items.last()) == items);
    }
}

/// Mapping every item to `None` keeps nothing.
pub proof fn lemma_keep_no_item<T, U>(items: Seq<T>)
    ensures
        somes(items.map_values(|x: T| None::<U>)) == Seq::<U>::empty(),
    decreases items.len(),
{
    if items.len() > 0 {
        lemma_keep_no_item::<T, U>(items.drop_last());
        assert(items.map_values(|x: T| None::<U>).drop_last() == items.drop_last().map_values(
            |x: T| None::<U>,
        ));
    }
}

/// Applies `f` to every item of `chunk`, in order, and keeps the values it
/// returns, dropping the items for which it returns `None`.
pub fn process_chunk<T, U, F: Fn(&T) -> Option<U>>(chunk: &Vec<T>, f: &F) -> (r: Vec<U>)
    requires
        forall|i: int| 0 <= i < chunk@.len() ==> f.requires((&chunk@[i],)),
    ensures
        is_filter_map_of(*f, chunk@, r@),
{
    let ghost mut outs: Seq<Option<U>> = Seq::empty();
    let mut r: Vec<U> = Vec::new();
    let mut i: usize = 0;
    while i < chunk.len()
        invariant
            0 <= i <= chunk@.len(),
            outs.len() == i,
            forall|j: int| 0 <= j < chunk@.len() ==> f.requires((&chunk@[j],)),
            forall|j: int| 0 <= j < i ==> f.ensures((&chunk@[j],), #[trigger] outs[j]),
            r@ == somes(outs),
        decreases chunk@.len() - i,
    {
        let o = f(&chunk[i]);
        proof {
            assert(outs.push(o).drop_last() == outs);
            outs = outs.push(o);
        }
        match o {
            Some(u) => r.push(u),
            None => {},
        }
        i = i + 1;
    }
    assert(forall|j: int| 0 <= j < chunk@.len() ==> f.ensures((&chunk@[j],), #[trigger] outs[j]));
    r
}

} // verus!
