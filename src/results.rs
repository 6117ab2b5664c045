use vstd::prelude::*;

verus! {

broadcast use vstd::seq_lib::group_seq_properties;

/// Why a chunk's result was not accepted.
#[derive(Clone, Copy, Debug, PartialEq, Eq, Structural)]
pub enum StoreError {
    /// No chunk has this index.
    UnknownChunk,
    /// A result for this chunk was stored already.
    AlreadyStored,
}

/// The contents of a slot: the result stored for a chunk, if any.
pub open spec fn slot_view<U>(slot: Option<Vec<U>>) -> Option<Seq<U>> {
    match slot {
        Some(v) => Some(v@),
        None => None,
    }
}

/// The contents of each slot of `slots`.
pub open spec fn slot_views<U>(slots: Seq<Option<Vec<U>>>) -> Seq<Option<Seq<U>>> {
    slots.map_values(|o: Option<Vec<U>>| slot_view(o))
}

/// Every chunk has its result.
pub open spec fn all_stored<U>(slots: Seq<Option<Seq<U>>>) -> bool {
    forall|i: int| 0 <= i < slots.len() ==> (#[trigger] slots[i]) is Some
}

/// The results of the chunks joined in chunk order.
pub open spec fn merged<U>(slots: Seq<Option<Seq<U>>>) -> Seq<U> {
    slots.map_values(|o: Option<Seq<U>>| o->Some_0).flatten()
}

/// Gathers the results of the chunks of one parallel map, which may arrive
/// in any order, and joins them in chunk order once all have arrived.
pub struct ResultCollector<U> {
    slots: Vec<Option<Vec<U>>>,
}

impl<U> View for ResultCollector<U> {
    type V = Seq<Option<Seq<U>>>;

    closed spec fn view(&self) -> Seq<Option<Seq<U>>> {
        slot_views(self.slots@)
    }
}

impl<U> ResultCollector<U> {
    /// A collector awaiting the results of `chunks` chunks.
    pub fn new(chunks: usize) -> (r: Self)
        ensures
            r@ == Seq::new(chunks as nat, |i: int| None::<Seq<U>>),
    {
        let mut slots: Vec<Option<Vec<U>>> = Vec::new();
        let mut i: usize = 0;
        while i < chunks
            invariant
                0 <= i <= chunks,
                slots@.len() == i,
                forall|j: int| 0 <= j < i ==> (#[trigger] slots@[j]) is None,
            decreases chunks - i,
        {
            slots.push(None);
            i = i + 1;
        }
        let r = ResultCollector { slots };
        assert(r@ == Seq::new(chunks as nat, |i: int| None::<Seq<U>>));
        r
    }

    /// The number of chunks this collector awaits.
    pub fn chunk_count(&self) -> (r: usize)
        ensures
            r == self@.len(),
    {
        self.slots.len()
    }

    /// Records `part` as the result of chunk `index`. Each chunk's result is
    /// accepted once; a second one, or one for a chunk that does not exist,
    /// is refused and leaves the collector as it was.
    pub fn store(&mut self, index: usize, part: Vec<U>) -> (r: Result<(), StoreError>)
        ensures
            r == Ok::<(), StoreError>(()) <==> (index < old(self)@.len() && old(self)@[index as int] is None),
            r == Err::<(), StoreError>(StoreError::UnknownChunk) <==> index >= old(self)@.len(),
            r == Err::<(), StoreError>(StoreError::AlreadyStored) <==> (index < old(self)@.len()
                && old(self)@[index as int] is Some),
            r is Ok ==> final(self)@ == old(self)@.update(index as int, Some(part@)),
            r is Err ==> final(self)@ == old(self)@,
    {
        if index >= self.slots.len() {
            return Err(StoreError::UnknownChunk);
        }
        if self.slots[index].is_some() {
            return Err(StoreError::AlreadyStored);
        }
        self.slots.set(index, Some(part));
        assert(self@ == old(self)@.update(index as int, Some(part@)));
        Ok(())
    }

    /// Whether every chunk's result has arrived.
    pub fn is_complete(&self) -> (r: bool)
        ensures
            r == all_stored(self@),
    {
        let mut i: usize = 0;
        while i < self.slots.len()
            invariant
                0 <= i <= self.slots@.len(),
                forall|j: int| 0 <= j < i ==> (#[trigger] self@[j]) is Some,
            decreases self.slots@.len() - i,
        {
            if self.slots[i].is_none() {
                assert(self@[i as int] is None);
                return false;
            }
            i = i + 1;
        }
        true
    }

    /// The results of all chunks joined in chunk order, or `None` while some
    /// chunk's result has not arrived.
    pub fn finish(self) -> (r: Option<Vec<U>>)
        ensures
            r is Some <==> all_stored(self@),
            r is Some ==> r->Some_0@ == merged(self@),
    {
        if !self.is_complete() {
            return None;
        }
        let total = self.slots.len();
        let ghost all = self@;
        let ghost n = all.len() as int;
        let mut rest = self.slots;
        let mut out: Vec<U> = Vec::new();
        let mut i: usize = 0;
        while rest.len() > 0
            invariant
                0 <= i <= n,
                n == all.len(),
                n == total,
                all_stored(all),
                rest@.len() == n - i,
                slot_views(rest@) == all.subrange(i as int, n),
                out@ == merged(all.subrange(0, i as int)),
            decreases rest@.len(),
        {
            let ghost before = rest@;
            assert(all.subrange(i as int, n)[0] == all[i as int]);
            let slot = rest.remove(0);
            assert(slot_views(before)[0] == all[i as int]);
            assert(rest@ == before.subrange(1, before.len() as int));
            assert forall|j: int| 0 <= j < rest@.len() implies slot_views(rest@)[j] == all.subrange(
                i as int + 1,
                n,
            )[j] by {
                assert(slot_views(before)[j + 1] == all.subrange(i as int, n)[j + 1]);
            }
            assert(slot_views(rest@) =~= all.subrange(i as int + 1, n));
            let ghost pre = all.subrange(0, i as int);
            proof {
                let m = pre.map_values(|o: Option<Seq<U>>| o->Some_0);
                m.lemma_flatten_push(all[i as int]->Some_0);
                assert(m.push(all[i as int]->Some_0) == all.subrange(0, i as int + 1).map_values(
                    |o: Option<Seq<U>>| o->Some_0,
                ));
            }
            match slot {
                Some(mut part) => {
                    out.append(&mut part);
                },
                None => {
                    assert(all[i as int] is Some);
                },
            }
            i = i + 1;
        }
        assert(all.subrange(0, n) == all);
        Some(out)
    }
}

} // verus!
