//! The bookkeeping of fetches: which keys have a fetch under way, and which
//! keys failed at their last fetch.
//!
//! A key is a symbol and the name of a timeframe. Each key has one slot, made
//! when the key is first asked for and never moved, so whoever holds the
//! slot of a key holds the one lock of that key.
use crate::types::same_text;
use vstd::prelude::*;

verus! {

/// The state of one key, as plain mathematics.
pub struct SlotView {
    pub symbol: Seq<char>,
    pub timeframe: Seq<char>,
    /// A fetch for the key is under way.
    pub fetching: bool,
    /// The last fetch for the key timed out or brought too little.
    pub failed: bool,
}

/// Whether a slot is that of the key.
pub open spec fn is_for(slot: SlotView, symbol: Seq<char>, timeframe: Seq<char>) -> bool {
    slot.symbol == symbol && slot.timeframe == timeframe
}

/// Whether the key has a slot.
pub open spec fn has_key(slots: Seq<SlotView>, symbol: Seq<char>, timeframe: Seq<char>) -> bool {
    exists|i: int| 0 <= i < slots.len() && is_for(#[trigger] slots[i], symbol, timeframe)
}

/// The place of the slot of the key.
pub open spec fn key_slot(slots: Seq<SlotView>, symbol: Seq<char>, timeframe: Seq<char>) -> int {
    choose|i: int| 0 <= i < slots.len() && is_for(#[trigger] slots[i], symbol, timeframe)
}

/// No two slots are for the same key.
pub open spec fn distinct_keys(slots: Seq<SlotView>) -> bool {
    forall|i: int, j: int|
        0 <= i < j < slots.len() ==> !is_for(
            #[trigger] slots[i],
            (#[trigger] slots[j]).symbol,
            slots[j].timeframe,
        )
}

/// The slots after the key was asked for: a key that has none gets an idle,
/// unmarked slot at the end.
pub open spec fn with_key(slots: Seq<SlotView>, symbol: Seq<char>, timeframe: Seq<char>) -> Seq<
    SlotView,
> {
    if has_key(slots, symbol, timeframe) {
        slots
    } else {
        slots.push(SlotView { symbol, timeframe, fetching: false, failed: false })
    }
}

/// The slots after the fetch of slot `i` ended: the slot is idle, and
/// marked as `mark` says, or as it was where `mark` says nothing.
pub open spec fn settled(slots: Seq<SlotView>, i: int, mark: Option<bool>) -> Seq<SlotView> {
    slots.update(
        i,
        SlotView {
            fetching: false,
            failed: match mark {
                Some(failed) => failed,
                None => slots[i].failed,
            },
            ..slots[i]
        },
    )
}

/// The slots after the fetch of a key ended, the key being given a slot
/// first if it had none.
pub open spec fn concluded(
    slots: Seq<SlotView>,
    symbol: Seq<char>,
    timeframe: Seq<char>,
    mark: Option<bool>,
) -> Seq<SlotView> {
    let all = with_key(slots, symbol, timeframe);
    settled(all, key_slot(all, symbol, timeframe), mark)
}

/// Whether the key is marked as failed.
pub open spec fn marked_failed(
    slots: Seq<SlotView>,
    symbol: Seq<char>,
    timeframe: Seq<char>,
) -> bool {
    has_key(slots, symbol, timeframe) && slots[key_slot(slots, symbol, timeframe)].failed
}

/// The test that a slot is marked as failed.
pub open spec fn is_marked() -> spec_fn(SlotView) -> bool {
    |slot: SlotView| slot.failed
}

/// The slots that are marked as failed, in their order.
pub open spec fn failed_slots(slots: Seq<SlotView>) -> Seq<SlotView> {
    slots.filter(is_marked())
}

/// The state of one key.
#[derive(Debug)]
pub struct FetchSlot {
    pub symbol: String,
    pub timeframe: String,
    pub fetching: bool,
    pub failed: bool,
}

impl View for FetchSlot {
    type V = SlotView;

    open spec fn view(&self) -> SlotView {
        SlotView {
            symbol: self.symbol@,
            timeframe: self.timeframe@,
            fetching: self.fetching,
            failed: self.failed,
        }
    }
}

/// The slots as plain mathematics.
pub open spec fn slots_view(slots: Seq<FetchSlot>) -> Seq<SlotView> {
    Seq::new(slots.len(), |i: int| slots[i]@)
}

/// The slots of all keys that were ever asked for.
#[derive(Debug)]
pub struct FetchCoordinator {
    slots: Vec<FetchSlot>,
}

impl View for FetchCoordinator {
    type V = Seq<SlotView>;

    closed spec fn view(&self) -> Seq<SlotView> {
        slots_view(self.slots@)
    }
}

/// Slots stay those of distinct keys when one of them changes its state.
pub proof fn lemma_state_change_keeps_keys(before: Seq<SlotView>, after: Seq<SlotView>, i: int)
    requires
        distinct_keys(before),
        0 <= i < before.len(),
        after.len() == before.len(),
        is_for(after[i], before[i].symbol, before[i].timeframe),
        forall|k: int| 0 <= k < before.len() && k != i ==> after[k] == before[k],
    ensures
        distinct_keys(after),
        forall|symbol: Seq<char>, timeframe: Seq<char>| #[trigger]
            has_key(after, symbol, timeframe) == has_key(before, symbol, timeframe),
        forall|symbol: Seq<char>, timeframe: Seq<char>|
            has_key(before, symbol, timeframe) ==> #[trigger] key_slot(after, symbol, timeframe)
                == key_slot(before, symbol, timeframe),
{
    assert forall|a: int, b: int| 0 <= a < b < after.len() implies !is_for(
        #[trigger] after[a],
        (#[trigger] after[b]).symbol,
        after[b].timeframe,
    ) by {
        assert(is_for(after[a], before[a].symbol, before[a].timeframe));
        assert(is_for(after[b], before[b].symbol, before[b].timeframe));
        assert(!is_for(before[a], before[b].symbol, before[b].timeframe));
    }
    assert forall|symbol: Seq<char>, timeframe: Seq<char>| #[trigger]
        has_key(after, symbol, timeframe) == has_key(before, symbol, timeframe) by {
        if has_key(before, symbol, timeframe) {
            let k = key_slot(before, symbol, timeframe);
            assert(is_for(after[k], symbol, timeframe));
        }
        if has_key(after, symbol, timeframe) {
            let k = key_slot(after, symbol, timeframe);
            assert(is_for(before[k], symbol, timeframe));
        }
    }
    assert forall|symbol: Seq<char>, timeframe: Seq<char>|
        has_key(before, symbol, timeframe) implies #[trigger] key_slot(after, symbol, timeframe)
        == key_slot(before, symbol, timeframe) by {
        let k = key_slot(before, symbol, timeframe);
        let m = key_slot(after, symbol, timeframe);
        assert(is_for(after[k], symbol, timeframe));
        assert(is_for(before[m], symbol, timeframe));
        if k < m {
            assert(!is_for(before[k], before[m].symbol, before[m].timeframe));
        } else if m < k {
            assert(!is_for(before[m], before[k].symbol, before[k].timeframe));
        }
    }
}

/// Among slots of distinct keys, the place of a key is the one place where
/// a slot is for it.
pub proof fn lemma_one_place(slots: Seq<SlotView>, i: int)
    requires
        distinct_keys(slots),
        0 <= i < slots.len(),
    ensures
        has_key(slots, slots[i].symbol, slots[i].timeframe),
        key_slot(slots, slots[i].symbol, slots[i].timeframe) == i,
{
    assert(is_for(slots[i], slots[i].symbol, slots[i].timeframe));
    let k = key_slot(slots, slots[i].symbol, slots[i].timeframe);
    if k < i {
        assert(!is_for(slots[k], slots[i].symbol, slots[i].timeframe));
    } else if i < k {
        assert(!is_for(slots[i], slots[k].symbol, slots[k].timeframe));
    }
}

impl FetchCoordinator {
    #[verifier::type_invariant]
    spec fn one_slot_per_key(self) -> bool {
        distinct_keys(self@)
    }

    /// A coordinator that knows no key.
    pub fn new() -> (r: Self)
        ensures
            r@ == Seq::<SlotView>::empty(),
    {
        let r = FetchCoordinator { slots: Vec::new() };
        assert(r@ =~= Seq::<SlotView>::empty());
        r
    }

    /// The number of keys that were asked for so far.
    pub fn len(&self) -> (n: usize)
        ensures
            n == self@.len(),
    {
        self.slots.len()
    }

    /// The place of the slot of a key, if it has one.
    pub fn find(&self, symbol: &str, timeframe: &str) -> (r: Option<usize>)
        ensures
            distinct_keys(self@),
            r is Some == has_key(self@, symbol@, timeframe@),
            r matches Some(i) ==> i < self@.len() && i == key_slot(self@, symbol@, timeframe@)
                && is_for(self@[i as int], symbol@, timeframe@),
    {
        proof {
            use_type_invariant(self);
        }
        let mut i: usize = 0;
        while i < self.slots.len()
            invariant
                i <= self.slots.len(),
                self@.len() == self.slots.len(),
                distinct_keys(self@),
                forall|k: int| 0 <= k < i ==> !is_for(#[trigger] self@[k], symbol@, timeframe@),
            decreases self.slots.len() - i,
        {
            if same_text(self.slots[i].symbol.as_str(), symbol) && same_text(
                self.slots[i].timeframe.as_str(),
                timeframe,
            ) {
                assert(is_for(self@[i as int], symbol@, timeframe@));
                return Some(i);
            }
            i = i + 1;
        }
        None
    }

    /// The slot of a key, which is made first where the key has none. The
    /// same key is always given the same slot, and no other key ever is.
    pub fn acquire(&mut self, symbol: &str, timeframe: &str) -> (slot: usize)
        ensures
            final(self)@ == with_key(old(self)@, symbol@, timeframe@),
            distinct_keys(final(self)@),
            has_key(final(self)@, symbol@, timeframe@),
            slot == key_slot(final(self)@, symbol@, timeframe@),
            slot < final(self)@.len(),
            is_for(final(self)@[slot as int], symbol@, timeframe@),
    {
        match self.find(symbol, timeframe) {
            Some(i) => i,
            None => {
                let ghost before = self@;
                let mut slots: Vec<FetchSlot> = Vec::new();
                core::mem::swap(&mut self.slots, &mut slots);
                slots.push(
                    FetchSlot {
                        symbol: symbol.to_owned(),
                        timeframe: timeframe.to_owned(),
                        fetching: false,
                        failed: false,
                    },
                );
                proof {
                    let after = slots_view(slots@);
                    assert(after =~= before.push(
                        SlotView {
                            symbol: symbol@,
                            timeframe: timeframe@,
                            fetching: false,
                            failed: false,
                        },
                    ));
                    assert forall|a: int, b: int| 0 <= a < b < after.len() implies !is_for(
                        #[trigger] after[a],
                        (#[trigger] after[b]).symbol,
                        after[b].timeframe,
                    ) by {
                        assert(after[a] == before[a]);
                        if b < before.len() {
                            assert(after[b] == before[b]);
                        }
                    }
                }
                core::mem::swap(&mut self.slots, &mut slots);
                proof {
                    lemma_one_place(self@, before.len() as int);
                }
                self.slots.len() - 1
            },
        }
    }

    /// Starts a fetch in a slot. The answer is `true` where the slot was
    /// idle: the caller then has the one fetch of the key. It is `false`
    /// where a fetch is under way already, and the caller has to wait.
    pub fn begin(&mut self, slot: usize) -> (granted: bool)
        requires
            slot < old(self)@.len(),
        ensures
            granted == !old(self)@[slot as int].fetching,
            final(self)@ == old(self)@.update(
                slot as int,
                SlotView { fetching: true, ..old(self)@[slot as int] },
            ),
    {
        let ghost before = self@;
        proof {
            use_type_invariant(&*self);
        }
        let mut slots: Vec<FetchSlot> = Vec::new();
        core::mem::swap(&mut self.slots, &mut slots);
        let granted = !slots[slot].fetching;
        slots[slot].fetching = true;
        proof {
            let after = slots_view(slots@);
            assert(after =~= before.update(
                slot as int,
                SlotView { fetching: true, ..before[slot as int] },
            ));
            lemma_state_change_keeps_keys(before, after, slot as int);
        }
        core::mem::swap(&mut self.slots, &mut slots);
        granted
    }

    /// Ends the fetch of a slot: the slot is idle again, and marked as
    /// failed or not as `mark` says; `None` leaves the mark as it was.
    pub fn settle(&mut self, slot: usize, mark: Option<bool>)
        requires
            slot < old(self)@.len(),
        ensures
            final(self)@ == settled(old(self)@, slot as int, mark),
            distinct_keys(final(self)@),
    {
        let ghost before = self@;
        proof {
            use_type_invariant(&*self);
        }
        let mut slots: Vec<FetchSlot> = Vec::new();
        core::mem::swap(&mut self.slots, &mut slots);
        slots[slot].fetching = false;
        match mark {
            Some(failed) => {
                slots[slot].failed = failed;
            },
            None => {},
        }
        proof {
            let after = slots_view(slots@);
            assert(after =~= settled(before, slot as int, mark));
            lemma_state_change_keeps_keys(before, after, slot as int);
        }
        core::mem::swap(&mut self.slots, &mut slots);
    }

    /// Ends the fetch of a key, which is given a slot first if it had none.
    pub fn conclude(&mut self, symbol: &str, timeframe: &str, mark: Option<bool>)
        ensures
            final(self)@ == concluded(old(self)@, symbol@, timeframe@, mark),
            distinct_keys(final(self)@),
    {
        let slot = self.acquire(symbol, timeframe);
        self.settle(slot, mark);
    }

    /// Whether a fetch is under way in a slot.
    pub fn is_fetching(&self, slot: usize) -> (r: bool)
        requires
            slot < self@.len(),
        ensures
            r == self@[slot as int].fetching,
    {
        self.slots[slot].fetching
    }

    /// The keys whose last fetch failed, each as a symbol and the name of a
    /// timeframe, in the order in which the keys were first asked for.
    pub fn failed_keys(&self) -> (keys: Vec<(String, String)>)
        ensures
            keys@.len() == failed_slots(self@).len(),
            forall|i: int|
                0 <= i < keys@.len() ==> (#[trigger] keys@[i]).0@ == failed_slots(self@)[i].symbol
                    && keys@[i].1@ == failed_slots(self@)[i].timeframe,
    {
        let mut keys: Vec<(String, String)> = Vec::new();
        let mut i: usize = 0;
        while i < self.slots.len()
            invariant
                i <= self.slots.len(),
                self@.len() == self.slots.len(),
                keys@.len() == failed_slots(self@.take(i as int)).len(),
                forall|k: int|
                    0 <= k < keys@.len() ==> (#[trigger] keys@[k]).0@ == failed_slots(
                        self@.take(i as int),
                    )[k].symbol && keys@[k].1@ == failed_slots(self@.take(i as int))[k].timeframe,
            decreases self.slots.len() - i,
        {
            proof {
                broadcast use Seq::lemma_filter_push;

                assert(self@.take(i + 1) == self@.take(i as int).push(self@[i as int]));
            }
            if self.slots[i].failed {
                keys.push((self.slots[i].symbol.clone(), self.slots[i].timeframe.clone()));
            }
            i = i + 1;
        }
        proof {
            assert(self@.take(self@.len() as int) == self@);
        }
        keys
    }

    /// Whether the last fetch of a key failed.
    pub fn is_failed(&self, symbol: &str, timeframe: &str) -> (r: bool)
        ensures
            r == marked_failed(self@, symbol@, timeframe@),
    {
        match self.find(symbol, timeframe) {
            Some(i) => self.slots[i].failed,
            None => false,
        }
    }
}

} // verus!
