use vstd::prelude::*;

verus! {

/// Number of dirty regions that can be pending at once.
pub const CAPACITY: usize = 10;

/// An axis-aligned rectangle in logical display coordinates, before any
/// panel offset is applied.
#[derive(Clone, Copy, Debug, PartialEq, Eq, Structural)]
pub struct Region {
    pub x: u16,
    pub y: u16,
    pub width: u32,
    pub height: u32,
}

impl Default for Region {
    /// The zero rectangle.
    fn default() -> (region: Region)
        ensures
            region == (Region { x: 0, y: 0, width: 0, height: 0 }),
    {
        Region { x: 0, y: 0, width: 0, height: 0 }
    }
}

impl Region {
    /// A region covers at least one pixel.
    pub open spec fn spec_is_nonempty(self) -> bool {
        self.width > 0 && self.height > 0
    }

    /// Tells whether the region covers at least one pixel.
    #[verifier::when_used_as_spec(spec_is_nonempty)]
    pub fn is_nonempty(self) -> (b: bool)
        ensures
            b == self.spec_is_nonempty(),
    {
        self.width > 0 && self.height > 0
    }
}

/// Why a region was not stored.
#[derive(Clone, Copy, Debug, PartialEq, Eq, Structural)]
pub enum StoreError {
    /// Every slot is occupied. The region was dropped; flush or clear the
    /// tracker and store it again.
    CapacityError,
    /// The region has no width or no height. Such a region is never stored.
    EmptyRegion,
}

/// The slots of a tracker with nothing pending.
pub open spec fn empty_slots() -> Seq<Option<Region>> {
    Seq::new(CAPACITY as nat, |i: int| None::<Region>)
}

/// Every slot of the tracker holds a region.
pub open spec fn is_full(slots: Seq<Option<Region>>) -> bool {
    forall|i: int| 0 <= i < slots.len() ==> (#[trigger] slots[i]) is Some
}

/// Index of the first empty slot; the number of slots if there is none.
pub open spec fn first_free(slots: Seq<Option<Region>>) -> int
    decreases slots.len(),
{
    if slots.len() == 0 {
        0
    } else if slots[0] is None {
        0
    } else {
        1 + first_free(slots.drop_first())
    }
}

/// The slots after `region` was offered to the tracker: it takes the first
/// empty slot, if it covers a pixel and a slot is empty; otherwise nothing
/// changes.
pub open spec fn stored(slots: Seq<Option<Region>>, region: Region) -> Seq<Option<Region>> {
    if region.spec_is_nonempty() && !is_full(slots) {
        slots.update(first_free(slots), Some(region))
    } else {
        slots
    }
}

/// The slots after the regions of `regions` were offered one after another,
/// first to last.
pub open spec fn stored_all(slots: Seq<Option<Region>>, regions: Seq<Region>) -> Seq<
    Option<Region>,
>
    decreases regions.len(),
{
    if regions.len() == 0 {
        slots
    } else {
        stored(stored_all(slots, regions.drop_last()), regions.last())
    }
}

/// Every stored region covers at least one pixel.
pub open spec fn all_nonempty(slots: Seq<Option<Region>>) -> bool {
    forall|i: int|
        0 <= i < slots.len() ==> ((#[trigger] slots[i]) matches Some(region)
            ==> region.spec_is_nonempty())
}

/// `first_free` is the least index of an empty slot, and lies past the end
/// exactly when the tracker is full.
pub proof fn lemma_first_free(slots: Seq<Option<Region>>)
    ensures
        0 <= first_free(slots) <= slots.len(),
        forall|i: int| 0 <= i < first_free(slots) ==> (#[trigger] slots[i]) is Some,
        first_free(slots) < slots.len() ==> slots[first_free(slots)] is None,
        first_free(slots) == slots.len() <==> is_full(slots),
    decreases slots.len(),
{
    if slots.len() == 0 {
    } else if slots[0] is None {
    } else {
        let rest = slots.drop_first();
        lemma_first_free(rest);
        assert forall|i: int| 0 <= i < first_free(slots) implies (#[trigger] slots[i]) is Some by {
            if i > 0 {
                assert(rest[i - 1] is Some);
            }
        }
        if first_free(slots) < slots.len() {
            assert(rest[first_free(rest)] is None);
        }
        if is_full(slots) {
            assert forall|i: int| 0 <= i < rest.len() implies (#[trigger] rest[i]) is Some by {
                assert(slots[i + 1] is Some);
            }
        }
        if first_free(slots) == slots.len() {
            assert forall|i: int| 0 <= i < slots.len() implies (#[trigger] slots[i]) is Some by {
                if i > 0 {
                    assert(rest[i - 1] is Some);
                }
            }
        }
    }
}

/// Offering fewer regions than there are slots to an empty tracker stores
/// them in the first slots, in the order in which they came.
pub proof fn lemma_fill_in_order(regions: Seq<Region>)
    requires
        regions.len() <= CAPACITY,
        forall|i: int| 0 <= i < regions.len() ==> (#[trigger] regions[i]).spec_is_nonempty(),
    ensures
        stored_all(empty_slots(), regions) == Seq::new(
            CAPACITY as nat,
            |i: int|
                if i < regions.len() {
                    Some(regions[i])
                } else {
                    None
                },
        ),
    decreases regions.len(),
{
    let target = Seq::new(
        CAPACITY as nat,
        |i: int|
            if i < regions.len() {
                Some(regions[i])
            } else {
                None
            },
    );
    if regions.len() == 0 {
        assert(stored_all(empty_slots(), regions) =~= target);
    } else {
        let before = regions.drop_last();
        lemma_fill_in_order(before);
        let slots = stored_all(empty_slots(), before);
        lemma_first_free(slots);
        let n = before.len() as int;
        assert(slots[n] is None);
        assert(!is_full(slots));
        assert(first_free(slots) == n) by {
            if first_free(slots) < n {
                assert(slots[first_free(slots)] is Some);
            }
            if first_free(slots) > n {
                assert(slots[n] is Some);
            }
        }
        assert(regions.last().spec_is_nonempty());
        assert(stored(slots, regions.last()) =~= target);
    }
}

/// The tracker holds ten regions and no more: ten regions that each cover a
/// pixel, offered to an empty tracker, are all stored, in order; whatever is
/// offered next is refused and leaves the ten as they are.
pub proof fn lemma_capacity(regions: Seq<Region>, extra: Region)
    requires
        regions.len() == CAPACITY,
        forall|i: int| 0 <= i < regions.len() ==> (#[trigger] regions[i]).spec_is_nonempty(),
    ensures
        stored_all(empty_slots(), regions) == regions.map_values(|r: Region| Some(r)),
        is_full(stored_all(empty_slots(), regions)),
        stored(stored_all(empty_slots(), regions), extra) == stored_all(empty_slots(), regions),
{
    lemma_fill_in_order(regions);
    assert(stored_all(empty_slots(), regions) =~= regions.map_values(|r: Region| Some(r)));
}

} // verus!
