//! A bounded cache of blocks by their identifier. Where it is full, the entry
//! that was put longest ago makes room.

use crate::archive::{ArchiveBlockData, ArchiveDataView};
use crate::block::{copy_bytes, BlockID};
use crate::chain::data_views;
use crate::text::same_bytes;
use vstd::prelude::*;

verus! {

/// The entries of a cache, in the order in which they were put: each an
/// identifier and the block under it.
pub type Entries = Seq<(Seq<u8>, ArchiveDataView)>;

/// Whether no identifier occurs twice.
pub open spec fn distinct_ids(entries: Entries) -> bool {
    forall|i: int, j: int|
        0 <= i < j < entries.len() ==> (#[trigger] entries[i]).0 != (#[trigger] entries[j]).0
}

/// The block under `id`.
pub open spec fn lookup(entries: Entries, id: Seq<u8>) -> Option<ArchiveDataView>
    decreases entries.len(),
{
    if entries.len() == 0 {
        None
    } else if entries.last().0 == id {
        Some(entries.last().1)
    } else {
        lookup(entries.drop_last(), id)
    }
}

/// The entries but for the one under `id`.
pub open spec fn without(entries: Entries, id: Seq<u8>) -> Entries
    decreases entries.len(),
{
    if entries.len() == 0 {
        entries
    } else if entries.last().0 == id {
        without(entries.drop_last(), id)
    } else {
        without(entries.drop_last(), id).push(entries.last())
    }
}

/// The entries after `data` was put under `id` into a cache with room for
/// `capacity`: what was under `id` gives way, or else, where the cache is
/// full, the oldest entry.
pub open spec fn with_put(
    entries: Entries,
    capacity: nat,
    id: Seq<u8>,
    data: ArchiveDataView,
) -> Entries {
    let others = without(entries, id);
    if others.len() >= capacity {
        others.drop_first().push((id, data))
    } else {
        others.push((id, data))
    }
}

/// The entries after each of `blocks` was put under its identifier, in order.
pub open spec fn with_all_put(
    entries: Entries,
    capacity: nat,
    blocks: Seq<ArchiveDataView>,
) -> Entries
    decreases blocks.len(),
{
    if blocks.len() == 0 {
        entries
    } else {
        with_put(
            with_all_put(entries, capacity, blocks.drop_last()),
            capacity,
            blocks.last().block.id,
            blocks.last(),
        )
    }
}

#[derive(Debug)]
struct Entry {
    id: BlockID,
    data: ArchiveBlockData,
}

/// The cache.
#[derive(Debug)]
pub struct BlockCache {
    entries: Vec<Entry>,
    capacity: usize,
}

impl View for BlockCache {
    type V = Entries;

    /// The entries, the oldest first.
    closed spec fn view(&self) -> Entries {
        self.entries@.map_values(|entry: Entry| (entry.id@, entry.data@))
    }
}

impl BlockCache {
    /// How many entries there is room for.
    pub closed spec fn capacity(&self) -> nat {
        self.capacity as nat
    }

    /// Whether the cache is one that its operations made: it has room for an
    /// entry, holds no more than it has room for, and no identifier twice.
    pub open spec fn well_formed(&self) -> bool {
        &&& self.capacity() > 0
        &&& self@.len() <= self.capacity()
        &&& distinct_ids(self@)
    }

    /// An empty cache with room for `capacity` entries.
    pub fn new(capacity: usize) -> (cache: BlockCache)
        requires
            capacity > 0,
        ensures
            cache.well_formed(),
            cache.capacity() == capacity,
            cache@ == Entries::empty(),
    {
        let cache = BlockCache { entries: Vec::new(), capacity };
        assert(cache@ =~= Entries::empty());
        cache
    }

    /// How many entries the cache holds.
    pub fn len(&self) -> (n: usize)
        ensures
            n == self@.len(),
    {
        self.entries.len()
    }

    fn position(&self, id: &BlockID) -> (place: Option<usize>)
        ensures
            match place {
                Some(i) => i < self@.len() && self@[i as int].0 == id@,
                None => forall|i: int| 0 <= i < self@.len() ==> (#[trigger] self@[i]).0 != id@,
            },
    {
        let mut i: usize = 0;
        while i < self.entries.len()
            invariant
                i <= self@.len(),
                forall|j: int| 0 <= j < i ==> (#[trigger] self@[j]).0 != id@,
            decreases self@.len() - i,
        {
            assert(self@[i as int].0 == self.entries@[i as int].id@);
            if same_bytes(&self.entries[i].id, id) {
                return Some(i);
            }
            i += 1;
        }
        None
    }

    /// The block under `id`, which stays where it is.
    pub fn peek(&self, id: &BlockID) -> (data: Option<&ArchiveBlockData>)
        requires
            self.well_formed(),
        ensures
            match data {
                Some(data) => lookup(self@, id@) == Some(data@),
                None => lookup(self@, id@) is None,
            },
    {
        match self.position(id) {
            Some(i) => {
                proof {
                    one_entry_per_id(self@, i as int);
                }
                Some(&self.entries[i].data)
            },
            None => {
                proof {
                    no_entry(self@, id@);
                }
                None
            },
        }
    }

    /// Takes the block under `id` out of the cache.
    pub fn pop(&mut self, id: &BlockID) -> (data: Option<ArchiveBlockData>)
        requires
            old(self).well_formed(),
        ensures
            final(self).well_formed(),
            final(self).capacity() == old(self).capacity(),
            match data {
                Some(data) => lookup(old(self)@, id@) == Some(data@),
                None => lookup(old(self)@, id@) is None,
            },
            final(self)@ == without(old(self)@, id@),
    {
        let ghost before = self@;
        match self.position(id) {
            Some(i) => {
                let entry = self.entries.remove(i);
                proof {
                    assert(self@ =~= before.remove(i as int));
                    one_entry_per_id(before, i as int);
                    assert(before[i as int] == (entry.id@, entry.data@));
                }
                Some(entry.data)
            },
            None => {
                proof {
                    no_entry(before, id@);
                }
                None
            },
        }
    }

    /// Puts a block under `id`.
    pub fn put(&mut self, id: BlockID, data: ArchiveBlockData)
        requires
            old(self).well_formed(),
        ensures
            final(self).well_formed(),
            final(self).capacity() == old(self).capacity(),
            final(self)@ == with_put(old(self)@, old(self).capacity(), id@, data@),
    {
        let ghost before = self@;
        let ghost others = without(before, id@);
        match self.position(&id) {
            Some(i) => {
                self.entries.remove(i);
                proof {
                    assert(self@ =~= before.remove(i as int));
                    one_entry_per_id(before, i as int);
                }
            },
            None => {
                proof {
                    no_entry(before, id@);
                }
                if self.entries.len() >= self.capacity {
                    self.entries.remove(0);
                    assert(self@ =~= before.drop_first());
                }
            },
        }
        proof {
            others_are_distinct(before, id@);
        }
        let ghost kept = self@;
        assert(kept == if others.len() >= self.capacity() {
            others.drop_first()
        } else {
            others
        });
        assert(forall|i: int| 0 <= i < kept.len() ==> (#[trigger] kept[i]).0 != id@);
        self.entries.push(Entry { id, data });
        assert(self@ =~= kept.push((id@, data@)));
    }

    /// Puts each of `blocks` under its identifier, in order.
    pub fn put_all(&mut self, blocks: &Vec<ArchiveBlockData>)
        requires
            old(self).well_formed(),
        ensures
            final(self).well_formed(),
            final(self).capacity() == old(self).capacity(),
            final(self)@ == with_all_put(
                old(self)@,
                old(self).capacity(),
                data_views(blocks@),
            ),
    {
        let ghost views = data_views(blocks@);
        let ghost before = self@;
        let ghost capacity = self.capacity();
        let mut i: usize = 0;
        assert(views.take(0) =~= Seq::empty());
        while i < blocks.len()
            invariant
                i <= blocks@.len(),
                views == data_views(blocks@),
                self.well_formed(),
                self.capacity() == capacity,
                self@ == with_all_put(before, capacity, views.take(i as int)),
            decreases blocks@.len() - i,
        {
            proof {
                let next = views.take(i + 1);
                assert(next.drop_last() =~= views.take(i as int));
                assert(next.last() == blocks@[i as int]@);
            }
            self.put(copy_bytes(&blocks[i].block.id), blocks[i].clone());
            i += 1;
        }
        assert(views.take(i as int) =~= views);
    }
}

proof fn no_entry(entries: Entries, id: Seq<u8>)
    requires
        forall|i: int| 0 <= i < entries.len() ==> (#[trigger] entries[i]).0 != id,
    ensures
        without(entries, id) == entries,
        lookup(entries, id) is None,
    decreases entries.len(),
{
    if entries.len() > 0 {
        let front = entries.drop_last();
        assert forall|i: int| 0 <= i < front.len() implies (#[trigger] front[i]).0 != id by {
            assert(entries[i].0 != id);
        }
        no_entry(front, id);
        assert(entries.last().0 != id);
        assert(front.push(entries.last()) =~= entries);
    }
}

proof fn one_entry_per_id(entries: Entries, i: int)
    requires
        distinct_ids(entries),
        0 <= i < entries.len(),
    ensures
        without(entries, entries[i].0) == entries.remove(i),
        lookup(entries, entries[i].0) == Some(entries[i].1),
        distinct_ids(entries.remove(i)),
    decreases entries.len(),
{
    let id = entries[i].0;
    let front = entries.drop_last();
    if i == entries.len() - 1 {
        assert forall|j: int| 0 <= j < front.len() implies (#[trigger] front[j]).0 != id by {
            assert(entries[j].0 != entries[i].0);
        }
        no_entry(front, id);
        assert(entries.remove(i) =~= front);
    } else {
        assert(entries.last().0 != id);
        assert(front[i] == entries[i]);
        one_entry_per_id(front, i);
        assert(entries.remove(i) =~= front.remove(i).push(entries.last()));
    }
    assert forall|a: int, b: int| 0 <= a < b < entries.remove(i).len() implies (
    #[trigger] entries.remove(i)[a]).0 != (#[trigger] entries.remove(i)[b]).0 by {
        let a2 = if a < i {
            a
        } else {
            a + 1
        };
        let b2 = if b < i {
            b
        } else {
            b + 1
        };
        assert(entries[a2].0 != entries[b2].0);
    }
}

proof fn others_are_distinct(entries: Entries, id: Seq<u8>)
    requires
        distinct_ids(entries),
    ensures
        distinct_ids(without(entries, id)),
        forall|i: int|
            0 <= i < without(entries, id).len() ==> (#[trigger] without(entries, id)[i]).0 != id,
{
    if exists|i: int| 0 <= i < entries.len() && (#[trigger] entries[i]).0 == id {
        let i = choose|i: int| 0 <= i < entries.len() && (#[trigger] entries[i]).0 == id;
        one_entry_per_id(entries, i);
        assert forall|j: int| 0 <= j < entries.remove(i).len() implies (
        #[trigger] entries.remove(i)[j]).0 != id by {
            let j2 = if j < i {
                j
            } else {
                j + 1
            };
            assert(entries[j2].0 != id);
        }
    } else {
        no_entry(entries, id);
    }
}

/// A read gives back what was put: after a block was put under an identifier,
/// it is found there.
pub proof fn what_is_put_is_found(
    entries: Entries,
    capacity: nat,
    id: Seq<u8>,
    data: ArchiveDataView,
)
    ensures
        lookup(with_put(entries, capacity, id, data), id) == Some(data),
{
    let after = with_put(entries, capacity, id, data);
    assert(after.last() == (id, data));
}

/// Putting a block leaves the others alone while there is room.
pub proof fn putting_leaves_the_others(
    entries: Entries,
    capacity: nat,
    id: Seq<u8>,
    data: ArchiveDataView,
    other: Seq<u8>,
)
    requires
        other != id,
        without(entries, id).len() < capacity,
    ensures
        lookup(with_put(entries, capacity, id, data), other) == lookup(entries, other),
{
    let others = without(entries, id);
    let after = with_put(entries, capacity, id, data);
    assert(after.drop_last() =~= others);
    taking_leaves_the_others(entries, id, other);
}

/// What was taken out is gone, and the others are where they were.
pub proof fn taking_leaves_the_others(entries: Entries, id: Seq<u8>, other: Seq<u8>)
    ensures
        lookup(without(entries, id), id) is None,
        other != id ==> lookup(without(entries, id), other) == lookup(entries, other),
    decreases entries.len(),
{
    if entries.len() > 0 {
        let front = entries.drop_last();
        taking_leaves_the_others(front, id, other);
        if entries.last().0 != id {
            let after = without(front, id).push(entries.last());
            assert(after.drop_last() =~= without(front, id));
        }
    }
}

/// A full cache makes room for a new block by its oldest entry alone.
pub proof fn the_oldest_entry_makes_room(
    entries: Entries,
    capacity: nat,
    id: Seq<u8>,
    data: ArchiveDataView,
)
    requires
        0 < capacity == entries.len(),
        lookup(entries, id) is None,
    ensures
        with_put(entries, capacity, id, data) == entries.drop_first().push((id, data)),
{
    missing_means_no_entry(entries, id);
    no_entry(entries, id);
}

proof fn missing_means_no_entry(entries: Entries, id: Seq<u8>)
    requires
        lookup(entries, id) is None,
    ensures
        forall|i: int| 0 <= i < entries.len() ==> (#[trigger] entries[i]).0 != id,
    decreases entries.len(),
{
    if entries.len() > 0 {
        missing_means_no_entry(entries.drop_last(), id);
        assert forall|i: int| 0 <= i < entries.len() implies (#[trigger] entries[i]).0 != id by {
            if i < entries.len() - 1 {
                assert(entries.drop_last()[i].0 != id);
            }
        }
    }
}

/// Whether no block after the one at `k` bears the same identifier.
pub open spec fn is_last_of_its_id(blocks: Seq<ArchiveDataView>, k: int) -> bool {
    forall|j: int| k < j < blocks.len() ==> (#[trigger] blocks[j]).block.id != blocks[k].block.id
}

/// A block that was put is found, whatever the cache held before, where no
/// later one bears its identifier and fewer came after it than there is room
/// for.
pub proof fn all_that_is_put_is_found(
    entries: Entries,
    capacity: nat,
    blocks: Seq<ArchiveDataView>,
    k: int,
)
    requires
        0 <= k < blocks.len() <= k + capacity,
        is_last_of_its_id(blocks, k),
    ensures
        lookup(with_all_put(entries, capacity, blocks), blocks[k].block.id) == Some(blocks[k]),
{
    few_entries_are_newer(entries, capacity, blocks, k);
}

/// How many entries were put after the one under `id`.
spec fn newer_entries(entries: Entries, id: Seq<u8>) -> nat
    decreases entries.len(),
{
    if entries.len() == 0 || entries.last().0 == id {
        0
    } else {
        1 + newer_entries(entries.drop_last(), id)
    }
}

proof fn few_entries_are_newer(
    entries: Entries,
    capacity: nat,
    blocks: Seq<ArchiveDataView>,
    k: int,
)
    requires
        0 <= k < blocks.len() <= k + capacity,
        is_last_of_its_id(blocks, k),
    ensures
        ({
            let after = with_all_put(entries, capacity, blocks);
            &&& lookup(after, blocks[k].block.id) == Some(blocks[k])
            &&& newer_entries(after, blocks[k].block.id) <= blocks.len() - 1 - k
        }),
    decreases blocks.len(),
{
    let id = blocks[k].block.id;
    let after = with_all_put(entries, capacity, blocks);
    let last = blocks[blocks.len() - 1];
    assert(after.last() == (last.block.id, last));
    if k < blocks.len() - 1 {
        let front = blocks.drop_last();
        assert forall|j: int| k < j < front.len() implies (#[trigger] front[j]).block.id
            != front[k].block.id by {
            assert(blocks[j].block.id != blocks[k].block.id);
        }
        few_entries_are_newer(entries, capacity, front, k);
        let before = with_all_put(entries, capacity, front);
        let others = without(before, last.block.id);
        taking_leaves_the_others(before, last.block.id, id);
        taking_adds_no_newer_entries(before, last.block.id, id);
        if others.len() >= capacity {
            the_oldest_is_another(others, id);
            assert(after.drop_last() =~= others.drop_first());
        } else {
            assert(after.drop_last() =~= others);
        }
    }
}

proof fn taking_adds_no_newer_entries(entries: Entries, taken: Seq<u8>, id: Seq<u8>)
    requires
        taken != id,
    ensures
        newer_entries(without(entries, taken), id) <= newer_entries(entries, id),
    decreases entries.len(),
{
    if entries.len() > 0 {
        let front = entries.drop_last();
        taking_adds_no_newer_entries(front, taken, id);
        if entries.last().0 != taken {
            let after = without(front, taken).push(entries.last());
            assert(after.drop_last() =~= without(front, taken));
        }
    }
}

/// An entry that not all others are newer than is not the oldest one.
proof fn the_oldest_is_another(entries: Entries, id: Seq<u8>)
    requires
        lookup(entries, id) is Some,
        newer_entries(entries, id) + 1 < entries.len(),
    ensures
        lookup(entries.drop_first(), id) == lookup(entries, id),
        newer_entries(entries.drop_first(), id) == newer_entries(entries, id),
    decreases entries.len(),
{
    let rest = entries.drop_first();
    assert(rest.last() == entries.last());
    if entries.last().0 != id {
        the_oldest_is_another(entries.drop_last(), id);
        assert(rest.drop_last() =~= entries.drop_last().drop_first());
    }
}

/// Every block is found under its own identifier, and nothing under another.
pub proof fn every_entry_is_found(entries: Entries, id: Seq<u8>)
    requires
        distinct_ids(entries),
    ensures
        forall|i: int|
            0 <= i < entries.len() && (#[trigger] entries[i]).0 == id ==> lookup(entries, id)
                == Some(entries[i].1),
        (forall|i: int| 0 <= i < entries.len() ==> (#[trigger] entries[i]).0 != id) ==> lookup(
            entries,
            id,
        ) is None,
{
    assert forall|i: int| 0 <= i < entries.len() && (#[trigger] entries[i]).0 == id implies lookup(
        entries,
        id,
    ) == Some(entries[i].1) by {
        one_entry_per_id(entries, i);
    }
    if forall|i: int| 0 <= i < entries.len() ==> (#[trigger] entries[i]).0 != id {
        no_entry(entries, id);
    }
}

/// Taking an entry out leaves exactly those under other identifiers, in their
/// order.
pub proof fn taking_filters(entries: Entries, id: Seq<u8>)
    ensures
        without(entries, id) == entries.filter(|entry: (Seq<u8>, ArchiveDataView)| entry.0 != id),
    decreases entries.len(),
{
    reveal(Seq::filter);
    if entries.len() > 0 {
        taking_filters(entries.drop_last(), id);
    }
}

/// What a put leaves: the new entry is the newest, and before it stand, in
/// their order, those under other identifiers, but for the oldest one where
/// they alone fill the cache.
pub proof fn a_put_adds_the_newest_entry(
    entries: Entries,
    capacity: nat,
    id: Seq<u8>,
    data: ArchiveDataView,
)
    requires
        0 < capacity,
        entries.len() <= capacity,
    ensures
        ({
            let others = entries.filter(|entry: (Seq<u8>, ArchiveDataView)| entry.0 != id);
            with_put(entries, capacity, id, data) == if others.len() < capacity {
                others.push((id, data))
            } else {
                others.skip(1).push((id, data))
            }
        }),
        with_put(entries, capacity, id, data).len() <= capacity,
{
    taking_filters(entries, id);
    taking_makes_no_entries(entries, id);
    let others = without(entries, id);
    if others.len() >= capacity {
        assert(others.drop_first() =~= others.skip(1));
    }
}

proof fn taking_makes_no_entries(entries: Entries, id: Seq<u8>)
    ensures
        without(entries, id).len() <= entries.len(),
    decreases entries.len(),
{
    if entries.len() > 0 {
        taking_makes_no_entries(entries.drop_last(), id);
    }
}

/// Putting blocks is putting them one after the other: first these, then those,
/// each under its own identifier.
pub proof fn putting_all_is_putting_each(
    entries: Entries,
    capacity: nat,
    first: Seq<ArchiveDataView>,
    then: Seq<ArchiveDataView>,
    block: ArchiveDataView,
)
    ensures
        with_all_put(entries, capacity, Seq::empty()) == entries,
        with_all_put(entries, capacity, seq![block]) == with_put(
            entries,
            capacity,
            block.block.id,
            block,
        ),
        with_all_put(entries, capacity, first + then) == with_all_put(
            with_all_put(entries, capacity, first),
            capacity,
            then,
        ),
    decreases then.len(),
{
    assert(seq![block].drop_last() =~= Seq::empty());
    assert(with_all_put(entries, capacity, seq![block].drop_last()) == entries);
    if then.len() == 0 {
        assert(first + then =~= first);
    } else {
        putting_all_is_putting_each(entries, capacity, first, then.drop_last(), block);
        assert((first + then).drop_last() =~= first + then.drop_last());
        assert((first + then).last() == then.last());
    }
}

/// Blocks that are kept stay while there is room, whatever is put under other
/// identifiers.
pub proof fn putting_all_leaves_the_others(
    entries: Entries,
    capacity: nat,
    blocks: Seq<ArchiveDataView>,
    other: Seq<u8>,
)
    requires
        entries.len() + blocks.len() <= capacity,
        forall|i: int| 0 <= i < blocks.len() ==> (#[trigger] blocks[i]).block.id != other,
    ensures
        lookup(with_all_put(entries, capacity, blocks), other) == lookup(entries, other),
        with_all_put(entries, capacity, blocks).len() <= entries.len() + blocks.len(),
    decreases blocks.len(),
{
    if blocks.len() > 0 {
        let front = blocks.drop_last();
        let last = blocks[blocks.len() - 1];
        assert forall|i: int| 0 <= i < front.len() implies (#[trigger] front[i]).block.id
            != other by {
            assert(blocks[i].block.id != other);
        }
        putting_all_leaves_the_others(entries, capacity, front, other);
        let before = with_all_put(entries, capacity, front);
        taking_makes_no_entries(before, last.block.id);
        putting_leaves_the_others(before, capacity, last.block.id, last, other);
    }
}

} // verus!
