//! The most recent frame seen for each address.

use std::collections::HashMap;
use vstd::prelude::*;
use vstd::std_specs::hash::spec_hash_map_iter;
use vstd::std_specs::iter::IteratorSpec;
use crate::filter::FilterSpec;
use crate::frame::{frame_views, CanFrame, FrameView};

verus! {

broadcast use vstd::std_specs::hash::group_hash_axioms;

/// Whether every entry of `entries` is filed under its own address.
pub open spec fn keyed_by_address(entries: Map<u32, FrameView>) -> bool {
    forall|address: u32| #[trigger]
        entries.contains_key(address) ==> entries[address].address == address
}

/// Whether `rows` lists the entries whose address `filter` accepts: every row
/// is such an entry, no address comes twice, and no such entry is missing.
pub open spec fn lists_accepted(
    rows: Seq<FrameView>,
    entries: Map<u32, FrameView>,
    filter: FilterSpec,
) -> bool {
    &&& forall|i: int|
        0 <= i < rows.len() ==> {
            &&& filter.accepts((#[trigger] rows[i]).address)
            &&& entries.contains_key(rows[i].address)
            &&& entries[rows[i].address] == rows[i]
        }
    &&& forall|i: int, j: int|
        0 <= i < j < rows.len() ==> (#[trigger] rows[i]).address != (#[trigger] rows[j]).address
    &&& forall|address: u32|
        entries.contains_key(address) && filter.accepts(address) ==> exists|i: int|
            0 <= i < rows.len() && (#[trigger] rows[i]).address == address
}

/// Latest frame per address. A new arrival for a known address overwrites the
/// entry; nothing is merged, and nothing leaves until the table is cleared.
#[derive(Debug)]
pub struct FrameTable {
    frames: HashMap<u32, CanFrame>,
}

impl View for FrameTable {
    type V = Map<u32, FrameView>;

    closed spec fn view(&self) -> Map<u32, FrameView> {
        self.frames@.map_values(|frame: CanFrame| frame@)
    }
}

impl FrameTable {
    #[verifier::type_invariant]
    spec fn well_formed(self) -> bool {
        forall|address: u32| #[trigger]
            self.frames@.contains_key(address) ==> self.frames@[address]@.address == address
    }

    /// An empty table.
    pub fn new() -> (table: FrameTable)
        ensures
            table@ == Map::<u32, FrameView>::empty(),
    {
        let table = FrameTable { frames: HashMap::new() };
        assert(table@ =~= Map::<u32, FrameView>::empty());
        table
    }

    /// Files `frame` under its address, in place of any earlier frame there.
    pub fn insert(&mut self, frame: CanFrame)
        ensures
            final(self)@ == old(self)@.insert(frame@.address, frame@),
            keyed_by_address(final(self)@),
    {
        proof {
            use_type_invariant(&*self);
        }
        let ghost before = self.frames@;
        let mut frames: HashMap<u32, CanFrame> = HashMap::new();
        std::mem::swap(&mut frames, &mut self.frames);
        frames.insert(frame.get_address(), frame);
        self.frames = frames;
        assert(self@ =~= before.map_values(|f: CanFrame| f@).insert(frame@.address, frame@));
    }

    /// Removes every entry.
    pub fn clear(&mut self)
        ensures
            final(self)@ == Map::<u32, FrameView>::empty(),
    {
        self.frames = HashMap::new();
        assert(self@ =~= Map::<u32, FrameView>::empty());
    }

    /// Number of addresses that have an entry. Every entry is filed under its
    /// own address, so this is also the number of frames held.
    pub fn len(&self) -> (n: usize)
        ensures
            n == self@.dom().len(),
            self@.dom().finite(),
            keyed_by_address(self@),
    {
        proof {
            use_type_invariant(self);
        }
        assert(self@.dom() =~= self.frames@.dom());
        self.frames.len()
    }

    /// Whether some frame is filed under `address`.
    pub fn contains(&self, address: u32) -> (present: bool)
        ensures
            present == self@.contains_key(address),
    {
        self.frames.contains_key(&address)
    }

    /// The frame filed under `address`, if there is one.
    pub fn get(&self, address: u32) -> (entry: Option<CanFrame>)
        ensures
            match entry {
                Some(frame) => self@.contains_key(address) && self@[address] == frame@
                    && frame@.address == address,
                None => !self@.contains_key(address),
            },
    {
        proof {
            use_type_invariant(self);
        }
        match self.frames.get(&address) {
            Some(frame) => Some(*frame),
            None => None,
        }
    }

    /// The entries whose address `filter` accepts, each once, in no particular
    /// order.
    pub fn rows(&self, filter: &FilterSpec) -> (rows: Vec<CanFrame>)
        ensures
            lists_accepted(frame_views(rows@), self@, *filter),
            keyed_by_address(self@),
    {
        proof {
            use_type_invariant(self);
        }
        let mut rows: Vec<CanFrame> = Vec::new();
        let ghost frames = self.frames@;
        let ghost all = spec_hash_map_iter(&self.frames).remaining();
        let ghost mut sources: Seq<int> = Seq::empty();
        for entry in it: self.frames.iter()
            invariant
                it.seq() == all,
                frames == self.frames@,
                all == spec_hash_map_iter(&self.frames).remaining(),
                all.no_duplicates(),
                forall|address: u32| #[trigger]
                    frames.contains_key(address) ==> frames[address]@.address == address,
                sources.len() == rows@.len(),
                forall|i: int|
                    0 <= i < rows@.len() ==> ({
                        &&& 0 <= #[trigger] sources[i] < it.index()
                        &&& *all[sources[i]].0 == rows@[i]@.address
                        &&& *all[sources[i]].1 == rows@[i]
                        &&& filter.accepts(rows@[i]@.address)
                    }),
                forall|i: int, j: int|
                    0 <= i < j < rows@.len() ==> #[trigger] sources[i] < #[trigger] sources[j],
                forall|j: int|
                    0 <= j < it.index() && filter.accepts(*(#[trigger] all[j]).0) ==> exists|i: int|
                        0 <= i < rows@.len() && #[trigger] sources[i] == j,
        {
            let (address, frame) = entry;
            let ghost at: int = it.index();
            assert(frames.contains_key(*all[at].0) && frames[*all[at].0] == *all[at].1);
            if filter.passes_address(*address) {
                rows.push(*frame);
                proof {
                    let ghost earlier = sources;
                    sources = sources.push(at);
                    assert forall|j: int|
                        0 <= j < at + 1 && filter.accepts(
                            *(#[trigger] all[j]).0,
                        ) implies exists|i: int|
                        0 <= i < rows@.len() && #[trigger] sources[i] == j by {
                        if j < at {
                            let i: int = choose|i: int|
                                0 <= i < earlier.len() && #[trigger] earlier[i] == j;
                            assert(sources[i] == j);
                        } else {
                            assert(sources[rows@.len() - 1] == j);
                        }
                    }
                }
            }
        }
        proof {
            let views = frame_views(rows@);
            assert(self@.dom() =~= frames.dom());
            assert forall|i: int| 0 <= i < views.len() implies ({
                &&& filter.accepts((#[trigger] views[i]).address)
                &&& self@.contains_key(views[i].address)
                &&& self@[views[i].address] == views[i]
            }) by {
                let a = all[sources[i]];
                assert(frames.contains_key(*a.0) && frames[*a.0] == *a.1);
            }
            assert forall|i: int, j: int| 0 <= i < j < views.len() implies (
            #[trigger] views[i]).address != (#[trigger] views[j]).address by {
                let a = all[sources[i]];
                let b = all[sources[j]];
                assert(sources[i] < sources[j]);
                assert(frames[*a.0] == *a.1 && frames[*b.0] == *b.1);
                if *a.0 == *b.0 {
                    assert(a == b);
                }
            }
            assert forall|address: u32|
                self@.contains_key(address) && filter.accepts(address) implies exists|i: int|
                0 <= i < views.len() && (#[trigger] views[i]).address == address by {
                assert(frames.contains_key(address));
                assert(all.contains((&address, &frames[address])));
                let j: int = choose|j: int|
                    0 <= j < all.len() && all[j] == (&address, &frames[address]);
                assert(filter.accepts(*all[j].0));
                let i: int = choose|i: int| 0 <= i < rows@.len() && #[trigger] sources[i] == j;
                assert(views[i].address == address);
            }
        }
        rows
    }
}

/// Filing a frame under its own address keeps every entry under its address.
pub proof fn lemma_insert_keeps_keying(entries: Map<u32, FrameView>, frame: FrameView)
    requires
        keyed_by_address(entries),
    ensures
        keyed_by_address(entries.insert(frame.address, frame)),
{
}

/// A frame for an address that already has an entry takes the place of that
/// entry: the same addresses are present afterwards, no more of them, and the
/// address now maps to the new frame.
pub proof fn lemma_insert_present_replaces(entries: Map<u32, FrameView>, frame: FrameView)
    requires
        entries.dom().finite(),
        entries.contains_key(frame.address),
    ensures
        entries.insert(frame.address, frame).dom() == entries.dom(),
        entries.insert(frame.address, frame).dom().len() == entries.dom().len(),
        entries.insert(frame.address, frame)[frame.address] == frame,
        forall|other: u32|
            other != frame.address && entries.contains_key(other) ==> entries.insert(
                frame.address,
                frame,
            )[other] == entries[other],
{
    assert(entries.insert(frame.address, frame).dom() =~= entries.dom());
}

/// A frame for an address without an entry adds exactly one entry.
pub proof fn lemma_insert_absent_adds_one(entries: Map<u32, FrameView>, frame: FrameView)
    requires
        entries.dom().finite(),
        !entries.contains_key(frame.address),
    ensures
        entries.insert(frame.address, frame).dom().len() == entries.dom().len() + 1,
{
}

} // verus!
