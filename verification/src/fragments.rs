use vstd::prelude::*;

verus! {

/// Number of datagrams an image is sent in.
pub const SLOT_COUNT: usize = 40;

/// Collects the datagrams of one image in arrival order.
pub struct FragmentAssembler {
    pub slots: Vec<Vec<u8>>,
    pub count: usize,
}

impl FragmentAssembler {
    /// `SLOT_COUNT` slots, of which the first `count` are filled and the rest empty.
    pub open spec fn wf(&self) -> bool {
        &&& self.slots@.len() == SLOT_COUNT
        &&& self.count <= SLOT_COUNT
        &&& forall|k: int| self.count <= k < SLOT_COUNT ==> (#[trigger] self.slots@[k])@.len() == 0
    }

    /// The datagrams collected so far, in arrival order.
    pub open spec fn received(&self) -> Seq<Seq<u8>> {
        self.slots@.take(self.count as int).map_values(|v: Vec<u8>| v@)
    }

    fn empty_slots() -> (r: Vec<Vec<u8>>)
        ensures
            r@.len() == SLOT_COUNT,
            forall|k: int| 0 <= k < SLOT_COUNT ==> (#[trigger] r@[k])@.len() == 0,
    {
        let mut slots: Vec<Vec<u8>> = Vec::new();
        let mut i: usize = 0;
        while i < SLOT_COUNT
            invariant
                i <= SLOT_COUNT,
                slots@.len() == i,
                forall|k: int| 0 <= k < i ==> (#[trigger] slots@[k])@.len() == 0,
            decreases SLOT_COUNT - i,
        {
            slots.push(Vec::new());
            i = i + 1;
        }
        slots
    }

    /// An assembler that has received nothing.
    pub fn new() -> (r: FragmentAssembler)
        ensures
            r.wf(),
            r.count == 0,
            r.received() == Seq::<Seq<u8>>::empty(),
    {
        let r = FragmentAssembler { slots: Self::empty_slots(), count: 0 };
        assert(r.received() =~= Seq::<Seq<u8>>::empty());
        r
    }

    /// Whether all `SLOT_COUNT` datagrams have arrived.
    pub fn is_full(&self) -> (r: bool)
        requires
            self.wf(),
        ensures
            r == (self.count == SLOT_COUNT),
    {
        self.count == SLOT_COUNT
    }

    /// Stores the next datagram.
    pub fn store(&mut self, data: &[u8])
        requires
            old(self).wf(),
            old(self).count < SLOT_COUNT,
        ensures
            final(self).wf(),
            final(self).count == old(self).count + 1,
            final(self).received() == old(self).received().push(data@),
    {
        let c = self.count;
        let mut slot: Vec<u8> = Vec::new();
        let mut j: usize = 0;
        while j < data.len()
            invariant
                j <= data@.len(),
                slot@ == data@.subrange(0, j as int),
            decreases data@.len() - j,
        {
            slot.push(data[j]);
            j = j + 1;
            assert(slot@ =~= data@.subrange(0, j as int));
        }
        assert(slot@ =~= data@);
        let ghost before = self.slots@;
        self.slots.set(c, slot);
        self.count = c + 1;
        assert(self.slots@.take(self.count as int) =~= before.take(c as int).push(self.slots@[c as int]));
        assert(self.received() =~= old(self).received().push(data@));
    }

    /// Hands out everything received, in arrival order, and starts over.
    pub fn take_all(&mut self) -> (r: Vec<Vec<u8>>)
        requires
            old(self).wf(),
        ensures
            final(self).wf(),
            final(self).count == 0,
            final(self).received() == Seq::<Seq<u8>>::empty(),
            r@.len() == SLOT_COUNT,
            r@.take(old(self).count as int).map_values(|v: Vec<u8>| v@) == old(self).received(),
            forall|k: int| old(self).count <= k < SLOT_COUNT ==> (#[trigger] r@[k])@.len() == 0,
    {
        let mut r = Self::empty_slots();
        std::mem::swap(&mut r, &mut self.slots);
        self.count = 0;
        assert(self.received() =~= Seq::<Seq<u8>>::empty());
        r
    }
}

} // verus!
