//! The bounds-checked view over the fixed-size shared scratch region
//! through which host and sandboxed executable exchange one field element
//! at a time.

use vstd::prelude::*;

use crate::element::Element;
use crate::error::WitnessError;

verus! {

/// The host's handle on the shared scratch region: a fixed-capacity limb
/// buffer and the element width detected at construction.  Every write and
/// read moves exactly one element through the first `width` limbs; the
/// owning calculator serializes access, this type only checks bounds.
#[derive(Debug)]
pub struct SafeMemory {
    /// The scratch region, in 32-bit limbs.
    pub data: Vec<u32>,
    /// Limbs per element.
    pub width: u32,
}

impl SafeMemory {
    /// One element must fit the region.
    pub open spec fn wf(&self) -> bool {
        self.width >= 1 && self.width as nat <= self.data@.len()
    }

    /// A zeroed region of the given capacity for elements of the given
    /// width; a region too small for one element is refused with
    /// `MemoryError`.
    pub fn new(capacity: usize, width: u32) -> (r: Result<SafeMemory, WitnessError>)
        ensures
            (width >= 1 && width as usize <= capacity) <==> r is Ok,
            r matches Ok(m) ==> {
                &&& m.wf()
                &&& m.width == width
                &&& m.data@.len() == capacity
                &&& forall|i: int| 0 <= i < capacity ==> m.data@[i] == 0
            },
            r matches Err(e) ==> e is MemoryError,
    {
        if width == 0 || width as usize > capacity {
            return Err(WitnessError::MemoryError);
        }
        let mut data: Vec<u32> = Vec::new();
        let mut i: usize = 0;
        while i < capacity
            invariant
                i <= capacity,
                data@.len() == i as nat,
                forall|k: int| 0 <= k < i ==> data@[k] == 0,
            decreases capacity - i,
        {
            data.push(0);
            i = i + 1;
        }
        Ok(SafeMemory { data, width })
    }

    /// Serializes one element into the start of the region.  An element
    /// whose encoded length is not the detected width is refused with
    /// `MemoryError` and the region is left untouched.
    pub fn write_element(&mut self, value: &Element) -> (r: Result<(), WitnessError>)
        requires
            old(self).wf(),
        ensures
            final(self).wf(),
            final(self).width == old(self).width,
            final(self).data@.len() == old(self).data@.len(),
            value@.len() == old(self).width as nat <==> r is Ok,
            r is Ok ==> final(self).data@ == value@ + old(self).data@.skip(
                old(self).width as int,
            ),
            r matches Err(e) ==> e is MemoryError && final(self).data@ == old(self).data@,
    {
        if value.limbs.len() != self.width as usize {
            return Err(WitnessError::MemoryError);
        }
        let mut i: usize = 0;
        while i < value.limbs.len()
            invariant
                i <= value.limbs@.len(),
                value.limbs@.len() == self.width as nat,
                self.width == old(self).width,
                self.wf(),
                self.data@.len() == old(self).data@.len(),
                forall|k: int| 0 <= k < i ==> self.data@[k] == value.limbs@[k],
                forall|k: int| i <= k < self.data@.len() ==> self.data@[k] == old(self).data@[k],
            decreases value.limbs@.len() - i,
        {
            let limb = value.limbs[i];
            self.data.set(i, limb);
            i = i + 1;
        }
        proof {
            assert(self.data@ =~= value@ + old(self).data@.skip(old(self).width as int));
        }
        Ok(())
    }

    /// Deserializes an element the executable left in the region as a
    /// single short machine word: the first limb, zero-extended to the
    /// detected width.  Which of the two encodings applies is the
    /// executable's choice; the bridge only interprets accordingly.
    pub fn read_short_element(&self) -> (r: Element)
        requires
            self.wf(),
        ensures
            r@.len() == self.width as nat,
            crate::element::limbs_value(r@) == self.data@[0],
    {
        let mut limbs: Vec<u32> = Vec::new();
        limbs.push(self.data[0]);
        let mut i: usize = 1;
        while i < self.width as usize
            invariant
                1 <= i <= self.width as usize,
                self.wf(),
                limbs@.len() == i as nat,
                limbs@[0] == self.data@[0],
                forall|k: int| 1 <= k < i ==> limbs@[k] == 0,
            decreases self.width as usize - i,
        {
            limbs.push(0);
            i = i + 1;
        }
        proof {
            lemma_short_limbs_value(limbs@);
        }
        Element { limbs }
    }

    /// Deserializes the element currently held in the region's first
    /// `width` limbs.
    pub fn read_element(&self) -> (r: Element)
        requires
            self.wf(),
        ensures
            r@ == self.data@.subrange(0, self.width as int),
    {
        let mut limbs: Vec<u32> = Vec::new();
        let mut i: usize = 0;
        while i < self.width as usize
            invariant
                i <= self.width as usize,
                self.wf(),
                limbs@ =~= self.data@.subrange(0, i as int),
            decreases self.width as usize - i,
        {
            limbs.push(self.data[i]);
            proof {
                assert(limbs@ =~= self.data@.subrange(0, i + 1));
            }
            i = i + 1;
        }
        Element { limbs }
    }
}

/// A limb sequence whose tail is all zeros denotes its first limb.
proof fn lemma_short_limbs_value(limbs: Seq<u32>)
    requires
        limbs.len() >= 1,
        forall|k: int| 1 <= k < limbs.len() ==> limbs[k] == 0,
    ensures
        crate::element::limbs_value(limbs) == limbs[0],
    decreases limbs.len(),
{
    if limbs.len() == 1 {
        assert(limbs.drop_first().len() == 0);
        assert(crate::element::limbs_value(limbs.drop_first()) == 0);
    } else {
        let tail = limbs.drop_first();
        assert(forall|k: int| 1 <= k < tail.len() ==> #[trigger] tail[k] == limbs[k + 1]);
        lemma_short_limbs_value(tail);
        assert(tail[0] == limbs[1]);
        assert(crate::element::limbs_value(tail) == 0);
    }
}

/// Law: a write followed by a read hands the same element back — the first
/// limbs of the region after a successful write are exactly the written
/// element.
pub proof fn lemma_bridge_round_trip(value: Seq<u32>, tail: Seq<u32>)
    ensures
        (value + tail).subrange(0, value.len() as int) == value,
{
    assert((value + tail).subrange(0, value.len() as int) =~= value);
}

} // verus!
