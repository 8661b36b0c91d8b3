//! Field elements as the host holds them: little-endian sequences of 32-bit
//! limbs, the granularity in which elements cross the host/sandbox boundary.

use vstd::prelude::*;

verus! {

/// One field element, stored as little-endian 32-bit limbs.  The artifact
/// fixes how many limbs an element occupies; all elements exchanged with one
/// artifact share that width.
#[derive(Clone, Debug, PartialEq, Eq)]
pub struct Element {
    pub limbs: Vec<u32>,
}

/// The integer a little-endian limb sequence denotes.
pub open spec fn limbs_value(limbs: Seq<u32>) -> nat
    decreases limbs.len(),
{
    if limbs.len() == 0 {
        0
    } else {
        limbs.first() as nat + 0x1_0000_0000 * limbs_value(limbs.drop_first())
    }
}

impl View for Element {
    type V = Seq<u32>;

    open spec fn view(&self) -> Seq<u32> {
        self.limbs@
    }
}

impl DeepView for Element {
    type V = Seq<u32>;

    open spec fn deep_view(&self) -> Seq<u32> {
        self.limbs@
    }
}

/// The limb sequence of the field's multiplicative identity at a given width.
pub open spec fn one_limbs(width: nat) -> Seq<u32> {
    Seq::new(width, |i: int| if i == 0 { 1u32 } else { 0u32 })
}

proof fn lemma_zero_limbs_value(limbs: Seq<u32>)
    requires
        forall|i: int| 0 <= i < limbs.len() ==> limbs[i] == 0,
    ensures
        limbs_value(limbs) == 0,
    decreases limbs.len(),
{
    if limbs.len() > 0 {
        lemma_zero_limbs_value(limbs.drop_first());
    }
}

/// A limb sequence of the identity's shape denotes the integer one.
pub proof fn lemma_one_limbs_value(width: nat)
    requires
        width >= 1,
    ensures
        limbs_value(one_limbs(width)) == 1,
{
    lemma_zero_limbs_value(one_limbs(width).drop_first());
}

impl Element {
    /// The multiplicative identity, at the artifact's element width.
    pub fn one(width: u32) -> (r: Element)
        ensures
            r@ == one_limbs(width as nat),
    {
        let mut limbs: Vec<u32> = Vec::new();
        let mut i: u32 = 0;
        while i < width
            invariant
                i <= width,
                limbs@.len() == i as nat,
                forall|k: int| 0 <= k < i ==> limbs@[k] == one_limbs(width as nat)[k],
            decreases width - i,
        {
            if i == 0 {
                limbs.push(1);
            } else {
                limbs.push(0);
            }
            i = i + 1;
        }
        proof {
            assert(limbs@ =~= one_limbs(width as nat));
        }
        Element { limbs }
    }

    /// A fresh element with the same limbs.
    pub fn duplicate(&self) -> (r: Element)
        ensures
            r@ == self@,
    {
        let mut limbs: Vec<u32> = Vec::new();
        let mut i: usize = 0;
        while i < self.limbs.len()
            invariant
                i <= self.limbs@.len(),
                limbs@ == self.limbs@.take(i as int),
            decreases self.limbs@.len() - i,
        {
            limbs.push(self.limbs[i]);
            proof {
                assert(limbs@ =~= self.limbs@.take(i + 1));
            }
            i = i + 1;
        }
        proof {
            assert(limbs@ =~= self.limbs@);
        }
        Element { limbs }
    }

    /// Limb-for-limb equality; equal limbs denote the same field element.
    pub fn equals(&self, other: &Element) -> (r: bool)
        ensures
            r <==> self@ == other@,
    {
        if self.limbs.len() != other.limbs.len() {
            return false;
        }
        let mut i: usize = 0;
        while i < self.limbs.len()
            invariant
                i <= self.limbs@.len(),
                self.limbs@.len() == other.limbs@.len(),
                forall|k: int| 0 <= k < i ==> self.limbs@[k] == other.limbs@[k],
            decreases self.limbs@.len() - i,
        {
            if self.limbs[i] != other.limbs[i] {
                return false;
            }
            i = i + 1;
        }
        proof {
            assert(self.limbs@ =~= other.limbs@);
        }
        true
    }
}

} // verus!
