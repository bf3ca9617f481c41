use vstd::prelude::*;

use crate::connections::supported_services::{service_value, SupportedServices};

verus! {

/// The services a peer advertises, as the list of bits it sets.
#[derive(Debug, Clone, PartialEq, Eq)]
pub struct BitfieldServices {
    pub elements: Vec<SupportedServices>,
}

/// The 64-bit field the listed services set together.
pub open spec fn bitfield_value(elements: Seq<SupportedServices>) -> u64
    decreases elements.len(),
{
    if elements.len() == 0 {
        0u64
    } else {
        bitfield_value(elements.drop_last()) | service_value(elements.last())
    }
}

impl BitfieldServices {
    pub fn new(elements: Vec<SupportedServices>) -> (r: BitfieldServices)
        ensures
            r.elements == elements,
    {
        BitfieldServices { elements }
    }

    /// The 64-bit field these services set together.
    pub fn to_u64(&self) -> (r: u64)
        ensures
            r == bitfield_value(self.elements@),
    {
        let mut field: u64 = 0;
        let mut i: usize = 0;
        proof {
            assert(self.elements@.take(0) =~= Seq::<SupportedServices>::empty());
        }
        while i < self.elements.len()
            invariant
                i <= self.elements@.len(),
                field == bitfield_value(self.elements@.take(i as int)),
            decreases self.elements@.len() - i,
        {
            proof {
                assert(self.elements@.take(i + 1).drop_last() =~= self.elements@.take(i as int));
            }
            field = field | self.elements[i].to_u64();
            i = i + 1;
        }
        proof {
            assert(self.elements@.take(self.elements@.len() as int) =~= self.elements@);
        }
        field
    }
}

} // verus!
