use vstd::prelude::*;

verus! {

/// One bit of the services bitfield a peer advertises.
#[derive(Debug, Clone, Copy, PartialEq, Eq, Structural)]
pub enum SupportedServices {
    Unname,
    NodeNetwork,
    NodeGetUTXO,
    NodeBloom,
    NodeWitness,
    NodeXthin,
    NodeNetworkLimited,
}

/// The bit each service sets in the 64-bit field.
pub open spec fn service_value(service: SupportedServices) -> u64 {
    match service {
        SupportedServices::Unname => 0x00,
        SupportedServices::NodeNetwork => 0x01,
        SupportedServices::NodeGetUTXO => 0x02,
        SupportedServices::NodeBloom => 0x04,
        SupportedServices::NodeWitness => 0x08,
        SupportedServices::NodeXthin => 0x10,
        SupportedServices::NodeNetworkLimited => 0x0400,
    }
}

impl SupportedServices {
    /// The bit this service sets in the 64-bit field.
    pub fn to_u64(&self) -> (r: u64)
        ensures
            r == service_value(*self),
    {
        match self {
            SupportedServices::Unname => 0x00,
            SupportedServices::NodeNetwork => 0x01,
            SupportedServices::NodeGetUTXO => 0x02,
            SupportedServices::NodeBloom => 0x04,
            SupportedServices::NodeWitness => 0x08,
            SupportedServices::NodeXthin => 0x10,
            SupportedServices::NodeNetworkLimited => 0x0400,
        }
    }
}

} // verus!
