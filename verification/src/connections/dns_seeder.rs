use vstd::prelude::*;

verus! {

/// Where to ask for peer addresses: a DNS host name and the port the peers
/// listen on. Resolving the name is I/O and happens outside this crate.
#[derive(Debug, Clone, PartialEq, Eq)]
pub struct DNSSeeder {
    pub dns_addr: String,
    pub port_number: u16,
}

impl DNSSeeder {
    pub fn new(dns_addr: &str, port_number: u16) -> (r: DNSSeeder)
        ensures
            r.dns_addr@ == dns_addr@,
            r.port_number == port_number,
    {
        DNSSeeder { dns_addr: dns_addr.to_owned(), port_number }
    }
}

} // verus!
