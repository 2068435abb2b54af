use vstd::prelude::*;

verus! {

/// The tunnel service over QUIC, listening on an address.
#[derive(Debug)]
pub struct QuicServer {
    address: String,
}

impl QuicServer {
    pub fn new(address: &str) -> (r: QuicServer)
        ensures
            r.address()@ == address@,
    {
        QuicServer { address: address.to_owned() }
    }

    pub closed spec fn address(&self) -> String {
        self.address
    }

    /// The address the server listens on.
    pub fn listen_address(&self) -> (r: &String)
        ensures
            r@ == self.address()@,
    {
        &self.address
    }
}

} // verus!
