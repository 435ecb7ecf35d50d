//! Options of the discovery listener.

use vstd::prelude::*;

verus! {

pub struct Options {
    pub listen_address: String,
}

impl Options {
    pub fn listen_address(&self) -> (s: String)
        ensures
            s@ == self.listen_address@,
    {
        self.listen_address.clone()
    }
}

} // verus!
