//! The protocol spoken with the document store.
use vstd::prelude::*;

verus! {

#[derive(Clone, Copy, PartialEq, Eq, Structural, Debug)]
pub enum Protocol {
    Http,
    Https,
}

pub open spec fn scheme_of(p: Protocol) -> Seq<char> {
    match p {
        Protocol::Http => "http"@,
        Protocol::Https => "https"@,
    }
}

impl Protocol {
    /// The URL scheme, as the protocol is written on the command line too.
    pub fn scheme(&self) -> (r: &'static str)
        ensures
            r@ == scheme_of(*self),
    {
        match self {
            Protocol::Http => "http",
            Protocol::Https => "https",
        }
    }
}

impl Default for Protocol {
    fn default() -> (r: Protocol)
        ensures
            r == Protocol::Https,
    {
        Protocol::Https
    }
}

} // verus!
