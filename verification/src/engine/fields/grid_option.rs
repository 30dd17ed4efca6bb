use vstd::prelude::*;

verus! {

/// Which buffer of a grid an operation addresses.
#[allow(non_camel_case_types)]
#[derive(Clone, Copy, Debug, PartialEq, Eq, Structural)]
pub enum GridOption {
    READ,
    WRITE,
    READWRITE,
}

} // verus!
