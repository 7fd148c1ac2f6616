use vstd::prelude::*;

verus! {

/// A lock of the host: a virtual table and an operating-system critical
/// section, kept as the bytes it occupies.
pub struct DLPlainLightMutex {
    pub vftable: usize,
    pub critical_section: [u8; 0x28],
}

} // verus!
