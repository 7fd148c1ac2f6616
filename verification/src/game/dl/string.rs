use vstd::prelude::*;

verus! {

/// A string of 16-bit characters of the host, kept as the words it occupies.
///
/// A short text stands in `storage` itself; for a longer one, `storage`
/// starts with the address of the characters.
pub struct DLWString {
    pub storage: [u16; 8],
    /// Number of characters of the text.
    pub length: usize,
    /// Number of characters that the string has room for.
    pub capacity: usize,
}

} // verus!
