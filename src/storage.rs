//! The stored API key. Reading and writing the key file happen outside the
//! library; what is read is normalised here.

use vstd::prelude::*;
use crate::text::{chars_of, string_of, trim, trim_bounds};

verus! {

/// The API key's store.
pub struct Storage;

impl Storage {
    /// The key held by a key file with text `content`: the text without
    /// leading and trailing spaces, tabs and line ends.
    pub fn api_key_from_file(content: &str) -> (r: String)
        ensures
            r@ == trim(content@),
    {
        let cs = chars_of(content);
        let (a, b) = trim_bounds(&cs, 0, cs.len());
        assert(cs@.subrange(0, cs@.len() as int) =~= cs@);
        string_of(content, a, b)
    }
}

} // verus!
