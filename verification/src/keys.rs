//! Keys of a prefixed key-value store.

use vstd::prelude::*;
use vstd::slice::slice_to_vec;

verus! {

/// The key under which `key` is found in the namespace: the bytes of the
/// namespace followed by the bytes of the key.
pub fn concat(namespace: &[u8], key: &[u8]) -> (k: Vec<u8>)
    ensures
        k@ == namespace@ + key@,
{
    let mut k = slice_to_vec(namespace);
    k.extend_from_slice(key);
    assert(k@ =~= namespace@ + key@);
    k
}

} // verus!
