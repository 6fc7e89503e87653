//! A verified core for a per-player and global gameplay statistics service.
//!
//! Game servers push incremental statistic updates under a namespace; the
//! service folds them into per-subject stats documents held in a document
//! store, quarantining any stored document whose shape no longer decodes.
//! This crate holds the data model, the mutation encoding, and the store
//! logic; the network and database edges live outside it.

use vstd::prelude::*;

pub mod config;
pub mod model;
pub mod stats;
pub mod store;

verus! {

/// A statistic name may be embedded in a document field path, where `.`
/// separates path segments; a name containing `.` would corrupt the path
/// and is rejected before it reaches storage.
pub open spec fn valid_stat_name(name: Seq<char>) -> bool {
    forall|i: int| 0 <= i < name.len() ==> name[i] != '.'
}

/// Character-wise string equality.
pub fn str_eq(a: &str, b: &str) -> (r: bool)
    ensures
        r == (a@ == b@),
{
    let alen: usize = a.unicode_len();
    let blen: usize = b.unicode_len();
    if alen != blen {
        return false;
    }
    let mut i: usize = 0;
    while i < alen
        invariant
            alen == a@.len(),
            alen == b@.len(),
            0 <= i <= alen,
            forall|k: int| 0 <= k < i ==> a@[k] == b@[k],
        decreases alen - i,
    {
        if a.get_char(i) != b.get_char(i) {
            return false;
        }
        i = i + 1;
    }
    proof {
        assert(a@ =~= b@);
    }
    true
}

/// Decide whether a statistic name is free of the field-path separator.
pub fn is_valid_stat_name(name: &str) -> (r: bool)
    ensures
        r == valid_stat_name(name@),
{
    let len: usize = name.unicode_len();
    let mut i: usize = 0;
    while i < len
        invariant
            len == name@.len(),
            0 <= i <= len,
            forall|j: int| 0 <= j < i ==> name@[j] != '.',
        decreases len - i,
    {
        if name.get_char(i) == '.' {
            return false;
        }
        i = i + 1;
    }
    true
}

} // verus!
