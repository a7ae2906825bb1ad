//! The store's decisions: what is written when a bookmark is saved, and
//! how a missing record is reported when one is deleted. Reading and
//! writing the files is left to the caller.

use vstd::prelude::*;

use crate::bookmark::{merge_spec, Bookmark};
use crate::codec::FileError;

verus! {

/// Whether saving must first read the record stored at the bookmark's
/// path: only when merging was asked for and a record is there.
pub fn needs_stored(merge: bool, exists: bool) -> (r: bool)
    ensures
        r == (merge && exists),
{
    merge && exists
}

/// The bookmark to write when saving `bkm`. With `merge`, the tags of the
/// record already stored under the same path (`stored`, when one could be
/// read) are added; the stored record wins nothing else.
pub fn to_write(bkm: Bookmark, merge: bool, stored: Option<Bookmark>) -> (r: Bookmark)
    ensures
        merge && stored is Some ==> r@ == merge_spec(bkm@, stored->0@),
        !(merge && stored is Some) ==> r@ == bkm@,
{
    match stored {
        Some(prior) => {
            if merge {
                bkm.merge(prior)
            } else {
                bkm
            }
        },
        None => bkm,
    }
}

/// The outcome of deleting a record file: `NotFound` when there is none.
pub fn check_delete(exists: bool) -> (r: Result<(), FileError>)
    ensures
        exists <==> r is Ok,
        !exists ==> r matches Err(FileError::NotFound),
{
    if exists {
        Ok(())
    } else {
        Err(FileError::NotFound)
    }
}

} // verus!
