//! The decision rule of the upward search for the presets file.
//!
//! The caller probes the starting directory and each ancestor in turn for
//! the file at the fixed relative path and records, per directory, whether
//! it is there; this module picks the first hit, however deep the walk
//! started, and reports "not found" only when no ancestor has the file.

use vstd::prelude::*;

verus! {

/// The first directory that has the presets file. Entry `0` stands for
/// the starting directory, each following entry for the next ancestor up
/// to the filesystem root.
pub fn first_existing_ancestor(has_file: &Vec<bool>) -> (r: Option<usize>)
    ensures
        match r {
            Some(i) => i < has_file@.len() && has_file@[i as int] && (forall|j: int|
                0 <= j < i ==> !has_file@[j]),
            None => forall|j: int| 0 <= j < has_file@.len() ==> !has_file@[j],
        },
{
    let n = has_file.len();
    let mut i: usize = 0;
    while i < n
        invariant
            n == has_file@.len(),
            i <= n,
            forall|j: int| 0 <= j < i ==> !has_file@[j],
        decreases n - i,
    {
        if has_file[i] {
            return Some(i);
        }
        i = i + 1;
    }
    None
}

} // verus!
