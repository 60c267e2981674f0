//! Adding up the sizes of the files of a directory tree.

use vstd::prelude::*;

verus! {

/// What a walk over a directory tree told of one entry.
#[derive(Debug, Clone, Copy, PartialEq, Eq, Structural)]
pub struct SizedEntry {
    /// Whether the entry is a regular file.
    pub is_file: bool,
    /// The length of the entry in bytes; `None` where it could not be read.
    pub len: Option<u64>,
}

/// The bytes that an entry adds to a total: the length of a file whose
/// length could be read, and nothing for anything else.
pub open spec fn counted_bytes(entry: SizedEntry) -> nat {
    match entry.len {
        Some(len) => if entry.is_file {
            len as nat
        } else {
            0
        },
        None => 0,
    }
}

/// The bytes of all files among `entries`.
pub open spec fn total_bytes(entries: Seq<SizedEntry>) -> nat
    decreases entries.len(),
{
    if entries.len() == 0 {
        0
    } else {
        total_bytes(entries.drop_last()) + counted_bytes(entries.last())
    }
}

/// The size of a directory tree, given the entries below it: the lengths of
/// its files added up. Entries that could not be read count for nothing. A
/// total that does not fit 64 bits wraps around.
pub fn calculate_project_size(entries: &Vec<SizedEntry>) -> (r: u64)
    ensures
        r == total_bytes(entries@) % 0x1_0000_0000_0000_0000,
{
    let mut total: u64 = 0;
    let mut i: usize = 0;
    assert(entries@.take(0) =~= Seq::<SizedEntry>::empty());
    while i < entries.len()
        invariant
            i <= entries.len(),
            total == total_bytes(entries@.take(i as int)) % 0x1_0000_0000_0000_0000,
        decreases entries.len() - i,
    {
        let entry = entries[i];
        proof {
            assert(entries@.take(i + 1).drop_last() =~= entries@.take(i as int));
            assert(entries@.take(i + 1).last() == entry);
        }
        if entry.is_file {
            if let Some(len) = entry.len {
                let ghost before = total_bytes(entries@.take(i as int));
                assert((before % 0x1_0000_0000_0000_0000 + len) % 0x1_0000_0000_0000_0000 == (
                before + len) % 0x1_0000_0000_0000_0000) by (nonlinear_arith);
                total = total.wrapping_add(len);
            }
        }
        i += 1;
    }
    assert(entries@.take(entries@.len() as int) =~= entries@);
    total
}

/// The size of the build output of a project, given the entries below its
/// `target` directory; 0 where the project has no such directory.
pub fn calculate_target_size(target_entries: &Option<Vec<SizedEntry>>) -> (r: u64)
    ensures
        r == match *target_entries {
            Some(entries) => total_bytes(entries@) % 0x1_0000_0000_0000_0000,
            None => 0,
        },
{
    match target_entries {
        Some(entries) => calculate_project_size(entries),
        None => 0,
    }
}

/// The size of a directory tree; see `calculate_project_size`.
pub fn calculate_directory_size(entries: &Vec<SizedEntry>) -> (r: u64)
    ensures
        r == total_bytes(entries@) % 0x1_0000_0000_0000_0000,
{
    calculate_project_size(entries)
}

/// The size of the build output of a project; see `calculate_target_size`.
pub fn calculate_target_directory_size(target_entries: &Option<Vec<SizedEntry>>) -> (r: u64)
    ensures
        r == match *target_entries {
            Some(entries) => total_bytes(entries@) % 0x1_0000_0000_0000_0000,
            None => 0,
        },
{
    calculate_target_size(target_entries)
}

} // verus!
