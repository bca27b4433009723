//! Files that are removed when they are no longer needed, and the memory of the machine.
use vstd::prelude::*;

verus! {

/// Remembers a file that is to be removed.
pub fn register_for_cleanup(paths: &mut Vec<String>, path: String)
    ensures
        final(paths)@ == old(paths)@.push(path),
{
    paths.push(path);
}

/// The files that are to be removed, in the order in which they were remembered. They are forgotten.
pub fn cleanup_temp_files(paths: &mut Vec<String>) -> (r: Vec<String>)
    ensures
        r@ == old(paths)@,
        final(paths)@ == Seq::<String>::empty(),
{
    let mut r: Vec<String> = Vec::new();
    r.append(paths);
    assert(r@ =~= old(paths)@);
    r
}

/// How many bytes of memory there are at hand: what the system reports, or else a gibibyte.
pub fn get_available_ram(reported: Option<u64>) -> (r: u64)
    ensures
        r == (match reported {
            Some(bytes) => bytes,
            None => 1_073_741_824,
        }),
{
    match reported {
        Some(bytes) => bytes,
        None => 1_073_741_824,
    }
}

} // verus!
