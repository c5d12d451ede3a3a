//! Decisions over fetched device sets. A device identity is its protocol
//! version and its public key; the working set fetched from the chain
//! pairs each identity with an exit flag, and a watcher is asked for a
//! challenge only while its own identity stands in that set with the flag
//! clear.

use vstd::prelude::*;

verus! {

/// Byte-string equality.
pub fn bytes_equal(a: &Vec<u8>, b: &Vec<u8>) -> (r: bool)
    ensures
        r <==> a@ == b@,
{
    let n = a.len();
    if n != b.len() {
        return false;
    }
    let mut k: usize = 0;
    while k < n
        invariant
            0 <= k <= n,
            n == a@.len(),
            n == b@.len(),
            forall|t: int| 0 <= t < k ==> a@[t] == b@[t],
        decreases n - k,
    {
        if a[k] != b[k] {
            return false;
        }
        k = k + 1;
    }
    proof {
        assert(a@ =~= b@);
    }
    true
}

/// Whether the device with the given identity stands in the fetched
/// working set with its exit flag clear.
pub fn contains_working_device(
    devices: &Vec<((u16, Vec<u8>), bool)>,
    version: u16,
    pk: &Vec<u8>,
) -> (r: bool)
    ensures
        r <==> exists|i: int|
            0 <= i < devices@.len() && (#[trigger] devices@[i]).0.0 == version
                && devices@[i].0.1@ == pk@ && devices@[i].1 == false,
{
    let n = devices.len();
    let mut k: usize = 0;
    while k < n
        invariant
            0 <= k <= n,
            n == devices@.len(),
            forall|i: int|
                0 <= i < k ==> !((#[trigger] devices@[i]).0.0 == version && devices@[i].0.1@ == pk@
                    && devices@[i].1 == false),
        decreases n - k,
    {
        let entry = &devices[k];
        if entry.0.0 == version && !entry.1 && bytes_equal(&entry.0.1, pk) {
            proof {
                assert((devices@[k as int]).0.0 == version && devices@[k as int].0.1@ == pk@
                    && devices@[k as int].1 == false);
            }
            return true;
        }
        k = k + 1;
    }
    false
}

} // verus!
