//! Byte-level conventions of the host chain's storage-map keys. A full
//! key is the concatenation of hashed prefixes and, for the maps this
//! client walks, a transparent suffix: several maps carry a 4-byte
//! little-endian id at offset 48 (a 52-byte key), the failure map also
//! carries a fork byte at offset 68, and the identity maps carry the plain
//! identity bytes from offset 49 on. Each shape is decoded by one function
//! here so the convention is stated once.

use vstd::prelude::*;

verus! {

/// The 4-byte little-endian value a key carries at offset `off`.
pub open spec fn spec_cid_at(key: Seq<u8>, off: int) -> u32 {
    (key[off] + key[off + 1] * 0x100 + key[off + 2] * 0x10000 + key[off + 3] * 0x1000000) as u32
}

/// Extracts the 4-byte little-endian channel id that a 52-byte storage-map
/// key carries at offset 48; `None` for a key of any other length.
pub fn cid_from_storage_key(key: &Vec<u8>) -> (r: Option<u32>)
    ensures
        key@.len() == 52 ==> r == Some(spec_cid_at(key@, 48)),
        key@.len() != 52 ==> r is None,
{
    if key.len() == 52 {
        let b0 = key[48];
        let b1 = key[49];
        let b2 = key[50];
        let b3 = key[51];
        Some((b0 as u32) + (b1 as u32) * 0x100 + (b2 as u32) * 0x10000 + (b3 as u32) * 0x1000000)
    } else {
        None
    }
}

/// Extracts the 4-byte little-endian committee id at offset 48 and the
/// fork byte at offset 68 of a failure-map key; `None` for a key too short
/// to carry them.
pub fn cid_and_fork_from_storage_key(key: &Vec<u8>) -> (r: Option<(u32, u8)>)
    ensures
        key@.len() >= 69 ==> r == Some((spec_cid_at(key@, 48), key@[68])),
        key@.len() < 69 ==> r is None,
{
    if key.len() >= 69 {
        let b0 = key[48];
        let b1 = key[49];
        let b2 = key[50];
        let b3 = key[51];
        let cid = (b0 as u32) + (b1 as u32) * 0x100 + (b2 as u32) * 0x10000 + (b3 as u32)
            * 0x1000000;
        Some((cid, key[68]))
    } else {
        None
    }
}

/// The plain bytes a key carries after its hashed prefix of `prefix_len`
/// bytes (49 for the identity maps); `None` for a key shorter than the
/// prefix.
pub fn storage_key_suffix(key: &Vec<u8>, prefix_len: usize) -> (r: Option<Vec<u8>>)
    ensures
        (match r {
            Some(v) => prefix_len <= key@.len() && v@ == key@.skip(prefix_len as int),
            None => prefix_len > key@.len(),
        }),
{
    let n = key.len();
    if prefix_len > n {
        return None;
    }
    let mut out: Vec<u8> = Vec::new();
    let mut k: usize = prefix_len;
    while k < n
        invariant
            prefix_len <= k <= n,
            n == key@.len(),
            out@ =~= key@.subrange(prefix_len as int, k as int),
        decreases n - k,
    {
        proof {
            assert(key@.subrange(prefix_len as int, k as int + 1) =~= key@.subrange(
                prefix_len as int,
                k as int,
            ).push(key@[k as int]));
        }
        let byte = key[k];
        out.push(byte);
        k = k + 1;
    }
    proof {
        assert(out@ =~= key@.skip(prefix_len as int));
    }
    Some(out)
}

/// Decodes every entry of a storage walk over a map keyed by a 4-byte
/// little-endian id: each 52-byte key becomes the id it carries at offset
/// 48. `None` when any key has another length.
pub fn decode_cid_keyed_entries<V>(entries: Vec<(Vec<u8>, V)>) -> (r: Option<Vec<(u32, V)>>)
    ensures
        (match r {
            Some(out) => {
                &&& out@.len() == entries@.len()
                &&& forall|i: int|
                    0 <= i < entries@.len() ==> (#[trigger] entries@[i]).0@.len() == 52
                &&& forall|i: int|
                    0 <= i < entries@.len() ==> (#[trigger] out@[i]) == (
                    spec_cid_at(entries@[i].0@, 48),
                    entries@[i].1,
                )
            },
            None => exists|i: int|
                0 <= i < entries@.len() && (#[trigger] entries@[i]).0@.len() != 52,
        }),
{
    let ghost all = entries@;
    let mut rest = entries;
    let mut out: Vec<(u32, V)> = Vec::new();
    while rest.len() > 0
        invariant
            all == entries@,
            out@.len() + rest@.len() == all.len(),
            rest@ =~= all.skip(out@.len() as int),
            forall|i: int| 0 <= i < out@.len() ==> (#[trigger] all[i]).0@.len() == 52,
            forall|i: int|
                0 <= i < out@.len() ==> (#[trigger] out@[i]) == (
                spec_cid_at(all[i].0@, 48),
                all[i].1,
            ),
        decreases rest@.len(),
    {
        let ghost done = out@.len() as int;
        let (k, v) = rest.remove(0);
        proof {
            assert(all[done] == (k, v));
            assert(rest@ =~= all.skip(done + 1));
        }
        match cid_from_storage_key(&k) {
            Some(cid) => {
                out.push((cid, v));
            },
            None => {
                proof {
                    assert(0 <= done < entries@.len());
                    assert((entries@[done]).0@.len() != 52);
                }
                return None;
            },
        }
    }
    Some(out)
}

/// Decodes every entry of a storage walk over a map whose keys carry the
/// plain map key after a hashed prefix of `prefix_len` bytes (49 for the
/// identity maps). `None` when any key is shorter than the prefix.
pub fn decode_suffix_keyed_entries<V>(entries: Vec<(Vec<u8>, V)>, prefix_len: usize) -> (r: Option<
    Vec<(Vec<u8>, V)>,
>)
    ensures
        (match r {
            Some(out) => {
                &&& out@.len() == entries@.len()
                &&& forall|i: int|
                    0 <= i < entries@.len() ==> (#[trigger] entries@[i]).0@.len() >= prefix_len
                &&& forall|i: int|
                    0 <= i < entries@.len() ==> (#[trigger] out@[i]).0@ == entries@[i].0@.skip(
                        prefix_len as int,
                    ) && out@[i].1 == entries@[i].1
            },
            None => exists|i: int|
                0 <= i < entries@.len() && (#[trigger] entries@[i]).0@.len() < prefix_len,
        }),
{
    let ghost all = entries@;
    let mut rest = entries;
    let mut out: Vec<(Vec<u8>, V)> = Vec::new();
    while rest.len() > 0
        invariant
            all == entries@,
            out@.len() + rest@.len() == all.len(),
            rest@ =~= all.skip(out@.len() as int),
            forall|i: int| 0 <= i < out@.len() ==> (#[trigger] all[i]).0@.len() >= prefix_len,
            forall|i: int|
                0 <= i < out@.len() ==> (#[trigger] out@[i]).0@ == all[i].0@.skip(prefix_len as int)
                    && out@[i].1 == all[i].1,
        decreases rest@.len(),
    {
        let ghost done = out@.len() as int;
        let (k, v) = rest.remove(0);
        proof {
            assert(all[done] == (k, v));
            assert(rest@ =~= all.skip(done + 1));
        }
        match storage_key_suffix(&k, prefix_len) {
            Some(suffix) => {
                out.push((suffix, v));
            },
            None => {
                proof {
                    assert(0 <= done < entries@.len());
                    assert((entries@[done]).0@.len() < prefix_len);
                }
                return None;
            },
        }
    }
    Some(out)
}

/// Decodes every entry of a storage walk over the failure map, whose keys
/// carry a 4-byte little-endian committee id at offset 48 and a fork byte
/// at offset 68. `None` when any key is too short to carry them.
pub fn decode_cid_fork_keyed_entries<V>(entries: Vec<(Vec<u8>, V)>) -> (r: Option<
    Vec<(u32, u8, V)>,
>)
    ensures
        (match r {
            Some(out) => {
                &&& out@.len() == entries@.len()
                &&& forall|i: int|
                    0 <= i < entries@.len() ==> (#[trigger] entries@[i]).0@.len() >= 69
                &&& forall|i: int|
                    0 <= i < entries@.len() ==> (#[trigger] out@[i]) == (
                    spec_cid_at(entries@[i].0@, 48),
                    entries@[i].0@[68],
                    entries@[i].1,
                )
            },
            None => exists|i: int|
                0 <= i < entries@.len() && (#[trigger] entries@[i]).0@.len() < 69,
        }),
{
    let ghost all = entries@;
    let mut rest = entries;
    let mut out: Vec<(u32, u8, V)> = Vec::new();
    while rest.len() > 0
        invariant
            all == entries@,
            out@.len() + rest@.len() == all.len(),
            rest@ =~= all.skip(out@.len() as int),
            forall|i: int| 0 <= i < out@.len() ==> (#[trigger] all[i]).0@.len() >= 69,
            forall|i: int|
                0 <= i < out@.len() ==> (#[trigger] out@[i]) == (
                spec_cid_at(all[i].0@, 48),
                all[i].0@[68],
                all[i].1,
            ),
        decreases rest@.len(),
    {
        let ghost done = out@.len() as int;
        let (k, v) = rest.remove(0);
        proof {
            assert(all[done] == (k, v));
            assert(rest@ =~= all.skip(done + 1));
        }
        match cid_and_fork_from_storage_key(&k) {
            Some((cid, fork)) => {
                out.push((cid, fork, v));
            },
            None => {
                proof {
                    assert(0 <= done < entries@.len());
                    assert((entries@[done]).0@.len() < 69);
                }
                return None;
            },
        }
    }
    Some(out)
}

} // verus!
