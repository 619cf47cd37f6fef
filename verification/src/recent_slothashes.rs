//! The account of the recent slot hashes.

use crate::bytes::{le_value, read_array_32, read_u64};
use vstd::prelude::*;

verus! {

/// A slot and the hash of its block.
#[derive(Clone, Copy, Debug)]
pub struct SlotHash {
    pub slot: u64,
    pub hash: [u8; 32],
}

/// The number of bytes that the entries of the account take: 512 entries of
/// 40 bytes.
pub const SLOT_HASHES_ENTRIES_SIZE: usize = 20480;

pub struct SlotHashSysvar;

impl SlotHashSysvar {
    /// The most recent slot and its hash, as the data of the account hold them:
    /// behind the eight bytes of the entry count stands the newest entry, its
    /// slot first. There is none where the data are shorter than the count and
    /// all the entries.
    pub fn get_latest_slothash(slots_data: &[u8]) -> (r: Option<SlotHash>)
        ensures
            r is Some <==> slots_data@.len() >= 8 + SLOT_HASHES_ENTRIES_SIZE,
            r is Some ==> r->0.slot as nat == le_value(slots_data@.subrange(8, 16)) && r->0.hash@
                == slots_data@.subrange(16, 48),
    {
        if slots_data.len() < 8 + SLOT_HASHES_ENTRIES_SIZE {
            return None;
        }
        Some(SlotHash { slot: read_u64(slots_data, 8), hash: read_array_32(slots_data, 16) })
    }
}

} // verus!
