//! The accounts of the oracle program that the client reads, each with the
//! layout of its stored form.


pub mod oracle;
pub mod pull_feed;
pub mod queue;
pub mod state;



use crate::pubkey::Pubkey;
use vstd::prelude::*;

verus! {

/// Reads `count` addresses that are stored one after the other from `at` on.
pub fn read_keys(data: &[u8], at: usize, count: usize) -> (r: Vec<Pubkey>)
    requires
        at + 32 * count <= data@.len(),
    ensures
        r@.len() == count,
        forall|i: int|
            0 <= i < count ==> (#[trigger] r@[i])@ == data@.subrange(
                at + 32 * i,
                at + 32 + 32 * i,
            ),
{
    let len = data.len();
    let mut out: Vec<Pubkey> = Vec::new();
    let mut i: usize = 0;
    while i < count
        invariant
            i <= count,
            at + 32 * count <= data@.len() == len,
            out@.len() == i,
            forall|j: int|
                0 <= j < i ==> (#[trigger] out@[j])@ == data@.subrange(
                    at + 32 * j,
                    at + 32 + 32 * j,
                ),
        decreases count - i,
    {
        out.push(Pubkey::read(data, at + 32 * i));
        i += 1;
    }
    out
}

/// Reads `count` strings of 32 bytes that are stored one after the other from
/// `at` on.
pub fn read_arrays_32(data: &[u8], at: usize, count: usize) -> (r: Vec<[u8; 32]>)
    requires
        at + 32 * count <= data@.len(),
    ensures
        r@.len() == count,
        forall|i: int|
            0 <= i < count ==> (#[trigger] r@[i])@ == data@.subrange(
                at + 32 * i,
                at + 32 + 32 * i,
            ),
{
    let len = data.len();
    let mut out: Vec<[u8; 32]> = Vec::new();
    let mut i: usize = 0;
    while i < count
        invariant
            i <= count,
            at + 32 * count <= data@.len() == len,
            out@.len() == i,
            forall|j: int|
                0 <= j < i ==> (#[trigger] out@[j])@ == data@.subrange(
                    at + 32 * j,
                    at + 32 + 32 * j,
                ),
        decreases count - i,
    {
        out.push(crate::bytes::read_array_32(data, at + 32 * i));
        i += 1;
    }
    out
}

/// The data of an account behind the eight bytes that name its schema, or
/// nothing where the account is missing or shorter than that.
pub open spec fn payload_of(account: Option<Seq<u8>>) -> Seq<u8> {
    match account {
        Some(data) => if data.len() >= 8 {
            data.subrange(8, data.len() as int)
        } else {
            Seq::empty()
        },
        None => Seq::empty(),
    }
}

} // verus!
