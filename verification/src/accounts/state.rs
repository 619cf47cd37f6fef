//! The state account of the program.

use crate::program::{state_address, STATE_SEED, SWITCHBOARD_ON_DEMAND_PROGRAM_ID};
use crate::pubkey::{find_program_address, seeds_view, Pubkey};
use vstd::prelude::*;
use vstd::slice::slice_to_vec;

verus! {

#[derive(Clone, Copy, Debug)]
pub struct StateEpochInfo {
    pub id: u64,
    pub _reserved1: u64,
    pub slot_end: u64,
}

#[derive(Clone, Copy, Debug)]
pub struct State {
    pub bump: u8,
    pub test_only_disable_mr_enclave_check: u8,
    pub enable_staking: u8,
    pub authority: Pubkey,
    pub guardian_queue: Pubkey,
    pub reserved1: u64,
    pub epoch_length: u64,
    pub current_epoch: StateEpochInfo,
    pub next_epoch: StateEpochInfo,
    pub finalized_epoch: StateEpochInfo,
    pub stake_pool: Pubkey,
    pub stake_program: Pubkey,
    pub switch_mint: Pubkey,
    pub sgx_advisories: [u16; 32],
    pub advisories_len: u8,
    /// When oracles receive a reward, this is the percent of the total rewards
    /// that is distributed equally regardless of the stake amount.
    pub flat_reward_cut_percentage: u8,
    pub enable_slashing: u8,
    pub subsidy_amount: u32,
    pub lut_slot: u64,
}

impl State {
    /// Derives the address of the state account.
    pub fn key() -> (r: Option<Pubkey>)
        ensures
            r is Some <==> state_address() is Some,
            r is Some ==> state_address() == Some(r->0@),
    {
        let mut seeds: Vec<Vec<u8>> = Vec::new();
        seeds.push(slice_to_vec(&STATE_SEED));
        proof {
            assert(seeds_view(seeds@) =~= seq![STATE_SEED@]);
        }
        find_program_address(&seeds, &Self::pid())
    }

    /// The address of the program.
    pub fn pid() -> (r: Pubkey)
        ensures
            r@ == SWITCHBOARD_ON_DEMAND_PROGRAM_ID@,
    {
        Pubkey { bytes: SWITCHBOARD_ON_DEMAND_PROGRAM_ID }
    }
}

} // verus!
