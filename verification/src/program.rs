//! The addresses and seeds that the on-demand oracle program fixes, and the
//! addresses derived from them.

use crate::pubkey::{derived_address, find_program_address, seeds_view, Pubkey};
use vstd::prelude::*;
use vstd::slice::slice_to_vec;

verus! {

/// The program on the main network: `SBondMDrcV3K4kxZR1HNVT7osZxAHVHgYXL5Ze1oMUv`.
pub const ON_DEMAND_MAINNET_PID: [u8; 32] = [
    6, 115, 189, 70, 242, 228, 126, 4, 241, 43, 217, 47, 183, 49, 150, 142,
    205, 157, 151, 87, 194, 116, 218, 135, 71, 111, 70, 92, 4, 12, 101, 115,
];

/// The program on the development network:
/// `Aio4gaXjXzJNVLtzwtNVmSqGKpANtXhybbkhtAC94ji2`.
pub const ON_DEMAND_DEVNET_PID: [u8; 32] = [
    144, 110, 20, 100, 197, 248, 183, 99, 60, 192, 90, 66, 76, 221, 179, 174,
    205, 109, 171, 184, 174, 199, 71, 188, 79, 62, 17, 48, 30, 64, 99, 203,
];

/// The program that this library builds instructions for: the one on the main
/// network.
pub const SWITCHBOARD_ON_DEMAND_PROGRAM_ID: [u8; 32] = ON_DEMAND_MAINNET_PID;

/// The token program: `TokenkegQfeZyiNwAJbNbGKPFXCWuBvf9Ss623VQ5DA`.
pub const SPL_TOKEN_PROGRAM_ID: [u8; 32] = [
    6, 221, 246, 225, 215, 101, 161, 147, 217, 203, 225, 70, 206, 235, 121, 172,
    28, 180, 133, 237, 95, 91, 55, 145, 58, 140, 245, 133, 126, 255, 0, 169,
];

/// The program of associated token accounts:
/// `ATokenGPvbdGVxr1b2hvZbsiqW5xWH25efTNsLJA8knL`.
pub const SPL_ASSOCIATED_TOKEN_ACCOUNT_PROGRAM_ID: [u8; 32] = [
    140, 151, 37, 143, 78, 36, 137, 241, 187, 61, 16, 41, 20, 142, 13, 131,
    11, 90, 19, 153, 218, 255, 16, 132, 4, 142, 123, 216, 219, 233, 248, 89,
];

/// The mint of the wrapped native token:
/// `So11111111111111111111111111111111111111112`.
pub const NATIVE_MINT: [u8; 32] = [
    6, 155, 136, 87, 254, 171, 129, 132, 251, 104, 127, 99, 70, 24, 192, 53,
    218, 196, 57, 220, 26, 235, 59, 85, 152, 160, 240, 0, 0, 0, 0, 1,
];

/// The account of the recent slot hashes:
/// `SysvarS1otHashes111111111111111111111111111`.
pub const SLOT_HASHES_ID: [u8; 32] = [
    6, 167, 213, 23, 25, 47, 10, 175, 198, 242, 101, 227, 251, 119, 204, 122,
    218, 130, 197, 41, 208, 190, 59, 19, 110, 45, 0, 85, 32, 0, 0, 0,
];

/// The system program: `11111111111111111111111111111111`.
pub const SYSTEM_PROGRAM_ID: [u8; 32] = [
    0, 0, 0, 0, 0, 0, 0, 0, 0, 0, 0, 0, 0, 0, 0, 0,
    0, 0, 0, 0, 0, 0, 0, 0, 0, 0, 0, 0, 0, 0, 0, 0,
];

/// `STATE`
pub const STATE_SEED: [u8; 5] = [83, 84, 65, 84, 69];

/// `OracleFeedStats`
pub const ORACLE_FEED_STATS_SEED: [u8; 15] = [
    79, 114, 97, 99, 108, 101, 70, 101, 101, 100, 83, 116, 97, 116, 115,
];

/// `OracleRandomnessStats`
pub const ORACLE_RANDOMNESS_STATS_SEED: [u8; 21] = [
    79, 114, 97, 99, 108, 101, 82, 97, 110, 100, 111, 109, 110, 101, 115, 115,
    83, 116, 97, 116, 115,
];

/// `OracleStats`
pub const ORACLE_STATS_SEED: [u8; 11] = [79, 114, 97, 99, 108, 101, 83, 116, 97, 116, 115];

/// `LutSigner`
pub const LUT_SIGNER_SEED: [u8; 9] = [76, 117, 116, 83, 105, 103, 110, 101, 114];

/// `Delegation`
pub const DELEGATION_SEED: [u8; 10] = [68, 101, 108, 101, 103, 97, 116, 105, 111, 110];

/// `Group`
pub const DELEGATION_GROUP_SEED: [u8; 5] = [71, 114, 111, 117, 112];

/// `RewardPool`
pub const REWARD_POOL_VAULT_SEED: [u8; 10] = [82, 101, 119, 97, 114, 100, 80, 111, 111, 108];

/// The address derived from a seed that the program fixes and from the key of
/// an account, under the program named by `program`.
pub fn derive_for_key(seed: &[u8], key: &Pubkey, program: [u8; 32]) -> (r: Option<Pubkey>)
    ensures
        r is Some <==> derived_address(seq![seed@, key@], program@) is Some,
        r is Some ==> derived_address(seq![seed@, key@], program@) == Some(r->0@),
{
    let mut seeds: Vec<Vec<u8>> = Vec::new();
    seeds.push(slice_to_vec(seed));
    seeds.push(key.to_vec());
    proof {
        assert(seeds_view(seeds@) =~= seq![seed@, key@]);
    }
    find_program_address(&seeds, &Pubkey { bytes: program })
}

/// The address of the account in which the program keeps the statistics of
/// the oracle `oracle`.
pub open spec fn stats_address(oracle: Seq<u8>) -> Option<Seq<u8>> {
    derived_address(seq![ORACLE_STATS_SEED@, oracle], SWITCHBOARD_ON_DEMAND_PROGRAM_ID@)
}

/// The address that signs for the lookup table of the account `owner`.
pub open spec fn lut_signer_address(owner: Seq<u8>) -> Option<Seq<u8>> {
    derived_address(seq![LUT_SIGNER_SEED@, owner], SWITCHBOARD_ON_DEMAND_PROGRAM_ID@)
}

/// The address of the state account of the program.
pub open spec fn state_address() -> Option<Seq<u8>> {
    derived_address(seq![STATE_SEED@], SWITCHBOARD_ON_DEMAND_PROGRAM_ID@)
}

/// The address of the token account that `wallet` holds for `mint`.
pub open spec fn associated_token_address(wallet: Seq<u8>, mint: Seq<u8>) -> Option<Seq<u8>> {
    derived_address(
        seq![wallet, SPL_TOKEN_PROGRAM_ID@, mint],
        SPL_ASSOCIATED_TOKEN_ACCOUNT_PROGRAM_ID@,
    )
}

/// Derives the address of the token account that `wallet` holds for `mint`.
pub fn get_associated_token_address(wallet: &Pubkey, mint: &Pubkey) -> (r: Option<Pubkey>)
    ensures
        r is Some <==> associated_token_address(wallet@, mint@) is Some,
        r is Some ==> associated_token_address(wallet@, mint@) == Some(r->0@),
{
    let mut seeds: Vec<Vec<u8>> = Vec::new();
    seeds.push(wallet.to_vec());
    seeds.push(slice_to_vec(&SPL_TOKEN_PROGRAM_ID));
    seeds.push(mint.to_vec());
    proof {
        assert(seeds_view(seeds@) =~= seq![wallet@, SPL_TOKEN_PROGRAM_ID@, mint@]);
    }
    find_program_address(&seeds, &Pubkey { bytes: SPL_ASSOCIATED_TOKEN_ACCOUNT_PROGRAM_ID })
}

/// Derives the address that signs for the lookup table of the account `k`.
pub fn find_lut_signer(k: &Pubkey) -> (r: Option<Pubkey>)
    ensures
        r is Some <==> lut_signer_address(k@) is Some,
        r is Some ==> lut_signer_address(k@) == Some(r->0@),
{
    derive_for_key(&LUT_SIGNER_SEED, k, SWITCHBOARD_ON_DEMAND_PROGRAM_ID)
}

} // verus!
