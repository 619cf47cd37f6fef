//! The oracle account.

use crate::bytes::{le_value, read_array_32, read_array_64, read_i64, read_u64, twos_complement_64};
use crate::accounts::read_keys;
use crate::lut_owner::LutOwner;
use crate::program::{derive_for_key, stats_address, ORACLE_STATS_SEED};
use crate::program::SWITCHBOARD_ON_DEMAND_PROGRAM_ID;
use crate::pubkey::Pubkey;
use vstd::prelude::*;
use vstd::string::StrSliceExecFns;

verus! {

pub const KEY_ROTATE_KEEPALIVE_SLOTS: u64 = 1500;

pub const MAX_STALE_SECONDS: i64 = 300;

/// The state of the enclave of a quote verifier.
#[derive(Clone, Debug)]
pub struct Quote {
    /// The address of the signer generated within an enclave.
    pub enclave_signer: Pubkey,
    /// The measurement that dictates the contents of the secure enclave.
    pub mr_enclave: [u8; 32],
    /// The verification status of the quote.
    pub verification_status: u8,
    /// The unix timestamp when the quote was last verified.
    pub verification_timestamp: i64,
    /// The unix timestamp when the verification status of the quote expires.
    pub valid_until: i64,
    /// The off-chain registry where the quote of the verifier can be located.
    pub quote_registry: [u8; 32],
    /// Key to look up the buffer data in a decentralized storage.
    pub registry_key: [u8; 64],
    /// The secp256k1 public key of the enclave signer.
    pub secp256k1_signer: [u8; 64],
    pub last_ed25519_signer: Pubkey,
    pub last_secp256k1_signer: [u8; 64],
    pub last_rotate_slot: u64,
    pub guardian_approvers: Vec<Pubkey>,
    pub guardian_approvers_len: u8,
    pub staging_ed25519_signer: Pubkey,
    pub staging_secp256k1_signer: [u8; 64],
}

impl Quote {
    /// Whether `self` is what the 3432 bytes of `data` from `at` on hold.
    pub open spec fn stored_at(&self, data: Seq<u8>, at: int) -> bool {
        &&& self.enclave_signer@ == data.subrange(at, at + 32)
        &&& self.mr_enclave@ == data.subrange(at + 32, at + 64)
        &&& self.verification_status == data[at + 64]
        &&& twos_complement_64(self.verification_timestamp as int) == le_value(data.subrange(at + 72, at + 80))
        &&& twos_complement_64(self.valid_until as int) == le_value(data.subrange(at + 80, at + 88))
        &&& self.quote_registry@ == data.subrange(at + 88, at + 120)
        &&& self.registry_key@ == data.subrange(at + 120, at + 184)
        &&& self.secp256k1_signer@ == data.subrange(at + 184, at + 248)
        &&& self.last_ed25519_signer@ == data.subrange(at + 248, at + 280)
        &&& self.last_secp256k1_signer@ == data.subrange(at + 280, at + 344)
        &&& self.last_rotate_slot as nat == le_value(data.subrange(at + 344, at + 352))
        &&& self.guardian_approvers@.len() == 64
        &&& forall|i: int|
            0 <= i < 64 ==> (#[trigger] self.guardian_approvers@[i])@ == data.subrange(
                at + 352 + 32 * i,
                at + 384 + 32 * i,
            )
        &&& self.guardian_approvers_len == data[at + 2400]
        &&& self.staging_ed25519_signer@ == data.subrange(at + 2408, at + 2440)
        &&& self.staging_secp256k1_signer@ == data.subrange(at + 2440, at + 2504)
    }

    /// Reads the value stored in the 3432 bytes of `data` from `at` on.
    pub fn read(data: &[u8], at: usize) -> (r: Self)
        requires
            at + 3432 <= data@.len(),
        ensures
            r.stored_at(data@, at as int),
    {
        let len = data.len();
        assert(at + 3432 <= len);
        let enclave_signer = Pubkey::read(data, at);
        let mr_enclave = read_array_32(data, at + 32);
        let verification_status = data[at + 64];
        let verification_timestamp = read_i64(data, at + 72);
        let valid_until = read_i64(data, at + 80);
        let quote_registry = read_array_32(data, at + 88);
        let registry_key = read_array_64(data, at + 120);
        let secp256k1_signer = read_array_64(data, at + 184);
        let last_ed25519_signer = Pubkey::read(data, at + 248);
        let last_secp256k1_signer = read_array_64(data, at + 280);
        let last_rotate_slot = read_u64(data, at + 344);
        let guardian_approvers = read_keys(data, at + 352, 64);
        let guardian_approvers_len = data[at + 2400];
        let staging_ed25519_signer = Pubkey::read(data, at + 2408);
        let staging_secp256k1_signer = read_array_64(data, at + 2440);
        Quote {
            enclave_signer,
            mr_enclave,
            verification_status,
            verification_timestamp,
            valid_until,
            quote_registry,
            registry_key,
            secp256k1_signer,
            last_ed25519_signer,
            last_secp256k1_signer,
            last_rotate_slot,
            guardian_approvers,
            guardian_approvers_len,
            staging_ed25519_signer,
            staging_secp256k1_signer,
        }
    }

    /// Reads a value from its stored form, which has exactly 3432 bytes.
    pub fn from_bytes(data: &[u8]) -> (r: Option<Self>)
        ensures
            r is Some <==> data@.len() == 3432,
            r is Some ==> r->0.stored_at(data@, 0),
    {
        if data.len() != 3432 {
            return None;
        }
        Some(Self::read(data, 0))
    }
}
/// A representation of the data in an oracle account.
#[derive(Clone, Debug)]
pub struct OracleAccountData {
    /// The state of the enclave of the quote verifier.
    pub enclave: Quote,
    /// The authority of the account, which is permitted to make account
    /// changes.
    pub authority: Pubkey,
    /// Queue used for attestation to verify an enclave measurement.
    pub queue: Pubkey,
    /// The unix timestamp when the quote was created.
    pub created_at: i64,
    /// The last time the quote heartbeated on-chain.
    pub last_heartbeat: i64,
    pub secp_authority: [u8; 64],
    /// URI location of the gateway of the verifier.
    pub gateway_uri: [u8; 64],
    pub permissions: u64,
    /// Whether the quote is located on the buffer of the attestation queue.
    pub is_on_queue: u8,
    pub lut_slot: u64,
    pub last_reward_epoch: u64,
}

impl OracleAccountData {
    /// Whether `self` is what the 4808 bytes of `data` from `at` on hold.
    pub open spec fn stored_at(&self, data: Seq<u8>, at: int) -> bool {
        &&& self.enclave.stored_at(data, at + 0)
        &&& self.authority@ == data.subrange(at + 3432, at + 3464)
        &&& self.queue@ == data.subrange(at + 3464, at + 3496)
        &&& twos_complement_64(self.created_at as int) == le_value(data.subrange(at + 3496, at + 3504))
        &&& twos_complement_64(self.last_heartbeat as int) == le_value(data.subrange(at + 3504, at + 3512))
        &&& self.secp_authority@ == data.subrange(at + 3512, at + 3576)
        &&& self.gateway_uri@ == data.subrange(at + 3576, at + 3640)
        &&& self.permissions as nat == le_value(data.subrange(at + 3640, at + 3648))
        &&& self.is_on_queue == data[at + 3648]
        &&& self.lut_slot as nat == le_value(data.subrange(at + 3656, at + 3664))
        &&& self.last_reward_epoch as nat == le_value(data.subrange(at + 3664, at + 3672))
    }

    /// Reads the value stored in the 4808 bytes of `data` from `at` on.
    pub fn read(data: &[u8], at: usize) -> (r: Self)
        requires
            at + 4808 <= data@.len(),
        ensures
            r.stored_at(data@, at as int),
    {
        let len = data.len();
        assert(at + 4808 <= len);
        let enclave = Quote::read(data, at);
        let authority = Pubkey::read(data, at + 3432);
        let queue = Pubkey::read(data, at + 3464);
        let created_at = read_i64(data, at + 3496);
        let last_heartbeat = read_i64(data, at + 3504);
        let secp_authority = read_array_64(data, at + 3512);
        let gateway_uri = read_array_64(data, at + 3576);
        let permissions = read_u64(data, at + 3640);
        let is_on_queue = data[at + 3648];
        let lut_slot = read_u64(data, at + 3656);
        let last_reward_epoch = read_u64(data, at + 3664);
        OracleAccountData {
            enclave,
            authority,
            queue,
            created_at,
            last_heartbeat,
            secp_authority,
            gateway_uri,
            permissions,
            is_on_queue,
            lut_slot,
            last_reward_epoch,
        }
    }

    /// Reads a value from its stored form, which has exactly 4808 bytes.
    pub fn from_bytes(data: &[u8]) -> (r: Option<Self>)
        ensures
            r is Some <==> data@.len() == 4808,
            r is Some ==> r->0.stored_at(data@, 0),
    {
        if data.len() != 4808 {
            return None;
        }
        Some(Self::read(data, 0))
    }
}
/// The text that a lossy reading of `bytes` as UTF-8 gives: every sequence
/// that is no valid UTF-8 is replaced by the replacement character.
pub uninterp spec fn utf8_lossy_text(bytes: Seq<u8>) -> Seq<char>;

/// Calls `String::from_utf8_lossy` and makes a `String` of what it returns. The
/// text depends on the bytes alone.
#[verifier::external_body]
fn utf8_lossy(bytes: &[u8]) -> (r: String)
    ensures
        r@ == utf8_lossy_text(bytes@),
{
    String::from_utf8_lossy(bytes).into_owned()
}

/// The number of characters of `text` before its first NUL, all of them where
/// it holds none.
pub open spec fn first_nul(text: Seq<char>) -> nat
    decreases text.len(),
{
    if text.len() == 0 || text[0] == '\0' {
        0
    } else {
        1 + first_nul(text.drop_first())
    }
}

proof fn lemma_first_nul(text: Seq<char>, n: nat)
    requires
        n <= text.len(),
        forall|j: int| 0 <= j < n ==> text[j] != '\0',
        n == text.len() || text[n as int] == '\0',
    ensures
        first_nul(text) == n,
    decreases n,
{
    if n > 0 {
        let rest = text.drop_first();
        assert forall|j: int| 0 <= j < n - 1 implies rest[j] != '\0' by {
            assert(rest[j] == text[j + 1]);
        }
        lemma_first_nul(rest, (n - 1) as nat);
    }
}

impl OracleAccountData {
    /// Derives the address of the account that keeps the statistics of `oracle`.
    pub fn stats_key(oracle: &Pubkey) -> (r: Option<Pubkey>)
        ensures
            r is Some <==> stats_address(oracle@) is Some,
            r is Some ==> stats_address(oracle@) == Some(r->0@),
    {
        derive_for_key(&ORACLE_STATS_SEED, oracle, SWITCHBOARD_ON_DEMAND_PROGRAM_ID)
    }

    /// The address of the gateway as the account stores it: the text before
    /// the first NUL, or `None` where there is no such text.
    pub open spec fn gateway_uri_spec(&self) -> Option<Seq<char>> {
        let text = utf8_lossy_text(self.gateway_uri@);
        if first_nul(text) == 0 {
            None
        } else {
            Some(text.subrange(0, first_nul(text) as int))
        }
    }

    /// The address of the gateway of the oracle.
    pub fn gateway_uri(&self) -> (r: Option<String>)
        ensures
            match r {
                Some(uri) => self.gateway_uri_spec() == Some(uri@),
                None => self.gateway_uri_spec() is None,
            },
    {
        let text = utf8_lossy(&self.gateway_uri);
        let len = text.as_str().unicode_len();
        let mut n: usize = 0;
        while n < len && text.as_str().get_char(n) != '\0'
            invariant
                n <= len == text@.len(),
                forall|j: int| 0 <= j < n ==> text@[j] != '\0',
            decreases len - n,
        {
            n += 1;
        }
        proof {
            lemma_first_nul(text@, n as nat);
        }
        if n == 0 {
            return None;
        }
        Some(text.as_str().substring_char(0, n).to_owned())
    }
}

impl LutOwner for OracleAccountData {
    open spec fn stored_lut_slot(data: Seq<u8>) -> Option<u64> {
        if data.len() == 4808 {
            Some(le_value(data.subrange(3656, 3664)) as u64)
        } else {
            None
        }
    }

    open spec fn lut_slot_spec(&self) -> u64 {
        self.lut_slot
    }

    fn lut_slot(&self) -> (r: u64) {
        self.lut_slot
    }

    fn from_account_data(data: &[u8]) -> (r: Option<Self>) {
        Self::from_bytes(data)
    }
}

} // verus!
