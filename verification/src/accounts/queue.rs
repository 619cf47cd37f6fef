//! The queue account.

use crate::accounts::oracle::OracleAccountData;
use crate::accounts::{read_arrays_32, read_keys};
use crate::error::FetchError;
use crate::gateway::Gateway;
use crate::bytes::{le_value, read_i64, read_u32, read_u64, twos_complement_64};
use crate::lut_owner::LutOwner;
use crate::pubkey::Pubkey;
use vstd::prelude::*;

verus! {

/// A representation of the data in a queue account.
#[derive(Clone, Debug)]
pub struct QueueAccountData {
    /// The address of the authority which is permitted to add and remove
    /// allowed enclave measurements.
    pub authority: Pubkey,
    /// Allowed enclave measurements.
    pub mr_enclaves: Vec<[u8; 32]>,
    /// The addresses of the quote oracles who have a valid verification status
    /// and have heartbeated on-chain recently.
    pub oracle_keys: Vec<Pubkey>,
    /// The maximum allowable time until an enclave account needs to be re-
    /// verified on-chain.
    pub max_quote_verification_age: i64,
    /// The unix timestamp when the last quote oracle heartbeated on-chain.
    pub last_heartbeat: i64,
    pub node_timeout: i64,
    /// The minimum number of lamports a quote oracle needs to lock up in order
    /// to heartbeat and verify other quotes.
    pub oracle_min_stake: u64,
    pub allow_authority_override_after: i64,
    /// The number of allowed enclave measurements.
    pub mr_enclaves_len: u32,
    /// The length of valid quote oracles for the given attestation queue.
    pub oracle_keys_len: u32,
    /// The reward paid to quote oracles for attesting on-chain.
    pub reward: u32,
    /// Incrementer used to track the current quote oracle permitted to run any
    /// available functions.
    pub curr_idx: u32,
    /// Incrementer used to garbage collect and remove stale quote oracles.
    pub gc_idx: u32,
    pub require_authority_heartbeat_permission: u8,
    pub require_authority_verify_permission: u8,
    pub require_usage_permissions: u8,
    pub signer_bump: u8,
    pub mint: Pubkey,
    pub lut_slot: u64,
    pub allow_subsidies: u8,
}

impl QueueAccountData {
    /// Whether `self` is what the 6272 bytes of `data` from `at` on hold.
    pub open spec fn stored_at(&self, data: Seq<u8>, at: int) -> bool {
        &&& self.authority@ == data.subrange(at, at + 32)
        &&& self.mr_enclaves@.len() == 32
        &&& forall|i: int|
            0 <= i < 32 ==> (#[trigger] self.mr_enclaves@[i])@ == data.subrange(
                at + 32 + 32 * i,
                at + 64 + 32 * i,
            )
        &&& self.oracle_keys@.len() == 128
        &&& forall|i: int|
            0 <= i < 128 ==> (#[trigger] self.oracle_keys@[i])@ == data.subrange(
                at + 1056 + 32 * i,
                at + 1088 + 32 * i,
            )
        &&& twos_complement_64(self.max_quote_verification_age as int) == le_value(data.subrange(at + 5152, at + 5160))
        &&& twos_complement_64(self.last_heartbeat as int) == le_value(data.subrange(at + 5160, at + 5168))
        &&& twos_complement_64(self.node_timeout as int) == le_value(data.subrange(at + 5168, at + 5176))
        &&& self.oracle_min_stake as nat == le_value(data.subrange(at + 5176, at + 5184))
        &&& twos_complement_64(self.allow_authority_override_after as int) == le_value(data.subrange(at + 5184, at + 5192))
        &&& self.mr_enclaves_len as nat == le_value(data.subrange(at + 5192, at + 5196))
        &&& self.oracle_keys_len as nat == le_value(data.subrange(at + 5196, at + 5200))
        &&& self.reward as nat == le_value(data.subrange(at + 5200, at + 5204))
        &&& self.curr_idx as nat == le_value(data.subrange(at + 5204, at + 5208))
        &&& self.gc_idx as nat == le_value(data.subrange(at + 5208, at + 5212))
        &&& self.require_authority_heartbeat_permission == data[at + 5212]
        &&& self.require_authority_verify_permission == data[at + 5213]
        &&& self.require_usage_permissions == data[at + 5214]
        &&& self.signer_bump == data[at + 5215]
        &&& self.mint@ == data.subrange(at + 5216, at + 5248)
        &&& self.lut_slot as nat == le_value(data.subrange(at + 5248, at + 5256))
        &&& self.allow_subsidies == data[at + 5256]
    }

    /// Reads the value stored in the 6272 bytes of `data` from `at` on.
    pub fn read(data: &[u8], at: usize) -> (r: Self)
        requires
            at + 6272 <= data@.len(),
        ensures
            r.stored_at(data@, at as int),
    {
        let len = data.len();
        assert(at + 6272 <= len);
        let authority = Pubkey::read(data, at);
        let mr_enclaves = read_arrays_32(data, at + 32, 32);
        let oracle_keys = read_keys(data, at + 1056, 128);
        let max_quote_verification_age = read_i64(data, at + 5152);
        let last_heartbeat = read_i64(data, at + 5160);
        let node_timeout = read_i64(data, at + 5168);
        let oracle_min_stake = read_u64(data, at + 5176);
        let allow_authority_override_after = read_i64(data, at + 5184);
        let mr_enclaves_len = read_u32(data, at + 5192);
        let oracle_keys_len = read_u32(data, at + 5196);
        let reward = read_u32(data, at + 5200);
        let curr_idx = read_u32(data, at + 5204);
        let gc_idx = read_u32(data, at + 5208);
        let require_authority_heartbeat_permission = data[at + 5212];
        let require_authority_verify_permission = data[at + 5213];
        let require_usage_permissions = data[at + 5214];
        let signer_bump = data[at + 5215];
        let mint = Pubkey::read(data, at + 5216);
        let lut_slot = read_u64(data, at + 5248);
        let allow_subsidies = data[at + 5256];
        QueueAccountData {
            authority,
            mr_enclaves,
            oracle_keys,
            max_quote_verification_age,
            last_heartbeat,
            node_timeout,
            oracle_min_stake,
            allow_authority_override_after,
            mr_enclaves_len,
            oracle_keys_len,
            reward,
            curr_idx,
            gc_idx,
            require_authority_heartbeat_permission,
            require_authority_verify_permission,
            require_usage_permissions,
            signer_bump,
            mint,
            lut_slot,
            allow_subsidies,
        }
    }

    /// Reads a value from its stored form, which has exactly 6272 bytes.
    pub fn from_bytes(data: &[u8]) -> (r: Option<Self>)
        ensures
            r is Some <==> data@.len() == 6272,
            r is Some ==> r->0.stored_at(data@, 0),
    {
        if data.len() != 6272 {
            return None;
        }
        Some(Self::read(data, 0))
    }
}
impl QueueAccountData {
    /// The size of a queue account: the eight bytes that name the schema and
    /// the stored form.
    pub fn size() -> (r: usize)
        ensures
            r == 6280,
    {
        8 + 6272
    }

    /// The oracles currently in the queue.
    pub fn oracle_keys(&self) -> (r: Vec<Pubkey>)
        requires
            self.oracle_keys_len <= self.oracle_keys@.len(),
        ensures
            r@ == self.oracle_keys@.subrange(0, self.oracle_keys_len as int),
    {
        let count = self.oracle_keys_len as usize;
        let mut keys: Vec<Pubkey> = Vec::new();
        let mut i: usize = 0;
        while i < count
            invariant
                i <= count <= self.oracle_keys@.len(),
                keys@ == self.oracle_keys@.subrange(0, i as int),
            decreases count - i,
        {
            keys.push(self.oracle_keys[i]);
            assert(keys@ =~= self.oracle_keys@.subrange(0, i + 1));
            i += 1;
        }
        keys
    }
}

/// Whether `account` holds the data of an oracle account: the eight bytes
/// that name the schema and the stored form.
pub open spec fn holds_oracle(account: Option<Vec<u8>>) -> bool {
    account is Some && account->0@.len() == 4816
}

/// The addresses of the gateways that the oracles `oracles` name, in the
/// order of the oracles; an oracle that names none is passed over.
pub open spec fn gateway_uris(oracles: Seq<(Pubkey, OracleAccountData)>) -> Seq<Seq<char>>
    decreases oracles.len(),
{
    if oracles.len() == 0 {
        Seq::empty()
    } else {
        match oracles.last().1.gateway_uri_spec() {
            Some(uri) => gateway_uris(oracles.drop_last()).push(uri),
            None => gateway_uris(oracles.drop_last()),
        }
    }
}

/// The addresses of the gateways `gateways`.
pub open spec fn gateway_urls(gateways: Seq<Gateway>) -> Seq<Seq<char>> {
    Seq::new(gateways.len(), |i: int| gateways[i].url())
}

/// The addresses of those of `gateways` whose flag in `reachable` is set, in
/// their order.
pub open spec fn reachable_urls(gateways: Seq<Gateway>, reachable: Seq<bool>) -> Seq<Seq<char>>
    decreases gateways.len(),
{
    if gateways.len() == 0 || reachable.len() != gateways.len() {
        Seq::empty()
    } else if reachable.last() {
        reachable_urls(gateways.drop_last(), reachable.drop_last()).push(gateways.last().url())
    } else {
        reachable_urls(gateways.drop_last(), reachable.drop_last())
    }
}

impl QueueAccountData {
    /// Reads a queue from the data of its account: the stored form stands
    /// behind the eight bytes that name the schema.
    pub fn load(account: &[u8]) -> (r: Result<QueueAccountData, FetchError>)
        ensures
            r is Ok <==> account@.len() == 6280,
            r is Ok ==> r->Ok_0.stored_at(account@, 8),
            r is Err ==> r->Err_0 is DeserializeError,
    {
        if account.len() != 6280 {
            return Err(FetchError::DeserializeError);
        }
        Ok(QueueAccountData::read(account, 8))
    }

    /// Reads the accounts of the oracles of the queue from their data
    /// `accounts`, one for each oracle, and pairs each oracle with its key.
    /// The reading fails where an account is missing or holds no oracle, or
    /// where the accounts do not match the oracles in number.
    pub fn fetch_oracle_accounts(&self, accounts: &Vec<Option<Vec<u8>>>) -> (r: Result<
        Vec<(Pubkey, OracleAccountData)>,
        FetchError,
    >)
        requires
            self.oracle_keys_len <= self.oracle_keys@.len(),
        ensures
            match r {
                Ok(oracles) => {
                    &&& accounts@.len() == self.oracle_keys_len
                    &&& oracles@.len() == self.oracle_keys_len
                    &&& forall|i: int|
                        0 <= i < self.oracle_keys_len ==> holds_oracle(#[trigger] accounts@[i])
                    &&& forall|i: int|
                        0 <= i < self.oracle_keys_len ==> (#[trigger] oracles@[i]).0
                            == self.oracle_keys@[i] && oracles@[i].1.stored_at(
                            accounts@[i]->0@,
                            8,
                        )
                },
                Err(e) => e is DeserializeError && (accounts@.len() != self.oracle_keys_len
                    || exists|i: int|
                    0 <= i < self.oracle_keys_len && !holds_oracle(#[trigger] accounts@[i])),
            },
    {
        let keys = self.oracle_keys();
        if accounts.len() != keys.len() {
            return Err(FetchError::DeserializeError);
        }
        let mut oracles: Vec<(Pubkey, OracleAccountData)> = Vec::new();
        let mut i: usize = 0;
        while i < keys.len()
            invariant
                i <= keys@.len() == accounts@.len(),
                keys@.len() == self.oracle_keys_len <= self.oracle_keys@.len(),
                keys@ == self.oracle_keys@.subrange(0, self.oracle_keys_len as int),
                oracles@.len() == i,
                forall|j: int| 0 <= j < i ==> holds_oracle(#[trigger] accounts@[j]),
                forall|j: int|
                    0 <= j < i ==> (#[trigger] oracles@[j]).0 == self.oracle_keys@[j]
                        && oracles@[j].1.stored_at(accounts@[j]->0@, 8),
            decreases keys@.len() - i,
        {
            match &accounts[i] {
                Some(data) => {
                    if data.len() != 4816 {
                        assert(!holds_oracle(accounts@[i as int]));
                        return Err(FetchError::DeserializeError);
                    }
                    oracles.push((keys[i], OracleAccountData::read(data.as_slice(), 8)));
                },
                None => {
                    assert(!holds_oracle(accounts@[i as int]));
                    return Err(FetchError::DeserializeError);
                },
            }
            i += 1;
        }
        Ok(oracles)
    }

    /// The gateways that the oracles `oracles` name, in the order of the
    /// oracles.
    pub fn gateways(oracles: &Vec<(Pubkey, OracleAccountData)>) -> (r: Vec<Gateway>)
        ensures
            gateway_urls(r@) == gateway_uris(oracles@),
    {
        let mut gateways: Vec<Gateway> = Vec::new();
        let mut i: usize = 0;
        proof {
            assert(oracles@.subrange(0, 0) =~= Seq::<(Pubkey, OracleAccountData)>::empty());
            assert(gateway_urls(gateways@) =~= gateway_uris(oracles@.subrange(0, 0)));
        }
        while i < oracles.len()
            invariant
                i <= oracles@.len(),
                gateway_urls(gateways@) == gateway_uris(oracles@.subrange(0, i as int)),
            decreases oracles@.len() - i,
        {
            let ghost before = gateway_urls(gateways@);
            proof {
                let upto = oracles@.subrange(0, i + 1);
                assert(upto.drop_last() =~= oracles@.subrange(0, i as int));
                assert(upto.last() == oracles@[i as int]);
            }
            match oracles[i].1.gateway_uri() {
                Some(uri) => {
                    let ghost text = uri@;
                    gateways.push(Gateway::new(uri));
                    assert(gateway_urls(gateways@) =~= before.push(text));
                },
                None => {},
            }
            i += 1;
        }
        assert(oracles@.subrange(0, i as int) =~= oracles@);
        gateways
    }

    /// Keeps those of `gateways` that answered the test, as `reachable` says
    /// for each of them, in their order. None is kept where the flags do not
    /// match the gateways in number.
    pub fn fetch_gateways(gateways: &Vec<Gateway>, reachable: &Vec<bool>) -> (r: Vec<Gateway>)
        ensures
            gateway_urls(r@) == reachable_urls(gateways@, reachable@),
    {
        let mut good_gws: Vec<Gateway> = Vec::new();
        if reachable.len() != gateways.len() {
            assert(gateway_urls(good_gws@) =~= reachable_urls(gateways@, reachable@));
            return good_gws;
        }
        let mut i: usize = 0;
        proof {
            assert(gateways@.subrange(0, 0) =~= Seq::<Gateway>::empty());
            assert(gateway_urls(good_gws@) =~= reachable_urls(
                gateways@.subrange(0, 0),
                reachable@.subrange(0, 0),
            ));
        }
        while i < gateways.len()
            invariant
                i <= gateways@.len() == reachable@.len(),
                gateway_urls(good_gws@) == reachable_urls(
                    gateways@.subrange(0, i as int),
                    reachable@.subrange(0, i as int),
                ),
            decreases gateways@.len() - i,
        {
            let ghost before = gateway_urls(good_gws@);
            proof {
                assert(gateways@.subrange(0, i + 1).drop_last() =~= gateways@.subrange(0, i as int));
                assert(reachable@.subrange(0, i + 1).drop_last() =~= reachable@.subrange(
                    0,
                    i as int,
                ));
                assert(gateways@.subrange(0, i + 1).last() == gateways@[i as int]);
                assert(reachable@.subrange(0, i + 1).last() == reachable@[i as int]);
            }
            if reachable[i] {
                good_gws.push(Gateway::new(gateways[i].gateway_url().clone()));
                assert(gateway_urls(good_gws@) =~= before.push(gateways@[i as int].url()));
            }
            i += 1;
        }
        proof {
            assert(gateways@.subrange(0, i as int) =~= gateways@);
            assert(reachable@.subrange(0, i as int) =~= reachable@);
        }
        good_gws
    }
}

impl LutOwner for QueueAccountData {
    open spec fn stored_lut_slot(data: Seq<u8>) -> Option<u64> {
        if data.len() == 6272 {
            Some(le_value(data.subrange(5248, 5256)) as u64)
        } else {
            None
        }
    }

    open spec fn lut_slot_spec(&self) -> u64 {
        self.lut_slot
    }

    fn lut_slot(&self) -> (r: u64) {
        self.lut_slot
    }

    fn from_account_data(data: &[u8]) -> (r: Option<Self>) {
        Self::from_bytes(data)
    }
}

} // verus!
