//! The pull feed account and its current result.

use crate::bytes::{le_value, read_array_32, read_i128, read_i64, read_u32, read_u64};
use crate::bytes::{twos_complement_128, twos_complement_64};
use crate::decimal::{Decimal, MAX_MANTISSA, PRECISION};
use crate::encoding::{hex_encode, hex_text};
use crate::lut_owner::LutOwner;
use crate::pubkey::Pubkey;
use vstd::prelude::*;

verus! {

/// The number of submissions that a feed keeps.
pub const MAX_SAMPLES: usize = 32;

/// The current aggregated result of a feed. Values are fixed-point numbers with `PRECISION` fractional digits.
#[derive(Clone, Copy, Debug)]
pub struct CurrentResult {
    /// The median value of the submissions needed for quorum size.
    pub value: i128,
    /// The standard deviation of the submissions needed for quorum size.
    pub std_dev: i128,
    /// The mean of the submissions needed for quorum size.
    pub mean: i128,
    /// The range of the submissions needed for quorum size.
    pub range: i128,
    /// The minimum value of the submissions needed for quorum size.
    pub min_value: i128,
    /// The maximum value of the submissions needed for quorum size.
    pub max_value: i128,
    /// The number of samples used to calculate this result.
    pub num_samples: u8,
    /// The slot at which this value was signed.
    pub slot: u64,
    /// The slot at which the first considered submission was made.
    pub min_slot: u64,
    /// The slot at which the last considered submission was made.
    pub max_slot: u64,
}

impl CurrentResult {
    /// Whether `self` is what the 128 bytes of `data` from `at` on hold.
    pub open spec fn stored_at(&self, data: Seq<u8>, at: int) -> bool {
        &&& twos_complement_128(self.value as int) == le_value(data.subrange(at, at + 16))
        &&& twos_complement_128(self.std_dev as int) == le_value(data.subrange(at + 16, at + 32))
        &&& twos_complement_128(self.mean as int) == le_value(data.subrange(at + 32, at + 48))
        &&& twos_complement_128(self.range as int) == le_value(data.subrange(at + 48, at + 64))
        &&& twos_complement_128(self.min_value as int) == le_value(data.subrange(at + 64, at + 80))
        &&& twos_complement_128(self.max_value as int) == le_value(data.subrange(at + 80, at + 96))
        &&& self.num_samples == data[at + 96]
        &&& self.slot as nat == le_value(data.subrange(at + 104, at + 112))
        &&& self.min_slot as nat == le_value(data.subrange(at + 112, at + 120))
        &&& self.max_slot as nat == le_value(data.subrange(at + 120, at + 128))
    }

    /// Reads the value stored in the 128 bytes of `data` from `at` on.
    pub fn read(data: &[u8], at: usize) -> (r: Self)
        requires
            at + 128 <= data@.len(),
        ensures
            r.stored_at(data@, at as int),
    {
        let len = data.len();
        assert(at + 128 <= len);
        let value = read_i128(data, at);
        let std_dev = read_i128(data, at + 16);
        let mean = read_i128(data, at + 32);
        let range = read_i128(data, at + 48);
        let min_value = read_i128(data, at + 64);
        let max_value = read_i128(data, at + 80);
        let num_samples = data[at + 96];
        let slot = read_u64(data, at + 104);
        let min_slot = read_u64(data, at + 112);
        let max_slot = read_u64(data, at + 120);
        CurrentResult {
            value,
            std_dev,
            mean,
            range,
            min_value,
            max_value,
            num_samples,
            slot,
            min_slot,
            max_slot,
        }
    }

    /// Reads a value from its stored form, which has exactly 128 bytes.
    pub fn from_bytes(data: &[u8]) -> (r: Option<Self>)
        ensures
            r is Some <==> data@.len() == 128,
            r is Some ==> r->0.stored_at(data@, 0),
    {
        if data.len() != 128 {
            return None;
        }
        Some(Self::read(data, 0))
    }
}
/// The decimal number that a stored value at `PRECISION` fractional digits
/// stands for. There is none where the value does not fit the 96 bits of a
/// decimal mantissa.
pub fn stored_decimal(value: i128) -> (r: Option<Decimal>)
    ensures
        r is Some <==> -MAX_MANTISSA <= value <= MAX_MANTISSA,
        r is Some ==> r->0.spec_mantissa() == value && r->0.spec_scale() == PRECISION,
{
    Decimal::try_from_i128_with_scale(value, PRECISION)
}

impl CurrentResult {
    /// The median value of the submissions needed for quorum size.
    pub fn value(&self) -> (r: Option<Decimal>)
        ensures
            r is Some <==> -MAX_MANTISSA <= self.value <= MAX_MANTISSA,
            r is Some ==> r->0.spec_mantissa() == self.value && r->0.spec_scale() == PRECISION,
    {
        stored_decimal(self.value)
    }

    /// The standard deviation of the submissions needed for quorum size.
    pub fn std_dev(&self) -> (r: Option<Decimal>)
        ensures
            r is Some <==> -MAX_MANTISSA <= self.std_dev <= MAX_MANTISSA,
            r is Some ==> r->0.spec_mantissa() == self.std_dev && r->0.spec_scale() == PRECISION,
    {
        stored_decimal(self.std_dev)
    }

    /// The mean of the submissions needed for quorum size.
    pub fn mean(&self) -> (r: Option<Decimal>)
        ensures
            r is Some <==> -MAX_MANTISSA <= self.mean <= MAX_MANTISSA,
            r is Some ==> r->0.spec_mantissa() == self.mean && r->0.spec_scale() == PRECISION,
    {
        stored_decimal(self.mean)
    }

    /// The range of the submissions needed for quorum size.
    pub fn range(&self) -> (r: Option<Decimal>)
        ensures
            r is Some <==> -MAX_MANTISSA <= self.range <= MAX_MANTISSA,
            r is Some ==> r->0.spec_mantissa() == self.range && r->0.spec_scale() == PRECISION,
    {
        stored_decimal(self.range)
    }

    /// The minimum value of the submissions needed for quorum size.
    pub fn min_value(&self) -> (r: Option<Decimal>)
        ensures
            r is Some <==> -MAX_MANTISSA <= self.min_value <= MAX_MANTISSA,
            r is Some ==> r->0.spec_mantissa() == self.min_value && r->0.spec_scale() == PRECISION,
    {
        stored_decimal(self.min_value)
    }

    /// The maximum value of the submissions needed for quorum size.
    pub fn max_value(&self) -> (r: Option<Decimal>)
        ensures
            r is Some <==> -MAX_MANTISSA <= self.max_value <= MAX_MANTISSA,
            r is Some ==> r->0.spec_mantissa() == self.max_value && r->0.spec_scale() == PRECISION,
    {
        stored_decimal(self.max_value)
    }

    /// The slot at which the result was signed.
    pub fn result_slot(&self) -> (r: u64)
        ensures
            r == self.slot,
    {
        self.slot
    }

    /// The slot at which the first considered submission was made.
    pub fn min_slot(&self) -> (r: u64)
        ensures
            r == self.min_slot,
    {
        self.min_slot
    }

    /// The slot at which the last considered submission was made.
    pub fn max_slot(&self) -> (r: u64)
        ensures
            r == self.max_slot,
    {
        self.max_slot
    }
}

/// One oracle's submission to a feed.
#[derive(Clone, Copy, Debug)]
pub struct OracleSubmission {
    /// The public key of the oracle that submitted this value.
    pub oracle: Pubkey,
    /// The slot at which this value was signed.
    pub slot: u64,
    /// The value that was submitted.
    pub value: i128,
}

impl OracleSubmission {
    /// Whether `self` is what the 64 bytes of `data` from `at` on hold.
    pub open spec fn stored_at(&self, data: Seq<u8>, at: int) -> bool {
        &&& self.oracle@ == data.subrange(at, at + 32)
        &&& self.slot as nat == le_value(data.subrange(at + 32, at + 40))
        &&& twos_complement_128(self.value as int) == le_value(data.subrange(at + 48, at + 64))
    }

    /// Reads the value stored in the 64 bytes of `data` from `at` on.
    pub fn read(data: &[u8], at: usize) -> (r: Self)
        requires
            at + 64 <= data@.len(),
        ensures
            r.stored_at(data@, at as int),
    {
        let len = data.len();
        assert(at + 64 <= len);
        let oracle = Pubkey::read(data, at);
        let slot = read_u64(data, at + 32);
        let value = read_i128(data, at + 48);
        OracleSubmission {
            oracle,
            slot,
            value,
        }
    }

    /// Reads a value from its stored form, which has exactly 64 bytes.
    pub fn from_bytes(data: &[u8]) -> (r: Option<Self>)
        ensures
            r is Some <==> data@.len() == 64,
            r is Some ==> r->0.stored_at(data@, 0),
    {
        if data.len() != 64 {
            return None;
        }
        Some(Self::read(data, 0))
    }
}

impl OracleSubmission {
    /// Reads the 32 values that are stored one after the other from `at` on.
    pub fn read_32(data: &[u8], at: usize) -> (r: [Self; 32])
        requires
            at + 2048 <= data@.len(),
        ensures
            forall|i: int| 0 <= i < 32 ==> (#[trigger] r[i]).stored_at(data@, at + 64 * i),
    {
        let len = data.len();
        let mut out = [Self::read(data, at); 32];
        let mut i: usize = 1;
        while i < 32
            invariant
                1 <= i <= 32,
                at + 2048 <= data@.len() == len,
                forall|j: int| 0 <= j < i ==> (#[trigger] out[j]).stored_at(data@, at + 64 * j),
            decreases 32 - i,
        {
            out[i] = Self::read(data, at + 64 * i);
            i += 1;
        }
        out
    }
}

impl OracleSubmission {
    /// Whether the place holds no submission.
    pub fn is_empty(&self) -> (r: bool)
        ensures
            r == (self.slot == 0),
    {
        self.slot == 0
    }

    /// The value that was submitted.
    pub fn value(&self) -> (r: Option<Decimal>)
        ensures
            r is Some <==> -MAX_MANTISSA <= self.value <= MAX_MANTISSA,
            r is Some ==> r->0.spec_mantissa() == self.value && r->0.spec_scale() == PRECISION,
    {
        stored_decimal(self.value)
    }
}

/// A representation of the data in a pull feed account.
#[derive(Clone, Copy, Debug)]
pub struct PullFeedAccountData {
    /// The oracle submissions for this feed.
    pub submissions: [OracleSubmission; 32],
    /// The public key of the authority that can update the feed hash that this
    /// account will use for registering updates.
    pub authority: Pubkey,
    /// The public key of the queue which oracles must be bound to in order to
    /// submit data to this feed.
    pub queue: Pubkey,
    /// SHA-256 hash of the job schema oracles will execute to produce data for
    /// this feed.
    pub feed_hash: [u8; 32],
    /// The slot at which this account was initialized.
    pub initialized_at: i64,
    pub permissions: u64,
    pub max_variance: u64,
    pub min_responses: u32,
    pub name: [u8; 32],
    pub min_sample_size: u8,
    pub last_update_timestamp: i64,
    pub lut_slot: u64,
    pub ipfs_hash: [u8; 32],
    pub result: CurrentResult,
    pub max_staleness: u32,
}

impl PullFeedAccountData {
    /// Whether `self` is what the 3200 bytes of `data` from `at` on hold.
    pub open spec fn stored_at(&self, data: Seq<u8>, at: int) -> bool {
        &&& forall|i: int|
            0 <= i < 32 ==> (#[trigger] self.submissions[i]).stored_at(data, at + 64 * i)
        &&& self.authority@ == data.subrange(at + 2048, at + 2080)
        &&& self.queue@ == data.subrange(at + 2080, at + 2112)
        &&& self.feed_hash@ == data.subrange(at + 2112, at + 2144)
        &&& twos_complement_64(self.initialized_at as int) == le_value(data.subrange(at + 2144, at + 2152))
        &&& self.permissions as nat == le_value(data.subrange(at + 2152, at + 2160))
        &&& self.max_variance as nat == le_value(data.subrange(at + 2160, at + 2168))
        &&& self.min_responses as nat == le_value(data.subrange(at + 2168, at + 2172))
        &&& self.name@ == data.subrange(at + 2172, at + 2204)
        &&& self.min_sample_size == data[at + 2207]
        &&& twos_complement_64(self.last_update_timestamp as int) == le_value(data.subrange(at + 2208, at + 2216))
        &&& self.lut_slot as nat == le_value(data.subrange(at + 2216, at + 2224))
        &&& self.ipfs_hash@ == data.subrange(at + 2224, at + 2256)
        &&& self.result.stored_at(data, at + 2256)
        &&& self.max_staleness as nat == le_value(data.subrange(at + 2384, at + 2388))
    }

    /// Reads the value stored in the 3200 bytes of `data` from `at` on.
    pub fn read(data: &[u8], at: usize) -> (r: Self)
        requires
            at + 3200 <= data@.len(),
        ensures
            r.stored_at(data@, at as int),
    {
        let len = data.len();
        assert(at + 3200 <= len);
        let submissions = OracleSubmission::read_32(data, at);
        let authority = Pubkey::read(data, at + 2048);
        let queue = Pubkey::read(data, at + 2080);
        let feed_hash = read_array_32(data, at + 2112);
        let initialized_at = read_i64(data, at + 2144);
        let permissions = read_u64(data, at + 2152);
        let max_variance = read_u64(data, at + 2160);
        let min_responses = read_u32(data, at + 2168);
        let name = read_array_32(data, at + 2172);
        let min_sample_size = data[at + 2207];
        let last_update_timestamp = read_i64(data, at + 2208);
        let lut_slot = read_u64(data, at + 2216);
        let ipfs_hash = read_array_32(data, at + 2224);
        let result = CurrentResult::read(data, at + 2256);
        let max_staleness = read_u32(data, at + 2384);
        PullFeedAccountData {
            submissions,
            authority,
            queue,
            feed_hash,
            initialized_at,
            permissions,
            max_variance,
            min_responses,
            name,
            min_sample_size,
            last_update_timestamp,
            lut_slot,
            ipfs_hash,
            result,
            max_staleness,
        }
    }

    /// Reads a value from its stored form, which has exactly 3200 bytes.
    pub fn from_bytes(data: &[u8]) -> (r: Option<Self>)
        ensures
            r is Some <==> data@.len() == 3200,
            r is Some ==> r->0.stored_at(data@, 0),
    {
        if data.len() != 3200 {
            return None;
        }
        Some(Self::read(data, 0))
    }
}
impl PullFeedAccountData {
    /// The median value of the submissions needed for quorum size.
    pub fn value(&self) -> (r: Option<Decimal>)
        ensures
            r is Some <==> -MAX_MANTISSA <= self.result.value <= MAX_MANTISSA,
            r is Some ==> r->0.spec_mantissa() == self.result.value && r->0.spec_scale()
                == PRECISION,
    {
        self.result.value()
    }

    /// The range of the submissions needed for quorum size.
    pub fn range(&self) -> (r: Option<Decimal>)
        ensures
            r is Some <==> -MAX_MANTISSA <= self.result.range <= MAX_MANTISSA,
            r is Some ==> r->0.spec_mantissa() == self.result.range && r->0.spec_scale()
                == PRECISION,
    {
        self.result.range()
    }

    /// The minimum value of the submissions needed for quorum size.
    pub fn min_value(&self) -> (r: Option<Decimal>)
        ensures
            r is Some <==> -MAX_MANTISSA <= self.result.min_value <= MAX_MANTISSA,
            r is Some ==> r->0.spec_mantissa() == self.result.min_value && r->0.spec_scale()
                == PRECISION,
    {
        self.result.min_value()
    }

    /// The maximum value of the submissions needed for quorum size.
    pub fn max_value(&self) -> (r: Option<Decimal>)
        ensures
            r is Some <==> -MAX_MANTISSA <= self.result.max_value <= MAX_MANTISSA,
            r is Some ==> r->0.spec_mantissa() == self.result.max_value && r->0.spec_scale()
                == PRECISION,
    {
        self.result.max_value()
    }

    /// The slot at which the current result was signed.
    pub fn result_slot(&self) -> (r: u64)
        ensures
            r == self.result.slot,
    {
        self.result.slot
    }

    /// The hash of the job schema in hexadecimal.
    pub fn feed_hash(&self) -> (r: String)
        ensures
            r@ == hex_text(self.feed_hash@),
    {
        hex_encode(&self.feed_hash)
    }
}

impl View for PullFeedAccountData {
    type V = PullFeedAccountData;

    open spec fn view(&self) -> PullFeedAccountData {
        *self
    }
}

/// The feed that the data `account` of a feed account hold behind the eight
/// bytes that name its schema.
pub open spec fn feed_stored(account: Seq<u8>) -> PullFeedAccountData {
    choose|feed: PullFeedAccountData| feed.stored_at(account, 8)
}

/// The data of an account hold at most one feed.
pub proof fn lemma_feed_stored_once(a: PullFeedAccountData, b: PullFeedAccountData, data: Seq<u8>, at: int)
    requires
        a.stored_at(data, at),
        b.stored_at(data, at),
    ensures
        a == b,
{
    assert(a.authority.bytes =~= b.authority.bytes);
    assert(a.queue.bytes =~= b.queue.bytes);
    assert(a.feed_hash =~= b.feed_hash);
    assert(a.name =~= b.name);
    assert(a.ipfs_hash =~= b.ipfs_hash);
    assert forall|i: int| 0 <= i < 32 implies a.submissions[i] == b.submissions[i] by {
        assert(a.submissions[i].stored_at(data, at + 64 * i));
        assert(b.submissions[i].stored_at(data, at + 64 * i));
        assert(a.submissions[i].oracle.bytes =~= b.submissions[i].oracle.bytes);
    }
    assert(a.submissions =~= b.submissions);
}

impl LutOwner for PullFeedAccountData {
    open spec fn stored_lut_slot(data: Seq<u8>) -> Option<u64> {
        if data.len() == 3200 {
            Some(le_value(data.subrange(2216, 2224)) as u64)
        } else {
            None
        }
    }

    open spec fn lut_slot_spec(&self) -> u64 {
        self.lut_slot
    }

    fn lut_slot(&self) -> (r: u64) {
        self.lut_slot
    }

    fn from_account_data(data: &[u8]) -> (r: Option<Self>) {
        Self::from_bytes(data)
    }
}

} // verus!
