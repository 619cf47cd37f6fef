//! Updates of pull feeds: the quotes that the oracles sign and the
//! instructions that submit them.

use crate::accounts::oracle::OracleAccountData;
use crate::accounts::pull_feed::{feed_stored, lemma_feed_stored_once, PullFeedAccountData};
use crate::accounts::state::State;
use crate::bytes::le_bytes;
use crate::decimal::{rescaled_mantissa, scaled_up, Decimal, MAX_MANTISSA, PRECISION};
use crate::encoding::{base58_encode, base58_text, base64_bytes, base64_to_64_bytes};
use crate::encoding::{decimal_i128, hex_bytes, hex_to_32_bytes, parse_i128};
use crate::error::FetchError;
use crate::gateway::{texts, FeedEvalManyResponse, FeedEvalResponse, FetchSignaturesParams};
use crate::instructions::{AccountMeta, Instruction, MultiSubmission, Submission};
use crate::instructions::{PullFeedSubmitResponse, PullFeedSubmitResponseMany};
use crate::instructions::{PullFeedSubmitResponseManyParams, PullFeedSubmitResponseParams};
use crate::instructions::{multi_submissions_bytes, submissions_bytes, NO_DATA};
use crate::instructions::{PULL_FEED_SUBMIT_RESPONSE_DISCRIMINATOR};
use crate::instructions::{PULL_FEED_SUBMIT_RESPONSE_MANY_DISCRIMINATOR};
use crate::program::{associated_token_address, get_associated_token_address, state_address};
use crate::program::{stats_address, NATIVE_MINT, SLOT_HASHES_ID, SPL_TOKEN_PROGRAM_ID};
use crate::program::{SWITCHBOARD_ON_DEMAND_PROGRAM_ID, SYSTEM_PROGRAM_ID};
use crate::pubkey::{keys_view, Pubkey};
use crate::recent_slothashes::SlotHash;
use vstd::prelude::*;

verus! {

/// One oracle's signed observation.
#[derive(Clone, Debug)]
pub struct OracleResponse {
    /// The value that the oracle observed, or `None` where it has none.
    pub value: Option<Decimal>,
    pub error: String,
    pub oracle: Pubkey,
    pub signature: [u8; 64],
    pub recovery_id: u8,
}

/// The observations of one round trip to the gateway, and how many of them
/// hold a value.
#[derive(Debug)]
pub struct QuoteCollectionResult {
    pub responses: Vec<OracleResponse>,
    pub num_successes: usize,
}

/// The accounts that a submission for one feed is made for.
#[derive(Clone, Copy, Debug)]
pub struct SolanaSubmitSignaturesParams {
    pub queue: Pubkey,
    pub feed: Pubkey,
    pub payer: Pubkey,
}

/// The value that an oracle reports in `text`: a decimal integer that fits
/// the mantissa of a decimal number. Any other text reports no value.
pub open spec fn reported_value(text: Seq<char>) -> Option<i128> {
    match decimal_i128(text) {
        Some(v) => if -MAX_MANTISSA <= v <= MAX_MANTISSA {
            Some(v)
        } else {
            None
        },
        None => None,
    }
}

/// The address that a text of 64 hexadecimal digits names.
pub open spec fn key_named(text: Seq<char>) -> Option<Seq<u8>> {
    match hex_bytes(text) {
        Some(bytes) => if bytes.len() == 32 {
            Some(bytes)
        } else {
            None
        },
        None => None,
    }
}

/// The signature of 64 bytes that a text in base 64 holds.
pub open spec fn signature_held(text: Seq<char>) -> Option<Seq<u8>> {
    match base64_bytes(text) {
        Some(bytes) => if bytes.len() == 64 {
            Some(bytes)
        } else {
            None
        },
        None => None,
    }
}

/// The signature that `text` holds, or 64 zero bytes where it holds none.
pub open spec fn signature_or_zeros(text: Seq<char>) -> Seq<u8> {
    match signature_held(text) {
        Some(bytes) => bytes,
        None => Seq::new(64, |i: int| 0u8),
    }
}

/// The low eight bits of `n`.
pub open spec fn low_byte(n: i32) -> u8 {
    (n as int % 256) as u8
}

/// Whether `r` is the observation that the answer `x` of the gateway holds.
pub open spec fn observes(r: OracleResponse, x: FeedEvalResponse) -> bool {
    &&& match reported_value(x.success_value@) {
        Some(v) => r.value is Some && r.value->0.spec_mantissa() == v && r.value->0.spec_scale()
            == PRECISION,
        None => r.value is None,
    }
    &&& r.error@ == x.failure_error@
    &&& key_named(x.oracle_pubkey@) == Some(r.oracle@)
    &&& r.signature@ == signature_or_zeros(x.signature@)
    &&& r.recovery_id == low_byte(x.recovery_id)
}

/// The number of answers that report a value.
pub open spec fn count_values(answers: Seq<FeedEvalResponse>) -> nat
    decreases answers.len(),
{
    if answers.len() == 0 {
        0
    } else {
        count_values(answers.drop_last()) + if reported_value(answers.last().success_value@)
            is Some {
            1nat
        } else {
            0nat
        }
    }
}

/// Whether every answer names the oracle it comes from.
pub open spec fn oracles_named(answers: Seq<FeedEvalResponse>) -> bool {
    forall|i: int| 0 <= i < answers.len() ==> key_named((#[trigger] answers[i]).oracle_pubkey@) is Some
}

/// The number of oracles to ask where the caller names none: a third more
/// than the feed needs samples, rounded up.
pub open spec fn default_num_signatures(min_sample_size: u8) -> int {
    (4 * min_sample_size + 2) / 3
}

/// The value that is submitted for an observation at `PRECISION` fractional
/// digits: `NO_DATA` where the oracle has none.
pub open spec fn submitted_value(value: Option<Decimal>) -> i128 {
    match value {
        Some(d) => rescaled_mantissa(
            d.spec_mantissa() as int,
            d.spec_scale() as nat,
            PRECISION as nat,
        ) as i128,
        None => NO_DATA,
    }
}

/// The value of the decimal number `d` at `PRECISION` fractional digits,
/// where `d` has no more digits than that and the value fits the 96 bits of a
/// mantissa: the mantissa of `d` times ten for every digit that is missing.
pub open spec fn exact_value(d: Decimal) -> Option<int> {
    scaled_up(d.spec_mantissa() as int, d.spec_scale() as nat, PRECISION as nat)
}

/// Whether the value that is submitted for the observation `r` is what the
/// observation holds: `NO_DATA` where the oracle has no value, and never
/// `NO_DATA` where it has one; the mantissa itself where the value has
/// `PRECISION` fractional digits; and the exact value at `PRECISION` digits
/// wherever there is one.
pub open spec fn submits_value(r: OracleResponse) -> bool {
    match r.value {
        Some(d) => {
            &&& submission_of(r).value != NO_DATA
            &&& d.spec_scale() == PRECISION ==> submission_of(r).value == d.spec_mantissa()
            &&& exact_value(d) is Some ==> submission_of(r).value == exact_value(d)->0
        },
        None => submission_of(r).value == NO_DATA,
    }
}

/// The submission that is made for an observation.
pub open spec fn submission_of(r: OracleResponse) -> Submission {
    Submission {
        value: submitted_value(r.value),
        signature: r.signature,
        recovery_id: r.recovery_id,
        offset: 0,
    }
}

/// The submissions that are made for the observations, in their order.
pub open spec fn submissions_of(responses: Seq<OracleResponse>) -> Seq<Submission> {
    Seq::new(responses.len(), |i: int| submission_of(responses[i]))
}

/// Whether `meta` names the account at `key` with the given rights.
pub open spec fn names(meta: AccountMeta, key: Seq<u8>, is_signer: bool, is_writable: bool) -> bool {
    meta.pubkey@ == key && meta.is_signer == is_signer && meta.is_writable == is_writable
}

/// Whether the addresses that a submission for `queue` and the oracles
/// `oracles` names can all be derived.
pub open spec fn addresses_derivable(queue: Seq<u8>, oracles: Seq<Seq<u8>>) -> bool {
    &&& state_address() is Some
    &&& associated_token_address(queue, NATIVE_MINT@) is Some
    &&& forall|i: int| 0 <= i < oracles.len() ==> stats_address(#[trigger] oracles[i]) is Some
}

/// Whether the eight accounts of `metas` from `at` on are those that every
/// submission for `queue` names behind the feed: the queue, the state of the
/// program, the slot hashes, the payer, who signs and pays, the system program,
/// the reward vault of the queue, which is written to, the token program and
/// the mint.
pub open spec fn fixed_accounts(metas: Seq<AccountMeta>, at: int, queue: Seq<u8>, payer: Seq<u8>)
    -> bool {
    &&& names(metas[at], queue, false, false)
    &&& names(metas[at + 1], state_address()->0, false, false)
    &&& names(metas[at + 2], SLOT_HASHES_ID@, false, false)
    &&& names(metas[at + 3], payer, true, true)
    &&& names(metas[at + 4], SYSTEM_PROGRAM_ID@, false, false)
    &&& names(metas[at + 5], associated_token_address(queue, NATIVE_MINT@)->0, false, true)
    &&& names(metas[at + 6], SPL_TOKEN_PROGRAM_ID@, false, false)
    &&& names(metas[at + 7], NATIVE_MINT@, false, false)
}

/// The oracles of the observations, in their order.
pub open spec fn oracles_of(responses: Seq<OracleResponse>) -> Seq<Seq<u8>> {
    Seq::new(responses.len(), |i: int| responses[i].oracle@)
}

/// Whether `ix` is the instruction that submits the observations
/// `responses` for the feed of `params`, signed for `slot`.
///
/// The data hold one submission for each observation, in order. The accounts
/// are the feed, which is written to, the eight accounts that every
/// submission names, then every oracle, read only, and then the statistics
/// account of every oracle, written to.
pub open spec fn submits_responses(
    ix: Instruction,
    slot: u64,
    responses: Seq<OracleResponse>,
    params: SolanaSubmitSignaturesParams,
) -> bool {
    &&& ix.program_id@ == SWITCHBOARD_ON_DEMAND_PROGRAM_ID@
    &&& ix.data@ == PULL_FEED_SUBMIT_RESPONSE_DISCRIMINATOR@ + le_bytes(slot as nat, 8) + le_bytes(
        responses.len(),
        4,
    ) + submissions_bytes(submissions_of(responses))
    &&& ix.accounts@.len() == 9 + 2 * responses.len()
    &&& names(ix.accounts@[0], params.feed@, false, true)
    &&& fixed_accounts(ix.accounts@, 1, params.queue@, params.payer@)
    &&& forall|i: int|
        0 <= i < responses.len() ==> names(
            #[trigger] ix.accounts@[9 + i],
            responses[i].oracle@,
            false,
            false,
        )
    &&& forall|i: int|
        0 <= i < responses.len() ==> names(
            #[trigger] ix.accounts@[9 + responses.len() + i],
            stats_address(responses[i].oracle@)->0,
            false,
            true,
        )
}

/// Whether `ix` is the instruction that submits `submissions` of the oracles
/// `oracle_keys` for the feeds `feeds` of the queue `queue`, signed for
/// `slot`.
///
/// The accounts are the eight that every submission names, then the feeds in
/// the order given, written to, and then for every oracle, in order, the
/// oracle, read only, followed by its statistics account, written to.
pub open spec fn submits_many(
    ix: Instruction,
    slot: u64,
    submissions: Seq<MultiSubmission>,
    oracle_keys: Seq<Pubkey>,
    feeds: Seq<Pubkey>,
    queue: Pubkey,
    payer: Pubkey,
) -> bool {
    &&& ix.program_id@ == SWITCHBOARD_ON_DEMAND_PROGRAM_ID@
    &&& ix.data@ == PULL_FEED_SUBMIT_RESPONSE_MANY_DISCRIMINATOR@ + le_bytes(slot as nat, 8)
        + le_bytes(submissions.len(), 4) + multi_submissions_bytes(submissions)
    &&& ix.accounts@.len() == 8 + feeds.len() + 2 * oracle_keys.len()
    &&& fixed_accounts(ix.accounts@, 0, queue@, payer@)
    &&& forall|i: int|
        0 <= i < feeds.len() ==> names(#[trigger] ix.accounts@[8 + i], feeds[i]@, false, true)
    &&& forall|i: int|
        0 <= i < oracle_keys.len() ==> names(
            #[trigger] ix.accounts@[8 + feeds.len() + 2 * i],
            oracle_keys[i]@,
            false,
            false,
        )
    &&& forall|i: int|
        0 <= i < oracle_keys.len() ==> names(
            #[trigger] ix.accounts@[8 + feeds.len() + 2 * i + 1],
            stats_address(oracle_keys[i]@)->0,
            false,
            true,
        )
}

/// An answer of the gateway that reports no value is submitted as `NO_DATA`,
/// the largest value there is, and never as zero.
pub proof fn lemma_absent_value_is_no_data(r: OracleResponse, x: FeedEvalResponse)
    requires
        observes(r, x),
        reported_value(x.success_value@) is None,
    ensures
        r.value is None,
        submission_of(r).value == NO_DATA,
        NO_DATA == i128::MAX,
        submission_of(r).value != 0,
{
}

/// In a submission for many feeds an answer that is no decimal integer is
/// submitted as `NO_DATA`, and never as zero.
pub proof fn lemma_unread_value_is_no_data(text: Seq<char>)
    requires
        decimal_i128(text) is None,
    ensures
        raw_value(text) == NO_DATA,
        raw_value(text) != 0,
{
}

/// The number of answers that report a value is at most the number of
/// answers, and it is zero exactly where no answer reports one.
pub proof fn lemma_count_values(answers: Seq<FeedEvalResponse>)
    ensures
        count_values(answers) <= answers.len(),
        count_values(answers) == 0 <==> forall|i: int|
            0 <= i < answers.len() ==> reported_value((#[trigger] answers[i]).success_value@)
                is None,
    decreases answers.len(),
{
    if answers.len() > 0 {
        lemma_count_values(answers.drop_last());
        assert forall|i: int| 0 <= i < answers.len() - 1 implies answers.drop_last()[i]
            == answers[i] by {}
        if count_values(answers) == 0 {
            assert forall|i: int| 0 <= i < answers.len() implies reported_value(
                (#[trigger] answers[i]).success_value@,
            ) is None by {
                if i < answers.len() - 1 {
                    assert(answers.drop_last()[i] == answers[i]);
                }
            }
        } else {
            if reported_value(answers.last().success_value@) is None {
                assert(count_values(answers.drop_last()) != 0);
                let j = choose|j: int|
                    0 <= j < answers.drop_last().len() && !(reported_value(
                        (#[trigger] answers.drop_last()[j]).success_value@,
                    ) is None);
                assert(answers[j] == answers.drop_last()[j]);
            } else {
                assert(answers[answers.len() - 1] == answers.last());
            }
        }
    }
}

/// The low eight bits of `n`.
fn low_byte_of(n: i32) -> (r: u8)
    ensures
        r == low_byte(n),
{
    if n >= 0 {
        (n % 256) as u8
    } else {
        // -(n + 1) is the distance of n below -1.
        let below: i32 = -(n + 1);
        (255 - below % 256) as u8
    }
}

/// Reads the value that an oracle reports.
fn read_reported_value(text: &str) -> (r: Option<Decimal>)
    ensures
        match reported_value(text@) {
            Some(v) => r is Some && r->0.spec_mantissa() == v && r->0.spec_scale() == PRECISION,
            None => r is None,
        },
{
    match parse_i128(text) {
        Some(v) => Decimal::try_from_i128_with_scale(v, PRECISION),
        None => None,
    }
}

pub struct PullFeed;

impl PullFeed {
    /// Reads a feed from the data of its account: the stored form stands
    /// behind the eight bytes that name the schema.
    pub fn load_data(account: &[u8]) -> (r: Result<PullFeedAccountData, FetchError>)
        ensures
            r is Ok <==> account@.len() == 3208,
            r is Ok ==> r->Ok_0.stored_at(account@, 8) && r->Ok_0 == feed_stored(account@),
            r is Err ==> r->Err_0 is DeserializeError,
    {
        if account.len() != 3208 {
            return Err(FetchError::DeserializeError);
        }
        let feed = PullFeedAccountData::read(account, 8);
        proof {
            lemma_feed_stored_once(feed, feed_stored(account@), account@, 8);
        }
        Ok(feed)
    }

    /// The number of oracles to ask for a feed that needs `min_sample_size`
    /// samples, where the caller names none.
    pub fn default_num_signatures(min_sample_size: u8) -> (r: u32)
        ensures
            r == default_num_signatures(min_sample_size),
            3 * r >= 4 * min_sample_size,
            3 * (r - 1) < 4 * min_sample_size,
    {
        let n = min_sample_size as u32;
        n + (n + 2) / 3
    }

    /// What is asked of the gateway for the feed `feed_data`: the jobs, the
    /// hash of the most recent slot in base 58, the number of oracles, which
    /// is `num_signatures` or else `default_num_signatures`, the variance
    /// bound of the feed in whole units, cut to 32 bits, and the least number
    /// of responses of the feed. No timestamp is used.
    pub fn signature_params(
        feed_data: &PullFeedAccountData,
        encoded_jobs: Vec<String>,
        latest_slot: &SlotHash,
        num_signatures: Option<u32>,
    ) -> (r: FetchSignaturesParams)
        ensures
            r.recent_hash is Some && r.recent_hash->0@ == base58_text(latest_slot.hash@),
            r.encoded_jobs == encoded_jobs,
            r.num_signatures == match num_signatures {
                Some(n) => n as int,
                None => default_num_signatures(feed_data.min_sample_size),
            },
            r.max_variance == Some(
                ((feed_data.max_variance / 1_000_000_000) % 0x1_0000_0000) as u32,
            ),
            r.min_responses == Some(feed_data.min_responses),
            r.use_timestamp == Some(false),
    {
        let asked = match num_signatures {
            Some(n) => n,
            None => Self::default_num_signatures(feed_data.min_sample_size),
        };
        FetchSignaturesParams {
            recent_hash: Some(base58_encode(&latest_slot.hash)),
            encoded_jobs,
            num_signatures: asked,
            max_variance: Some(((feed_data.max_variance / 1_000_000_000) % 0x1_0000_0000) as u32),
            min_responses: Some(feed_data.min_responses),
            use_timestamp: Some(false),
        }
    }

    /// Reads the observations out of the answers of the gateway and counts
    /// those that hold a value.
    ///
    /// An answer whose value is no decimal integer holds no value; it is
    /// kept, with its error, and does not stop the others from being read. A
    /// signature that is not 64 bytes in base 64 is read as 64 zero bytes.
    /// The collection fails with `NoQuotesError`, which carries the error of
    /// every answer, where no answer holds a value. Else it fails with
    /// `DeserializeError` where an answer does not name its oracle.
    pub fn collect(answers: &Vec<FeedEvalResponse>) -> (r: Result<QuoteCollectionResult, FetchError>)
        ensures
            match r {
                Ok(collected) => {
                    &&& oracles_named(answers@)
                    &&& collected.num_successes == count_values(answers@)
                    &&& collected.num_successes >= 1
                    &&& collected.responses@.len() == answers@.len()
                    &&& forall|i: int|
                        0 <= i < answers@.len() ==> observes(
                            #[trigger] collected.responses@[i],
                            answers@[i],
                        )
                },
                Err(FetchError::NoQuotesError(errors)) => {
                    &&& count_values(answers@) == 0
                    &&& errors@.len() == answers@.len()
                    &&& forall|i: int|
                        0 <= i < answers@.len() ==> (#[trigger] errors@[i])@
                            == answers@[i].failure_error@
                },
                Err(FetchError::DeserializeError) => count_values(answers@) >= 1
                    && !oracles_named(answers@),
                Err(_) => false,
            },
    {
        let mut responses: Vec<OracleResponse> = Vec::new();
        let mut errors: Vec<String> = Vec::new();
        let mut num_successes: usize = 0;
        let mut unnamed = false;
        let ghost mut witness: int = 0;
        let mut i: usize = 0;
        assert(answers@.subrange(0, 0) =~= Seq::<FeedEvalResponse>::empty());
        while i < answers.len()
            invariant
                i <= answers@.len(),
                num_successes == count_values(answers@.subrange(0, i as int)),
                num_successes <= i,
                errors@.len() == i,
                forall|j: int|
                    0 <= j < i ==> (#[trigger] errors@[j])@ == answers@[j].failure_error@,
                unnamed ==> 0 <= witness < i && key_named(
                    answers@[witness].oracle_pubkey@,
                ) is None,
                !unnamed ==> responses@.len() == i,
                !unnamed ==> forall|j: int|
                    0 <= j < i ==> key_named((#[trigger] answers@[j]).oracle_pubkey@) is Some,
                !unnamed ==> forall|j: int|
                    0 <= j < i ==> observes(#[trigger] responses@[j], answers@[j]),
            decreases answers@.len() - i,
        {
            let x = &answers[i];
            let value = read_reported_value(x.success_value.as_str());
            proof {
                let upto = answers@.subrange(0, i + 1);
                assert(upto.drop_last() =~= answers@.subrange(0, i as int));
                assert(upto.last() == answers@[i as int]);
            }
            if value.is_some() {
                num_successes += 1;
            }
            errors.push(x.failure_error.clone());
            match hex_to_32_bytes(x.oracle_pubkey.as_str()) {
                Some(bytes) => {
                    if !unnamed {
                        let signature = match base64_to_64_bytes(x.signature.as_str()) {
                            Some(bytes) => bytes,
                            None => {
                                let zeros = [0u8; 64];
                                assert(zeros@ =~= Seq::new(64, |k: int| 0u8));
                                zeros
                            },
                        };
                        responses.push(
                            OracleResponse {
                                value,
                                error: x.failure_error.clone(),
                                oracle: Pubkey { bytes },
                                signature,
                                recovery_id: low_byte_of(x.recovery_id),
                            },
                        );
                    }
                },
                None => {
                    proof {
                        if !unnamed {
                            witness = i as int;
                        }
                        assert(key_named(answers@[i as int].oracle_pubkey@) is None);
                    }
                    unnamed = true;
                },
            }
            i += 1;
        }
        assert(answers@.subrange(0, i as int) =~= answers@);
        if num_successes == 0 {
            return Err(FetchError::NoQuotesError(errors));
        }
        if unnamed {
            assert(key_named(answers@[witness].oracle_pubkey@) is None);
            return Err(FetchError::DeserializeError);
        }
        Ok(QuoteCollectionResult { responses, num_successes })
    }

    /// Builds the instruction that submits the observations `responses` for
    /// the feed of `params`, signed for `slot`.
    ///
    /// The data hold one submission for each observation, in order: the value
    /// at `PRECISION` fractional digits, or `NO_DATA` where the oracle has
    /// none, with the signature and the recovery id. The accounts are the
    /// feed, which is written to, the eight accounts that every submission
    /// names, then every oracle, read only, and then the statistics account
    /// of every oracle, written to. There is no instruction where one of the
    /// addresses cannot be derived.
    pub fn get_solana_submit_signatures_ix(
        slot: u64,
        responses: &Vec<OracleResponse>,
        params: SolanaSubmitSignaturesParams,
    ) -> (r: Result<Instruction, FetchError>)
        requires
            responses@.len() <= u32::MAX,
        ensures
            match r {
                Ok(ix) => addresses_derivable(params.queue@, oracles_of(responses@))
                    && submits_responses(ix, slot, responses@, params) && forall|i: int|
                    0 <= i < responses@.len() ==> submits_value(#[trigger] responses@[i]),
                Err(e) => e is NoProgramAddress && !addresses_derivable(
                    params.queue@,
                    oracles_of(responses@),
                ),
            },
    {
        let count = responses.len();
        let mut submissions: Vec<Submission> = Vec::new();
        let mut i: usize = 0;
        while i < count
            invariant
                i <= count == responses@.len(),
                submissions@.len() == i,
                forall|j: int| 0 <= j < i ==> submissions@[j] == submission_of(responses@[j]),
                forall|j: int| 0 <= j < i ==> submits_value(#[trigger] responses@[j]),
            decreases count - i,
        {
            let resp = &responses[i];
            let value = match resp.value {
                Some(val) => val.mantissa_at_scale(PRECISION),
                None => NO_DATA,
            };
            submissions.push(
                Submission {
                    value,
                    signature: resp.signature,
                    recovery_id: resp.recovery_id,
                    offset: 0,
                },
            );
            i += 1;
        }
        assert(submissions@ =~= submissions_of(responses@));
        let program_state = match State::key() {
            Some(key) => key,
            None => {
                return Err(FetchError::NoProgramAddress);
            },
        };
        let native_mint = Pubkey { bytes: NATIVE_MINT };
        let reward_vault = match get_associated_token_address(&params.queue, &native_mint) {
            Some(key) => key,
            None => {
                return Err(FetchError::NoProgramAddress);
            },
        };
        let mut accounts = PullFeedSubmitResponse {
            feed: params.feed,
            queue: params.queue,
            program_state,
            recent_slothashes: Pubkey { bytes: SLOT_HASHES_ID },
            payer: params.payer,
            system_program: Pubkey { bytes: SYSTEM_PROGRAM_ID },
            reward_vault,
            token_program: Pubkey { bytes: SPL_TOKEN_PROGRAM_ID },
            token_mint: native_mint,
        }.to_account_metas(None);
        let ghost head = accounts@;
        let mut i: usize = 0;
        while i < count
            invariant
                i <= count == responses@.len(),
                head.len() == 9,
                accounts@.len() == 9 + i,
                accounts@.subrange(0, 9) == head,
                forall|j: int|
                    0 <= j < i ==> names(
                        #[trigger] accounts@[9 + j],
                        responses@[j].oracle@,
                        false,
                        false,
                    ),
            decreases count - i,
        {
            accounts.push(AccountMeta::new_readonly(responses[i].oracle, false));
            assert(accounts@.subrange(0, 9) =~= head);
            i += 1;
        }
        let mut i: usize = 0;
        while i < count
            invariant
                i <= count == responses@.len(),
                head.len() == 9,
                accounts@.len() == 9 + count + i,
                accounts@.subrange(0, 9) == head,
                forall|j: int|
                    0 <= j < count ==> names(
                        #[trigger] accounts@[9 + j],
                        responses@[j].oracle@,
                        false,
                        false,
                    ),
                forall|j: int|
                    0 <= j < i ==> stats_address((#[trigger] responses@[j]).oracle@) is Some,
                forall|j: int|
                    0 <= j < i ==> names(
                        #[trigger] accounts@[9 + count + j],
                        stats_address(responses@[j].oracle@)->0,
                        false,
                        true,
                    ),
            decreases count - i,
        {
            let stats_key = match OracleAccountData::stats_key(&responses[i].oracle) {
                Some(key) => key,
                None => {
                    assert(oracles_of(responses@)[i as int] == responses@[i as int].oracle@);
                    return Err(FetchError::NoProgramAddress);
                },
            };
            let ghost before = accounts@;
            accounts.push(AccountMeta::new(stats_key, false));
            proof {
                assert(accounts@.subrange(0, 9) =~= head);
                assert(stats_address(responses@[i as int].oracle@) == Some(stats_key@));
                assert(names(
                    accounts@[9 + count + i],
                    stats_address(responses@[i as int].oracle@)->0,
                    false,
                    true,
                ));
            }
            i += 1;
        }
        let data = PullFeedSubmitResponseParams { slot, submissions }.data();
        let ghost metas = accounts@;
        proof {
            assert forall|j: int| 0 <= j < 9 implies metas[j] == head[j] by {
                assert(metas.subrange(0, 9)[j] == metas[j]);
            }
            assert forall|j: int| 0 <= j < oracles_of(responses@).len() implies stats_address(
                #[trigger] oracles_of(responses@)[j],
            ) is Some by {
                assert(stats_address(responses@[j].oracle@) is Some);
            }
        }
        let ix = Instruction {
            program_id: Pubkey { bytes: SWITCHBOARD_ON_DEMAND_PROGRAM_ID },
            accounts,
            data,
        };
        proof {
            assert forall|j: int| 0 <= j < responses@.len() implies names(
                #[trigger] ix.accounts@[9 + j],
                responses@[j].oracle@,
                false,
                false,
            ) by {
                assert(names(metas[9 + j], responses@[j].oracle@, false, false));
            }
            assert forall|j: int| 0 <= j < responses@.len() implies names(
                #[trigger] ix.accounts@[9 + responses@.len() + j],
                stats_address(responses@[j].oracle@)->0,
                false,
                true,
            ) by {
                assert(names(
                    metas[9 + count + j],
                    stats_address(responses@[j].oracle@)->0,
                    false,
                    true,
                ));
            }
            assert(ix.data@ =~= PULL_FEED_SUBMIT_RESPONSE_DISCRIMINATOR@ + le_bytes(
                slot as nat,
                8,
            ) + le_bytes(responses@.len(), 4) + submissions_bytes(submissions_of(responses@)));
        }
        Ok(ix)
    }
}

/// The value that is submitted for a feed in a submission for many feeds: the
/// integer that the answer reports, or `NO_DATA` where it reports none.
pub open spec fn raw_value(text: Seq<char>) -> i128 {
    match decimal_i128(text) {
        Some(v) => v,
        None => NO_DATA,
    }
}

/// Whether `s` is the submission that the answer `x` of one oracle for many
/// feeds holds: one value for each feed, in order, under the signature of the
/// oracle.
pub open spec fn submits(s: MultiSubmission, x: FeedEvalManyResponse) -> bool {
    &&& s.values@.len() == x.feed_responses@.len()
    &&& forall|i: int|
        0 <= i < x.feed_responses@.len() ==> #[trigger] s.values@[i] == raw_value(
            x.feed_responses@[i].success_value@,
        )
    &&& signature_held(x.signature@) == Some(s.signature@)
    &&& s.recovery_id == low_byte(x.recovery_id)
}

/// The oracle that an answer for many feeds comes from: the one that its
/// first answer for a feed names.
pub open spec fn oracle_of_many(x: FeedEvalManyResponse) -> Option<Seq<u8>> {
    if x.feed_responses@.len() == 0 {
        None
    } else {
        key_named(x.feed_responses@[0].oracle_pubkey@)
    }
}

/// Whether every answer holds a signature.
pub open spec fn all_signed(answers: Seq<FeedEvalManyResponse>) -> bool {
    forall|i: int| 0 <= i < answers.len() ==> signature_held((#[trigger] answers[i]).signature@) is Some
}

/// Whether every answer names the oracle it comes from.
pub open spec fn all_named(answers: Seq<FeedEvalManyResponse>) -> bool {
    forall|i: int| 0 <= i < answers.len() ==> oracle_of_many(#[trigger] answers[i]) is Some
}

/// The number of answers for a feed, among `answers`, that are decimal
/// integers.
pub open spec fn count_integers(answers: Seq<FeedEvalResponse>) -> nat
    decreases answers.len(),
{
    if answers.len() == 0 {
        0
    } else {
        count_integers(answers.drop_last()) + if decimal_i128(answers.last().success_value@)
            is Some {
            1nat
        } else {
            0nat
        }
    }
}

/// The number of values that the oracles report in their answers for many
/// feeds: the answers for a feed, of all oracles, that are decimal integers.
pub open spec fn count_many_values(answers: Seq<FeedEvalManyResponse>) -> nat
    decreases answers.len(),
{
    if answers.len() == 0 {
        0
    } else {
        count_many_values(answers.drop_last()) + count_integers(answers.last().feed_responses@)
    }
}

/// The errors that the answers for a feed report, one for each answer.
pub open spec fn errors_of(answers: Seq<FeedEvalResponse>) -> Seq<Seq<char>> {
    Seq::new(answers.len(), |j: int| answers[j].failure_error@)
}

/// The errors that the oracles report in their answers for many feeds: for
/// every oracle, in order, the error of each of its answers for a feed.
pub open spec fn many_errors(answers: Seq<FeedEvalManyResponse>) -> Seq<Seq<char>>
    decreases answers.len(),
{
    if answers.len() == 0 {
        Seq::empty()
    } else {
        many_errors(answers.drop_last()) + errors_of(answers.last().feed_responses@)
    }
}

/// Whether `submissions` and `keys` are what the answers `answers` of the
/// oracles for many feeds hold: one submission and one oracle for each
/// answer, in order.
pub open spec fn collects_many(
    answers: Seq<FeedEvalManyResponse>,
    submissions: Seq<MultiSubmission>,
    keys: Seq<Pubkey>,
) -> bool {
    &&& submissions.len() == answers.len()
    &&& forall|i: int| 0 <= i < answers.len() ==> submits(#[trigger] submissions[i], answers[i])
    &&& keys.len() == answers.len()
    &&& forall|i: int|
        0 <= i < answers.len() ==> oracle_of_many(answers[i]) == Some((#[trigger] keys[i])@)
}

/// Whether no answer for a feed, among `answers`, is a decimal integer.
pub open spec fn no_integer(answers: Seq<FeedEvalResponse>) -> bool {
    forall|j: int|
        0 <= j < answers.len() ==> decimal_i128((#[trigger] answers[j]).success_value@) is None
}

/// The number of answers that are decimal integers is zero exactly where no
/// answer is one.
pub proof fn lemma_count_integers(answers: Seq<FeedEvalResponse>)
    ensures
        count_integers(answers) == 0 <==> no_integer(answers),
    decreases answers.len(),
{
    if answers.len() > 0 {
        let front = answers.drop_last();
        lemma_count_integers(front);
        if no_integer(answers) {
            assert forall|j: int| 0 <= j < front.len() implies decimal_i128(
                (#[trigger] front[j]).success_value@,
            ) is None by {
                assert(front[j] == answers[j]);
            }
            assert(answers[answers.len() - 1] == answers.last());
        }
        if count_integers(answers) == 0 {
            assert forall|j: int| 0 <= j < answers.len() implies decimal_i128(
                (#[trigger] answers[j]).success_value@,
            ) is None by {
                if j < answers.len() - 1 {
                    assert(front[j] == answers[j]);
                }
            }
        }
    }
}

/// The oracles report no value for any feed exactly where no answer of any
/// oracle for a feed is a decimal integer.
pub proof fn lemma_count_many_values(answers: Seq<FeedEvalManyResponse>)
    ensures
        count_many_values(answers) == 0 <==> forall|i: int|
            0 <= i < answers.len() ==> no_integer((#[trigger] answers[i]).feed_responses@),
    decreases answers.len(),
{
    if answers.len() > 0 {
        let front = answers.drop_last();
        lemma_count_many_values(front);
        lemma_count_integers(answers.last().feed_responses@);
        if forall|i: int|
            0 <= i < answers.len() ==> no_integer((#[trigger] answers[i]).feed_responses@) {
            assert forall|i: int| 0 <= i < front.len() implies no_integer(
                (#[trigger] front[i]).feed_responses@,
            ) by {
                assert(front[i] == answers[i]);
            }
            assert(answers[answers.len() - 1] == answers.last());
        }
        if count_many_values(answers) == 0 {
            assert forall|i: int| 0 <= i < answers.len() implies no_integer(
                (#[trigger] answers[i]).feed_responses@,
            ) by {
                if i < answers.len() - 1 {
                    assert(front[i] == answers[i]);
                }
            }
        }
    }
}

/// Whether one of the answers for a feed is a decimal integer; the error of
/// every answer is added to `errors`.
fn holds_integer(answers: &Vec<FeedEvalResponse>, errors: &mut Vec<String>) -> (r: bool)
    ensures
        r == (count_integers(answers@) > 0),
        texts(final(errors)@) == texts(old(errors)@) + errors_of(answers@),
{
    let mut found = false;
    let mut k: usize = 0;
    proof {
        assert(answers@.subrange(0, 0) =~= Seq::<FeedEvalResponse>::empty());
        assert(texts(errors@) =~= texts(old(errors)@) + errors_of(answers@.subrange(0, 0)));
    }
    while k < answers.len()
        invariant
            k <= answers@.len(),
            found == (count_integers(answers@.subrange(0, k as int)) > 0),
            texts(errors@) == texts(old(errors)@) + errors_of(answers@.subrange(0, k as int)),
        decreases answers@.len() - k,
    {
        let ghost before = texts(errors@);
        let x = &answers[k];
        if parse_i128(x.success_value.as_str()).is_some() {
            found = true;
        }
        let error = x.failure_error.clone();
        errors.push(error);
        proof {
            let upto = answers@.subrange(0, k + 1);
            assert(upto.drop_last() =~= answers@.subrange(0, k as int));
            assert(upto.last() == answers@[k as int]);
            assert(texts(errors@) =~= before.push(answers@[k as int].failure_error@));
            assert(errors_of(upto) =~= errors_of(answers@.subrange(0, k as int)).push(
                answers@[k as int].failure_error@,
            ));
            assert(texts(errors@) =~= texts(old(errors)@) + errors_of(upto));
        }
        k += 1;
    }
    assert(answers@.subrange(0, k as int) =~= answers@);
    found
}

impl PullFeed {
    /// Reads the submissions out of the answers of the gateway for many
    /// feeds, one for each oracle, in order. An answer for a feed that is no
    /// decimal integer is submitted as `NO_DATA`. The reading fails with
    /// `DeserializeError` where an answer holds no signature of 64 bytes in
    /// base 64.
    pub fn multi_submissions(answers: &Vec<FeedEvalManyResponse>) -> (r: Result<
        Vec<MultiSubmission>,
        FetchError,
    >)
        ensures
            match r {
                Ok(list) => {
                    &&& all_signed(answers@)
                    &&& list@.len() == answers@.len()
                    &&& forall|i: int|
                        0 <= i < answers@.len() ==> submits(#[trigger] list@[i], answers@[i])
                },
                Err(e) => e is DeserializeError && !all_signed(answers@),
            },
    {
        let mut submissions: Vec<MultiSubmission> = Vec::new();
        let mut i: usize = 0;
        while i < answers.len()
            invariant
                i <= answers@.len(),
                submissions@.len() == i,
                forall|j: int|
                    0 <= j < i ==> signature_held((#[trigger] answers@[j]).signature@) is Some,
                forall|j: int| 0 <= j < i ==> submits(#[trigger] submissions@[j], answers@[j]),
            decreases answers@.len() - i,
        {
            let x = &answers[i];
            let mut values: Vec<i128> = Vec::new();
            let mut k: usize = 0;
            while k < x.feed_responses.len()
                invariant
                    k <= x.feed_responses@.len(),
                    values@.len() == k,
                    forall|j: int|
                        0 <= j < k ==> #[trigger] values@[j] == raw_value(
                            x.feed_responses@[j].success_value@,
                        ),
                decreases x.feed_responses@.len() - k,
            {
                let value = match parse_i128(x.feed_responses[k].success_value.as_str()) {
                    Some(v) => v,
                    None => NO_DATA,
                };
                values.push(value);
                k += 1;
            }
            let signature = match base64_to_64_bytes(x.signature.as_str()) {
                Some(bytes) => bytes,
                None => {
                    assert(signature_held(answers@[i as int].signature@) is None);
                    return Err(FetchError::DeserializeError);
                },
            };
            submissions.push(
                MultiSubmission { values, signature, recovery_id: low_byte_of(x.recovery_id) },
            );
            i += 1;
        }
        Ok(submissions)
    }

    /// Reads the oracles that the answers of the gateway for many feeds come
    /// from, in order. The reading fails with `DeserializeError` where an
    /// answer holds no answer for a feed or does not name its oracle.
    pub fn multi_oracle_keys(answers: &Vec<FeedEvalManyResponse>) -> (r: Result<
        Vec<Pubkey>,
        FetchError,
    >)
        ensures
            match r {
                Ok(keys) => {
                    &&& all_named(answers@)
                    &&& keys@.len() == answers@.len()
                    &&& forall|i: int|
                        0 <= i < answers@.len() ==> oracle_of_many(answers@[i]) == Some(
                            (#[trigger] keys@[i])@,
                        )
                },
                Err(e) => e is DeserializeError && !all_named(answers@),
            },
    {
        let mut keys: Vec<Pubkey> = Vec::new();
        let mut i: usize = 0;
        while i < answers.len()
            invariant
                i <= answers@.len(),
                keys@.len() == i,
                forall|j: int| 0 <= j < i ==> oracle_of_many(#[trigger] answers@[j]) is Some,
                forall|j: int|
                    0 <= j < i ==> oracle_of_many(answers@[j]) == Some((#[trigger] keys@[j])@),
            decreases answers@.len() - i,
        {
            let x = &answers[i];
            if x.feed_responses.len() == 0 {
                assert(oracle_of_many(answers@[i as int]) is None);
                return Err(FetchError::DeserializeError);
            }
            match hex_to_32_bytes(x.feed_responses[0].oracle_pubkey.as_str()) {
                Some(bytes) => {
                    keys.push(Pubkey { bytes });
                },
                None => {
                    assert(oracle_of_many(answers@[i as int]) is None);
                    return Err(FetchError::DeserializeError);
                },
            }
            i += 1;
        }
        Ok(keys)
    }

    /// Reads what the oracles answered for many feeds in one round trip: a
    /// submission and the oracle it comes from, for each answer, in order.
    ///
    /// The collection fails with `NoQuotesError`, which carries the error of
    /// every answer for a feed, where no oracle holds a value for any feed:
    /// where no answer for a feed is a decimal integer. Else it fails with
    /// `DeserializeError` where an answer of an oracle holds no signature or
    /// does not name its oracle.
    pub fn collect_many(answers: &Vec<FeedEvalManyResponse>) -> (r: Result<
        (Vec<MultiSubmission>, Vec<Pubkey>),
        FetchError,
    >)
        ensures
            match r {
                Ok(collected) => {
                    &&& count_many_values(answers@) >= 1
                    &&& all_signed(answers@)
                    &&& all_named(answers@)
                    &&& collects_many(answers@, collected.0@, collected.1@)
                },
                Err(FetchError::NoQuotesError(errors)) => {
                    &&& count_many_values(answers@) == 0
                    &&& texts(errors@) == many_errors(answers@)
                },
                Err(FetchError::DeserializeError) => count_many_values(answers@) >= 1 && !(
                all_signed(answers@) && all_named(answers@)),
                Err(_) => false,
            },
    {
        let mut errors: Vec<String> = Vec::new();
        let mut found = false;
        let mut i: usize = 0;
        proof {
            assert(answers@.subrange(0, 0) =~= Seq::<FeedEvalManyResponse>::empty());
            assert(texts(errors@) =~= many_errors(answers@.subrange(0, 0)));
        }
        while i < answers.len()
            invariant
                i <= answers@.len(),
                found == (count_many_values(answers@.subrange(0, i as int)) > 0),
                texts(errors@) == many_errors(answers@.subrange(0, i as int)),
            decreases answers@.len() - i,
        {
            proof {
                let upto = answers@.subrange(0, i + 1);
                assert(upto.drop_last() =~= answers@.subrange(0, i as int));
                assert(upto.last() == answers@[i as int]);
            }
            if holds_integer(&answers[i].feed_responses, &mut errors) {
                found = true;
            }
            i += 1;
        }
        assert(answers@.subrange(0, i as int) =~= answers@);
        if !found {
            return Err(FetchError::NoQuotesError(errors));
        }
        let submissions = match Self::multi_submissions(answers) {
            Ok(list) => list,
            Err(_) => {
                return Err(FetchError::DeserializeError);
            },
        };
        let keys = match Self::multi_oracle_keys(answers) {
            Ok(keys) => keys,
            Err(_) => {
                return Err(FetchError::DeserializeError);
            },
        };
        Ok((submissions, keys))
    }

    /// Builds the instruction that submits `submissions` for the feeds
    /// `feeds` of the queue `queue`, signed for `slot`.
    ///
    /// The accounts are the eight that every submission names, then the
    /// feeds in the order given, written to, and then for every oracle, in
    /// order, the oracle, read only, followed by its statistics account,
    /// written to. There is no instruction where one of the addresses cannot
    /// be derived.
    pub fn get_solana_submit_signatures_many_ix(
        slot: u64,
        submissions: Vec<MultiSubmission>,
        oracle_keys: &Vec<Pubkey>,
        feeds: &Vec<Pubkey>,
        queue: Pubkey,
        payer: Pubkey,
    ) -> (r: Result<Instruction, FetchError>)
        requires
            submissions@.len() <= u32::MAX,
            forall|i: int|
                0 <= i < submissions@.len() ==> (#[trigger] submissions@[i]).values@.len()
                    <= u32::MAX,
            8 + feeds@.len() + 2 * oracle_keys@.len() <= usize::MAX,
        ensures
            match r {
                Ok(ix) => addresses_derivable(queue@, keys_view(oracle_keys@)) && submits_many(
                    ix,
                    slot,
                    submissions@,
                    oracle_keys@,
                    feeds@,
                    queue,
                    payer,
                ),
                Err(e) => e is NoProgramAddress && !addresses_derivable(
                    queue@,
                    keys_view(oracle_keys@),
                ),
            },
    {
        let program_state = match State::key() {
            Some(key) => key,
            None => {
                return Err(FetchError::NoProgramAddress);
            },
        };
        let native_mint = Pubkey { bytes: NATIVE_MINT };
        let reward_vault = match get_associated_token_address(&queue, &native_mint) {
            Some(key) => key,
            None => {
                return Err(FetchError::NoProgramAddress);
            },
        };
        let mut accounts = PullFeedSubmitResponseMany {
            queue,
            program_state,
            recent_slothashes: Pubkey { bytes: SLOT_HASHES_ID },
            payer,
            system_program: Pubkey { bytes: SYSTEM_PROGRAM_ID },
            reward_vault,
            token_program: Pubkey { bytes: SPL_TOKEN_PROGRAM_ID },
            token_mint: native_mint,
        }.to_account_metas(None);
        let ghost head = accounts@;
        let feed_count = feeds.len();
        let oracle_count = oracle_keys.len();
        let mut i: usize = 0;
        while i < feed_count
            invariant
                i <= feed_count == feeds@.len(),
                head.len() == 8,
                accounts@.len() == 8 + i,
                accounts@.subrange(0, 8) == head,
                forall|j: int|
                    0 <= j < i ==> names(#[trigger] accounts@[8 + j], feeds@[j]@, false, true),
            decreases feed_count - i,
        {
            accounts.push(AccountMeta::new(feeds[i], false));
            assert(accounts@.subrange(0, 8) =~= head);
            i += 1;
        }
        let mut i: usize = 0;
        while i < oracle_count
            invariant
                i <= oracle_count == oracle_keys@.len(),
                feed_count == feeds@.len(),
                8 + feed_count + 2 * oracle_count <= usize::MAX,
                head.len() == 8,
                accounts@.len() == 8 + feed_count + 2 * i,
                accounts@.subrange(0, 8) == head,
                forall|j: int|
                    0 <= j < feed_count ==> names(
                        #[trigger] accounts@[8 + j],
                        feeds@[j]@,
                        false,
                        true,
                    ),
                forall|j: int|
                    0 <= j < i ==> names(
                        #[trigger] accounts@[8 + feed_count + 2 * j],
                        oracle_keys@[j]@,
                        false,
                        false,
                    ),
                forall|j: int| 0 <= j < i ==> stats_address((#[trigger] oracle_keys@[j])@) is Some,
                forall|j: int|
                    0 <= j < i ==> names(
                        #[trigger] accounts@[8 + feed_count + 2 * j + 1],
                        stats_address(oracle_keys@[j]@)->0,
                        false,
                        true,
                    ),
            decreases oracle_count - i,
        {
            let oracle = oracle_keys[i];
            let stats_key = match OracleAccountData::stats_key(&oracle) {
                Some(key) => key,
                None => {
                    assert(keys_view(oracle_keys@)[i as int] == oracle_keys@[i as int]@);
                    return Err(FetchError::NoProgramAddress);
                },
            };
            let ghost before = accounts@;
            accounts.push(AccountMeta::new_readonly(oracle, false));
            accounts.push(AccountMeta::new(stats_key, false));
            proof {
                assert(accounts@.subrange(0, 8) =~= head);
                assert forall|j: int| 0 <= j < accounts@.len() - 2 implies accounts@[j]
                    == before[j] by {}
                assert forall|j: int| 0 <= j < i implies names(
                    #[trigger] accounts@[8 + feed_count + 2 * j],
                    oracle_keys@[j]@,
                    false,
                    false,
                ) by {
                    assert(accounts@[8 + feed_count + 2 * j] == before[8 + feed_count + 2 * j]);
                }
                assert forall|j: int| 0 <= j < i implies names(
                    #[trigger] accounts@[8 + feed_count + 2 * j + 1],
                    stats_address(oracle_keys@[j]@)->0,
                    false,
                    true,
                ) by {
                    assert(accounts@[8 + feed_count + 2 * j + 1] == before[8 + feed_count + 2 * j
                        + 1]);
                }
                assert(stats_address(oracle_keys@[i as int]@) == Some(stats_key@));
                assert(names(
                    accounts@[8 + feed_count + 2 * i + 1],
                    stats_address(oracle_keys@[i as int]@)->0,
                    false,
                    true,
                ));
                assert forall|j: int| 0 <= j < feed_count implies names(
                    #[trigger] accounts@[8 + j],
                    feeds@[j]@,
                    false,
                    true,
                ) by {
                    assert(accounts@[8 + j] == before[8 + j]);
                }
            }
            i += 1;
        }
        let ghost subs = submissions@;
        let params = PullFeedSubmitResponseManyParams { slot, submissions };
        let data = params.data();
        let ghost metas = accounts@;
        proof {
            assert forall|j: int| 0 <= j < 8 implies metas[j] == head[j] by {
                assert(metas.subrange(0, 8)[j] == metas[j]);
            }
            assert forall|j: int| 0 <= j < keys_view(oracle_keys@).len() implies stats_address(
                #[trigger] keys_view(oracle_keys@)[j],
            ) is Some by {
                assert(stats_address(oracle_keys@[j]@) is Some);
            }
        }
        let ix = Instruction {
            program_id: Pubkey { bytes: SWITCHBOARD_ON_DEMAND_PROGRAM_ID },
            accounts,
            data,
        };
        proof {
            assert forall|j: int| 0 <= j < feeds@.len() implies names(
                #[trigger] ix.accounts@[8 + j],
                feeds@[j]@,
                false,
                true,
            ) by {
                assert(names(metas[8 + j], feeds@[j]@, false, true));
            }
            assert forall|j: int| 0 <= j < oracle_keys@.len() implies names(
                #[trigger] ix.accounts@[8 + feeds@.len() + 2 * j],
                oracle_keys@[j]@,
                false,
                false,
            ) by {
                assert(names(metas[8 + feed_count + 2 * j], oracle_keys@[j]@, false, false));
            }
            assert forall|j: int| 0 <= j < oracle_keys@.len() implies names(
                #[trigger] ix.accounts@[8 + feeds@.len() + 2 * j + 1],
                stats_address(oracle_keys@[j]@)->0,
                false,
                true,
            ) by {
                assert(names(
                    metas[8 + feed_count + 2 * j + 1],
                    stats_address(oracle_keys@[j]@)->0,
                    false,
                    true,
                ));
            }
            assert(ix.data@ =~= PULL_FEED_SUBMIT_RESPONSE_MANY_DISCRIMINATOR@ + le_bytes(
                slot as nat,
                8,
            ) + le_bytes(subs.len(), 4) + multi_submissions_bytes(subs));
        }
        Ok(ix)
    }
}

} // verus!
