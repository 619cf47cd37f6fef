//! The update of many feeds at once: a run that loads every feed and its
//! jobs, collects the quotes of the oracles for all of them in one round
//! trip, builds the one instruction that submits them and resolves the
//! lookup tables that the instruction needs.
//!
//! As for one feed, `PullFeed::fetch_update_many_ix` makes one step of a run
//! and leaves the fetching to the caller.

use crate::accounts::pull_feed::{feed_stored, PullFeedAccountData};
use crate::bytes::le_bytes;
use crate::cache::{after_begin, after_complete, claim_of, ready_value, views, Claim};
use crate::context::{JobSpec, SbContext, SbContextView};
use crate::crossbar::CrossbarClient;
use crate::encoding::{base58_encode, base58_text, hex_encode, hex_text};
use crate::error::{FetchError, PipelineError, Stage};
use crate::gateway::{encode_jobs, encoded_job, scaled_variance, texts, FeedConfig};
use crate::gateway::{FeedConfigView, FeedEvalManyResponse, FetchSignaturesMultiParams};
use crate::gateway::{FetchSignaturesMultiRequest, FetchSignaturesMultiResponse, Gateway};
use crate::instructions::multi_submissions_bytes;
use crate::instructions::{values_bytes, Instruction, MultiSubmission};
use crate::instructions::PULL_FEED_SUBMIT_RESPONSE_MANY_DISCRIMINATOR;
use crate::lut_owner::{merge_lookup_tables, AddressLookupTableAccount};
use crate::program::{stats_address, SWITCHBOARD_ON_DEMAND_PROGRAM_ID};
use crate::pubkey::{copy_keys, keys_view, Pubkey};
use crate::pull_feed::{addresses_derivable, all_named, all_signed, count_many_values};
use crate::pull_feed::{default_num_signatures, many_errors};
use crate::pull_feed::{fixed_accounts, low_byte, names, oracle_of_many, raw_value};
use crate::pull_feed::{signature_held, submits, PullFeed};
use crate::recent_slothashes::{SlotHash, SlotHashSysvar, SLOT_HASHES_ENTRIES_SIZE};
use crate::update::latest_slot;
use vstd::prelude::*;

verus! {

/// What a caller asks for many feeds.
#[derive(Debug)]
pub struct FetchUpdateManyParams {
    pub feeds: Vec<Pubkey>,
    pub payer: Pubkey,
    pub gateway: Gateway,
    /// The job registry; the public one where none is given.
    pub crossbar: Option<CrossbarClient>,
    /// The least number of oracles to ask; it is raised to what the feeds
    /// need.
    pub num_signatures: Option<u32>,
    pub debug: Option<bool>,
}

/// What a run has gathered from the feeds that it has loaded.
#[derive(Debug)]
pub struct ManyProgress {
    /// The number of feeds that are loaded.
    pub loaded: usize,
    /// The number of oracles to ask.
    pub num_signatures: u32,
    /// The queue of the feed that was loaded last.
    pub queue: Pubkey,
    /// The jobs and the quorum policy of every feed that is loaded.
    pub feed_configs: Vec<FeedConfig>,
}

/// What a `ManyProgress` holds.
pub struct ManyProgressView {
    pub loaded: nat,
    pub num_signatures: u32,
    pub queue: Seq<u8>,
    pub feed_configs: Seq<FeedConfigView>,
}

impl View for ManyProgress {
    type V = ManyProgressView;

    open spec fn view(&self) -> ManyProgressView {
        ManyProgressView {
            loaded: self.loaded as nat,
            num_signatures: self.num_signatures,
            queue: self.queue@,
            feed_configs: views(self.feed_configs@),
        }
    }
}

/// Where the update of many feeds stands.
#[derive(Debug)]
pub enum UpdateManyState {
    /// Nothing was done yet.
    Start,
    /// The next feed is being loaded, by this run where the flag is set, else
    /// by another run.
    LoadFeed(ManyProgress, bool),
    /// The jobs of the next feed are being loaded, by this run where the flag
    /// is set, else by another run.
    LoadJobSpec(ManyProgress, PullFeedAccountData, bool),
    /// All feeds are loaded; the recent slot hashes were asked for.
    LoadSlot(ManyProgress),
    /// The gateway was asked for the quotes of the oracles, for the slot and
    /// the queue given.
    CollectQuotes(SlotHash, Pubkey),
    /// The instruction is built; the lookup tables were asked for.
    ResolveLookupTables(Instruction),
    Done,
    Failed,
}

/// What happened since the last step of an update of many feeds.
#[derive(Debug)]
pub enum UpdateManyEvent {
    /// The update is to begin.
    Begin,
    /// The data of the account of a feed.
    FeedAccount(Result<Vec<u8>, FetchError>),
    /// The jobs that the registry holds, each step in its binary form.
    Jobs(Result<Vec<Vec<u8>>, FetchError>),
    /// The data of the account of the recent slot hashes.
    SlotHashes(Result<Vec<u8>, FetchError>),
    /// The answer of the gateway.
    Signatures(Result<FetchSignaturesMultiResponse, FetchError>),
    /// The lookup tables of the oracles, of the feeds and of the queue.
    LookupTables(
        Result<Vec<AddressLookupTableAccount>, FetchError>,
        Result<Vec<AddressLookupTableAccount>, FetchError>,
        Result<Vec<AddressLookupTableAccount>, FetchError>,
    ),
    /// The wait that the last step asked for is over.
    Resume,
}

/// What the caller of an update of many feeds has to do next.
#[derive(Debug)]
pub enum UpdateManyAction {
    /// Fetch the account of the feed at this address.
    FetchFeedAccount(Pubkey),
    /// Ask the job registry at this address for the jobs of a feed.
    FetchJobs(String),
    /// Wait until another run has reported to the cache, then resume.
    Wait,
    /// Fetch the account of the recent slot hashes.
    FetchSlotHashes,
    /// Send this request to the gateway.
    FetchSignatures(FetchSignaturesMultiRequest),
    /// Resolve the lookup tables of these oracles, of these feeds and of this
    /// queue, side by side.
    ResolveLookupTables(Vec<Pubkey>, Vec<Pubkey>, Pubkey),
    /// The update: the instruction and the lookup tables.
    Done(Instruction, Vec<AddressLookupTableAccount>),
    Failed(PipelineError),
}

/// The address of the job registry that a run uses.
pub open spec fn many_registry_url(params: FetchUpdateManyParams) -> Seq<char> {
    match params.crossbar {
        Some(crossbar) => crossbar.url(),
        None => "https://crossbar.switchboard.xyz"@,
    }
}

/// Whether a step fails at `stage` with `e`.
pub open spec fn many_fails(stage: Stage, e: FetchError, next: UpdateManyState, action: UpdateManyAction)
    -> bool {
    next is Failed && action == UpdateManyAction::Failed(PipelineError { stage, error: e })
}

/// What a run has gathered before it has loaded any feed: the number of
/// oracles that the caller asks for, or one.
pub open spec fn nothing_loaded(params: FetchUpdateManyParams) -> ManyProgressView {
    ManyProgressView {
        loaded: 0,
        num_signatures: match params.num_signatures {
            Some(n) => n,
            None => 1,
        },
        queue: Seq::new(32, |i: int| 0u8),
        feed_configs: Seq::empty(),
    }
}

/// The texts that stand for the jobs `jobs` in a request.
pub open spec fn encoded_jobs(jobs: Seq<Seq<u8>>) -> Seq<Seq<char>> {
    Seq::new(jobs.len(), |i: int| encoded_job(jobs[i]))
}

/// What a run has gathered once it has loaded one more feed, `feed`, whose
/// jobs are `jobs`: the number of oracles is raised to what the feed needs,
/// the queue is that of the feed, and the jobs of the feed and its quorum
/// policy are added.
pub open spec fn absorbed(progress: ManyProgressView, feed: PullFeedAccountData, jobs: Seq<Seq<u8>>)
    -> ManyProgressView {
    ManyProgressView {
        loaded: progress.loaded + 1,
        num_signatures: if progress.num_signatures < default_num_signatures(feed.min_sample_size) {
            default_num_signatures(feed.min_sample_size) as u32
        } else {
            progress.num_signatures
        },
        queue: feed.queue@,
        feed_configs: progress.feed_configs.push(
            FeedConfigView {
                encoded_jobs: encoded_jobs(jobs),
                max_variance: Some(
                    ((feed.max_variance / 1_000_000_000) % 0x1_0000_0000) as u32,
                ),
                min_responses: Some(feed.min_responses),
            },
        ),
    }
}

/// Whether a step that has gathered `progress` goes on: to the recent slot
/// hashes once every feed is loaded, else to the next feed. The feed, and
/// then its jobs, are taken from the cache where they are there, so that the
/// step goes on to the feed after; they are fetched where nobody has asked
/// for them yet, and waited for where another run is fetching them.
pub open spec fn advances(
    before: SbContextView,
    params: FetchUpdateManyParams,
    progress: ManyProgressView,
    after: SbContextView,
    next: UpdateManyState,
    action: UpdateManyAction,
) -> bool
    decreases params.feeds@.len() - progress.loaded, 1nat,
{
    if progress.loaded >= params.feeds@.len() {
        &&& after == before
        &&& next is LoadSlot
        &&& next->LoadSlot_0@ == progress
        &&& action is FetchSlotHashes
    } else {
        let feed_key = params.feeds@[progress.loaded as int];
        match claim_of(before.feeds, feed_key@) {
            Claim::Fetch => {
                &&& after == SbContextView {
                    feeds: after_begin(before.feeds, feed_key@),
                    ..before
                }
                &&& next is LoadFeed
                &&& next->LoadFeed_0@ == progress
                &&& next->LoadFeed_1
                &&& action == UpdateManyAction::FetchFeedAccount(feed_key)
            },
            Claim::Wait => {
                &&& after == before
                &&& next is LoadFeed
                &&& next->LoadFeed_0@ == progress
                &&& !next->LoadFeed_1
                &&& action is Wait
            },
            Claim::Hit => many_loads_jobs(
                before,
                params,
                progress,
                ready_value(before.feeds, feed_key@)->0,
                after,
                next,
                action,
            ),
        }
    }
}

/// Whether a step that has gathered `progress` and has the next feed, `feed`,
/// goes on to the jobs of that feed.
pub open spec fn many_loads_jobs(
    before: SbContextView,
    params: FetchUpdateManyParams,
    progress: ManyProgressView,
    feed: PullFeedAccountData,
    after: SbContextView,
    next: UpdateManyState,
    action: UpdateManyAction,
) -> bool
    decreases params.feeds@.len() - progress.loaded, 0nat,
{
    if progress.loaded >= params.feeds@.len() {
        false
    } else {
        match claim_of(before.jobs, feed.feed_hash@) {
            Claim::Fetch => {
                &&& after == SbContextView {
                    jobs: after_begin(before.jobs, feed.feed_hash@),
                    ..before
                }
                &&& next is LoadJobSpec
                &&& next->LoadJobSpec_0@ == progress
                &&& next->LoadJobSpec_1 == feed
                &&& next->LoadJobSpec_2
                &&& action is FetchJobs
                &&& action->FetchJobs_0@ == many_registry_url(params) + "/fetch/"@ + hex_text(
                    feed.feed_hash@,
                )
            },
            Claim::Wait => {
                &&& after == before
                &&& next is LoadJobSpec
                &&& next->LoadJobSpec_0@ == progress
                &&& next->LoadJobSpec_1 == feed
                &&& !next->LoadJobSpec_2
                &&& action is Wait
            },
            Claim::Hit => advances(
                before,
                params,
                absorbed(progress, feed, ready_value(before.jobs, feed.feed_hash@)->0),
                after,
                next,
                action,
            ),
        }
    }
}

/// Whether `request` asks the gateway of `params` for the quotes of the
/// feeds that `progress` was gathered from, at the slot `slot`.
pub open spec fn asks_for_many(
    params: FetchUpdateManyParams,
    progress: ManyProgressView,
    slot: SlotHash,
    request: FetchSignaturesMultiRequest,
) -> bool {
    &&& request.url@ == params.gateway.url() + "/gateway/api/v1/fetch_signatures_multi"@
    &&& request.api_version@ == "1.0.0"@
    &&& request.num_oracles == progress.num_signatures
    &&& request.recent_hash@ == base58_text(slot.hash@)
    &&& request.signature_scheme@ == "Secp256k1"@
    &&& request.hash_scheme@ == "Sha256"@
    &&& request.feed_requests@.len() == progress.feed_configs.len()
    &&& forall|i: int|
        0 <= i < progress.feed_configs.len() ==> {
            &&& texts((#[trigger] request.feed_requests@[i]).jobs_b64_encoded@)
                == progress.feed_configs[i].encoded_jobs
            &&& request.feed_requests@[i].max_variance == scaled_variance(
                progress.feed_configs[i].max_variance,
            )
            &&& request.feed_requests@[i].min_responses
                == progress.feed_configs[i].min_responses.unwrap_or(1)
            &&& !request.feed_requests@[i].use_timestamp
        }
}

/// The bytes that are submitted for the answer `x` of one oracle: the number
/// of feeds in four bytes, a value for each feed, the signature, the
/// recovery id.
pub open spec fn answer_bytes(x: FeedEvalManyResponse) -> Seq<u8> {
    le_bytes(x.feed_responses@.len(), 4) + values_bytes(
        Seq::new(x.feed_responses@.len(), |i: int| raw_value(x.feed_responses@[i].success_value@)),
    ) + signature_held(x.signature@)->0 + seq![low_byte(x.recovery_id)]
}

/// The bytes that are submitted for the answers, one after the other.
pub open spec fn answers_bytes(answers: Seq<FeedEvalManyResponse>) -> Seq<u8>
    decreases answers.len(),
{
    if answers.len() == 0 {
        Seq::empty()
    } else {
        answers_bytes(answers.drop_last()) + answer_bytes(answers.last())
    }
}

/// The oracles that the answers come from.
pub open spec fn oracles_of_many(answers: Seq<FeedEvalManyResponse>) -> Seq<Seq<u8>> {
    Seq::new(answers.len(), |i: int| oracle_of_many(answers[i])->0)
}

/// Whether the answers fit an instruction: no list is too long for the four
/// bytes that hold its length, and the accounts can be counted.
pub open spec fn fits_instruction(answers: Seq<FeedEvalManyResponse>, feeds: Seq<Pubkey>) -> bool {
    &&& answers.len() <= u32::MAX
    &&& forall|i: int|
        0 <= i < answers.len() ==> (#[trigger] answers[i]).feed_responses@.len() <= u32::MAX
    &&& 8 + feeds.len() + 2 * answers.len() <= usize::MAX
}

/// Whether `ix` is the instruction that submits the answers `answers` for the
/// feeds `feeds` of the queue `queue`, signed for `slot`.
pub open spec fn submits_answers(
    ix: Instruction,
    slot: u64,
    answers: Seq<FeedEvalManyResponse>,
    feeds: Seq<Pubkey>,
    queue: Pubkey,
    payer: Pubkey,
) -> bool {
    &&& ix.program_id@ == SWITCHBOARD_ON_DEMAND_PROGRAM_ID@
    &&& ix.data@ == PULL_FEED_SUBMIT_RESPONSE_MANY_DISCRIMINATOR@ + le_bytes(slot as nat, 8)
        + le_bytes(answers.len(), 4) + answers_bytes(answers)
    &&& ix.accounts@.len() == 8 + feeds.len() + 2 * answers.len()
    &&& fixed_accounts(ix.accounts@, 0, queue@, payer@)
    &&& forall|i: int|
        0 <= i < feeds.len() ==> names(#[trigger] ix.accounts@[8 + i], feeds[i]@, false, true)
    &&& forall|i: int|
        0 <= i < answers.len() ==> names(
            #[trigger] ix.accounts@[8 + feeds.len() + 2 * i],
            oracle_of_many(answers[i])->0,
            false,
            false,
        )
    &&& forall|i: int|
        0 <= i < answers.len() ==> names(
            #[trigger] ix.accounts@[8 + feeds.len() + 2 * i + 1],
            stats_address(oracle_of_many(answers[i])->0)->0,
            false,
            true,
        )
}

/// Whether a step that has collected the answers `answers` of the gateway
/// builds the instruction and asks for the lookup tables.
///
/// The step fails at the collection where no oracle holds a value for any
/// feed; the failure then carries the error of every answer for a feed. It
/// fails there too where an answer holds no signature or does not name its
/// oracle, and it fails at the building where the answers do not fit an
/// instruction or an address cannot be derived.
pub open spec fn builds_many(
    params: FetchUpdateManyParams,
    slot: SlotHash,
    queue: Pubkey,
    answers: Seq<FeedEvalManyResponse>,
    next: UpdateManyState,
    action: UpdateManyAction,
) -> bool {
    if count_many_values(answers) == 0 {
        &&& next is Failed
        &&& action is Failed
        &&& action->Failed_0.stage == Stage::CollectQuotes
        &&& action->Failed_0.error is NoQuotesError
        &&& texts(action->Failed_0.error->NoQuotesError_0@) == many_errors(answers)
    } else if !all_signed(answers) || !all_named(answers) {
        many_fails(Stage::CollectQuotes, FetchError::DeserializeError, next, action)
    } else if !fits_instruction(answers, params.feeds@) {
        many_fails(Stage::BuildInstruction, FetchError::DeserializeError, next, action)
    } else if !addresses_derivable(queue@, oracles_of_many(answers)) {
        many_fails(Stage::BuildInstruction, FetchError::NoProgramAddress, next, action)
    } else {
        &&& next is ResolveLookupTables
        &&& submits_answers(
            next->ResolveLookupTables_0,
            slot.slot,
            answers,
            params.feeds@,
            queue,
            params.payer,
        )
        &&& action is ResolveLookupTables
        &&& keys_view(action->ResolveLookupTables_0@) == oracles_of_many(answers)
        &&& action->ResolveLookupTables_1@ == params.feeds@
        &&& action->ResolveLookupTables_2 == queue
    }
}

/// Whether a step of the update that `params` asks for, which starts in
/// `state` over the caches `before` and is handed `event`, ends in `next`
/// over the caches `after` and asks for `action`.
///
/// The run loads every feed and its jobs, in the order of the feeds, then
/// fetches the recent slot hashes, asks the gateway for quotes, builds the
/// instruction and has the lookup tables resolved; the tables of the oracles
/// come first in the update, then those of the feeds, then those of the
/// queue. A step that fails names the stage and the error, and where this run
/// was fetching for the cache, the cache forgets the fetch. An event that the
/// state does not wait for fails the run.
pub open spec fn update_many_step(
    before: SbContextView,
    params: FetchUpdateManyParams,
    state: UpdateManyState,
    event: UpdateManyEvent,
    after: SbContextView,
    next: UpdateManyState,
    action: UpdateManyAction,
) -> bool {
    match state {
        UpdateManyState::Start => match event {
            UpdateManyEvent::Begin => advances(
                before,
                params,
                nothing_loaded(params),
                after,
                next,
                action,
            ),
            _ => after == before && many_fails(
                Stage::Start,
                FetchError::UnexpectedEvent,
                next,
                action,
            ),
        },
        UpdateManyState::LoadFeed(progress, fetching) => if progress.loaded >= params.feeds@.len() {
            after == before && many_fails(
                Stage::LoadFeed,
                FetchError::UnexpectedEvent,
                next,
                action,
            )
        } else if fetching {
            let feed_key = params.feeds@[progress.loaded as int];
            match event {
                UpdateManyEvent::FeedAccount(Ok(account)) => if account@.len() == 3208 {
                    many_loads_jobs(
                        SbContextView {
                            feeds: after_complete(
                                before.feeds,
                                feed_key@,
                                Some(feed_stored(account@)),
                            ),
                            ..before
                        },
                        params,
                        progress@,
                        ready_value(
                            after_complete(before.feeds, feed_key@, Some(feed_stored(account@))),
                            feed_key@,
                        )->0,
                        after,
                        next,
                        action,
                    )
                } else {
                    &&& after == SbContextView {
                        feeds: after_complete(before.feeds, feed_key@, None),
                        ..before
                    }
                    &&& many_fails(Stage::LoadFeed, FetchError::DeserializeError, next, action)
                },
                UpdateManyEvent::FeedAccount(Err(e)) => {
                    &&& after == SbContextView {
                        feeds: after_complete(before.feeds, feed_key@, None),
                        ..before
                    }
                    &&& many_fails(Stage::LoadFeed, e, next, action)
                },
                _ => {
                    &&& after == SbContextView {
                        feeds: after_complete(before.feeds, feed_key@, None),
                        ..before
                    }
                    &&& many_fails(Stage::LoadFeed, FetchError::UnexpectedEvent, next, action)
                },
            }
        } else {
            match event {
                UpdateManyEvent::Resume => advances(before, params, progress@, after, next, action),
                _ => after == before && many_fails(
                    Stage::LoadFeed,
                    FetchError::UnexpectedEvent,
                    next,
                    action,
                ),
            }
        },
        UpdateManyState::LoadJobSpec(progress, feed, fetching) => if progress.loaded
            >= params.feeds@.len() {
            after == before && many_fails(
                Stage::LoadJobSpec,
                FetchError::UnexpectedEvent,
                next,
                action,
            )
        } else if fetching {
            match event {
                UpdateManyEvent::Jobs(Ok(jobs)) => advances(
                    SbContextView {
                        jobs: after_complete(
                            before.jobs,
                            feed.feed_hash@,
                            Some(JobSpec { jobs }@),
                        ),
                        ..before
                    },
                    params,
                    absorbed(
                        progress@,
                        feed,
                        ready_value(
                            after_complete(before.jobs, feed.feed_hash@, Some(JobSpec { jobs }@)),
                            feed.feed_hash@,
                        )->0,
                    ),
                    after,
                    next,
                    action,
                ),
                UpdateManyEvent::Jobs(Err(e)) => {
                    &&& after == SbContextView {
                        jobs: after_complete(before.jobs, feed.feed_hash@, None),
                        ..before
                    }
                    &&& many_fails(Stage::LoadJobSpec, e, next, action)
                },
                _ => {
                    &&& after == SbContextView {
                        jobs: after_complete(before.jobs, feed.feed_hash@, None),
                        ..before
                    }
                    &&& many_fails(Stage::LoadJobSpec, FetchError::UnexpectedEvent, next, action)
                },
            }
        } else {
            match event {
                UpdateManyEvent::Resume => many_loads_jobs(
                    before,
                    params,
                    progress@,
                    feed,
                    after,
                    next,
                    action,
                ),
                _ => after == before && many_fails(
                    Stage::LoadJobSpec,
                    FetchError::UnexpectedEvent,
                    next,
                    action,
                ),
            }
        },
        UpdateManyState::LoadSlot(progress) => after == before && match event {
            UpdateManyEvent::SlotHashes(Ok(data)) => if data@.len() >= 8
                + SLOT_HASHES_ENTRIES_SIZE {
                &&& next is CollectQuotes
                &&& latest_slot(data@, next->CollectQuotes_0)
                &&& next->CollectQuotes_1 == progress.queue
                &&& action is FetchSignatures
                &&& asks_for_many(
                    params,
                    progress@,
                    next->CollectQuotes_0,
                    action->FetchSignatures_0,
                )
            } else {
                many_fails(Stage::CollectQuotes, FetchError::DeserializeError, next, action)
            },
            UpdateManyEvent::SlotHashes(Err(e)) => many_fails(
                Stage::CollectQuotes,
                e,
                next,
                action,
            ),
            _ => many_fails(Stage::CollectQuotes, FetchError::UnexpectedEvent, next, action),
        },
        UpdateManyState::CollectQuotes(slot, queue) => after == before && match event {
            UpdateManyEvent::Signatures(Ok(answer)) => builds_many(
                params,
                slot,
                queue,
                answer.oracle_responses@,
                next,
                action,
            ),
            UpdateManyEvent::Signatures(Err(e)) => many_fails(
                Stage::CollectQuotes,
                e,
                next,
                action,
            ),
            _ => many_fails(Stage::CollectQuotes, FetchError::UnexpectedEvent, next, action),
        },
        UpdateManyState::ResolveLookupTables(ix) => after == before && match event {
            UpdateManyEvent::LookupTables(Ok(oracle_luts), Ok(feed_luts), Ok(queue_luts)) => {
                &&& next is Done
                &&& action is Done
                &&& action->Done_0 == ix
                &&& action->Done_1@ == oracle_luts@ + feed_luts@ + queue_luts@
            },
            UpdateManyEvent::LookupTables(Err(e), _, _) => many_fails(
                Stage::ResolveLookupTables,
                e,
                next,
                action,
            ),
            UpdateManyEvent::LookupTables(Ok(_), Err(e), _) => many_fails(
                Stage::ResolveLookupTables,
                e,
                next,
                action,
            ),
            UpdateManyEvent::LookupTables(Ok(_), Ok(_), Err(e)) => many_fails(
                Stage::ResolveLookupTables,
                e,
                next,
                action,
            ),
            _ => many_fails(Stage::ResolveLookupTables, FetchError::UnexpectedEvent, next, action),
        },
        UpdateManyState::Done => after == before && many_fails(
            Stage::ResolveLookupTables,
            FetchError::UnexpectedEvent,
            next,
            action,
        ),
        UpdateManyState::Failed => after == before && many_fails(
            Stage::Start,
            FetchError::UnexpectedEvent,
            next,
            action,
        ),
    }
}

/// The quorum gate: where the gateway answers and no oracle holds a value
/// for any feed, the run fails at the collection for want of quotes, with the
/// error of every answer for a feed, and builds no instruction.
pub proof fn lemma_no_quotes_fail_the_run_for_many(
    before: SbContextView,
    params: FetchUpdateManyParams,
    slot: SlotHash,
    queue: Pubkey,
    answer: FetchSignaturesMultiResponse,
    after: SbContextView,
    next: UpdateManyState,
    action: UpdateManyAction,
)
    requires
        update_many_step(
            before,
            params,
            UpdateManyState::CollectQuotes(slot, queue),
            UpdateManyEvent::Signatures(Ok(answer)),
            after,
            next,
            action,
        ),
        forall|i: int|
            0 <= i < answer.oracle_responses@.len() ==> crate::pull_feed::no_integer(
                (#[trigger] answer.oracle_responses@[i]).feed_responses@,
            ),
    ensures
        after == before,
        next is Failed,
        action is Failed,
        action->Failed_0.stage == Stage::CollectQuotes,
        action->Failed_0.error is NoQuotesError,
        texts(action->Failed_0.error->NoQuotesError_0@) == many_errors(answer.oracle_responses@),
{
    crate::pull_feed::lemma_count_many_values(answer.oracle_responses@);
}

/// Going on to the next feed neither fails nor finishes the run: what is
/// cached is passed over, and the first feed or job specification that is
/// missing is fetched or waited for.
pub proof fn lemma_advancing_goes_on(
    before: SbContextView,
    params: FetchUpdateManyParams,
    progress: ManyProgressView,
    after: SbContextView,
    next: UpdateManyState,
    action: UpdateManyAction,
)
    requires
        advances(before, params, progress, after, next, action),
    ensures
        !(next is Failed) && !(action is Failed),
        !(next is Done) && !(action is Done),
    decreases params.feeds@.len() - progress.loaded, 1nat,
{
    if progress.loaded < params.feeds@.len() {
        let feed_key = params.feeds@[progress.loaded as int];
        if claim_of(before.feeds, feed_key@) == Claim::Hit {
            lemma_loading_jobs_goes_on(
                before,
                params,
                progress,
                ready_value(before.feeds, feed_key@)->0,
                after,
                next,
                action,
            );
        }
    }
}

/// Going on to the jobs of the next feed neither fails nor finishes the run.
pub proof fn lemma_loading_jobs_goes_on(
    before: SbContextView,
    params: FetchUpdateManyParams,
    progress: ManyProgressView,
    feed: PullFeedAccountData,
    after: SbContextView,
    next: UpdateManyState,
    action: UpdateManyAction,
)
    requires
        many_loads_jobs(before, params, progress, feed, after, next, action),
    ensures
        !(next is Failed) && !(action is Failed),
        !(next is Done) && !(action is Done),
    decreases params.feeds@.len() - progress.loaded, 0nat,
{
    if progress.loaded < params.feeds@.len() && claim_of(before.jobs, feed.feed_hash@)
        == Claim::Hit {
        lemma_advancing_goes_on(
            before,
            params,
            absorbed(progress, feed, ready_value(before.jobs, feed.feed_hash@)->0),
            after,
            next,
            action,
        );
    }
}

/// A run that has failed hands out nothing but the failure, and an update is
/// handed out by the last step alone: a step ends in failure exactly where it
/// asks the caller to take the failure, and it is done exactly where it hands
/// out the update.
pub proof fn lemma_no_partial_update_of_many(
    before: SbContextView,
    params: FetchUpdateManyParams,
    state: UpdateManyState,
    event: UpdateManyEvent,
    after: SbContextView,
    next: UpdateManyState,
    action: UpdateManyAction,
)
    requires
        update_many_step(before, params, state, event, after, next, action),
    ensures
        next is Failed <==> action is Failed,
        next is Done <==> action is Done,
        action is Done ==> state is ResolveLookupTables,
{
    match state {
        UpdateManyState::Start => {
            if event is Begin {
                lemma_advancing_goes_on(
                    before,
                    params,
                    nothing_loaded(params),
                    after,
                    next,
                    action,
                );
            }
        },
        UpdateManyState::LoadFeed(progress, fetching) => {
            if progress.loaded < params.feeds@.len() {
                let feed_key = params.feeds@[progress.loaded as int];
                if fetching {
                    match event {
                        UpdateManyEvent::FeedAccount(Ok(account)) => {
                            if account@.len() == 3208 {
                                let feeds = after_complete(
                                    before.feeds,
                                    feed_key@,
                                    Some(feed_stored(account@)),
                                );
                                lemma_loading_jobs_goes_on(
                                    SbContextView { feeds, ..before },
                                    params,
                                    progress@,
                                    ready_value(feeds, feed_key@)->0,
                                    after,
                                    next,
                                    action,
                                );
                            }
                        },
                        _ => {},
                    }
                } else if event is Resume {
                    lemma_advancing_goes_on(before, params, progress@, after, next, action);
                }
            }
        },
        UpdateManyState::LoadJobSpec(progress, feed, fetching) => {
            if progress.loaded < params.feeds@.len() {
                if fetching {
                    match event {
                        UpdateManyEvent::Jobs(Ok(jobs)) => {
                            let held = after_complete(
                                before.jobs,
                                feed.feed_hash@,
                                Some(JobSpec { jobs }@),
                            );
                            lemma_advancing_goes_on(
                                SbContextView { jobs: held, ..before },
                                params,
                                absorbed(progress@, feed, ready_value(held, feed.feed_hash@)->0),
                                after,
                                next,
                                action,
                            );
                        },
                        _ => {},
                    }
                } else if event is Resume {
                    lemma_loading_jobs_goes_on(before, params, progress@, feed, after, next, action);
                }
            }
        },
        _ => {},
    }
}

/// Fails a step.
fn fail(stage: Stage, e: FetchError) -> (r: (UpdateManyState, UpdateManyAction))
    ensures
        many_fails(stage, e, r.0, r.1),
{
    (UpdateManyState::Failed, UpdateManyAction::Failed(PipelineError { stage, error: e }))
}

/// Adds what the feed `feed` and its jobs say to what was gathered.
fn absorb(progress: ManyProgress, feed: &PullFeedAccountData, jobs: &JobSpec) -> (r: ManyProgress)
    requires
        progress.loaded < usize::MAX,
    ensures
        r@ == absorbed(progress@, *feed, jobs@),
{
    let lower_bound = PullFeed::default_num_signatures(feed.min_sample_size);
    let num_signatures = if progress.num_signatures < lower_bound {
        lower_bound
    } else {
        progress.num_signatures
    };
    let encoded = encode_jobs(&jobs.jobs);
    let config = FeedConfig {
        encoded_jobs: encoded,
        max_variance: Some(((feed.max_variance / 1_000_000_000) % 0x1_0000_0000) as u32),
        min_responses: Some(feed.min_responses),
    };
    let ghost before = views(progress.feed_configs@);
    let ghost added = config@;
    let mut feed_configs = progress.feed_configs;
    feed_configs.push(config);
    proof {
        assert(added.encoded_jobs =~= encoded_jobs(jobs@));
        assert(views(feed_configs@) =~= before.push(added));
    }
    ManyProgress { loaded: progress.loaded + 1, num_signatures, queue: feed.queue, feed_configs }
}

/// Goes on to the next feed, or to the recent slot hashes.
fn advance(context: &mut SbContext, params: &FetchUpdateManyParams, progress: ManyProgress) -> (r: (
    UpdateManyState,
    UpdateManyAction,
))
    requires
        old(context).wf(),
    ensures
        final(context).wf(),
        advances(old(context)@, *params, progress@, final(context)@, r.0, r.1),
    decreases params.feeds@.len() - progress.loaded, 1nat,
{
    if progress.loaded >= params.feeds.len() {
        return (UpdateManyState::LoadSlot(progress), UpdateManyAction::FetchSlotHashes);
    }
    let feed_key = params.feeds[progress.loaded];
    match context.pull_feed_cache.begin(&feed_key.bytes) {
        Claim::Fetch => (
            UpdateManyState::LoadFeed(progress, true),
            UpdateManyAction::FetchFeedAccount(feed_key),
        ),
        Claim::Wait => (UpdateManyState::LoadFeed(progress, false), UpdateManyAction::Wait),
        Claim::Hit => {
            let cached = match context.pull_feed_cache.get(&feed_key.bytes) {
                Some(feed) => Some(*feed),
                None => None,
            };
            match cached {
                Some(feed) => load_jobs(context, params, progress, feed),
                None => fail(Stage::LoadFeed, FetchError::NotFound),
            }
        },
    }
}

/// Goes on to the jobs of the next feed.
fn load_jobs(
    context: &mut SbContext,
    params: &FetchUpdateManyParams,
    progress: ManyProgress,
    feed: PullFeedAccountData,
) -> (r: (UpdateManyState, UpdateManyAction))
    requires
        old(context).wf(),
        progress.loaded < params.feeds@.len(),
    ensures
        final(context).wf(),
        many_loads_jobs(old(context)@, *params, progress@, feed, final(context)@, r.0, r.1),
    decreases params.feeds@.len() - progress.loaded, 0nat,
{
    let feed_count = params.feeds.len();
    assert(progress.loaded < feed_count);
    match context.job_cache.begin(&feed.feed_hash) {
        Claim::Fetch => {
            let hash = hex_encode(&feed.feed_hash);
            let url = match &params.crossbar {
                Some(crossbar) => crossbar.fetch(hash.as_str()),
                None => CrossbarClient::default().fetch(hash.as_str()),
            };
            (UpdateManyState::LoadJobSpec(progress, feed, true), UpdateManyAction::FetchJobs(url))
        },
        Claim::Wait => (UpdateManyState::LoadJobSpec(progress, feed, false), UpdateManyAction::Wait),
        Claim::Hit => {
            let gathered = match context.job_cache.get(&feed.feed_hash) {
                Some(jobs) => Some(absorb(progress, &feed, jobs)),
                None => None,
            };
            match gathered {
                Some(progress) => advance(context, params, progress),
                None => fail(Stage::LoadJobSpec, FetchError::NotFound),
            }
        },
    }
}

/// The bytes of the submissions are those of the answers that they were
/// read from.
proof fn lemma_answers_bytes(list: Seq<MultiSubmission>, answers: Seq<FeedEvalManyResponse>)
    requires
        list.len() == answers.len(),
        forall|i: int| 0 <= i < answers.len() ==> submits(#[trigger] list[i], answers[i]),
    ensures
        multi_submissions_bytes(list) == answers_bytes(answers),
    decreases list.len(),
{
    if list.len() > 0 {
        lemma_answers_bytes(list.drop_last(), answers.drop_last());
        let s = list.last();
        let x = answers.last();
        assert(submits(list[list.len() - 1], answers[list.len() - 1]));
        assert(s.values@ =~= Seq::new(
            x.feed_responses@.len(),
            |i: int| raw_value(x.feed_responses@[i].success_value@),
        ));
    }
}

/// Builds the instruction from the answers of the gateway and asks for the
/// lookup tables.
fn build(
    params: &FetchUpdateManyParams,
    slot: SlotHash,
    queue: Pubkey,
    answers: &Vec<FeedEvalManyResponse>,
) -> (r: (UpdateManyState, UpdateManyAction))
    ensures
        builds_many(*params, slot, queue, answers@, r.0, r.1),
{
    let (submissions, oracle_keys) = match PullFeed::collect_many(answers) {
        Ok(collected) => collected,
        Err(e) => {
            return fail(Stage::CollectQuotes, e);
        },
    };
    proof {
        assert(keys_view(oracle_keys@) =~= oracles_of_many(answers@));
        lemma_answers_bytes(submissions@, answers@);
    }
    if !fits(&submissions, params.feeds.len()) {
        proof {
            if fits_instruction(answers@, params.feeds@) {
                assert forall|i: int| 0 <= i < submissions@.len() implies (
                #[trigger] submissions@[i]).values@.len() <= u32::MAX by {
                    assert(submits(submissions@[i], answers@[i]));
                    assert(answers@[i].feed_responses@.len() <= u32::MAX);
                }
                assert(false);
            }
        }
        return fail(Stage::BuildInstruction, FetchError::DeserializeError);
    }
    proof {
        assert forall|i: int| 0 <= i < answers@.len() implies (
        #[trigger] answers@[i]).feed_responses@.len() <= u32::MAX by {
            assert(submits(submissions@[i], answers@[i]));
        }
    }
    let ix = match PullFeed::get_solana_submit_signatures_many_ix(
        slot.slot,
        submissions,
        &oracle_keys,
        &params.feeds,
        queue,
        params.payer,
    ) {
        Ok(ix) => ix,
        Err(e) => {
            return fail(Stage::BuildInstruction, FetchError::NoProgramAddress);
        },
    };
    proof {
        assert forall|i: int| 0 <= i < answers@.len() implies names(
            #[trigger] ix.accounts@[8 + params.feeds@.len() + 2 * i],
            oracle_of_many(answers@[i])->0,
            false,
            false,
        ) by {
            assert(oracle_of_many(answers@[i]) == Some(oracle_keys@[i]@));
        }
        assert forall|i: int| 0 <= i < answers@.len() implies names(
            #[trigger] ix.accounts@[8 + params.feeds@.len() + 2 * i + 1],
            stats_address(oracle_of_many(answers@[i])->0)->0,
            false,
            true,
        ) by {
            assert(oracle_of_many(answers@[i]) == Some(oracle_keys@[i]@));
        }
    }
    let feeds = copy_keys(&params.feeds);
    (
        UpdateManyState::ResolveLookupTables(ix),
        UpdateManyAction::ResolveLookupTables(oracle_keys, feeds, queue),
    )
}

/// Whether the submissions fit an instruction that also names `feed_count`
/// feeds.
fn fits(submissions: &Vec<MultiSubmission>, feed_count: usize) -> (r: bool)
    ensures
        r == {
            &&& submissions@.len() <= u32::MAX
            &&& forall|i: int|
                0 <= i < submissions@.len() ==> (#[trigger] submissions@[i]).values@.len()
                    <= u32::MAX
            &&& 8 + feed_count + 2 * submissions@.len() <= usize::MAX
        },
{
    let count = submissions.len();
    if count > 0xffff_ffff {
        return false;
    }
    if feed_count > usize::MAX - 8 {
        return false;
    }
    if count > (usize::MAX - 8 - feed_count) / 2 {
        return false;
    }
    let mut i: usize = 0;
    while i < count
        invariant
            i <= count == submissions@.len(),
            forall|j: int| 0 <= j < i ==> (#[trigger] submissions@[j]).values@.len() <= u32::MAX,
        decreases count - i,
    {
        if submissions[i].values.len() > 0xffff_ffff {
            return false;
        }
        i += 1;
    }
    true
}

impl PullFeed {
    /// One step of the update of the feeds that `params` names: from where
    /// the run stands and what happened to where it stands then and what the
    /// caller has to do. Feeds and jobs are taken from the caches of
    /// `context` where they are there, and fetched once and put there where
    /// they are not.
    pub fn fetch_update_many_ix(
        context: &mut SbContext,
        params: &FetchUpdateManyParams,
        state: UpdateManyState,
        event: UpdateManyEvent,
    ) -> (r: (UpdateManyState, UpdateManyAction))
        requires
            old(context).wf(),
        ensures
            final(context).wf(),
            update_many_step(old(context)@, *params, state, event, final(context)@, r.0, r.1),
    {
        match state {
            UpdateManyState::Start => match event {
                UpdateManyEvent::Begin => {
                    let progress = ManyProgress {
                        loaded: 0,
                        num_signatures: match params.num_signatures {
                            Some(n) => n,
                            None => 1,
                        },
                        queue: Pubkey { bytes: [0u8; 32] },
                        feed_configs: Vec::new(),
                    };
                    proof {
                        assert(progress@.feed_configs =~= Seq::<FeedConfigView>::empty());
                        assert(progress@.queue =~= nothing_loaded(*params).queue);
                    }
                    advance(context, params, progress)
                },
                _ => fail(Stage::Start, FetchError::UnexpectedEvent),
            },
            UpdateManyState::LoadFeed(progress, fetching) => {
                if progress.loaded >= params.feeds.len() {
                    return fail(Stage::LoadFeed, FetchError::UnexpectedEvent);
                }
                if fetching {
                    let feed_key = params.feeds[progress.loaded];
                    match event {
                        UpdateManyEvent::FeedAccount(Ok(account)) => {
                            match PullFeed::load_data(account.as_slice()) {
                                Ok(feed) => {
                                    context.pull_feed_cache.complete(&feed_key.bytes, Some(feed));
                                    let kept = match context.pull_feed_cache.get(&feed_key.bytes) {
                                        Some(feed) => *feed,
                                        None => feed,
                                    };
                                    load_jobs(context, params, progress, kept)
                                },
                                Err(_) => {
                                    context.pull_feed_cache.complete(&feed_key.bytes, None);
                                    fail(Stage::LoadFeed, FetchError::DeserializeError)
                                },
                            }
                        },
                        UpdateManyEvent::FeedAccount(Err(e)) => {
                            context.pull_feed_cache.complete(&feed_key.bytes, None);
                            fail(Stage::LoadFeed, e)
                        },
                        _ => {
                            context.pull_feed_cache.complete(&feed_key.bytes, None);
                            fail(Stage::LoadFeed, FetchError::UnexpectedEvent)
                        },
                    }
                } else {
                    match event {
                        UpdateManyEvent::Resume => advance(context, params, progress),
                        _ => fail(Stage::LoadFeed, FetchError::UnexpectedEvent),
                    }
                }
            },
            UpdateManyState::LoadJobSpec(progress, feed, fetching) => {
                if progress.loaded >= params.feeds.len() {
                    return fail(Stage::LoadJobSpec, FetchError::UnexpectedEvent);
                }
                if fetching {
                    match event {
                        UpdateManyEvent::Jobs(Ok(jobs)) => {
                            let fetched = JobSpec { jobs };
                            let ghost fetched_view = fetched@;
                            context.job_cache.complete(&feed.feed_hash, Some(fetched));
                            let gathered = match context.job_cache.get(&feed.feed_hash) {
                                Some(jobs) => Some(absorb(progress, &feed, jobs)),
                                None => None,
                            };
                            match gathered {
                                Some(progress) => advance(context, params, progress),
                                None => fail(Stage::LoadJobSpec, FetchError::NotFound),
                            }
                        },
                        UpdateManyEvent::Jobs(Err(e)) => {
                            context.job_cache.complete(&feed.feed_hash, None);
                            fail(Stage::LoadJobSpec, e)
                        },
                        _ => {
                            context.job_cache.complete(&feed.feed_hash, None);
                            fail(Stage::LoadJobSpec, FetchError::UnexpectedEvent)
                        },
                    }
                } else {
                    match event {
                        UpdateManyEvent::Resume => load_jobs(context, params, progress, feed),
                        _ => fail(Stage::LoadJobSpec, FetchError::UnexpectedEvent),
                    }
                }
            },
            UpdateManyState::LoadSlot(progress) => match event {
                UpdateManyEvent::SlotHashes(Ok(data)) => {
                    match SlotHashSysvar::get_latest_slothash(data.as_slice()) {
                        Some(slot) => {
                            let ghost gathered = progress@;
                            let queue = progress.queue;
                            let request = params.gateway.fetch_signatures_multi(
                                FetchSignaturesMultiParams {
                                    recent_hash: Some(base58_encode(&slot.hash)),
                                    num_signatures: Some(progress.num_signatures),
                                    feed_configs: progress.feed_configs,
                                    use_timestamp: Some(false),
                                },
                            );
                            proof {
                                assert forall|i: int|
                                    0 <= i < gathered.feed_configs.len() implies texts(
                                    (#[trigger] request.feed_requests@[i]).jobs_b64_encoded@,
                                ) == gathered.feed_configs[i].encoded_jobs by {
                                    assert(crate::gateway::feed_request_of(
                                        progress.feed_configs@[i],
                                        Some(false),
                                        request.feed_requests@[i],
                                    ));
                                }
                            }
                            (
                                UpdateManyState::CollectQuotes(slot, queue),
                                UpdateManyAction::FetchSignatures(request),
                            )
                        },
                        None => fail(Stage::CollectQuotes, FetchError::DeserializeError),
                    }
                },
                UpdateManyEvent::SlotHashes(Err(e)) => fail(Stage::CollectQuotes, e),
                _ => fail(Stage::CollectQuotes, FetchError::UnexpectedEvent),
            },
            UpdateManyState::CollectQuotes(slot, queue) => match event {
                UpdateManyEvent::Signatures(Ok(answer)) => build(
                    params,
                    slot,
                    queue,
                    &answer.oracle_responses,
                ),
                UpdateManyEvent::Signatures(Err(e)) => fail(Stage::CollectQuotes, e),
                _ => fail(Stage::CollectQuotes, FetchError::UnexpectedEvent),
            },
            UpdateManyState::ResolveLookupTables(ix) => match event {
                UpdateManyEvent::LookupTables(oracle_luts, feed_luts, queue_luts) => {
                    match merge_lookup_tables(oracle_luts, feed_luts, queue_luts) {
                        Ok(luts) => (UpdateManyState::Done, UpdateManyAction::Done(ix, luts)),
                        Err(e) => fail(Stage::ResolveLookupTables, e),
                    }
                },
                _ => fail(Stage::ResolveLookupTables, FetchError::UnexpectedEvent),
            },
            UpdateManyState::Done => fail(Stage::ResolveLookupTables, FetchError::UnexpectedEvent),
            UpdateManyState::Failed => fail(Stage::Start, FetchError::UnexpectedEvent),
        }
    }
}

} // verus!
