//! The update of one feed: a run that loads the feed and its jobs, collects
//! the quotes of the oracles, builds the instruction that submits them and
//! resolves the lookup tables that the instruction needs.
//!
//! A run does no fetching itself. `PullFeed::fetch_update_ix` makes one step:
//! it takes the state of the run and what happened since the last step, and
//! gives the next state and what the caller has to do. The caller does it and
//! hands back what came of it.

use crate::accounts::pull_feed::{feed_stored, PullFeedAccountData};
use crate::cache::{after_begin, after_complete, claim_of, ready_value, Claim};
use crate::context::{JobSpec, SbContext, SbContextView};
use crate::crossbar::CrossbarClient;
use crate::encoding::{base58_text, hex_encode, hex_text};
use crate::error::{FetchError, PipelineError, Stage};
use crate::gateway::{encode_jobs, encoded_job, FeedEvalResponse};
use crate::gateway::{FeedEvalResponseSingle, FetchSignaturesRequest, Gateway};
use crate::instructions::{Instruction, NO_DATA};
use crate::lut_owner::{merge_lookup_tables, AddressLookupTableAccount};
use crate::pubkey::{keys_view, Pubkey};
use crate::pull_feed::{addresses_derivable, count_values, default_num_signatures, observes};
use crate::pull_feed::{oracles_named, oracles_of, reported_value, submission_of};
use crate::pull_feed::{submits_responses, submits_value, OracleResponse, PullFeed};
use crate::pull_feed::SolanaSubmitSignaturesParams;
use crate::recent_slothashes::{SlotHash, SlotHashSysvar, SLOT_HASHES_ENTRIES_SIZE};
use crate::bytes::le_value;
use vstd::prelude::*;

verus! {

/// What a caller asks for one feed.
#[derive(Debug)]
pub struct FetchUpdateParams {
    pub feed: Pubkey,
    pub payer: Pubkey,
    pub gateway: Gateway,
    /// The job registry; the public one where none is given.
    pub crossbar: Option<CrossbarClient>,
    /// The number of oracles to ask; where none is given, a third more than
    /// the feed needs samples.
    pub num_signatures: Option<u32>,
    pub debug: Option<bool>,
}

/// Where the update of one feed stands.
#[derive(Debug)]
pub enum UpdateState {
    /// Nothing was done yet.
    Start,
    /// The recent slot hashes were asked for.
    LoadSlot,
    /// The feed is being loaded, by this run where the flag is set, else by
    /// another run.
    LoadFeed(SlotHash, bool),
    /// The jobs of the feed are being loaded, by this run where the flag is
    /// set, else by another run.
    LoadJobSpec(SlotHash, PullFeedAccountData, bool),
    /// The gateway was asked for the quotes of the oracles.
    CollectQuotes(SlotHash, PullFeedAccountData),
    /// The instruction is built; the lookup tables were asked for.
    ResolveLookupTables(Instruction, Vec<OracleResponse>, usize),
    Done,
    Failed,
}

/// What happened since the last step of an update.
#[derive(Debug)]
pub enum UpdateEvent {
    /// The update is to begin.
    Begin,
    /// The data of the account of the recent slot hashes.
    SlotHashes(Result<Vec<u8>, FetchError>),
    /// The data of the account of the feed.
    FeedAccount(Result<Vec<u8>, FetchError>),
    /// The jobs that the registry holds, each step in its binary form.
    Jobs(Result<Vec<Vec<u8>>, FetchError>),
    /// The answer of the gateway.
    Signatures(Result<FeedEvalResponseSingle, FetchError>),
    /// The lookup tables of the oracles, of the feed and of the queue.
    LookupTables(
        Result<Vec<AddressLookupTableAccount>, FetchError>,
        Result<Vec<AddressLookupTableAccount>, FetchError>,
        Result<Vec<AddressLookupTableAccount>, FetchError>,
    ),
    /// The wait that the last step asked for is over.
    Resume,
}

/// What the caller of an update has to do next.
#[derive(Debug)]
pub enum UpdateAction {
    /// Fetch the account of the recent slot hashes.
    FetchSlotHashes,
    /// Fetch the account of the feed at this address.
    FetchFeedAccount(Pubkey),
    /// Ask the job registry at this address for the jobs of the feed.
    FetchJobs(String),
    /// Wait until another run has reported to the cache, then resume.
    Wait,
    /// Send this request to the gateway.
    FetchSignatures(FetchSignaturesRequest),
    /// Resolve the lookup tables of these oracles, of this feed and of this
    /// queue, side by side.
    ResolveLookupTables(Vec<Pubkey>, Pubkey, Pubkey),
    /// The update: the instruction, the observations of the oracles, the
    /// number of them that hold a value, and the lookup tables.
    Done(Instruction, Vec<OracleResponse>, usize, Vec<AddressLookupTableAccount>),
    Failed(PipelineError),
}

/// The address of the job registry that a run uses.
pub open spec fn registry_url(params: FetchUpdateParams) -> Seq<char> {
    match params.crossbar {
        Some(crossbar) => crossbar.url(),
        None => "https://crossbar.switchboard.xyz"@,
    }
}

/// Whether a step fails at `stage` with `e`.
pub open spec fn fails(stage: Stage, e: FetchError, next: UpdateState, action: UpdateAction) -> bool {
    next is Failed && action == UpdateAction::Failed(PipelineError { stage, error: e })
}

/// Whether `request` asks the gateway of `params` for the quotes of the feed
/// `feed`, whose jobs are `jobs`, at the slot `slot`.
pub open spec fn asks_for_quotes(
    params: FetchUpdateParams,
    slot: SlotHash,
    feed: PullFeedAccountData,
    jobs: Seq<Seq<u8>>,
    request: FetchSignaturesRequest,
) -> bool {
    &&& request.url@ == params.gateway.url() + "/gateway/api/v1/fetch_signatures"@
    &&& request.api_version@ == "1.0.0"@
    &&& request.jobs_b64_encoded@.len() == jobs.len()
    &&& forall|i: int|
        0 <= i < jobs.len() ==> (#[trigger] request.jobs_b64_encoded@[i])@ == encoded_job(jobs[i])
    &&& request.recent_chainhash@ == base58_text(slot.hash@)
    &&& request.signature_scheme@ == "Secp256k1"@
    &&& request.hash_scheme@ == "Sha256"@
    &&& request.num_oracles == match params.num_signatures {
        Some(n) => n as int,
        None => default_num_signatures(feed.min_sample_size),
    }
    &&& request.max_variance == ((feed.max_variance / 1_000_000_000) % 0x1_0000_0000)
        * 1_000_000_000
    &&& request.min_responses == feed.min_responses
    &&& request.use_timestamp == false
}

/// Whether a step that has the feed `feed` and its jobs `jobs` asks the
/// gateway for the quotes.
pub open spec fn collects(
    params: FetchUpdateParams,
    slot: SlotHash,
    feed: PullFeedAccountData,
    jobs: Seq<Seq<u8>>,
    next: UpdateState,
    action: UpdateAction,
) -> bool {
    &&& next == UpdateState::CollectQuotes(slot, feed)
    &&& action is FetchSignatures
    &&& asks_for_quotes(params, slot, feed, jobs, action->FetchSignatures_0)
}

/// Whether a step that has the feed `feed` goes on to its jobs: they are
/// taken from the cache where they are there, fetched where nobody has
/// asked for them yet, and waited for where another run is fetching them.
pub open spec fn loads_jobs(
    before: SbContextView,
    params: FetchUpdateParams,
    slot: SlotHash,
    feed: PullFeedAccountData,
    after: SbContextView,
    next: UpdateState,
    action: UpdateAction,
) -> bool {
    &&& after.feeds == before.feeds
    &&& after.luts == before.luts
    &&& after.jobs == after_begin(before.jobs, feed.feed_hash@)
    &&& match claim_of(before.jobs, feed.feed_hash@) {
        Claim::Fetch => {
            &&& next == UpdateState::LoadJobSpec(slot, feed, true)
            &&& action is FetchJobs
            &&& action->FetchJobs_0@ == registry_url(params) + "/fetch/"@ + hex_text(
                feed.feed_hash@,
            )
        },
        Claim::Wait => next == UpdateState::LoadJobSpec(slot, feed, false) && action is Wait,
        Claim::Hit => collects(
            params,
            slot,
            feed,
            ready_value(before.jobs, feed.feed_hash@)->0,
            next,
            action,
        ),
    }
}

/// Whether a step that has the slot `slot` goes on to the feed: it is taken
/// from the cache where it is there, fetched where nobody has asked for it
/// yet, and waited for where another run is fetching it.
pub open spec fn loads_feed(
    before: SbContextView,
    params: FetchUpdateParams,
    slot: SlotHash,
    after: SbContextView,
    next: UpdateState,
    action: UpdateAction,
) -> bool {
    match claim_of(before.feeds, params.feed@) {
        Claim::Fetch => {
            &&& after == SbContextView {
                feeds: after_begin(before.feeds, params.feed@),
                ..before
            }
            &&& next == UpdateState::LoadFeed(slot, true)
            &&& action == UpdateAction::FetchFeedAccount(params.feed)
        },
        Claim::Wait => after == before && next == UpdateState::LoadFeed(slot, false)
            && action is Wait,
        Claim::Hit => loads_jobs(
            before,
            params,
            slot,
            ready_value(before.feeds, params.feed@)->0,
            after,
            next,
            action,
        ),
    }
}

/// The slot and hash that the data of the account of the recent slot hashes
/// begin with.
pub open spec fn latest_slot(data: Seq<u8>, slot: SlotHash) -> bool {
    slot.slot as nat == le_value(data.subrange(8, 16)) && slot.hash@ == data.subrange(16, 48)
}

/// The value that is submitted for the answer `x` of an oracle: the value
/// that it reports, which has `PRECISION` fractional digits, or `NO_DATA`
/// where it reports none.
pub open spec fn submitted_for(x: FeedEvalResponse) -> i128 {
    match reported_value(x.success_value@) {
        Some(v) => v,
        None => NO_DATA,
    }
}

/// Whether a step that has collected the answers `answers` of the gateway
/// for the feed `feed` builds the instruction and asks for the lookup
/// tables.
///
/// The step fails at the collection where no answer holds a value; the
/// failure then carries the error of every answer. It fails there too where
/// an answer does not name its oracle, and it fails at the building where an
/// address cannot be derived or the answers are more than the instruction
/// can count. In the instruction that is built, every answer is submitted:
/// with the value that it reports, or with `NO_DATA` where it reports none.
pub open spec fn builds(
    params: FetchUpdateParams,
    slot: SlotHash,
    feed: PullFeedAccountData,
    answers: Seq<FeedEvalResponse>,
    next: UpdateState,
    action: UpdateAction,
) -> bool {
    if count_values(answers) == 0 {
        &&& next is Failed
        &&& action is Failed
        &&& action->Failed_0.stage == Stage::CollectQuotes
        &&& action->Failed_0.error is NoQuotesError
        &&& action->Failed_0.error->NoQuotesError_0@.len() == answers.len()
        &&& forall|i: int|
            0 <= i < answers.len() ==> (#[trigger] action->Failed_0.error->NoQuotesError_0@[i])@
                == answers[i].failure_error@
    } else if !oracles_named(answers) {
        fails(Stage::CollectQuotes, FetchError::DeserializeError, next, action)
    } else if answers.len() > u32::MAX {
        fails(Stage::BuildInstruction, FetchError::DeserializeError, next, action)
    } else if !addresses_derivable(
        feed.queue@,
        Seq::new(answers.len(), |i: int| crate::pull_feed::key_named(answers[i].oracle_pubkey@)->0),
    ) {
        fails(Stage::BuildInstruction, FetchError::NoProgramAddress, next, action)
    } else {
        &&& next is ResolveLookupTables
        &&& next->ResolveLookupTables_1@.len() == answers.len()
        &&& forall|i: int|
            0 <= i < answers.len() ==> observes(
                #[trigger] next->ResolveLookupTables_1@[i],
                answers[i],
            )
        &&& next->ResolveLookupTables_2 == count_values(answers)
        &&& forall|i: int|
            0 <= i < answers.len() ==> submission_of(
                #[trigger] next->ResolveLookupTables_1@[i],
            ).value == submitted_for(answers[i])
        &&& submits_responses(
            next->ResolveLookupTables_0,
            slot.slot,
            next->ResolveLookupTables_1@,
            SolanaSubmitSignaturesParams { queue: feed.queue, feed: params.feed, payer: params.payer },
        )
        &&& action is ResolveLookupTables
        &&& keys_view(action->ResolveLookupTables_0@) == oracles_of(next->ResolveLookupTables_1@)
        &&& action->ResolveLookupTables_1 == params.feed
        &&& action->ResolveLookupTables_2 == feed.queue
    }
}

/// Whether a step of the update that `params` asks for, which starts in
/// `state` over the caches `before` and is handed `event`, ends in `next`
/// over the caches `after` and asks for `action`.
///
/// The run fetches the recent slot hashes, loads the feed, loads the jobs
/// that the feed names, asks the gateway for quotes, builds the instruction
/// and has the lookup tables resolved; the tables of the oracles come first
/// in the update, then those of the feed, then those of the queue. A step
/// that fails names the stage and the error, and where this run was fetching
/// for the cache, the cache forgets the fetch. An event that the state does
/// not wait for fails the run.
pub open spec fn update_step(
    before: SbContextView,
    params: FetchUpdateParams,
    state: UpdateState,
    event: UpdateEvent,
    after: SbContextView,
    next: UpdateState,
    action: UpdateAction,
) -> bool {
    match state {
        UpdateState::Start => after == before && match event {
            UpdateEvent::Begin => next is LoadSlot && action is FetchSlotHashes,
            _ => fails(Stage::Start, FetchError::UnexpectedEvent, next, action),
        },
        UpdateState::LoadSlot => match event {
            UpdateEvent::SlotHashes(Ok(data)) => if data@.len() >= 8 + SLOT_HASHES_ENTRIES_SIZE {
                exists|slot: SlotHash|
                    latest_slot(data@, slot) && #[trigger] loads_feed(
                        before,
                        params,
                        slot,
                        after,
                        next,
                        action,
                    )
            } else {
                after == before && fails(Stage::Start, FetchError::DeserializeError, next, action)
            },
            UpdateEvent::SlotHashes(Err(e)) => after == before && fails(
                Stage::Start,
                e,
                next,
                action,
            ),
            _ => after == before && fails(Stage::Start, FetchError::UnexpectedEvent, next, action),
        },
        UpdateState::LoadFeed(slot, fetching) => if fetching {
            match event {
                UpdateEvent::FeedAccount(Ok(account)) => if account@.len() == 3208 {
                    loads_jobs(
                        SbContextView {
                            feeds: after_complete(
                                before.feeds,
                                params.feed@,
                                Some(feed_stored(account@)),
                            ),
                            ..before
                        },
                        params,
                        slot,
                        ready_value(
                            after_complete(before.feeds, params.feed@, Some(feed_stored(account@))),
                            params.feed@,
                        )->0,
                        after,
                        next,
                        action,
                    )
                } else {
                    &&& after == SbContextView {
                        feeds: after_complete(before.feeds, params.feed@, None),
                        ..before
                    }
                    &&& fails(Stage::LoadFeed, FetchError::DeserializeError, next, action)
                },
                UpdateEvent::FeedAccount(Err(e)) => {
                    &&& after == SbContextView {
                        feeds: after_complete(before.feeds, params.feed@, None),
                        ..before
                    }
                    &&& fails(Stage::LoadFeed, e, next, action)
                },
                _ => {
                    &&& after == SbContextView {
                        feeds: after_complete(before.feeds, params.feed@, None),
                        ..before
                    }
                    &&& fails(Stage::LoadFeed, FetchError::UnexpectedEvent, next, action)
                },
            }
        } else {
            match event {
                UpdateEvent::Resume => loads_feed(before, params, slot, after, next, action),
                _ => after == before && fails(
                    Stage::LoadFeed,
                    FetchError::UnexpectedEvent,
                    next,
                    action,
                ),
            }
        },
        UpdateState::LoadJobSpec(slot, feed, fetching) => if fetching {
            match event {
                UpdateEvent::Jobs(Ok(jobs)) => {
                    &&& after == SbContextView {
                        jobs: after_complete(
                            before.jobs,
                            feed.feed_hash@,
                            Some(JobSpec { jobs }@),
                        ),
                        ..before
                    }
                    &&& collects(
                        params,
                        slot,
                        feed,
                        ready_value(after.jobs, feed.feed_hash@)->0,
                        next,
                        action,
                    )
                },
                UpdateEvent::Jobs(Err(e)) => {
                    &&& after == SbContextView {
                        jobs: after_complete(before.jobs, feed.feed_hash@, None),
                        ..before
                    }
                    &&& fails(Stage::LoadJobSpec, e, next, action)
                },
                _ => {
                    &&& after == SbContextView {
                        jobs: after_complete(before.jobs, feed.feed_hash@, None),
                        ..before
                    }
                    &&& fails(Stage::LoadJobSpec, FetchError::UnexpectedEvent, next, action)
                },
            }
        } else {
            match event {
                UpdateEvent::Resume => loads_jobs(before, params, slot, feed, after, next, action),
                _ => after == before && fails(
                    Stage::LoadJobSpec,
                    FetchError::UnexpectedEvent,
                    next,
                    action,
                ),
            }
        },
        UpdateState::CollectQuotes(slot, feed) => after == before && match event {
            UpdateEvent::Signatures(Ok(answer)) => builds(
                params,
                slot,
                feed,
                answer.responses@,
                next,
                action,
            ),
            UpdateEvent::Signatures(Err(e)) => fails(Stage::CollectQuotes, e, next, action),
            _ => fails(Stage::CollectQuotes, FetchError::UnexpectedEvent, next, action),
        },
        UpdateState::ResolveLookupTables(ix, responses, num_successes) => after == before
            && match event {
            UpdateEvent::LookupTables(Ok(oracle_luts), Ok(feed_luts), Ok(queue_luts)) => {
                &&& next is Done
                &&& action is Done
                &&& action->Done_0 == ix
                &&& action->Done_1 == responses
                &&& action->Done_2 == num_successes
                &&& action->Done_3@ == oracle_luts@ + feed_luts@ + queue_luts@
            },
            UpdateEvent::LookupTables(Err(e), _, _) => fails(
                Stage::ResolveLookupTables,
                e,
                next,
                action,
            ),
            UpdateEvent::LookupTables(Ok(_), Err(e), _) => fails(
                Stage::ResolveLookupTables,
                e,
                next,
                action,
            ),
            UpdateEvent::LookupTables(Ok(_), Ok(_), Err(e)) => fails(
                Stage::ResolveLookupTables,
                e,
                next,
                action,
            ),
            _ => fails(Stage::ResolveLookupTables, FetchError::UnexpectedEvent, next, action),
        },
        UpdateState::Done => after == before && fails(
            Stage::ResolveLookupTables,
            FetchError::UnexpectedEvent,
            next,
            action,
        ),
        UpdateState::Failed => after == before && fails(
            Stage::Start,
            FetchError::UnexpectedEvent,
            next,
            action,
        ),
    }
}

/// A feed that is cached is not fetched again, and neither are jobs that are
/// cached: a step that goes on to a feed whose value is there, and whose jobs
/// are there, asks the gateway at once and leaves the caches as they are. So
/// two feeds that share the hash of their job schema fetch the jobs once.
pub proof fn lemma_cached_is_not_fetched(
    before: SbContextView,
    params: FetchUpdateParams,
    slot: SlotHash,
    after: SbContextView,
    next: UpdateState,
    action: UpdateAction,
)
    requires
        loads_feed(before, params, slot, after, next, action),
        ready_value(before.feeds, params.feed@) is Some,
    ensures
        !(action is FetchFeedAccount),
        ready_value(before.jobs, ready_value(before.feeds, params.feed@)->0.feed_hash@) is Some
            ==> after == before && action is FetchSignatures,
{
    let feed = ready_value(before.feeds, params.feed@)->0;
    assert(claim_of(before.feeds, params.feed@) == Claim::Hit);
    if ready_value(before.jobs, feed.feed_hash@) is Some {
        assert(claim_of(before.jobs, feed.feed_hash@) == Claim::Hit);
        assert(after.jobs =~= before.jobs);
    }
}

/// The quorum gate: where the gateway answers and no answer holds a value,
/// the run fails at the collection for want of quotes, with the error of
/// every answer, and builds no instruction.
pub proof fn lemma_no_quotes_fail_the_run(
    before: SbContextView,
    params: FetchUpdateParams,
    slot: SlotHash,
    feed: PullFeedAccountData,
    answer: FeedEvalResponseSingle,
    after: SbContextView,
    next: UpdateState,
    action: UpdateAction,
)
    requires
        update_step(
            before,
            params,
            UpdateState::CollectQuotes(slot, feed),
            UpdateEvent::Signatures(Ok(answer)),
            after,
            next,
            action,
        ),
        forall|i: int|
            0 <= i < answer.responses@.len() ==> reported_value(
                (#[trigger] answer.responses@[i]).success_value@,
            ) is None,
    ensures
        after == before,
        next is Failed,
        action is Failed,
        action->Failed_0.stage == Stage::CollectQuotes,
        action->Failed_0.error is NoQuotesError,
        action->Failed_0.error->NoQuotesError_0@.len() == answer.responses@.len(),
{
    crate::pull_feed::lemma_count_values(answer.responses@);
}

/// A run that has failed hands out nothing but the failure, and an update is
/// handed out by the last step alone: a step ends in failure exactly where it
/// asks the caller to take the failure, and it is done exactly where it hands
/// out the update.
pub proof fn lemma_no_partial_update(
    before: SbContextView,
    params: FetchUpdateParams,
    state: UpdateState,
    event: UpdateEvent,
    after: SbContextView,
    next: UpdateState,
    action: UpdateAction,
)
    requires
        update_step(before, params, state, event, after, next, action),
    ensures
        next is Failed <==> action is Failed,
        next is Done <==> action is Done,
        action is Done ==> state is ResolveLookupTables,
{
}

/// Fails a step.
fn fail(stage: Stage, e: FetchError) -> (r: (UpdateState, UpdateAction))
    ensures
        fails(stage, e, r.0, r.1),
{
    (UpdateState::Failed, UpdateAction::Failed(PipelineError { stage, error: e }))
}

/// Asks the gateway for the quotes of the feed.
fn collect_quotes(
    params: &FetchUpdateParams,
    slot: SlotHash,
    feed: PullFeedAccountData,
    jobs: &JobSpec,
) -> (r: (UpdateState, UpdateAction))
    ensures
        collects(*params, slot, feed, jobs@, r.0, r.1),
{
    let encoded_jobs = encode_jobs(&jobs.jobs);
    let asked = PullFeed::signature_params(&feed, encoded_jobs, &slot, params.num_signatures);
    let request = params.gateway.fetch_signatures_from_encoded(asked);
    (UpdateState::CollectQuotes(slot, feed), UpdateAction::FetchSignatures(request))
}

/// Goes on to the jobs of the feed.
fn load_jobs(
    context: &mut SbContext,
    params: &FetchUpdateParams,
    slot: SlotHash,
    feed: PullFeedAccountData,
) -> (r: (UpdateState, UpdateAction))
    requires
        old(context).wf(),
    ensures
        final(context).wf(),
        loads_jobs(old(context)@, *params, slot, feed, final(context)@, r.0, r.1),
{
    match context.job_cache.begin(&feed.feed_hash) {
        Claim::Fetch => {
            let hash = hex_encode(&feed.feed_hash);
            let url = match &params.crossbar {
                Some(crossbar) => crossbar.fetch(hash.as_str()),
                None => CrossbarClient::default().fetch(hash.as_str()),
            };
            (UpdateState::LoadJobSpec(slot, feed, true), UpdateAction::FetchJobs(url))
        },
        Claim::Wait => (UpdateState::LoadJobSpec(slot, feed, false), UpdateAction::Wait),
        Claim::Hit => {
            match context.job_cache.get(&feed.feed_hash) {
                Some(jobs) => collect_quotes(params, slot, feed, jobs),
                None => fail(Stage::LoadJobSpec, FetchError::NotFound),
            }
        },
    }
}

/// Goes on to the feed.
fn load_feed(context: &mut SbContext, params: &FetchUpdateParams, slot: SlotHash) -> (r: (
    UpdateState,
    UpdateAction,
))
    requires
        old(context).wf(),
    ensures
        final(context).wf(),
        loads_feed(old(context)@, *params, slot, final(context)@, r.0, r.1),
{
    match context.pull_feed_cache.begin(&params.feed.bytes) {
        Claim::Fetch => (
            UpdateState::LoadFeed(slot, true),
            UpdateAction::FetchFeedAccount(params.feed),
        ),
        Claim::Wait => (UpdateState::LoadFeed(slot, false), UpdateAction::Wait),
        Claim::Hit => {
            let cached = match context.pull_feed_cache.get(&params.feed.bytes) {
                Some(feed) => Some(*feed),
                None => None,
            };
            match cached {
                Some(feed) => load_jobs(context, params, slot, feed),
                None => fail(Stage::LoadFeed, FetchError::NotFound),
            }
        },
    }
}

/// Builds the instruction from the answers of the gateway and asks for the
/// lookup tables.
fn build(
    params: &FetchUpdateParams,
    slot: SlotHash,
    feed: PullFeedAccountData,
    answers: &Vec<FeedEvalResponse>,
) -> (r: (UpdateState, UpdateAction))
    ensures
        builds(*params, slot, feed, answers@, r.0, r.1),
{
    let collected = match PullFeed::collect(answers) {
        Ok(collected) => collected,
        Err(e) => {
            return fail(Stage::CollectQuotes, e);
        },
    };
    let responses = collected.responses;
    let ghost named = Seq::new(
        answers@.len(),
        |i: int| crate::pull_feed::key_named(answers@[i].oracle_pubkey@)->0,
    );
    proof {
        assert(named =~= oracles_of(responses@));
    }
    if responses.len() > 0xffff_ffff {
        return fail(Stage::BuildInstruction, FetchError::DeserializeError);
    }
    let submit_params = SolanaSubmitSignaturesParams {
        queue: feed.queue,
        feed: params.feed,
        payer: params.payer,
    };
    let ix = match PullFeed::get_solana_submit_signatures_ix(slot.slot, &responses, submit_params) {
        Ok(ix) => ix,
        Err(e) => {
            return fail(Stage::BuildInstruction, FetchError::NoProgramAddress);
        },
    };
    let mut oracle_keys: Vec<Pubkey> = Vec::new();
    let mut i: usize = 0;
    while i < responses.len()
        invariant
            i <= responses@.len(),
            oracle_keys@.len() == i,
            forall|j: int| 0 <= j < i ==> #[trigger] oracle_keys@[j] == responses@[j].oracle,
        decreases responses@.len() - i,
    {
        oracle_keys.push(responses[i].oracle);
        i += 1;
    }
    proof {
        assert(keys_view(oracle_keys@) =~= oracles_of(responses@));
        assert forall|j: int| 0 <= j < answers@.len() implies submission_of(
            #[trigger] responses@[j],
        ).value == submitted_for(answers@[j]) by {
            assert(observes(responses@[j], answers@[j]));
            assert(submits_value(responses@[j]));
        }
    }
    (
        UpdateState::ResolveLookupTables(ix, responses, collected.num_successes),
        UpdateAction::ResolveLookupTables(oracle_keys, params.feed, feed.queue),
    )
}

impl PullFeed {
    /// One step of the update of the feed that `params` names: from where the
    /// run stands and what happened to where it stands then and what the
    /// caller has to do. Feeds and jobs are taken from the caches of
    /// `context` where they are there, and fetched once and put there where
    /// they are not.
    pub fn fetch_update_ix(
        context: &mut SbContext,
        params: &FetchUpdateParams,
        state: UpdateState,
        event: UpdateEvent,
    ) -> (r: (UpdateState, UpdateAction))
        requires
            old(context).wf(),
        ensures
            final(context).wf(),
            update_step(old(context)@, *params, state, event, final(context)@, r.0, r.1),
    {
        match state {
            UpdateState::Start => match event {
                UpdateEvent::Begin => (UpdateState::LoadSlot, UpdateAction::FetchSlotHashes),
                _ => fail(Stage::Start, FetchError::UnexpectedEvent),
            },
            UpdateState::LoadSlot => match event {
                UpdateEvent::SlotHashes(Ok(data)) => {
                    match SlotHashSysvar::get_latest_slothash(data.as_slice()) {
                        Some(slot) => {
                            let r = load_feed(context, params, slot);
                            proof {
                                assert(latest_slot(data@, slot));
                                assert(loads_feed(
                                    old(context)@,
                                    *params,
                                    slot,
                                    context@,
                                    r.0,
                                    r.1,
                                ));
                            }
                            r
                        },
                        None => fail(Stage::Start, FetchError::DeserializeError),
                    }
                },
                UpdateEvent::SlotHashes(Err(e)) => fail(Stage::Start, e),
                _ => fail(Stage::Start, FetchError::UnexpectedEvent),
            },
            UpdateState::LoadFeed(slot, fetching) => {
                if fetching {
                    match event {
                        UpdateEvent::FeedAccount(Ok(account)) => {
                            match PullFeed::load_data(account.as_slice()) {
                                Ok(feed) => {
                                    context.pull_feed_cache.complete(
                                        &params.feed.bytes,
                                        Some(feed),
                                    );
                                    let kept = match context.pull_feed_cache.get(
                                        &params.feed.bytes,
                                    ) {
                                        Some(feed) => *feed,
                                        None => feed,
                                    };
                                    load_jobs(context, params, slot, kept)
                                },
                                Err(_) => {
                                    context.pull_feed_cache.complete(&params.feed.bytes, None);
                                    fail(Stage::LoadFeed, FetchError::DeserializeError)
                                },
                            }
                        },
                        UpdateEvent::FeedAccount(Err(e)) => {
                            context.pull_feed_cache.complete(&params.feed.bytes, None);
                            fail(Stage::LoadFeed, e)
                        },
                        _ => {
                            context.pull_feed_cache.complete(&params.feed.bytes, None);
                            fail(Stage::LoadFeed, FetchError::UnexpectedEvent)
                        },
                    }
                } else {
                    match event {
                        UpdateEvent::Resume => load_feed(context, params, slot),
                        _ => fail(Stage::LoadFeed, FetchError::UnexpectedEvent),
                    }
                }
            },
            UpdateState::LoadJobSpec(slot, feed, fetching) => {
                if fetching {
                    match event {
                        UpdateEvent::Jobs(Ok(jobs)) => {
                            context.job_cache.complete(&feed.feed_hash, Some(JobSpec { jobs }));
                            match context.job_cache.get(&feed.feed_hash) {
                                Some(jobs) => collect_quotes(params, slot, feed, jobs),
                                None => fail(Stage::LoadJobSpec, FetchError::NotFound),
                            }
                        },
                        UpdateEvent::Jobs(Err(e)) => {
                            context.job_cache.complete(&feed.feed_hash, None);
                            fail(Stage::LoadJobSpec, e)
                        },
                        _ => {
                            context.job_cache.complete(&feed.feed_hash, None);
                            fail(Stage::LoadJobSpec, FetchError::UnexpectedEvent)
                        },
                    }
                } else {
                    match event {
                        UpdateEvent::Resume => load_jobs(context, params, slot, feed),
                        _ => fail(Stage::LoadJobSpec, FetchError::UnexpectedEvent),
                    }
                }
            },
            UpdateState::CollectQuotes(slot, feed) => match event {
                UpdateEvent::Signatures(Ok(answer)) => build(params, slot, feed, &answer.responses),
                UpdateEvent::Signatures(Err(e)) => fail(Stage::CollectQuotes, e),
                _ => fail(Stage::CollectQuotes, FetchError::UnexpectedEvent),
            },
            UpdateState::ResolveLookupTables(ix, responses, num_successes) => match event {
                UpdateEvent::LookupTables(oracle_luts, feed_luts, queue_luts) => {
                    match merge_lookup_tables(oracle_luts, feed_luts, queue_luts) {
                        Ok(luts) => (
                            UpdateState::Done,
                            UpdateAction::Done(ix, responses, num_successes, luts),
                        ),
                        Err(e) => fail(Stage::ResolveLookupTables, e),
                    }
                },
                _ => fail(Stage::ResolveLookupTables, FetchError::UnexpectedEvent),
            },
            UpdateState::Done => fail(Stage::ResolveLookupTables, FetchError::UnexpectedEvent),
            UpdateState::Failed => fail(Stage::Start, FetchError::UnexpectedEvent),
        }
    }
}

} // verus!
