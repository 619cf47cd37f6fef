//! The signing gateway: what is asked of it and what it answers.

use crate::bytes::push_all;
use crate::encoding::{base58_encode, base58_text, base64_encode, base64_text};
use vstd::prelude::*;
use vstd::string::StringExecFns;

verus! {

/// One oracle's answer for one feed.
#[derive(Debug)]
pub struct FeedEvalResponse {
    pub oracle_pubkey: String,
    pub queue_pubkey: String,
    pub oracle_signing_pubkey: String,
    pub feed_hash: String,
    pub recent_hash: String,
    pub failure_error: String,
    pub success_value: String,
    pub msg: String,
    pub signature: String,
    pub recovery_id: i32,
    pub recent_successes_if_failed: Vec<FeedEvalResponse>,
    pub timestamp: Option<i64>,
}

/// The answers of the oracles for one feed.
#[derive(Debug)]
pub struct FeedEvalResponseSingle {
    pub responses: Vec<FeedEvalResponse>,
    pub caller: String,
    pub failures: Vec<String>,
}

/// One oracle's answers for many feeds, under one signature.
#[derive(Debug)]
pub struct FeedEvalManyResponse {
    pub feed_responses: Vec<FeedEvalResponse>,
    pub signature: String,
    pub recovery_id: i32,
    pub errors: Vec<Option<String>>,
}

/// The answers of the oracles for many feeds.
#[derive(Debug)]
pub struct FetchSignaturesMultiResponse {
    pub oracle_responses: Vec<FeedEvalManyResponse>,
    pub errors: Vec<Option<String>>,
}

/// What a caller asks for one feed.
#[derive(Debug)]
pub struct FetchSignaturesParams {
    pub recent_hash: Option<String>,
    pub encoded_jobs: Vec<String>,
    pub num_signatures: u32,
    pub max_variance: Option<u32>,
    pub min_responses: Option<u32>,
    pub use_timestamp: Option<bool>,
}

/// The jobs and the quorum policy of one feed.
#[derive(Debug)]
pub struct FeedConfig {
    pub encoded_jobs: Vec<String>,
    pub max_variance: Option<u32>,
    pub min_responses: Option<u32>,
}

/// What a `FeedConfig` holds, each job by its text.
pub struct FeedConfigView {
    pub encoded_jobs: Seq<Seq<char>>,
    pub max_variance: Option<u32>,
    pub min_responses: Option<u32>,
}

/// The texts of `list`.
pub open spec fn texts(list: Seq<String>) -> Seq<Seq<char>> {
    Seq::new(list.len(), |i: int| list[i]@)
}

impl View for FeedConfig {
    type V = FeedConfigView;

    open spec fn view(&self) -> FeedConfigView {
        FeedConfigView {
            encoded_jobs: texts(self.encoded_jobs@),
            max_variance: self.max_variance,
            min_responses: self.min_responses,
        }
    }
}

/// What a caller asks for many feeds.
#[derive(Debug)]
pub struct FetchSignaturesMultiParams {
    pub recent_hash: Option<String>,
    pub feed_configs: Vec<FeedConfig>,
    pub num_signatures: Option<u32>,
    pub use_timestamp: Option<bool>,
}

/// The request for the signatures of one feed: where it goes and what its
/// body holds.
#[derive(Debug)]
pub struct FetchSignaturesRequest {
    pub url: String,
    pub api_version: String,
    pub jobs_b64_encoded: Vec<String>,
    pub recent_chainhash: String,
    pub signature_scheme: String,
    pub hash_scheme: String,
    pub num_oracles: u32,
    pub max_variance: u64,
    pub min_responses: u32,
    pub use_timestamp: bool,
}

/// What the body of a request for many feeds holds for one feed.
#[derive(Debug)]
pub struct FeedRequest {
    pub jobs_b64_encoded: Vec<String>,
    pub max_variance: u64,
    pub min_responses: u32,
    pub use_timestamp: bool,
}

/// The request for the signatures of many feeds: where it goes and what its
/// body holds.
#[derive(Debug)]
pub struct FetchSignaturesMultiRequest {
    pub url: String,
    pub api_version: String,
    pub num_oracles: u32,
    pub recent_hash: String,
    pub signature_scheme: String,
    pub hash_scheme: String,
    pub feed_requests: Vec<FeedRequest>,
}

/// A signing gateway at a given address.
#[derive(Clone, Debug, Default)]
pub struct Gateway {
    gateway_url: String,
}

/// The variance bound as the gateway reads it: in billionths.
pub open spec fn scaled_variance(max_variance: Option<u32>) -> int {
    match max_variance {
        Some(v) => v * 1_000_000_000,
        None => 1_000_000_000,
    }
}

/// The hash that is sent where the caller names none: 32 zero bytes in base 58.
pub open spec fn default_recent_hash() -> Seq<char> {
    base58_text(Seq::new(32, |i: int| 0u8))
}

/// The recent hash that is sent.
pub open spec fn recent_hash_sent(recent_hash: Option<String>) -> Seq<char> {
    match recent_hash {
        Some(hash) => hash@,
        None => default_recent_hash(),
    }
}

/// What the body of a request for many feeds holds for the feed `config`.
pub open spec fn feed_request_of(config: FeedConfig, use_timestamp: Option<bool>, r: FeedRequest)
    -> bool {
    &&& r.jobs_b64_encoded == config.encoded_jobs
    &&& r.max_variance == scaled_variance(config.max_variance)
    &&& r.min_responses == config.min_responses.unwrap_or(1)
    &&& r.use_timestamp == use_timestamp.unwrap_or(false)
}

fn scale_variance(max_variance: Option<u32>) -> (r: u64)
    ensures
        r == scaled_variance(max_variance),
{
    match max_variance {
        Some(v) => (v as u64) * 1_000_000_000,
        None => 1_000_000_000,
    }
}

fn recent_hash_or_default(recent_hash: Option<String>) -> (r: String)
    ensures
        r@ == recent_hash_sent(recent_hash),
{
    match recent_hash {
        Some(hash) => hash,
        None => {
            let zeros = [0u8; 32];
            assert(zeros@ =~= Seq::new(32, |i: int| 0u8));
            base58_encode(&zeros)
        },
    }
}

impl Gateway {
    /// The address of the gateway.
    pub closed spec fn url(&self) -> Seq<char> {
        self.gateway_url@
    }

    /// The gateway at `gateway_url`.
    pub fn new(gateway_url: String) -> (r: Self)
        ensures
            r.url() == gateway_url@,
    {
        Gateway { gateway_url }
    }

    /// The address of the gateway.
    pub fn gateway_url(&self) -> (r: &String)
        ensures
            r@ == self.url(),
    {
        &self.gateway_url
    }

    /// The address of the gateway followed by `path`.
    fn endpoint(&self, path: &str) -> (r: String)
        ensures
            r@ == self.url() + path@,
    {
        let mut url = self.gateway_url.clone();
        url.append(path);
        url
    }

    /// The request that asks the gateway for the signatures of one feed.
    /// Where the caller names none, the recent hash is 32 zero bytes, the
    /// variance bound 1, the least number of responses 1, and no timestamp is
    /// used.
    pub fn fetch_signatures_from_encoded(&self, params: FetchSignaturesParams) -> (r:
        FetchSignaturesRequest)
        ensures
            r.url@ == self.url() + "/gateway/api/v1/fetch_signatures"@,
            r.api_version@ == "1.0.0"@,
            r.jobs_b64_encoded == params.encoded_jobs,
            r.recent_chainhash@ == recent_hash_sent(params.recent_hash),
            r.signature_scheme@ == "Secp256k1"@,
            r.hash_scheme@ == "Sha256"@,
            r.num_oracles == params.num_signatures,
            r.max_variance == scaled_variance(params.max_variance),
            r.min_responses == params.min_responses.unwrap_or(1),
            r.use_timestamp == params.use_timestamp.unwrap_or(false),
    {
        FetchSignaturesRequest {
            url: self.endpoint("/gateway/api/v1/fetch_signatures"),
            api_version: "1.0.0".to_owned(),
            jobs_b64_encoded: params.encoded_jobs,
            recent_chainhash: recent_hash_or_default(params.recent_hash),
            signature_scheme: "Secp256k1".to_owned(),
            hash_scheme: "Sha256".to_owned(),
            num_oracles: params.num_signatures,
            max_variance: scale_variance(params.max_variance),
            min_responses: match params.min_responses {
                Some(n) => n,
                None => 1,
            },
            use_timestamp: match params.use_timestamp {
                Some(b) => b,
                None => false,
            },
        }
    }

    /// The request that asks the gateway for the signatures of many feeds, with
    /// one entry for each feed in the order given. Where the caller names none,
    /// one oracle is asked, the recent hash is 32 zero bytes, and for each feed
    /// the variance bound is 1 and the least number of responses 1.
    pub fn fetch_signatures_multi(&self, params: FetchSignaturesMultiParams) -> (r:
        FetchSignaturesMultiRequest)
        ensures
            r.url@ == self.url() + "/gateway/api/v1/fetch_signatures_multi"@,
            r.api_version@ == "1.0.0"@,
            r.num_oracles == params.num_signatures.unwrap_or(1),
            r.recent_hash@ == recent_hash_sent(params.recent_hash),
            r.signature_scheme@ == "Secp256k1"@,
            r.hash_scheme@ == "Sha256"@,
            r.feed_requests@.len() == params.feed_configs@.len(),
            forall|i: int|
                0 <= i < params.feed_configs@.len() ==> feed_request_of(
                    params.feed_configs@[i],
                    params.use_timestamp,
                    #[trigger] r.feed_requests@[i],
                ),
    {
        let use_timestamp = match params.use_timestamp {
            Some(b) => b,
            None => false,
        };
        let mut feed_requests: Vec<FeedRequest> = Vec::new();
        let ghost configs = params.feed_configs@;
        let mut remaining = params.feed_configs;
        let ghost total = configs.len();
        let mut taken: Vec<FeedConfig> = Vec::new();
        // The configurations are taken from the back and the requests put in
        // order afterwards.
        while remaining.len() > 0
            invariant
                total == configs.len(),
                remaining@.len() <= total,
                taken@.len() == total - remaining@.len(),
                remaining@ == configs.subrange(0, remaining@.len() as int),
                forall|j: int|
                    0 <= j < taken@.len() ==> taken@[j] == configs[total - 1 - j],
            decreases remaining@.len(),
        {
            let config = remaining.pop().unwrap();
            taken.push(config);
            assert(remaining@ =~= configs.subrange(0, remaining@.len() as int));
        }
        while taken.len() > 0
            invariant
                total == configs.len(),
                taken@.len() <= total,
                feed_requests@.len() == total - taken@.len(),
                forall|j: int|
                    0 <= j < taken@.len() ==> taken@[j] == configs[total - 1 - j],
                forall|i: int|
                    0 <= i < feed_requests@.len() ==> feed_request_of(
                        configs[i],
                        params.use_timestamp,
                        #[trigger] feed_requests@[i],
                    ),
                use_timestamp == params.use_timestamp.unwrap_or(false),
            decreases taken@.len(),
        {
            let config = taken.pop().unwrap();
            let max_variance = scale_variance(config.max_variance);
            let min_responses = match config.min_responses {
                Some(n) => n,
                None => 1,
            };
            feed_requests.push(
                FeedRequest {
                    jobs_b64_encoded: config.encoded_jobs,
                    max_variance,
                    min_responses,
                    use_timestamp,
                },
            );
        }
        FetchSignaturesMultiRequest {
            url: self.endpoint("/gateway/api/v1/fetch_signatures_multi"),
            api_version: "1.0.0".to_owned(),
            num_oracles: match params.num_signatures {
                Some(n) => n,
                None => 1,
            },
            recent_hash: recent_hash_or_default(params.recent_hash),
            signature_scheme: "Secp256k1".to_owned(),
            hash_scheme: "Sha256".to_owned(),
            feed_requests,
        }
    }

    /// The address that is asked to see whether the gateway answers.
    pub fn test_gateway_url(&self) -> (r: String)
        ensures
            r@ == self.url() + "/gateway/api/v1/test"@,
    {
        self.endpoint("/gateway/api/v1/test")
    }

    /// Whether the gateway answered the test: it did where a text came back
    /// that is not empty.
    pub fn test_gateway(&self, response: Option<&str>) -> (r: bool)
        ensures
            r == (response is Some && response->0@.len() > 0),
    {
        match response {
            Some(text) => text.unicode_len() > 0,
            None => false,
        }
    }
}

/// The length `n` as a variable-length integer: seven bits to a byte, the low
/// bits first, the high bit set on every byte but the last.
pub open spec fn varint(n: nat) -> Seq<u8>
    decreases n,
{
    if n < 128 {
        seq![n as u8]
    } else {
        seq![(n % 128 + 128) as u8] + varint(n / 128)
    }
}

/// A message behind its length.
pub open spec fn length_delimited(message: Seq<u8>) -> Seq<u8> {
    varint(message.len()) + message
}

/// Puts the length of `message` in front of it.
pub fn encode_length_delimited(message: &[u8]) -> (r: Vec<u8>)
    ensures
        r@ == length_delimited(message@),
{
    let mut out: Vec<u8> = Vec::new();
    let mut rest: usize = message.len();
    assert(out@ + varint(rest as nat) =~= varint(message@.len()));
    while rest >= 128
        invariant
            out@ + varint(rest as nat) == varint(message@.len()),
        decreases rest,
    {
        let ghost before = out@;
        out.push((rest % 128 + 128) as u8);
        assert(before + varint(rest as nat) =~= out@ + varint((rest / 128) as nat));
        rest = rest / 128;
    }
    let ghost before = out@;
    out.push(rest as u8);
    assert(out@ =~= before + varint(rest as nat));
    push_all(&mut out, message);
    out
}

/// The text that stands for the job `job` in a request: the job behind its
/// length, in base 64.
pub open spec fn encoded_job(job: Seq<u8>) -> Seq<char> {
    base64_text(length_delimited(job))
}

/// Encodes each job, given in its binary form, for a request.
pub fn encode_jobs(job_array: &Vec<Vec<u8>>) -> (r: Vec<String>)
    ensures
        r@.len() == job_array@.len(),
        forall|i: int| 0 <= i < job_array@.len() ==> (#[trigger] r@[i])@ == encoded_job(job_array@[i]@),
{
    let mut out: Vec<String> = Vec::new();
    let mut i: usize = 0;
    while i < job_array.len()
        invariant
            i <= job_array@.len(),
            out@.len() == i,
            forall|j: int| 0 <= j < i ==> (#[trigger] out@[j])@ == encoded_job(job_array@[j]@),
        decreases job_array@.len() - i,
    {
        let framed = encode_length_delimited(job_array[i].as_slice());
        out.push(base64_encode(framed.as_slice()));
        i += 1;
    }
    out
}

} // verus!
