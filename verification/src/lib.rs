//! Client-side construction of oracle price-feed updates: a request-deduplicating
//! resource cache, the collection of signed quotes, the assembly of the submission
//! instruction and the resolution of the address lookup tables it needs.

pub mod accounts;
pub mod bytes;
pub mod cache;
pub mod context;
pub mod crossbar;
pub mod decimal;
pub mod encoding;
pub mod error;
pub mod gateway;
pub mod instructions;
pub mod lut;
pub mod lut_owner;
pub mod program;
pub mod pubkey;
pub mod pull_feed;
pub mod recent_slothashes;
pub mod update;
pub mod update_many;

pub use accounts::oracle::{OracleAccountData, Quote, KEY_ROTATE_KEEPALIVE_SLOTS, MAX_STALE_SECONDS};
pub use accounts::pull_feed::{CurrentResult, OracleSubmission, PullFeedAccountData, MAX_SAMPLES};
pub use accounts::queue::QueueAccountData;
pub use accounts::state::{State, StateEpochInfo};
pub use cache::{Claim, Entry, ResourceCache};
pub use context::{JobSpec, SbContext};
pub use crossbar::{cluster_type_to_string, ClusterType, CrossbarClient, CrossbarError};
pub use crossbar::StoreResponse;
pub use decimal::{Decimal, PRECISION};
pub use error::{FetchError, PipelineError, Stage};
pub use gateway::{encode_jobs, FeedConfig, FeedEvalManyResponse, FeedEvalResponse};
pub use gateway::{FeedEvalResponseSingle, FeedRequest, FetchSignaturesMultiParams};
pub use gateway::{FetchSignaturesMultiRequest, FetchSignaturesMultiResponse};
pub use gateway::{FetchSignaturesParams, FetchSignaturesRequest, Gateway};
pub use instructions::{AccountMeta, Instruction, MultiSubmission, PullFeedSubmitResponse};
pub use instructions::{PullFeedSubmitResponseMany, PullFeedSubmitResponseManyParams};
pub use instructions::{PullFeedSubmitResponseParams, Submission};
pub use lut::{derive_lookup_table_address, AddressLookupTable, InstructionError};
pub use lut::{LookupTableMeta, LookupTableStatus, ProgramState, SlotHashes};
pub use lut::{LOOKUP_TABLE_MAX_ADDRESSES, LOOKUP_TABLE_META_SIZE};
pub use lut_owner::{fetch_and_cache_luts, load_lookup_table, load_lookup_tables};
pub use lut_owner::{lookup_table_key, lookup_table_keys, merge_lookup_tables};
pub use lut_owner::{AddressLookupTableAccount, LutAction, LutEvent, LutOwner, LutResolution};
pub use program::{find_lut_signer, get_associated_token_address};
pub use program::{DELEGATION_GROUP_SEED, DELEGATION_SEED, LUT_SIGNER_SEED, NATIVE_MINT};
pub use program::{ON_DEMAND_DEVNET_PID, ON_DEMAND_MAINNET_PID, ORACLE_FEED_STATS_SEED};
pub use program::{ORACLE_RANDOMNESS_STATS_SEED, ORACLE_STATS_SEED, REWARD_POOL_VAULT_SEED};
pub use program::{SPL_TOKEN_PROGRAM_ID, STATE_SEED, SWITCHBOARD_ON_DEMAND_PROGRAM_ID};
pub use pubkey::{find_program_address, Pubkey};
pub use pull_feed::{OracleResponse, PullFeed, QuoteCollectionResult};
pub use pull_feed::SolanaSubmitSignaturesParams;
pub use recent_slothashes::{SlotHash, SlotHashSysvar};
pub use update::{FetchUpdateParams, UpdateAction, UpdateEvent, UpdateState};
pub use update_many::{FetchUpdateManyParams, ManyProgress, UpdateManyAction, UpdateManyEvent};
pub use update_many::UpdateManyState;
