//! What the runs of a session share: the caches of feeds, of job
//! specifications and of lookup tables.

use crate::accounts::pull_feed::PullFeedAccountData;
use crate::cache::{Entry, ResourceCache};
use crate::lut_owner::{AddressLookupTableAccount, AddressLookupTableAccountView};
use vstd::prelude::*;

verus! {

/// The steps of the jobs of a feed, each in its binary form.
#[derive(Debug)]
pub struct JobSpec {
    pub jobs: Vec<Vec<u8>>,
}

impl View for JobSpec {
    type V = Seq<Seq<u8>>;

    open spec fn view(&self) -> Seq<Seq<u8>> {
        Seq::new(self.jobs@.len(), |i: int| self.jobs@[i]@)
    }
}

/// The caches of a session. A session makes one and hands it to every run.
pub struct SbContext {
    /// The lookup tables, under the keys of their owners.
    pub lut_cache: ResourceCache<AddressLookupTableAccount>,
    /// The job specifications, under the hashes of their schemas.
    pub job_cache: ResourceCache<JobSpec>,
    /// The feeds, under their keys.
    pub pull_feed_cache: ResourceCache<PullFeedAccountData>,
}

/// What the caches of a session hold.
pub struct SbContextView {
    pub luts: Map<Seq<u8>, Entry<AddressLookupTableAccountView>>,
    pub jobs: Map<Seq<u8>, Entry<Seq<Seq<u8>>>>,
    pub feeds: Map<Seq<u8>, Entry<PullFeedAccountData>>,
}

impl View for SbContext {
    type V = SbContextView;

    open spec fn view(&self) -> SbContextView {
        SbContextView {
            luts: self.lut_cache@,
            jobs: self.job_cache@,
            feeds: self.pull_feed_cache@,
        }
    }
}

impl SbContext {
    /// Every cache is well formed.
    pub open spec fn wf(&self) -> bool {
        &&& self.lut_cache.wf()
        &&& self.job_cache.wf()
        &&& self.pull_feed_cache.wf()
    }

    /// The caches of a new session, which hold nothing.
    pub fn new() -> (r: Self)
        ensures
            r.wf(),
            r@.luts == Map::<Seq<u8>, Entry<AddressLookupTableAccountView>>::empty(),
            r@.jobs == Map::<Seq<u8>, Entry<Seq<Seq<u8>>>>::empty(),
            r@.feeds == Map::<Seq<u8>, Entry<PullFeedAccountData>>::empty(),
    {
        SbContext {
            lut_cache: ResourceCache::new(),
            job_cache: ResourceCache::new(),
            pull_feed_cache: ResourceCache::new(),
        }
    }
}

} // verus!
