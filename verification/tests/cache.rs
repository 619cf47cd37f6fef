use sb_on_demand_client::cache::{Claim, ResourceCache};
use sb_on_demand_client::context::{JobSpec, SbContext};
use sb_on_demand_client::pubkey::Pubkey;

fn spec(n: u8) -> JobSpec {
    JobSpec { jobs: vec![vec![n, n + 1], vec![n]] }
}

/// What a caller does with the cache: asks, and fetches where it is told to.
/// The fetch counts itself in `invocations`.
fn get_or_fetch(
    cache: &mut ResourceCache<JobSpec>,
    key: &[u8; 32],
    invocations: &mut usize,
    fetch: &dyn Fn(usize) -> Option<JobSpec>,
) -> Option<Vec<Vec<u8>>> {
    match cache.begin(key) {
        Claim::Fetch => {
            *invocations += 1;
            cache.complete(key, fetch(*invocations));
        }
        Claim::Wait | Claim::Hit => {}
    }
    cache.get(key).map(|found| found.jobs.clone())
}

#[test]
fn a_new_key_is_fetched_by_the_first_caller_alone() {
    let mut cache: ResourceCache<JobSpec> = ResourceCache::new();
    let key = [7u8; 32];
    assert_eq!(cache.begin(&key), Claim::Fetch);
    for _ in 0..5 {
        assert_eq!(cache.begin(&key), Claim::Wait);
        assert!(cache.get(&key).is_none());
    }
    cache.complete(&key, Some(spec(1)));
    for _ in 0..5 {
        assert_eq!(cache.begin(&key), Claim::Hit);
        assert_eq!(cache.get(&key).unwrap().jobs, spec(1).jobs);
    }
}

#[test]
fn many_callers_for_one_key_start_one_fetch_and_see_one_value() {
    let mut cache: ResourceCache<JobSpec> = ResourceCache::new();
    let key = [9u8; 32];
    let callers = 6;
    let mut fetches = 0;
    let mut waiting = 0;
    for _ in 0..callers {
        match cache.begin(&key) {
            Claim::Fetch => fetches += 1,
            Claim::Wait => waiting += 1,
            Claim::Hit => panic!("nothing was fetched yet"),
        }
    }
    assert_eq!(fetches, 1);
    assert_eq!(waiting, callers - 1);
    cache.complete(&key, Some(spec(3)));
    let results: Vec<Vec<Vec<u8>>> =
        (0..callers).map(|_| cache.get(&key).unwrap().jobs.clone()).collect();
    assert_eq!(results.len(), callers);
    for result in &results {
        assert_eq!(result, &spec(3).jobs);
    }
}

#[test]
fn a_counting_fetch_runs_once_for_repeated_requests() {
    let mut cache: ResourceCache<JobSpec> = ResourceCache::new();
    let key = [1u8; 32];
    let mut invocations = 0;
    let first = get_or_fetch(&mut cache, &key, &mut invocations, &|_| Some(spec(5)));
    let second = get_or_fetch(&mut cache, &key, &mut invocations, &|_| Some(spec(6)));
    let third = get_or_fetch(&mut cache, &key, &mut invocations, &|_| None);
    assert_eq!(invocations, 1);
    assert_eq!(first, Some(spec(5).jobs));
    assert_eq!(second, first);
    assert_eq!(third, first);
}

#[test]
fn a_failed_fetch_is_not_cached() {
    let mut cache: ResourceCache<JobSpec> = ResourceCache::new();
    let key = [2u8; 32];
    let mut invocations = 0;
    let fails_once = |n: usize| if n == 1 { None } else { Some(spec(8)) };
    let first = get_or_fetch(&mut cache, &key, &mut invocations, &fails_once);
    assert_eq!(first, None);
    assert_eq!(invocations, 1);
    let second = get_or_fetch(&mut cache, &key, &mut invocations, &fails_once);
    assert_eq!(second, Some(spec(8).jobs));
    assert_eq!(invocations, 2);
    let third = get_or_fetch(&mut cache, &key, &mut invocations, &fails_once);
    assert_eq!(third, second);
    assert_eq!(invocations, 2);
}

#[test]
fn after_a_failure_the_next_caller_is_told_to_fetch() {
    let mut cache: ResourceCache<JobSpec> = ResourceCache::new();
    let key = [3u8; 32];
    assert_eq!(cache.begin(&key), Claim::Fetch);
    cache.complete(&key, None);
    assert!(cache.get(&key).is_none());
    assert_eq!(cache.begin(&key), Claim::Fetch);
    assert_eq!(cache.begin(&key), Claim::Wait);
    cache.complete(&key, Some(spec(2)));
    assert_eq!(cache.begin(&key), Claim::Hit);
}

#[test]
fn the_first_value_stays() {
    let mut cache: ResourceCache<JobSpec> = ResourceCache::new();
    let key = [4u8; 32];
    assert_eq!(cache.begin(&key), Claim::Fetch);
    cache.complete(&key, Some(spec(1)));
    cache.complete(&key, Some(spec(2)));
    assert_eq!(cache.get(&key).unwrap().jobs, spec(1).jobs);
    cache.complete(&key, None);
    assert_eq!(cache.get(&key).unwrap().jobs, spec(1).jobs);
    assert_eq!(cache.begin(&key), Claim::Hit);
}

#[test]
fn a_value_may_be_reported_for_a_key_that_nobody_asked_for() {
    let mut cache: ResourceCache<JobSpec> = ResourceCache::new();
    let key = [5u8; 32];
    cache.complete(&key, None);
    assert_eq!(cache.begin(&key), Claim::Fetch);
    let other = [6u8; 32];
    cache.complete(&other, Some(spec(4)));
    assert_eq!(cache.begin(&other), Claim::Hit);
    assert_eq!(cache.get(&other).unwrap().jobs, spec(4).jobs);
}

#[test]
fn keys_do_not_touch_each_other() {
    let mut cache: ResourceCache<JobSpec> = ResourceCache::new();
    let mut a = [0u8; 32];
    let mut b = [0u8; 32];
    a[31] = 1;
    b[31] = 2;
    assert_eq!(cache.begin(&a), Claim::Fetch);
    assert_eq!(cache.begin(&b), Claim::Fetch);
    cache.complete(&a, Some(spec(10)));
    assert_eq!(cache.begin(&b), Claim::Wait);
    assert!(cache.get(&b).is_none());
    cache.complete(&b, None);
    assert_eq!(cache.get(&a).unwrap().jobs, spec(10).jobs);
    assert_eq!(cache.begin(&b), Claim::Fetch);
    cache.complete(&b, Some(spec(20)));
    assert_eq!(cache.get(&a).unwrap().jobs, spec(10).jobs);
    assert_eq!(cache.get(&b).unwrap().jobs, spec(20).jobs);
}

#[test]
fn asking_for_many_keys_claims_the_new_ones_once() {
    let mut cache: ResourceCache<JobSpec> = ResourceCache::new();
    let k = |n: u8| Pubkey::new_from_array([n; 32]);
    assert_eq!(cache.begin(&[2u8; 32]), Claim::Fetch);
    cache.complete(&[2u8; 32], Some(spec(2)));
    assert_eq!(cache.begin(&[3u8; 32]), Claim::Fetch);
    let to_fetch = cache.begin_all(&vec![k(1), k(2), k(3), k(4), k(1)]);
    assert_eq!(to_fetch, vec![k(1), k(4)]);
    assert_eq!(cache.begin_all(&vec![k(1), k(4)]), vec![]);
    cache.complete_all(&to_fetch, vec![spec(1), spec(4)]);
    assert_eq!(cache.get(&[1u8; 32]).unwrap().jobs, spec(1).jobs);
    assert_eq!(cache.get(&[4u8; 32]).unwrap().jobs, spec(4).jobs);
    assert_eq!(cache.get(&[2u8; 32]).unwrap().jobs, spec(2).jobs);
    assert!(cache.get(&[3u8; 32]).is_none());
    cache.abandon_all(&vec![k(3), k(1)]);
    assert_eq!(cache.begin(&[3u8; 32]), Claim::Fetch);
    assert_eq!(cache.begin(&[1u8; 32]), Claim::Hit);
}

#[test]
fn a_new_context_holds_nothing() {
    let mut context = SbContext::new();
    let key = [1u8; 32];
    assert!(context.lut_cache.get(&key).is_none());
    assert!(context.job_cache.get(&key).is_none());
    assert!(context.pull_feed_cache.get(&key).is_none());
    assert_eq!(context.job_cache.begin(&key), Claim::Fetch);
    assert_eq!(context.lut_cache.begin(&key), Claim::Fetch);
    assert_eq!(context.pull_feed_cache.begin(&key), Claim::Fetch);
}
