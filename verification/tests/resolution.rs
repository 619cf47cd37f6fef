use sb_on_demand_client::accounts::oracle::OracleAccountData;
use sb_on_demand_client::accounts::pull_feed::PullFeedAccountData;
use sb_on_demand_client::accounts::queue::QueueAccountData;
use sb_on_demand_client::cache::{Claim, ResourceCache};
use sb_on_demand_client::error::FetchError;
use sb_on_demand_client::lut::{derive_lookup_table_address, AddressLookupTable, LookupTableMeta};
use sb_on_demand_client::lut_owner::{
    account_to_vec, cached_luts, fetch_and_cache_luts, load_lookup_table, load_lookup_tables,
    lookup_table_key, lookup_table_keys, merge_lookup_tables, AddressLookupTableAccount,
    LutAction, LutEvent, LutResolution,
};
use sb_on_demand_client::program::find_lut_signer;
use sb_on_demand_client::pubkey::Pubkey;

fn key(n: u8) -> Pubkey {
    Pubkey::new_from_array([n; 32])
}

fn feed_account(lut_slot: u64) -> Option<Vec<u8>> {
    let mut account = vec![0u8; 3208];
    account[8 + 2216..8 + 2224].copy_from_slice(&lut_slot.to_le_bytes());
    Some(account)
}

fn oracle_account(lut_slot: u64) -> Option<Vec<u8>> {
    let mut account = vec![0u8; 4816];
    account[8 + 3656..8 + 3664].copy_from_slice(&lut_slot.to_le_bytes());
    Some(account)
}

fn queue_account(lut_slot: u64) -> Option<Vec<u8>> {
    let mut account = vec![0u8; 6280];
    account[8 + 5248..8 + 5256].copy_from_slice(&lut_slot.to_le_bytes());
    Some(account)
}

fn table_account(addresses: &[u8]) -> Option<Vec<u8>> {
    let table = AddressLookupTable {
        meta: LookupTableMeta::new(key(99)),
        addresses: addresses.iter().map(|n| key(*n)).collect(),
    };
    Some(table.serialize_for_tests().unwrap())
}

fn table_key(owner: &Pubkey, lut_slot: u64) -> Pubkey {
    derive_lookup_table_address(&find_lut_signer(owner).unwrap(), lut_slot).unwrap().0
}

#[test]
fn the_data_of_an_account_stand_behind_eight_bytes() {
    assert_eq!(account_to_vec(&Some(vec![0, 1, 2, 3, 4, 5, 6, 7, 8, 9])), vec![8, 9]);
    assert!(account_to_vec(&Some(vec![0; 8])).is_empty());
    assert!(account_to_vec(&Some(vec![1; 7])).is_empty());
    assert!(account_to_vec(&None).is_empty());
}

#[test]
fn the_table_of_an_owner_is_derived_from_its_signer_and_its_slot() {
    let owner = key(1);
    let found = lookup_table_key::<PullFeedAccountData>(&owner, &feed_account(55)).unwrap();
    assert_eq!(found, table_key(&owner, 55));
    let signer = solana_sdk::pubkey::Pubkey::find_program_address(
        &[b"LutSigner", &[1; 32]],
        &"SBondMDrcV3K4kxZR1HNVT7osZxAHVHgYXL5Ze1oMUv".parse().unwrap(),
    )
    .0;
    let expected = solana_sdk::pubkey::Pubkey::find_program_address(
        &[signer.as_ref(), &55u64.to_le_bytes()],
        &"AddressLookupTab1e1111111111111111111111111".parse().unwrap(),
    )
    .0;
    assert_eq!(found.to_bytes(), expected.to_bytes());
    assert_ne!(found, lookup_table_key::<PullFeedAccountData>(&owner, &feed_account(56)).unwrap());
    assert_eq!(
        lookup_table_key::<OracleAccountData>(&owner, &oracle_account(55)).unwrap(),
        found
    );
    assert_eq!(lookup_table_key::<QueueAccountData>(&owner, &queue_account(55)).unwrap(), found);
}

#[test]
fn an_owner_of_another_schema_is_malformed() {
    let owner = key(1);
    assert!(matches!(
        lookup_table_key::<OracleAccountData>(&owner, &feed_account(55)),
        Err(FetchError::DeserializeError)
    ));
    assert!(matches!(
        lookup_table_key::<PullFeedAccountData>(&owner, &None),
        Err(FetchError::DeserializeError)
    ));
    assert!(matches!(
        lookup_table_key::<QueueAccountData>(&owner, &Some(vec![0u8; 4])),
        Err(FetchError::DeserializeError)
    ));
    let keys = vec![key(1), key(2)];
    assert!(matches!(
        lookup_table_keys::<PullFeedAccountData>(&keys, &vec![feed_account(1), None]),
        Err(FetchError::DeserializeError)
    ));
    assert!(matches!(
        lookup_table_keys::<PullFeedAccountData>(&keys, &vec![feed_account(1)]),
        Err(FetchError::DeserializeError)
    ));
    assert_eq!(
        lookup_table_keys::<PullFeedAccountData>(&keys, &vec![feed_account(1), feed_account(2)])
            .unwrap(),
        vec![table_key(&key(1), 1), table_key(&key(2), 2)]
    );
    assert!(lookup_table_keys::<PullFeedAccountData>(&vec![], &vec![]).unwrap().is_empty());
}

#[test]
fn a_table_is_read_from_the_data_of_its_account() {
    let table = load_lookup_table(key(7), &table_account(&[1, 2, 3])).unwrap();
    assert_eq!(table.key, key(7));
    assert_eq!(table.addresses, vec![key(1), key(2), key(3)]);
    let copy = table.clone();
    assert_eq!(copy.key, table.key);
    assert_eq!(copy.addresses, table.addresses);
    assert!(matches!(
        load_lookup_table(key(7), &Some(vec![1, 2, 3])),
        Err(FetchError::DeserializeError)
    ));
    assert!(matches!(
        load_lookup_table(key(7), &Some(vec![])),
        Err(FetchError::DeserializeError)
    ));
}

#[test]
fn a_missing_table_is_a_table_without_addresses() {
    let table = load_lookup_table(key(7), &None).unwrap();
    assert_eq!(table.key, key(7));
    assert!(table.addresses.is_empty());
    let tables =
        load_lookup_tables(&vec![key(1), key(2)], &vec![None, table_account(&[5])]).unwrap();
    assert_eq!(tables.len(), 2);
    assert_eq!(tables[0].key, key(1));
    assert!(tables[0].addresses.is_empty());
    assert_eq!(tables[1].key, key(2));
    assert_eq!(tables[1].addresses, vec![key(5)]);
    assert!(matches!(
        load_lookup_tables(&vec![key(1), key(2)], &vec![None, Some(vec![9; 10])]),
        Err(FetchError::DeserializeError)
    ));
    assert!(matches!(
        load_lookup_tables(&vec![key(1), key(2)], &vec![None]),
        Err(FetchError::DeserializeError)
    ));
}

fn tables(keys: &[u8]) -> Vec<AddressLookupTableAccount> {
    keys.iter().map(|n| AddressLookupTableAccount { key: key(*n), addresses: vec![] }).collect()
}

fn table_keys(list: &[AddressLookupTableAccount]) -> Vec<Pubkey> {
    list.iter().map(|t| t.key).collect()
}

#[test]
fn the_tables_of_the_oracles_come_first_then_feeds_then_queue() {
    let merged =
        merge_lookup_tables(Ok(tables(&[1, 2])), Ok(tables(&[3])), Ok(tables(&[4]))).unwrap();
    assert_eq!(table_keys(&merged), vec![key(1), key(2), key(3), key(4)]);
    let merged = merge_lookup_tables(Ok(vec![]), Ok(vec![]), Ok(vec![])).unwrap();
    assert!(merged.is_empty());
    assert!(matches!(
        merge_lookup_tables(
            Err(FetchError::NotFound),
            Err(FetchError::DeserializeError),
            Ok(vec![])
        ),
        Err(FetchError::NotFound)
    ));
    assert!(matches!(
        merge_lookup_tables(
            Ok(vec![]),
            Err(FetchError::DeserializeError),
            Err(FetchError::NotFound)
        ),
        Err(FetchError::DeserializeError)
    ));
    assert!(matches!(
        merge_lookup_tables(Ok(vec![]), Ok(vec![]), Err(FetchError::InvalidIndex)),
        Err(FetchError::InvalidIndex)
    ));
}

#[test]
fn the_tables_of_new_owners_are_fetched_in_two_round_trips() {
    let mut cache: ResourceCache<AddressLookupTableAccount> = ResourceCache::new();
    let owners = vec![key(1), key(2)];
    let (state, action) = fetch_and_cache_luts::<PullFeedAccountData>(
        &mut cache,
        &owners,
        LutResolution::Start,
        LutEvent::Begin,
    );
    assert!(matches!(&action, LutAction::FetchAccounts(asked) if asked == &owners));
    assert!(matches!(&state, LutResolution::LoadOwners(order, kept)
        if order == &owners && kept == &owners));

    let (state, action) = fetch_and_cache_luts::<PullFeedAccountData>(
        &mut cache,
        &owners,
        state,
        LutEvent::Accounts(Ok(vec![feed_account(10), feed_account(20)])),
    );
    let lut_keys = vec![table_key(&key(1), 10), table_key(&key(2), 20)];
    assert!(matches!(&action, LutAction::FetchAccounts(asked) if asked == &lut_keys));
    assert!(matches!(&state, LutResolution::LoadTables(order, kept, derived)
        if order == &owners && kept == &owners && derived == &lut_keys));

    let (state, action) = fetch_and_cache_luts::<PullFeedAccountData>(
        &mut cache,
        &owners,
        state,
        LutEvent::Accounts(Ok(vec![table_account(&[7, 8]), None])),
    );
    assert!(matches!(state, LutResolution::Done));
    match action {
        LutAction::Done(found) => {
            assert_eq!(table_keys(&found), lut_keys);
            assert_eq!(found[0].addresses, vec![key(7), key(8)]);
            assert!(found[1].addresses.is_empty());
        }
        other => panic!("{:?}", other),
    }
    assert_eq!(cache.get(&[1; 32]).unwrap().key, lut_keys[0]);
    assert_eq!(cache.get(&[2; 32]).unwrap().key, lut_keys[1]);
}

#[test]
fn tables_that_are_cached_are_not_fetched_again() {
    let mut cache: ResourceCache<AddressLookupTableAccount> = ResourceCache::new();
    let first = vec![key(1)];
    let (state, _) = fetch_and_cache_luts::<OracleAccountData>(
        &mut cache,
        &first,
        LutResolution::Start,
        LutEvent::Begin,
    );
    let (state, _) = fetch_and_cache_luts::<OracleAccountData>(
        &mut cache,
        &first,
        state,
        LutEvent::Accounts(Ok(vec![oracle_account(5)])),
    );
    let (state, _) = fetch_and_cache_luts::<OracleAccountData>(
        &mut cache,
        &first,
        state,
        LutEvent::Accounts(Ok(vec![table_account(&[9])])),
    );
    assert!(matches!(state, LutResolution::Done));

    let again = vec![key(1), key(1)];
    let (state, action) = fetch_and_cache_luts::<OracleAccountData>(
        &mut cache,
        &again,
        LutResolution::Start,
        LutEvent::Begin,
    );
    assert!(matches!(state, LutResolution::Done));
    match action {
        LutAction::Done(found) => {
            assert_eq!(found.len(), 2);
            assert_eq!(found[0].addresses, vec![key(9)]);
            assert_eq!(found[1].addresses, vec![key(9)]);
        }
        other => panic!("{:?}", other),
    }

    let mixed = vec![key(3), key(1)];
    let (state, action) = fetch_and_cache_luts::<OracleAccountData>(
        &mut cache,
        &mixed,
        LutResolution::Start,
        LutEvent::Begin,
    );
    assert!(matches!(&action, LutAction::FetchAccounts(asked) if asked == &vec![key(3)]));
    let (state, action) = fetch_and_cache_luts::<OracleAccountData>(
        &mut cache,
        &mixed,
        state,
        LutEvent::Accounts(Ok(vec![oracle_account(6)])),
    );
    assert!(
        matches!(&action, LutAction::FetchAccounts(asked) if asked == &vec![table_key(&key(3), 6)])
    );
    let (state, action) = fetch_and_cache_luts::<OracleAccountData>(
        &mut cache,
        &mixed,
        state,
        LutEvent::Accounts(Ok(vec![table_account(&[4])])),
    );
    assert!(matches!(state, LutResolution::Done));
    match action {
        LutAction::Done(found) => {
            assert_eq!(
                table_keys(&found),
                vec![table_key(&key(1), 5), table_key(&key(3), 6)]
            );
            assert_eq!(found[0].addresses, vec![key(9)]);
            assert_eq!(found[1].addresses, vec![key(4)]);
        }
        other => panic!("{:?}", other),
    }
}

#[test]
fn no_owner_needs_no_fetch() {
    let mut cache: ResourceCache<AddressLookupTableAccount> = ResourceCache::new();
    let (state, action) = fetch_and_cache_luts::<QueueAccountData>(
        &mut cache,
        &vec![],
        LutResolution::Start,
        LutEvent::Begin,
    );
    assert!(matches!(state, LutResolution::Done));
    assert!(matches!(action, LutAction::Done(found) if found.is_empty()));
}

#[test]
fn a_failed_resolution_leaves_nothing_in_the_cache() {
    let mut cache: ResourceCache<AddressLookupTableAccount> = ResourceCache::new();
    let owners = vec![key(1), key(2)];
    let (state, _) = fetch_and_cache_luts::<QueueAccountData>(
        &mut cache,
        &owners,
        LutResolution::Start,
        LutEvent::Begin,
    );
    let (state, action) = fetch_and_cache_luts::<QueueAccountData>(
        &mut cache,
        &owners,
        state,
        LutEvent::Accounts(Err(FetchError::TransportError("timeout".to_string()))),
    );
    assert!(matches!(state, LutResolution::Failed));
    assert!(matches!(action, LutAction::Failed(FetchError::TransportError(m)) if m == "timeout"));
    assert_eq!(cache.begin(&[1; 32]), Claim::Fetch);
    cache.complete(&[1; 32], None);

    let (state, _) = fetch_and_cache_luts::<QueueAccountData>(
        &mut cache,
        &owners,
        LutResolution::Start,
        LutEvent::Begin,
    );
    let (state, action) = fetch_and_cache_luts::<QueueAccountData>(
        &mut cache,
        &owners,
        state,
        LutEvent::Accounts(Ok(vec![queue_account(1), feed_account(2)])),
    );
    assert!(matches!(state, LutResolution::Failed));
    assert!(matches!(action, LutAction::Failed(FetchError::DeserializeError)));
    assert!(cached_luts(&cache, &owners).is_none());

    let (state, _) = fetch_and_cache_luts::<QueueAccountData>(
        &mut cache,
        &owners,
        LutResolution::Start,
        LutEvent::Begin,
    );
    let (state, _) = fetch_and_cache_luts::<QueueAccountData>(
        &mut cache,
        &owners,
        state,
        LutEvent::Accounts(Ok(vec![queue_account(1), queue_account(2)])),
    );
    let (state, action) = fetch_and_cache_luts::<QueueAccountData>(
        &mut cache,
        &owners,
        state,
        LutEvent::Accounts(Ok(vec![table_account(&[1]), Some(vec![0xff; 60])])),
    );
    assert!(matches!(state, LutResolution::Failed));
    assert!(matches!(action, LutAction::Failed(FetchError::DeserializeError)));
    assert_eq!(cache.begin(&[1; 32]), Claim::Fetch);
    assert_eq!(cache.begin(&[2; 32]), Claim::Fetch);
}

#[test]
fn a_run_waits_for_what_another_run_is_fetching() {
    let mut cache: ResourceCache<AddressLookupTableAccount> = ResourceCache::new();
    let owners = vec![key(1)];
    let (other, _) = fetch_and_cache_luts::<QueueAccountData>(
        &mut cache,
        &owners,
        LutResolution::Start,
        LutEvent::Begin,
    );
    let (state, action) = fetch_and_cache_luts::<QueueAccountData>(
        &mut cache,
        &owners,
        LutResolution::Start,
        LutEvent::Begin,
    );
    assert!(matches!(&state, LutResolution::Waiting(order) if order == &owners));
    assert!(matches!(action, LutAction::Wait));
    let (state, action) =
        fetch_and_cache_luts::<QueueAccountData>(&mut cache, &owners, state, LutEvent::Resume);
    assert!(matches!(&state, LutResolution::Waiting(order) if order == &owners));
    assert!(matches!(action, LutAction::Wait));

    let (other, _) = fetch_and_cache_luts::<QueueAccountData>(
        &mut cache,
        &owners,
        other,
        LutEvent::Accounts(Ok(vec![queue_account(3)])),
    );
    let (other, _) = fetch_and_cache_luts::<QueueAccountData>(
        &mut cache,
        &owners,
        other,
        LutEvent::Accounts(Ok(vec![table_account(&[6])])),
    );
    assert!(matches!(other, LutResolution::Done));
    let (state, action) =
        fetch_and_cache_luts::<QueueAccountData>(&mut cache, &owners, state, LutEvent::Resume);
    assert!(matches!(state, LutResolution::Done));
    assert!(matches!(action, LutAction::Done(found) if found[0].addresses == vec![key(6)]));
}

#[test]
fn a_run_that_waited_fetches_where_the_other_run_failed() {
    let mut cache: ResourceCache<AddressLookupTableAccount> = ResourceCache::new();
    let owners = vec![key(1)];
    let (other, _) = fetch_and_cache_luts::<QueueAccountData>(
        &mut cache,
        &owners,
        LutResolution::Start,
        LutEvent::Begin,
    );
    let (state, _) = fetch_and_cache_luts::<QueueAccountData>(
        &mut cache,
        &owners,
        LutResolution::Start,
        LutEvent::Begin,
    );
    let (other, _) = fetch_and_cache_luts::<QueueAccountData>(
        &mut cache,
        &owners,
        other,
        LutEvent::Accounts(Err(FetchError::NotFound)),
    );
    assert!(matches!(other, LutResolution::Failed));
    let (state, action) =
        fetch_and_cache_luts::<QueueAccountData>(&mut cache, &owners, state, LutEvent::Resume);
    assert!(matches!(state, LutResolution::LoadOwners(_, _)));
    assert!(matches!(&action, LutAction::FetchAccounts(asked) if asked == &owners));
}

#[test]
fn an_event_that_is_not_waited_for_fails_the_resolution() {
    let mut cache: ResourceCache<AddressLookupTableAccount> = ResourceCache::new();
    let owners = vec![key(1)];
    let (state, action) = fetch_and_cache_luts::<QueueAccountData>(
        &mut cache,
        &owners,
        LutResolution::Start,
        LutEvent::Resume,
    );
    assert!(matches!(state, LutResolution::Failed));
    assert!(matches!(action, LutAction::Failed(FetchError::UnexpectedEvent)));
    let (state, _) = fetch_and_cache_luts::<QueueAccountData>(
        &mut cache,
        &owners,
        LutResolution::Start,
        LutEvent::Begin,
    );
    let (state, action) =
        fetch_and_cache_luts::<QueueAccountData>(&mut cache, &owners, state, LutEvent::Begin);
    assert!(matches!(state, LutResolution::Failed));
    assert!(matches!(action, LutAction::Failed(FetchError::UnexpectedEvent)));
    assert_eq!(cache.begin(&[1; 32]), Claim::Fetch);
    let (state, action) = fetch_and_cache_luts::<QueueAccountData>(
        &mut cache,
        &owners,
        LutResolution::Done,
        LutEvent::Begin,
    );
    assert!(matches!(state, LutResolution::Failed));
    assert!(matches!(action, LutAction::Failed(FetchError::UnexpectedEvent)));
}

#[test]
fn the_tables_that_were_cached_are_handed_out_first() {
    let mut cache: ResourceCache<AddressLookupTableAccount> = ResourceCache::new();
    for (owner, address) in [(2u8, 20u8), (4, 40)] {
        let keys = vec![key(owner)];
        let (state, _) = fetch_and_cache_luts::<OracleAccountData>(
            &mut cache,
            &keys,
            LutResolution::Start,
            LutEvent::Begin,
        );
        let (state, _) = fetch_and_cache_luts::<OracleAccountData>(
            &mut cache,
            &keys,
            state,
            LutEvent::Accounts(Ok(vec![oracle_account(owner as u64)])),
        );
        let (state, _) = fetch_and_cache_luts::<OracleAccountData>(
            &mut cache,
            &keys,
            state,
            LutEvent::Accounts(Ok(vec![table_account(&[address])])),
        );
        assert!(matches!(state, LutResolution::Done));
    }
    let owners = vec![key(1), key(2), key(3), key(4), key(5)];
    let (state, action) = fetch_and_cache_luts::<OracleAccountData>(
        &mut cache,
        &owners,
        LutResolution::Start,
        LutEvent::Begin,
    );
    let new = vec![key(1), key(3), key(5)];
    assert!(matches!(&action, LutAction::FetchAccounts(asked) if asked == &new));
    assert!(matches!(&state, LutResolution::LoadOwners(order, to_fetch)
        if order == &vec![key(2), key(4), key(1), key(3), key(5)] && to_fetch == &new));
    let (state, _) = fetch_and_cache_luts::<OracleAccountData>(
        &mut cache,
        &owners,
        state,
        LutEvent::Accounts(Ok(vec![oracle_account(1), oracle_account(3), oracle_account(5)])),
    );
    let (state, action) = fetch_and_cache_luts::<OracleAccountData>(
        &mut cache,
        &owners,
        state,
        LutEvent::Accounts(Ok(vec![table_account(&[10]), table_account(&[30]), None])),
    );
    assert!(matches!(state, LutResolution::Done));
    match action {
        LutAction::Done(found) => {
            let addresses: Vec<Vec<Pubkey>> = found.iter().map(|t| t.addresses.clone()).collect();
            assert_eq!(
                addresses,
                vec![vec![key(20)], vec![key(40)], vec![key(10)], vec![key(30)], vec![]]
            );
            assert_eq!(found[0].key, table_key(&key(2), 2));
            assert_eq!(found[4].key, table_key(&key(5), 5));
        }
        other => panic!("{:?}", other),
    }
}
