use sb_on_demand_client::accounts::oracle::{OracleAccountData, Quote};
use sb_on_demand_client::accounts::pull_feed::{CurrentResult, OracleSubmission, PullFeedAccountData};
use sb_on_demand_client::accounts::queue::QueueAccountData;
use sb_on_demand_client::accounts::{read_arrays_32, read_keys};
use sb_on_demand_client::error::FetchError;
use sb_on_demand_client::gateway::Gateway;
use sb_on_demand_client::lut_owner::LutOwner;
use sb_on_demand_client::pubkey::Pubkey;
use sb_on_demand_client::pull_feed::PullFeed;
use sb_on_demand_client::recent_slothashes::SlotHashSysvar;

fn key(n: u8) -> Pubkey {
    Pubkey::new_from_array([n; 32])
}

fn put(data: &mut [u8], at: usize, bytes: &[u8]) {
    data[at..at + bytes.len()].copy_from_slice(bytes);
}

fn feed_bytes() -> Vec<u8> {
    let mut data = vec![0u8; 3200];
    // The second submission.
    put(&mut data, 64, &[11; 32]);
    put(&mut data, 64 + 32, &500u64.to_le_bytes());
    put(&mut data, 64 + 48, &(-3i128).to_le_bytes());
    // The last submission.
    put(&mut data, 31 * 64, &[12; 32]);
    put(&mut data, 31 * 64 + 32, &501u64.to_le_bytes());
    put(&mut data, 31 * 64 + 48, &i128::MAX.to_le_bytes());
    put(&mut data, 2048, &[1; 32]);
    put(&mut data, 2080, &[2; 32]);
    put(&mut data, 2112, &[0xab; 32]);
    put(&mut data, 2144, &(-77i64).to_le_bytes());
    put(&mut data, 2152, &9u64.to_le_bytes());
    put(&mut data, 2160, &5_000_000_000u64.to_le_bytes());
    put(&mut data, 2168, &2u32.to_le_bytes());
    put(&mut data, 2172, &[b'n'; 32]);
    data[2207] = 3;
    put(&mut data, 2208, &1_700_000_000i64.to_le_bytes());
    put(&mut data, 2216, &123_456u64.to_le_bytes());
    put(&mut data, 2224, &[4; 32]);
    put(&mut data, 2256, &1_000_000_000_000_000_000i128.to_le_bytes());
    put(&mut data, 2256 + 16, &2i128.to_le_bytes());
    put(&mut data, 2256 + 32, &3i128.to_le_bytes());
    put(&mut data, 2256 + 48, &4i128.to_le_bytes());
    put(&mut data, 2256 + 64, &(-5i128).to_le_bytes());
    put(&mut data, 2256 + 80, &6i128.to_le_bytes());
    data[2256 + 96] = 7;
    put(&mut data, 2256 + 104, &1000u64.to_le_bytes());
    put(&mut data, 2256 + 112, &999u64.to_le_bytes());
    put(&mut data, 2256 + 120, &1001u64.to_le_bytes());
    put(&mut data, 2384, &60u32.to_le_bytes());
    data
}

#[test]
fn a_feed_is_read_from_its_stored_form() {
    let data = feed_bytes();
    let feed = PullFeedAccountData::from_bytes(&data).unwrap();
    assert!(feed.submissions[0].is_empty());
    assert_eq!(feed.submissions[1].oracle, key(11));
    assert_eq!(feed.submissions[1].slot, 500);
    assert_eq!(feed.submissions[1].value, -3);
    assert_eq!(feed.submissions[31].oracle, key(12));
    assert_eq!(feed.submissions[31].slot, 501);
    assert_eq!(feed.submissions[31].value, i128::MAX);
    assert_eq!(feed.authority, key(1));
    assert_eq!(feed.queue, key(2));
    assert_eq!(feed.feed_hash, [0xab; 32]);
    assert_eq!(feed.initialized_at, -77);
    assert_eq!(feed.permissions, 9);
    assert_eq!(feed.max_variance, 5_000_000_000);
    assert_eq!(feed.min_responses, 2);
    assert_eq!(feed.name, [b'n'; 32]);
    assert_eq!(feed.min_sample_size, 3);
    assert_eq!(feed.last_update_timestamp, 1_700_000_000);
    assert_eq!(feed.lut_slot, 123_456);
    assert_eq!(feed.ipfs_hash, [4; 32]);
    assert_eq!(feed.result.value, 1_000_000_000_000_000_000);
    assert_eq!(feed.result.std_dev, 2);
    assert_eq!(feed.result.mean, 3);
    assert_eq!(feed.result.range, 4);
    assert_eq!(feed.result.min_value, -5);
    assert_eq!(feed.result.max_value, 6);
    assert_eq!(feed.result.num_samples, 7);
    assert_eq!(feed.result.slot, 1000);
    assert_eq!(feed.result.min_slot, 999);
    assert_eq!(feed.result.max_slot, 1001);
    assert_eq!(feed.max_staleness, 60);
    assert_eq!(feed.value().unwrap().mantissa(), 1_000_000_000_000_000_000);
    assert_eq!(feed.range().unwrap().mantissa(), 4);
    assert_eq!(feed.min_value().unwrap().mantissa(), -5);
    assert_eq!(feed.max_value().unwrap().mantissa(), 6);
    assert_eq!(feed.result_slot(), 1000);
    assert_eq!(feed.feed_hash(), "ab".repeat(32));
    assert_eq!(feed.feed_hash(), hex::encode([0xab; 32]));
    assert_eq!(feed.lut_slot(), 123_456);
}

#[test]
fn a_feed_has_exactly_3200_bytes() {
    let data = feed_bytes();
    assert!(PullFeedAccountData::from_bytes(&data[..3199]).is_none());
    let mut longer = data.clone();
    longer.push(0);
    assert!(PullFeedAccountData::from_bytes(&longer).is_none());
    assert!(PullFeedAccountData::from_bytes(&[]).is_none());
    assert!(PullFeedAccountData::from_account_data(&data).is_some());
    assert!(PullFeedAccountData::from_account_data(&longer).is_none());
}

#[test]
fn a_feed_account_holds_the_feed_behind_eight_bytes() {
    let mut account = vec![0xffu8; 8];
    account.extend_from_slice(&feed_bytes());
    let feed = PullFeed::load_data(&account).unwrap();
    assert_eq!(feed.queue, key(2));
    assert_eq!(feed.min_sample_size, 3);
    assert_eq!(feed.lut_slot, 123_456);
    assert!(matches!(PullFeed::load_data(&account[..3207]), Err(FetchError::DeserializeError)));
    assert!(matches!(PullFeed::load_data(&feed_bytes()), Err(FetchError::DeserializeError)));
    assert!(matches!(PullFeed::load_data(&[]), Err(FetchError::DeserializeError)));
}

#[test]
fn the_parts_of_a_feed_are_read_where_they_stand() {
    let data = feed_bytes();
    let result = CurrentResult::read(&data, 2256);
    assert_eq!(result.slot, 1000);
    assert_eq!(CurrentResult::from_bytes(&data[2256..2384]).unwrap().max_slot, 1001);
    assert!(CurrentResult::from_bytes(&data[2256..2383]).is_none());
    let submission = OracleSubmission::read(&data, 64);
    assert_eq!(submission.value, -3);
    assert_eq!(OracleSubmission::from_bytes(&data[64..128]).unwrap().slot, 500);
    assert_eq!(OracleSubmission::read_32(&data, 0)[31].slot, 501);
}

fn oracle_bytes(uri: &[u8]) -> Vec<u8> {
    let mut data = vec![0u8; 4808];
    put(&mut data, 0, &[1; 32]);
    put(&mut data, 32, &[2; 32]);
    data[64] = 4;
    put(&mut data, 72, &(-1i64).to_le_bytes());
    put(&mut data, 80, &i64::MAX.to_le_bytes());
    put(&mut data, 88, &[3; 32]);
    put(&mut data, 120, &[4; 64]);
    put(&mut data, 184, &[5; 64]);
    put(&mut data, 248, &[6; 32]);
    put(&mut data, 280, &[7; 64]);
    put(&mut data, 344, &888u64.to_le_bytes());
    put(&mut data, 352, &[8; 32]);
    put(&mut data, 352 + 63 * 32, &[9; 32]);
    data[2400] = 2;
    put(&mut data, 2408, &[10; 32]);
    put(&mut data, 2440, &[11; 64]);
    put(&mut data, 3432, &[12; 32]);
    put(&mut data, 3464, &[13; 32]);
    put(&mut data, 3496, &i64::MIN.to_le_bytes());
    put(&mut data, 3504, &55i64.to_le_bytes());
    put(&mut data, 3512, &[14; 64]);
    put(&mut data, 3576, uri);
    put(&mut data, 3640, &u64::MAX.to_le_bytes());
    data[3648] = 1;
    put(&mut data, 3656, &424_242u64.to_le_bytes());
    put(&mut data, 3664, &17u64.to_le_bytes());
    data
}

#[test]
fn an_oracle_is_read_from_its_stored_form() {
    let data = oracle_bytes(b"https://oracle.example/gw");
    let oracle = OracleAccountData::from_bytes(&data).unwrap();
    assert_eq!(oracle.enclave.enclave_signer, key(1));
    assert_eq!(oracle.enclave.mr_enclave, [2; 32]);
    assert_eq!(oracle.enclave.verification_status, 4);
    assert_eq!(oracle.enclave.verification_timestamp, -1);
    assert_eq!(oracle.enclave.valid_until, i64::MAX);
    assert_eq!(oracle.enclave.quote_registry, [3; 32]);
    assert_eq!(oracle.enclave.registry_key, [4; 64]);
    assert_eq!(oracle.enclave.secp256k1_signer, [5; 64]);
    assert_eq!(oracle.enclave.last_ed25519_signer, key(6));
    assert_eq!(oracle.enclave.last_secp256k1_signer, [7; 64]);
    assert_eq!(oracle.enclave.last_rotate_slot, 888);
    assert_eq!(oracle.enclave.guardian_approvers.len(), 64);
    assert_eq!(oracle.enclave.guardian_approvers[0], key(8));
    assert_eq!(oracle.enclave.guardian_approvers[1], key(0));
    assert_eq!(oracle.enclave.guardian_approvers[63], key(9));
    assert_eq!(oracle.enclave.guardian_approvers_len, 2);
    assert_eq!(oracle.enclave.staging_ed25519_signer, key(10));
    assert_eq!(oracle.enclave.staging_secp256k1_signer, [11; 64]);
    assert_eq!(oracle.authority, key(12));
    assert_eq!(oracle.queue, key(13));
    assert_eq!(oracle.created_at, i64::MIN);
    assert_eq!(oracle.last_heartbeat, 55);
    assert_eq!(oracle.secp_authority, [14; 64]);
    assert_eq!(oracle.permissions, u64::MAX);
    assert_eq!(oracle.is_on_queue, 1);
    assert_eq!(oracle.lut_slot, 424_242);
    assert_eq!(oracle.last_reward_epoch, 17);
    assert_eq!(oracle.lut_slot(), 424_242);
    assert_eq!(oracle.gateway_uri(), Some("https://oracle.example/gw".to_string()));
    assert!(OracleAccountData::from_bytes(&data[..4807]).is_none());
    assert_eq!(Quote::from_bytes(&data[..3432]).unwrap().last_rotate_slot, 888);
    assert_eq!(Quote::read(&data, 0).guardian_approvers_len, 2);
    assert_eq!(OracleAccountData::read(&data, 0).last_reward_epoch, 17);
}

#[test]
fn the_address_of_the_gateway_ends_at_the_first_nul() {
    let oracle = OracleAccountData::from_bytes(&oracle_bytes(b"")).unwrap();
    assert_eq!(oracle.gateway_uri(), None);
    let oracle = OracleAccountData::from_bytes(&oracle_bytes(b"ab\0cd")).unwrap();
    assert_eq!(oracle.gateway_uri(), Some("ab".to_string()));
    let oracle = OracleAccountData::from_bytes(&oracle_bytes(&[b'x'; 64])).unwrap();
    assert_eq!(oracle.gateway_uri(), Some("x".repeat(64)));
    let oracle = OracleAccountData::from_bytes(&oracle_bytes(&[b'a', 0xff, b'b'])).unwrap();
    assert_eq!(oracle.gateway_uri(), Some("a\u{fffd}b".to_string()));
    let oracle = OracleAccountData::from_bytes(&oracle_bytes("é!".as_bytes())).unwrap();
    assert_eq!(oracle.gateway_uri(), Some("é!".to_string()));
    let mut uri = [b'u'; 64];
    uri[0] = 0;
    let oracle = OracleAccountData::from_bytes(&oracle_bytes(&uri)).unwrap();
    assert_eq!(oracle.gateway_uri(), None);
}

fn queue_bytes(oracles: u32) -> Vec<u8> {
    let mut data = vec![0u8; 6272];
    put(&mut data, 0, &[1; 32]);
    put(&mut data, 32, &[2; 32]);
    put(&mut data, 32 + 31 * 32, &[3; 32]);
    for n in 0..128usize {
        put(&mut data, 1056 + 32 * n, &[n as u8 + 100; 32]);
    }
    put(&mut data, 5152, &(-1i64).to_le_bytes());
    put(&mut data, 5160, &2i64.to_le_bytes());
    put(&mut data, 5168, &3i64.to_le_bytes());
    put(&mut data, 5176, &4u64.to_le_bytes());
    put(&mut data, 5184, &5i64.to_le_bytes());
    put(&mut data, 5192, &6u32.to_le_bytes());
    put(&mut data, 5196, &oracles.to_le_bytes());
    put(&mut data, 5200, &8u32.to_le_bytes());
    put(&mut data, 5204, &9u32.to_le_bytes());
    put(&mut data, 5208, &10u32.to_le_bytes());
    data[5212] = 11;
    data[5213] = 12;
    data[5214] = 13;
    data[5215] = 14;
    put(&mut data, 5216, &[15; 32]);
    put(&mut data, 5248, &16u64.to_le_bytes());
    data[5256] = 17;
    data
}

#[test]
fn a_queue_is_read_from_its_stored_form() {
    let data = queue_bytes(3);
    let queue = QueueAccountData::from_bytes(&data).unwrap();
    assert_eq!(queue.authority, key(1));
    assert_eq!(queue.mr_enclaves.len(), 32);
    assert_eq!(queue.mr_enclaves[0], [2; 32]);
    assert_eq!(queue.mr_enclaves[31], [3; 32]);
    assert_eq!(queue.oracle_keys.len(), 128);
    assert_eq!(queue.oracle_keys[127], key(227));
    assert_eq!(queue.max_quote_verification_age, -1);
    assert_eq!(queue.last_heartbeat, 2);
    assert_eq!(queue.node_timeout, 3);
    assert_eq!(queue.oracle_min_stake, 4);
    assert_eq!(queue.allow_authority_override_after, 5);
    assert_eq!(queue.mr_enclaves_len, 6);
    assert_eq!(queue.oracle_keys_len, 3);
    assert_eq!(queue.reward, 8);
    assert_eq!(queue.curr_idx, 9);
    assert_eq!(queue.gc_idx, 10);
    assert_eq!(queue.require_authority_heartbeat_permission, 11);
    assert_eq!(queue.require_authority_verify_permission, 12);
    assert_eq!(queue.require_usage_permissions, 13);
    assert_eq!(queue.signer_bump, 14);
    assert_eq!(queue.mint, key(15));
    assert_eq!(queue.lut_slot, 16);
    assert_eq!(queue.allow_subsidies, 17);
    assert_eq!(queue.lut_slot(), 16);
    assert_eq!(queue.oracle_keys(), vec![key(100), key(101), key(102)]);
    assert_eq!(QueueAccountData::size(), 6280);
    assert!(QueueAccountData::from_bytes(&data[..6271]).is_none());
    assert_eq!(QueueAccountData::read(&data, 0).gc_idx, 10);
}

#[test]
fn a_queue_account_holds_the_queue_behind_eight_bytes() {
    let mut account = vec![1u8; 8];
    account.extend_from_slice(&queue_bytes(128));
    assert_eq!(account.len(), QueueAccountData::size());
    let queue = QueueAccountData::load(&account).unwrap();
    assert_eq!(queue.oracle_keys().len(), 128);
    assert_eq!(queue.oracle_keys()[127], key(227));
    assert!(matches!(QueueAccountData::load(&account[8..]), Err(FetchError::DeserializeError)));
    let empty = QueueAccountData::load(&{
        let mut a = vec![0u8; 8];
        a.extend_from_slice(&queue_bytes(0));
        a
    })
    .unwrap();
    assert_eq!(empty.oracle_keys(), vec![]);
}

fn oracle_account(uri: &[u8]) -> Option<Vec<u8>> {
    let mut account = vec![0u8; 8];
    account.extend_from_slice(&oracle_bytes(uri));
    Some(account)
}

fn queue_of(oracles: u32) -> QueueAccountData {
    QueueAccountData::from_bytes(&queue_bytes(oracles)).unwrap()
}

#[test]
fn the_oracles_of_a_queue_are_paired_with_their_keys() {
    let queue = queue_of(2);
    let accounts = vec![oracle_account(b"https://a"), oracle_account(b"")];
    let oracles = queue.fetch_oracle_accounts(&accounts).unwrap();
    assert_eq!(oracles.len(), 2);
    assert_eq!(oracles[0].0, key(100));
    assert_eq!(oracles[1].0, key(101));
    assert_eq!(oracles[0].1.lut_slot, 424_242);
    assert_eq!(oracles[0].1.gateway_uri(), Some("https://a".to_string()));
    assert!(matches!(
        queue.fetch_oracle_accounts(&vec![oracle_account(b""), None]),
        Err(FetchError::DeserializeError)
    ));
    assert!(matches!(
        queue.fetch_oracle_accounts(&vec![oracle_account(b"")]),
        Err(FetchError::DeserializeError)
    ));
    assert!(matches!(
        queue.fetch_oracle_accounts(&vec![oracle_account(b""), Some(vec![0u8; 100])]),
        Err(FetchError::DeserializeError)
    ));
    assert!(queue_of(0).fetch_oracle_accounts(&vec![]).unwrap().is_empty());
}

#[test]
fn the_gateways_of_a_queue_are_those_that_answer() {
    let queue = queue_of(3);
    let accounts =
        vec![oracle_account(b"https://a"), oracle_account(b""), oracle_account(b"https://c")];
    let oracles = queue.fetch_oracle_accounts(&accounts).unwrap();
    let gateways = QueueAccountData::gateways(&oracles);
    let urls: Vec<&String> = gateways.iter().map(|g| g.gateway_url()).collect();
    assert_eq!(urls, vec!["https://a", "https://c"]);
    let good = QueueAccountData::fetch_gateways(&gateways, &vec![false, true]);
    assert_eq!(good.len(), 1);
    assert_eq!(good[0].gateway_url(), "https://c");
    assert_eq!(QueueAccountData::fetch_gateways(&gateways, &vec![true, true]).len(), 2);
    assert_eq!(QueueAccountData::fetch_gateways(&gateways, &vec![false, false]).len(), 0);
    assert_eq!(QueueAccountData::fetch_gateways(&gateways, &vec![true]).len(), 0);
    let none: Vec<Gateway> = vec![];
    assert_eq!(QueueAccountData::fetch_gateways(&none, &vec![]).len(), 0);
}

#[test]
fn lists_of_keys_are_read_one_after_the_other() {
    let data: Vec<u8> = (0..100).collect();
    let keys = read_keys(&data, 4, 3);
    assert_eq!(keys.len(), 3);
    assert_eq!(keys[0].to_vec(), data[4..36].to_vec());
    assert_eq!(keys[2].to_vec(), data[68..100].to_vec());
    let arrays = read_arrays_32(&data, 0, 2);
    assert_eq!(arrays[1].to_vec(), data[32..64].to_vec());
    assert!(read_keys(&data, 100, 0).is_empty());
}

#[test]
fn the_latest_slot_hash_stands_first() {
    let mut data = vec![0u8; 8 + 20480];
    put(&mut data, 0, &512u64.to_le_bytes());
    put(&mut data, 8, &300_000_000u64.to_le_bytes());
    put(&mut data, 16, &[0xcd; 32]);
    put(&mut data, 48, &299_999_999u64.to_le_bytes());
    let latest = SlotHashSysvar::get_latest_slothash(&data).unwrap();
    assert_eq!(latest.slot, 300_000_000);
    assert_eq!(latest.hash, [0xcd; 32]);
    assert!(SlotHashSysvar::get_latest_slothash(&data[..8 + 20479]).is_none());
    assert!(SlotHashSysvar::get_latest_slothash(&[]).is_none());
    data.push(0);
    assert_eq!(SlotHashSysvar::get_latest_slothash(&data).unwrap().slot, 300_000_000);
}
