use base64::Engine;
use sb_on_demand_client::accounts::pull_feed::PullFeedAccountData;
use sb_on_demand_client::crossbar::{
    cluster_type_to_string, ClusterType, CrossbarClient, CrossbarError,
};
use sb_on_demand_client::encoding::{base64_to_64_bytes, hex_to_32_bytes, push_decimal};
use sb_on_demand_client::gateway::{
    encode_jobs, encode_length_delimited, FeedConfig, FetchSignaturesMultiParams,
    FetchSignaturesParams, Gateway,
};
use sb_on_demand_client::pubkey::Pubkey;
use sb_on_demand_client::pull_feed::PullFeed;
use sb_on_demand_client::recent_slothashes::SlotHash;

fn jobs() -> Vec<String> {
    vec!["am9i".to_string(), "c3RlcA==".to_string()]
}

#[test]
fn the_request_for_the_signatures_of_one_feed() {
    let gateway = Gateway::new("https://gw.example".to_string());
    assert_eq!(gateway.gateway_url(), "https://gw.example");
    let request = gateway.fetch_signatures_from_encoded(FetchSignaturesParams {
        recent_hash: Some("hash".to_string()),
        encoded_jobs: jobs(),
        num_signatures: 4,
        max_variance: Some(5),
        min_responses: Some(2),
        use_timestamp: Some(true),
    });
    assert_eq!(request.url, "https://gw.example/gateway/api/v1/fetch_signatures");
    assert_eq!(request.api_version, "1.0.0");
    assert_eq!(request.jobs_b64_encoded, jobs());
    assert_eq!(request.recent_chainhash, "hash");
    assert_eq!(request.signature_scheme, "Secp256k1");
    assert_eq!(request.hash_scheme, "Sha256");
    assert_eq!(request.num_oracles, 4);
    assert_eq!(request.max_variance, 5_000_000_000);
    assert_eq!(request.max_variance, (5f64 * 1e9) as u64);
    assert_eq!(request.min_responses, 2);
    assert!(request.use_timestamp);
}

#[test]
fn what_the_caller_leaves_open_in_a_request() {
    let gateway = Gateway::new("gw".to_string());
    let request = gateway.fetch_signatures_from_encoded(FetchSignaturesParams {
        recent_hash: None,
        encoded_jobs: vec![],
        num_signatures: 0,
        max_variance: None,
        min_responses: None,
        use_timestamp: None,
    });
    assert_eq!(request.recent_chainhash, "11111111111111111111111111111111");
    assert_eq!(request.recent_chainhash, bs58::encode(vec![0u8; 32]).into_string());
    assert_eq!(request.max_variance, 1_000_000_000);
    assert_eq!(request.min_responses, 1);
    assert!(!request.use_timestamp);
    assert!(request.jobs_b64_encoded.is_empty());
    let widest = gateway.fetch_signatures_from_encoded(FetchSignaturesParams {
        recent_hash: None,
        encoded_jobs: vec![],
        num_signatures: u32::MAX,
        max_variance: Some(u32::MAX),
        min_responses: Some(u32::MAX),
        use_timestamp: Some(false),
    });
    assert_eq!(widest.max_variance, 4_294_967_295_000_000_000);
    assert_eq!(widest.max_variance, (u32::MAX as f64 * 1e9) as u64);
    assert_eq!(widest.num_oracles, u32::MAX);
}

#[test]
fn the_request_for_the_signatures_of_many_feeds() {
    let gateway = Gateway::new("https://gw.example".to_string());
    let request = gateway.fetch_signatures_multi(FetchSignaturesMultiParams {
        recent_hash: Some("hash".to_string()),
        feed_configs: vec![
            FeedConfig { encoded_jobs: jobs(), max_variance: Some(2), min_responses: Some(3) },
            FeedConfig { encoded_jobs: vec![], max_variance: None, min_responses: None },
            FeedConfig {
                encoded_jobs: vec!["eA==".to_string()],
                max_variance: Some(0),
                min_responses: Some(0),
            },
        ],
        num_signatures: Some(7),
        use_timestamp: Some(true),
    });
    assert_eq!(request.url, "https://gw.example/gateway/api/v1/fetch_signatures_multi");
    assert_eq!(request.api_version, "1.0.0");
    assert_eq!(request.num_oracles, 7);
    assert_eq!(request.recent_hash, "hash");
    assert_eq!(request.signature_scheme, "Secp256k1");
    assert_eq!(request.hash_scheme, "Sha256");
    assert_eq!(request.feed_requests.len(), 3);
    assert_eq!(request.feed_requests[0].jobs_b64_encoded, jobs());
    assert_eq!(request.feed_requests[0].max_variance, 2_000_000_000);
    assert_eq!(request.feed_requests[0].min_responses, 3);
    assert!(request.feed_requests[0].use_timestamp);
    assert!(request.feed_requests[1].jobs_b64_encoded.is_empty());
    assert_eq!(request.feed_requests[1].max_variance, 1_000_000_000);
    assert_eq!(request.feed_requests[1].min_responses, 1);
    assert_eq!(request.feed_requests[2].jobs_b64_encoded, vec!["eA==".to_string()]);
    assert_eq!(request.feed_requests[2].max_variance, 0);
    assert_eq!(request.feed_requests[2].min_responses, 0);
    let open = gateway.fetch_signatures_multi(FetchSignaturesMultiParams {
        recent_hash: None,
        feed_configs: vec![],
        num_signatures: None,
        use_timestamp: None,
    });
    assert_eq!(open.num_oracles, 1);
    assert_eq!(open.recent_hash, "11111111111111111111111111111111");
    assert!(open.feed_requests.is_empty());
}

#[test]
fn a_gateway_answers_the_test_with_a_text() {
    let gateway = Gateway::new("https://gw.example".to_string());
    assert_eq!(gateway.test_gateway_url(), "https://gw.example/gateway/api/v1/test");
    assert!(gateway.test_gateway(Some("ok")));
    assert!(gateway.test_gateway(Some("é")));
    assert!(!gateway.test_gateway(Some("")));
    assert!(!gateway.test_gateway(None));
    assert_eq!(Gateway::default().gateway_url(), "");
}

#[test]
fn a_job_stands_behind_its_length() {
    assert_eq!(encode_length_delimited(&[]), vec![0]);
    assert_eq!(encode_length_delimited(&[7, 8]), vec![2, 7, 8]);
    let long = vec![1u8; 127];
    assert_eq!(encode_length_delimited(&long)[..1], [127]);
    assert_eq!(encode_length_delimited(&long).len(), 128);
    let longer = vec![1u8; 128];
    assert_eq!(encode_length_delimited(&longer)[..2], [0x80, 0x01]);
    let longest = vec![2u8; 300];
    let framed = encode_length_delimited(&longest);
    assert_eq!(framed[..2], [0xac, 0x02]);
    assert_eq!(framed[2..], longest[..]);
    let huge = vec![0u8; 16384];
    assert_eq!(encode_length_delimited(&huge)[..3], [0x80, 0x80, 0x01]);
}

#[test]
fn jobs_are_sent_in_base_64() {
    let encoded = encode_jobs(&vec![vec![], vec![1, 2, 3], vec![0xff; 200]]);
    assert_eq!(encoded.len(), 3);
    assert_eq!(encoded[0], "AA==");
    assert_eq!(encoded[1], "AwECAw==");
    let mut framed = vec![0xc8, 0x01];
    framed.extend_from_slice(&[0xff; 200]);
    assert_eq!(encoded[2], base64::engine::general_purpose::STANDARD.encode(&framed));
    assert!(encode_jobs(&vec![]).is_empty());
}

#[test]
fn what_is_asked_for_a_feed() {
    let mut data = vec![0u8; 3200];
    data[2160..2168].copy_from_slice(&7_999_999_999u64.to_le_bytes());
    data[2168..2172].copy_from_slice(&2u32.to_le_bytes());
    data[2207] = 3;
    let feed = PullFeedAccountData::from_bytes(&data).unwrap();
    let slot = SlotHash { slot: 9, hash: [5; 32] };
    let asked = PullFeed::signature_params(&feed, jobs(), &slot, None);
    assert_eq!(asked.recent_hash, Some(bs58::encode([5u8; 32]).into_string()));
    assert_ne!(asked.recent_hash, Some(bs58::encode([0u8; 32]).into_string()));
    assert_eq!(asked.encoded_jobs, jobs());
    assert_eq!(asked.num_signatures, 4);
    assert_eq!(asked.max_variance, Some(7));
    assert_eq!(asked.min_responses, Some(2));
    assert_eq!(asked.use_timestamp, Some(false));
    let asked = PullFeed::signature_params(&feed, jobs(), &slot, Some(9));
    assert_eq!(asked.num_signatures, 9);

    data[2160..2168].copy_from_slice(&u64::MAX.to_le_bytes());
    let feed = PullFeedAccountData::from_bytes(&data).unwrap();
    let asked = PullFeed::signature_params(&feed, vec![], &slot, Some(1));
    assert_eq!(asked.max_variance, Some((u64::MAX / 1_000_000_000) as u32));
    assert_eq!(asked.max_variance, Some(1_266_874_889));
}

#[test]
fn hexadecimal_texts_of_32_bytes() {
    assert_eq!(hex_to_32_bytes(&"0a".repeat(32)), Some([10; 32]));
    assert_eq!(hex_to_32_bytes(&"Ff".repeat(32)), Some([255; 32]));
    assert_eq!(hex_to_32_bytes(&"0a".repeat(31)), None);
    assert_eq!(hex_to_32_bytes(&"0a".repeat(33)), None);
    assert_eq!(hex_to_32_bytes(&"0g".repeat(32)), None);
    assert_eq!(hex_to_32_bytes(""), None);
    let mut text = "00".repeat(31);
    text.push_str("1é");
    assert_eq!(hex_to_32_bytes(&text), None);
    let text: String = (0..32).map(|n| format!("{:02x}", n)).collect();
    let expected: Vec<u8> = (0..32).collect();
    assert_eq!(hex_to_32_bytes(&text).unwrap().to_vec(), expected);
}

#[test]
fn base_64_texts_of_64_bytes() {
    let engine = base64::engine::general_purpose::STANDARD;
    let bytes: Vec<u8> = (0..64).collect();
    assert_eq!(base64_to_64_bytes(&engine.encode(&bytes)).unwrap().to_vec(), bytes);
    assert_eq!(base64_to_64_bytes(&engine.encode(&bytes[..63])), None);
    assert_eq!(base64_to_64_bytes(&engine.encode([0u8; 65])), None);
    assert_eq!(base64_to_64_bytes("not base 64"), None);
    assert_eq!(base64_to_64_bytes(""), None);
}

#[test]
fn numbers_are_written_in_decimal() {
    for n in [0u64, 1, 9, 10, 11, 99, 100, 12345, u64::MAX] {
        let mut text = "n=".to_string();
        push_decimal(&mut text, n);
        assert_eq!(text, format!("n={}", n));
    }
}

#[test]
fn the_addresses_of_the_job_registry() {
    let registry = CrossbarClient::default();
    assert!(!registry.verbose());
    assert_eq!(registry.fetch("abcd"), "https://crossbar.switchboard.xyz/fetch/abcd");
    let registry = CrossbarClient::new("http://localhost:8080", true);
    assert!(registry.verbose());
    assert_eq!(registry.fetch(""), "http://localhost:8080/fetch/");
    let queue = Pubkey::new_from_array([3; 32]);
    let (url, queue_text) = registry.store(queue);
    assert_eq!(url, "http://localhost:8080/store");
    assert_eq!(queue_text, bs58::encode([3u8; 32]).into_string());
    assert_eq!(queue_text, solana_sdk::pubkey::Pubkey::new_from_array([3; 32]).to_string());
}

#[test]
fn the_names_of_the_networks() {
    assert_eq!(cluster_type_to_string(ClusterType::MainnetBeta), "mainnet-beta");
    assert_eq!(cluster_type_to_string(ClusterType::Testnet), "testnet");
    assert_eq!(cluster_type_to_string(ClusterType::Devnet), "devnet");
    assert_eq!(cluster_type_to_string(ClusterType::Development), "development");
}

#[test]
fn the_addresses_for_updates_and_simulations() {
    let registry = CrossbarClient::new("https://cb", false);
    let a = Pubkey::new_from_array([1; 32]);
    let b = Pubkey::new_from_array([2; 32]);
    let text = |k: &Pubkey| bs58::encode(k.to_bytes()).into_string();
    assert_eq!(
        registry.fetch_solana_updates(ClusterType::Devnet, &[a, b], None),
        Ok(format!("https://cb/updates/solana/devnet/{},{}", text(&a), text(&b)))
    );
    assert_eq!(
        registry.fetch_solana_updates(ClusterType::MainnetBeta, &[a], Some(12)),
        Ok(format!("https://cb/updates/solana/mainnet-beta/{}?numSignatures=12", text(&a)))
    );
    assert_eq!(
        registry.fetch_solana_updates(ClusterType::Testnet, &[b], Some(0)),
        Ok(format!("https://cb/updates/solana/testnet/{}?numSignatures=0", text(&b)))
    );
    assert_eq!(
        registry.fetch_solana_updates(ClusterType::Devnet, &[], Some(3)),
        Err(CrossbarError::EmptyFeeds)
    );
    assert_eq!(
        registry.simulate_solana_feeds(ClusterType::Development, &[b, a, b]),
        Ok(format!(
            "https://cb/simulate/solana/development/{},{},{}",
            text(&b),
            text(&a),
            text(&b)
        ))
    );
    assert_eq!(
        registry.simulate_solana_feeds(ClusterType::Devnet, &[]),
        Err(CrossbarError::EmptyFeeds)
    );
    assert_eq!(
        registry.simulate_feeds(&["aa", "bb", "cc"]),
        Ok("https://cb/simulate/aa,bb,cc".to_string())
    );
    assert_eq!(registry.simulate_feeds(&["aa"]), Ok("https://cb/simulate/aa".to_string()));
    assert_eq!(registry.simulate_feeds(&[]), Err(CrossbarError::EmptyFeeds));
}

#[test]
fn only_a_status_from_200_to_299_is_a_success() {
    assert_eq!(CrossbarClient::check_status(200), Ok(()));
    assert_eq!(CrossbarClient::check_status(204), Ok(()));
    assert_eq!(CrossbarClient::check_status(299), Ok(()));
    assert_eq!(CrossbarClient::check_status(199), Err(CrossbarError::BadStatus(199)));
    assert_eq!(CrossbarClient::check_status(300), Err(CrossbarError::BadStatus(300)));
    assert_eq!(CrossbarClient::check_status(404), Err(CrossbarError::BadStatus(404)));
    assert_eq!(CrossbarClient::check_status(500), Err(CrossbarError::BadStatus(500)));
}
