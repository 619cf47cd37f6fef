use sb_on_demand_client::instructions::{
    AccountMeta, MultiSubmission, PullFeedSubmitResponse, PullFeedSubmitResponseMany,
    PullFeedSubmitResponseManyParams, PullFeedSubmitResponseParams, Submission, NO_DATA,
    PULL_FEED_SUBMIT_RESPONSE_DISCRIMINATOR, PULL_FEED_SUBMIT_RESPONSE_MANY_DISCRIMINATOR,
};
use sb_on_demand_client::pubkey::Pubkey;

fn key(n: u8) -> Pubkey {
    Pubkey::new_from_array([n; 32])
}

fn discriminator(name: &str) -> Vec<u8> {
    let hash = solana_sdk::hash::hashv(&[b"global:", name.as_bytes()]);
    hash.to_bytes()[..8].to_vec()
}

#[test]
fn the_discriminators_are_the_hashes_of_the_instruction_names() {
    assert_eq!(
        PULL_FEED_SUBMIT_RESPONSE_DISCRIMINATOR.to_vec(),
        discriminator("pull_feed_submit_response")
    );
    assert_eq!(
        PULL_FEED_SUBMIT_RESPONSE_MANY_DISCRIMINATOR.to_vec(),
        discriminator("pull_feed_submit_response_many")
    );
}

#[test]
fn no_data_is_the_largest_value() {
    assert_eq!(NO_DATA, i128::MAX);
    assert_ne!(NO_DATA, 0);
}

#[test]
fn account_metas_say_who_signs_and_what_is_written() {
    let w = AccountMeta::new(key(1), true);
    assert!(w.is_writable && w.is_signer && w.pubkey == key(1));
    let r = AccountMeta::new_readonly(key(2), false);
    assert!(!r.is_writable && !r.is_signer && r.pubkey == key(2));
    assert!(w == AccountMeta { pubkey: key(1), is_signer: true, is_writable: true });
    assert!(w != r);
}

#[test]
fn the_accounts_of_a_submission_for_one_feed() {
    let accounts = PullFeedSubmitResponse {
        feed: key(1),
        queue: key(2),
        program_state: key(3),
        recent_slothashes: key(4),
        payer: key(5),
        system_program: key(6),
        reward_vault: key(7),
        token_program: key(8),
        token_mint: key(9),
    };
    let metas = accounts.to_account_metas(None);
    assert_eq!(
        metas,
        vec![
            AccountMeta::new(key(1), false),
            AccountMeta::new_readonly(key(2), false),
            AccountMeta::new_readonly(key(3), false),
            AccountMeta::new_readonly(key(4), false),
            AccountMeta::new(key(5), true),
            AccountMeta::new_readonly(key(6), false),
            AccountMeta::new(key(7), false),
            AccountMeta::new_readonly(key(8), false),
            AccountMeta::new_readonly(key(9), false),
        ]
    );
    assert_eq!(accounts.to_account_metas(Some(true)), metas);
}

#[test]
fn the_accounts_of_a_submission_for_many_feeds() {
    let accounts = PullFeedSubmitResponseMany {
        queue: key(2),
        program_state: key(3),
        recent_slothashes: key(4),
        payer: key(5),
        system_program: key(6),
        reward_vault: key(7),
        token_program: key(8),
        token_mint: key(9),
    };
    assert_eq!(
        accounts.to_account_metas(None),
        vec![
            AccountMeta::new_readonly(key(2), false),
            AccountMeta::new_readonly(key(3), false),
            AccountMeta::new_readonly(key(4), false),
            AccountMeta::new(key(5), true),
            AccountMeta::new_readonly(key(6), false),
            AccountMeta::new(key(7), false),
            AccountMeta::new_readonly(key(8), false),
            AccountMeta::new_readonly(key(9), false),
        ]
    );
}

#[test]
fn the_parameters_for_one_feed_are_written_as_borsh_writes_them() {
    let params = PullFeedSubmitResponseParams {
        slot: 0x0102_0304_0506_0708,
        submissions: vec![
            Submission { value: 1, signature: [9; 64], recovery_id: 1, offset: 0 },
            Submission { value: -2, signature: [8; 64], recovery_id: 0, offset: 3 },
            Submission { value: NO_DATA, signature: [0; 64], recovery_id: 27, offset: 0 },
            Submission { value: i128::MIN, signature: [1; 64], recovery_id: 255, offset: 255 },
        ],
    };
    let tuples: Vec<(i128, [u8; 64], u8, u8)> = params
        .submissions
        .iter()
        .map(|s| (s.value, s.signature, s.recovery_id, s.offset))
        .collect();
    let expected = borsh::to_vec(&(params.slot, tuples)).unwrap();
    assert_eq!(params.to_vec(), expected);
    assert_eq!(&expected[..8], &[8, 7, 6, 5, 4, 3, 2, 1]);
    assert_eq!(&expected[8..12], &[4, 0, 0, 0]);
    assert_eq!(expected.len(), 12 + 4 * 82);
    let data = params.data();
    assert_eq!(&data[..8], &[150, 22, 215, 166, 143, 93, 48, 137]);
    assert_eq!(&data[8..], &expected[..]);
}

#[test]
fn the_parameters_for_no_submission() {
    let params = PullFeedSubmitResponseParams { slot: 5, submissions: vec![] };
    assert_eq!(params.to_vec(), vec![5, 0, 0, 0, 0, 0, 0, 0, 0, 0, 0, 0]);
    let many = PullFeedSubmitResponseManyParams { slot: 5, submissions: vec![] };
    assert_eq!(many.to_vec(), vec![5, 0, 0, 0, 0, 0, 0, 0, 0, 0, 0, 0]);
}

#[test]
fn the_parameters_for_many_feeds_are_written_as_borsh_writes_them() {
    let params = PullFeedSubmitResponseManyParams {
        slot: 987_654_321,
        submissions: vec![
            MultiSubmission {
                values: vec![1_000_000_000_000_000_000, NO_DATA, -5],
                signature: [7; 64],
                recovery_id: 1,
            },
            MultiSubmission { values: vec![], signature: [6; 64], recovery_id: 0 },
            MultiSubmission { values: vec![i128::MIN, 0], signature: [5; 64], recovery_id: 28 },
        ],
    };
    let tuples: Vec<(Vec<i128>, [u8; 64], u8)> = params
        .submissions
        .iter()
        .map(|s| (s.values.clone(), s.signature, s.recovery_id))
        .collect();
    let expected = borsh::to_vec(&(params.slot, tuples)).unwrap();
    assert_eq!(params.to_vec(), expected);
    let data = params.data();
    assert_eq!(&data[..8], &[47, 156, 45, 25, 200, 71, 37, 215]);
    assert_eq!(&data[8..], &expected[..]);
    assert_eq!(data.len(), 8 + 8 + 4 + (4 + 48 + 65) + (4 + 65) + (4 + 32 + 65));
}

#[test]
fn an_absent_value_is_written_as_the_largest_value_and_not_as_zero() {
    let params = PullFeedSubmitResponseParams {
        slot: 0,
        submissions: vec![Submission {
            value: NO_DATA,
            signature: [0; 64],
            recovery_id: 0,
            offset: 0,
        }],
    };
    let bytes = params.to_vec();
    let mut expected = [255u8; 16];
    expected[15] = 127;
    assert_eq!(&bytes[12..28], &expected);
    assert_ne!(&bytes[12..28], &[0u8; 16]);
}
