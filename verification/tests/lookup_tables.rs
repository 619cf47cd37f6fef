use sb_on_demand_client::error::FetchError;
use sb_on_demand_client::lut::{
    derive_lookup_table_address, AddressLookupTable, InstructionError, LookupTableMeta, LookupTableStatus, ProgramState, SlotHashes, LOOKUP_TABLE_MAX_ADDRESSES,
    LOOKUP_TABLE_META_SIZE, MAX_ENTRIES,
};
use sb_on_demand_client::pubkey::Pubkey;

fn key(n: u8) -> Pubkey {
    Pubkey::new_from_array([n; 32])
}

fn table(meta: LookupTableMeta, count: u8) -> AddressLookupTable {
    AddressLookupTable { meta, addresses: (0..count).map(key).collect() }
}

#[test]
fn status_activated_for_the_sentinel_slot() {
    let history = SlotHashes::new(vec![100, 99, 98]).unwrap();
    let meta = LookupTableMeta::default();
    assert_eq!(meta.deactivation_slot, u64::MAX);
    assert_eq!(meta.status(100, &history), LookupTableStatus::Activated);
    assert!(meta.is_active(100, &history));
}

#[test]
fn status_deactivating_in_the_slot_of_deactivation() {
    let history = SlotHashes::new(vec![100, 99, 98]).unwrap();
    let mut meta = LookupTableMeta::default();
    meta.deactivation_slot = 100;
    assert_eq!(
        meta.status(100, &history),
        LookupTableStatus::Deactivating { remaining_blocks: MAX_ENTRIES + 1 }
    );
    assert_eq!(MAX_ENTRIES + 1, 513);
}

#[test]
fn status_deactivating_while_the_slot_is_in_the_history() {
    let history = SlotHashes::new(vec![100, 99, 98]).unwrap();
    let mut meta = LookupTableMeta::default();
    meta.deactivation_slot = 99;
    assert_eq!(
        meta.status(101, &history),
        LookupTableStatus::Deactivating { remaining_blocks: MAX_ENTRIES - 1 }
    );
    meta.deactivation_slot = 98;
    assert_eq!(
        meta.status(101, &history),
        LookupTableStatus::Deactivating { remaining_blocks: 510 }
    );
    meta.deactivation_slot = 100;
    assert_eq!(
        meta.status(101, &history),
        LookupTableStatus::Deactivating { remaining_blocks: 512 }
    );
    assert!(meta.is_active(101, &history));
}

#[test]
fn status_deactivated_once_the_slot_has_left_the_history() {
    let history = SlotHashes::new(vec![100, 99, 98]).unwrap();
    let mut meta = LookupTableMeta::default();
    meta.deactivation_slot = 97;
    assert_eq!(meta.status(101, &history), LookupTableStatus::Deactivated);
    assert!(!meta.is_active(101, &history));
    meta.deactivation_slot = 5000;
    assert_eq!(meta.status(101, &history), LookupTableStatus::Deactivated);
}

#[test]
fn slot_history_must_run_strictly_downwards() {
    assert!(SlotHashes::new(vec![]).is_some());
    assert!(SlotHashes::new(vec![7]).is_some());
    assert!(SlotHashes::new(vec![98, 99]).is_none());
    assert!(SlotHashes::new(vec![99, 99]).is_none());
    assert!(SlotHashes::new(vec![100, 98, 99]).is_none());
}

#[test]
fn slot_history_holds_at_most_the_maximum_number_of_entries() {
    let full: Vec<u64> = (0..MAX_ENTRIES as u64).rev().collect();
    let history = SlotHashes::new(full).unwrap();
    assert_eq!(history.len(), MAX_ENTRIES);
    assert_eq!(history.position(0), Some(MAX_ENTRIES - 1));
    let mut meta = LookupTableMeta::default();
    meta.deactivation_slot = 0;
    assert_eq!(
        meta.status(1000, &history),
        LookupTableStatus::Deactivating { remaining_blocks: 1 }
    );
    let over: Vec<u64> = (0..=MAX_ENTRIES as u64).rev().collect();
    assert!(SlotHashes::new(over).is_none());
}

#[test]
fn position_finds_every_slot_and_no_other() {
    let slots: Vec<u64> = vec![90, 80, 70, 55, 54, 53, 10, 3, 2];
    let history = SlotHashes::new(slots.clone()).unwrap();
    for (i, slot) in slots.iter().enumerate() {
        assert_eq!(history.position(*slot), Some(i));
    }
    for absent in [0u64, 1, 4, 9, 11, 56, 69, 71, 89, 91, u64::MAX] {
        assert_eq!(history.position(absent), None);
    }
    assert_eq!(history.slots(), &slots);
}

#[test]
fn addresses_of_the_current_slot_are_not_yet_visible() {
    let history = SlotHashes::new(vec![100, 99, 98]).unwrap();
    let mut meta = LookupTableMeta::default();
    meta.last_extended_slot = 100;
    meta.last_extended_slot_start_index = 3;
    let t = table(meta, 5);
    assert_eq!(t.get_active_addresses_len(100, &history).unwrap(), 3);
    assert_eq!(t.get_active_addresses_len(101, &history).unwrap(), 5);
    assert_eq!(t.get_active_addresses_len(u64::MAX, &history).unwrap(), 5);
    assert_eq!(t.lookup(100, &[0, 2], &history).unwrap(), vec![key(0), key(2)]);
    assert!(matches!(t.lookup(100, &[3], &history), Err(FetchError::InvalidIndex)));
    assert_eq!(t.lookup(101, &[3, 4, 0], &history).unwrap(), vec![key(3), key(4), key(0)]);
    assert!(matches!(t.lookup(101, &[5], &history), Err(FetchError::InvalidIndex)));
    assert_eq!(t.lookup(101, &[], &history).unwrap(), vec![]);
}

#[test]
fn a_deactivated_table_offers_nothing() {
    let history = SlotHashes::new(vec![100, 99, 98]).unwrap();
    let mut meta = LookupTableMeta::default();
    meta.deactivation_slot = 50;
    let t = table(meta, 5);
    assert!(matches!(t.get_active_addresses_len(101, &history), Err(FetchError::NotActive)));
    assert!(matches!(t.lookup(101, &[0], &history), Err(FetchError::NotActive)));
}

#[test]
fn an_index_beyond_the_stored_addresses_is_invalid() {
    let history = SlotHashes::new(vec![100]).unwrap();
    let mut meta = LookupTableMeta::default();
    meta.last_extended_slot = 100;
    meta.last_extended_slot_start_index = 9;
    let t = table(meta, 2);
    assert_eq!(t.get_active_addresses_len(100, &history).unwrap(), 9);
    assert_eq!(t.lookup(100, &[1], &history).unwrap(), vec![key(1)]);
    assert!(matches!(t.lookup(100, &[2], &history), Err(FetchError::InvalidIndex)));
}

fn bincode_meta(meta: &LookupTableMeta) -> Vec<u8> {
    let fields = (
        1u32,
        meta.deactivation_slot,
        meta.last_extended_slot,
        meta.last_extended_slot_start_index,
        meta.authority.map(|a| a.to_bytes()),
        meta._padding,
    );
    let mut bytes = bincode::serialize(&fields).unwrap();
    bytes.resize(LOOKUP_TABLE_META_SIZE, 0);
    bytes
}

#[test]
fn the_stored_form_is_that_of_bincode() {
    let mut meta = LookupTableMeta::new(key(9));
    meta.deactivation_slot = 0x0102_0304_0506_0708;
    meta.last_extended_slot = 77;
    meta.last_extended_slot_start_index = 2;
    let t = table(meta, 3);
    let stored = t.clone().serialize_for_tests().unwrap();
    assert_eq!(stored.len(), 56 + 3 * 32);
    assert_eq!(&stored[..56], &bincode_meta(&meta)[..]);
    assert_eq!(&stored[56..88], &[0u8; 32]);
    assert_eq!(&stored[88..120], &[1u8; 32]);
    assert_eq!(&stored[..4], &[1, 0, 0, 0]);
    assert_eq!(&stored[4..12], &[8, 7, 6, 5, 4, 3, 2, 1]);
    assert_eq!(stored[20], 2);
    assert_eq!(stored[21], 1);

    let without = table(LookupTableMeta::default(), 0);
    let stored = without.serialize_for_tests().unwrap();
    assert_eq!(stored, bincode_meta(&LookupTableMeta::default()));
    assert_eq!(stored[21], 0);
    assert_eq!(&stored[4..12], &[255u8; 8]);
}

#[test]
fn reading_gives_back_what_was_stored() {
    let mut meta = LookupTableMeta::new(key(200));
    meta.deactivation_slot = 12345;
    meta.last_extended_slot = 678;
    meta.last_extended_slot_start_index = 1;
    let t = table(meta, 4);
    let stored = t.clone().serialize_for_tests().unwrap();
    let back = AddressLookupTable::deserialize(&stored).unwrap();
    assert_eq!(back.addresses, t.addresses);
    assert_eq!(back.meta.deactivation_slot, 12345);
    assert_eq!(back.meta.last_extended_slot, 678);
    assert_eq!(back.meta.last_extended_slot_start_index, 1);
    assert_eq!(back.meta.authority, Some(key(200)));
    assert_eq!(back.meta._padding, 0);

    let fields: (u32, u64, u64, u8, Option<[u8; 32]>, u16) =
        bincode::deserialize(&stored).unwrap();
    assert_eq!(fields.1, back.meta.deactivation_slot);
    assert_eq!(fields.4, back.meta.authority.map(|a| a.to_bytes()));

    let none = table(LookupTableMeta::default(), 1).serialize_for_tests().unwrap();
    let back = AddressLookupTable::deserialize(&none).unwrap();
    assert_eq!(back.meta.authority, None);
    assert_eq!(back.meta.deactivation_slot, u64::MAX);
    assert_eq!(back.addresses, vec![key(0)]);
}

#[test]
fn reading_rejects_what_is_no_table() {
    let good = table(LookupTableMeta::new(key(1)), 2).serialize_for_tests().unwrap();
    assert!(AddressLookupTable::deserialize(&good).is_ok());
    assert_eq!(
        AddressLookupTable::deserialize(&[]).err(),
        Some(InstructionError::InvalidAccountData)
    );
    assert_eq!(
        AddressLookupTable::deserialize(&[0, 0, 0]).err(),
        Some(InstructionError::InvalidAccountData)
    );
    assert_eq!(
        AddressLookupTable::deserialize(&[0, 0, 0, 0]).err(),
        Some(InstructionError::UninitializedAccount)
    );
    let mut uninitialized = good.clone();
    uninitialized[0] = 0;
    assert_eq!(
        AddressLookupTable::deserialize(&uninitialized).err(),
        Some(InstructionError::UninitializedAccount)
    );
    let mut other_variant = good.clone();
    other_variant[0] = 2;
    assert_eq!(
        AddressLookupTable::deserialize(&other_variant).err(),
        Some(InstructionError::InvalidAccountData)
    );
    let mut bad_option = good.clone();
    bad_option[21] = 2;
    assert_eq!(
        AddressLookupTable::deserialize(&bad_option).err(),
        Some(InstructionError::InvalidAccountData)
    );
    assert_eq!(
        AddressLookupTable::deserialize(&good[..55]).err(),
        Some(InstructionError::InvalidAccountData)
    );
    assert_eq!(
        AddressLookupTable::deserialize(&good[..57]).err(),
        Some(InstructionError::InvalidAccountData)
    );
    assert_eq!(AddressLookupTable::deserialize(&good[..56]).unwrap().addresses, vec![]);
    assert_eq!(AddressLookupTable::deserialize(&good[..88]).unwrap().addresses, vec![key(0)]);
}

#[test]
fn overwriting_the_metadata_keeps_the_addresses() {
    let t = table(LookupTableMeta::new(key(1)), 2);
    let mut stored = t.serialize_for_tests().unwrap();
    let mut meta = LookupTableMeta::default();
    meta.deactivation_slot = 42;
    assert_eq!(AddressLookupTable::overwrite_meta_data(&mut stored, meta), Ok(()));
    assert_eq!(&stored[..56], &bincode_meta(&meta)[..]);
    assert_eq!(&stored[24..56], &[0u8; 32]);
    assert_eq!(&stored[56..88], &[0u8; 32]);
    assert_eq!(&stored[88..120], &[1u8; 32]);
    let mut short = vec![7u8; 55];
    assert_eq!(
        AddressLookupTable::overwrite_meta_data(&mut short, meta),
        Err(InstructionError::InvalidAccountData)
    );
    assert_eq!(short, vec![7u8; 55]);
}

#[test]
fn the_table_address_is_the_one_the_runtime_derives() {
    let authority = key(3);
    let program: solana_sdk::pubkey::Pubkey =
        "AddressLookupTab1e1111111111111111111111111".parse().unwrap();
    let expected = solana_sdk::pubkey::Pubkey::find_program_address(
        &[&[3u8; 32], &77u64.to_le_bytes()],
        &program,
    );
    let found = derive_lookup_table_address(&authority, 77).unwrap();
    assert_eq!(found.0.to_bytes(), expected.0.to_bytes());
    assert_eq!(found.1, expected.1);
    assert_ne!(found.0, authority);
}

#[test]
fn the_state_of_an_account_is_read_as_bincode_reads_it() {
    let mut with_authority = LookupTableMeta::new(key(9));
    with_authority.deactivation_slot = 77;
    with_authority.last_extended_slot_start_index = 5;
    let mut without = LookupTableMeta::default();
    without.last_extended_slot = 1 << 40;
    for meta in [with_authority, without] {
        let stored = table(meta, 1).serialize_for_tests().unwrap();
        for len in 0..=stored.len() {
            let data = &stored[..len];
            let theirs: Result<(u32, u64, u64, u8, Option<[u8; 32]>, u16), _> =
                bincode::deserialize(data);
            match ProgramState::deserialize(data) {
                Ok(ProgramState::LookupTable(read)) => {
                    let fields = theirs.unwrap();
                    assert_eq!(fields.0, 1);
                    assert_eq!(fields.1, read.deactivation_slot);
                    assert_eq!(fields.2, read.last_extended_slot);
                    assert_eq!(fields.3, read.last_extended_slot_start_index);
                    assert_eq!(fields.4, read.authority.map(|a| a.to_bytes()));
                    assert_eq!(fields.5, read._padding);
                    assert_eq!(read.deactivation_slot, meta.deactivation_slot);
                }
                Ok(ProgramState::Uninitialized) => panic!("the table is initialized"),
                Err(e) => {
                    assert_eq!(e, InstructionError::InvalidAccountData);
                    assert!(theirs.is_err(), "{}", len);
                }
            }
        }
    }
    assert!(matches!(ProgramState::deserialize(&[0, 0, 0, 0, 9]), Ok(ProgramState::Uninitialized)));
    assert!(matches!(
        ProgramState::deserialize(&[0, 1, 0, 0]),
        Err(InstructionError::InvalidAccountData)
    ));
    assert_eq!(LOOKUP_TABLE_MAX_ADDRESSES, 256);
}
