//! Address lookup tables: their stored form, their activation status relative to
//! the recent slot history, and the addresses that are usable at a given slot.

use crate::bytes::{le_bytes, le_value, push_all, push_le, read_u16, read_u32, read_u64};
use crate::bytes::{lemma_le_bytes_len, lemma_pow256_values};
use crate::error::FetchError;
use crate::pubkey::{keys_view, program_address, try_find_program_address, Pubkey};
use vstd::prelude::*;

verus! {

/// The maximum number of addresses that a lookup table can hold.
pub const LOOKUP_TABLE_MAX_ADDRESSES: usize = 256;

/// The size of the stored metadata, after which the addresses follow.
pub const LOOKUP_TABLE_META_SIZE: usize = 56;

/// The number of most recent slots that the slot history keeps.
pub const MAX_ENTRIES: usize = 512;

/// The address of the program that owns every lookup table.
pub const ADDRESS_LOOKUP_TABLE_PROGRAM_ID: [u8; 32] = [
    2, 119, 166, 175, 151, 51, 155, 122, 200, 141, 24, 146, 201, 4, 70, 245,
    0, 2, 48, 146, 102, 246, 46, 83, 193, 24, 36, 73, 130, 0, 0, 0,
];

/// Why a stored table could not be read or written.
#[derive(Clone, Copy, Debug, PartialEq, Eq, Structural)]
pub enum InstructionError {
    InvalidAccountData,
    UninitializedAccount,
    GenericError,
}

/// Activation status of a lookup table.
#[derive(Clone, Copy, Debug, PartialEq, Eq, Structural)]
pub enum LookupTableStatus {
    Activated,
    Deactivating { remaining_blocks: usize },
    Deactivated,
}

/// The recent slots, most recent first: strictly descending and at most
/// `MAX_ENTRIES` of them.
#[derive(Debug)]
pub struct SlotHashes {
    slots: Vec<u64>,
}

/// `slots` runs strictly downwards.
pub open spec fn strictly_descending(slots: Seq<u64>) -> bool {
    forall|i: int, j: int| 0 <= i < j < slots.len() ==> slots[i] > slots[j]
}

/// The index at which `slot` first stands in `history`.
pub open spec fn slot_position(history: Seq<u64>, slot: u64) -> Option<nat>
    decreases history.len(),
{
    if history.len() == 0 {
        None
    } else if history[0] == slot {
        Some(0)
    } else {
        match slot_position(history.drop_first(), slot) {
            Some(p) => Some(p + 1),
            None => None,
        }
    }
}

/// `slot_position` finds an index that holds the slot, the first such, and finds
/// one wherever the slot occurs.
pub proof fn lemma_slot_position(history: Seq<u64>, slot: u64)
    ensures
        match slot_position(history, slot) {
            Some(p) => p < history.len() && history[p as int] == slot && forall|j: int|
                0 <= j < p ==> history[j] != slot,
            None => forall|j: int| 0 <= j < history.len() ==> history[j] != slot,
        },
    decreases history.len(),
{
    if history.len() > 0 && history[0] != slot {
        let rest = history.drop_first();
        lemma_slot_position(rest, slot);
        match slot_position(rest, slot) {
            Some(p) => {
                assert forall|j: int| 0 <= j < p + 1 implies history[j] != slot by {
                    if j > 0 {
                        assert(rest[j - 1] == history[j]);
                    }
                }
            },
            None => {
                assert forall|j: int| 0 <= j < history.len() implies history[j] != slot by {
                    if j > 0 {
                        assert(rest[j - 1] == history[j]);
                    }
                }
            },
        }
    }
}

impl View for SlotHashes {
    type V = Seq<u64>;

    closed spec fn view(&self) -> Seq<u64> {
        self.slots@
    }
}

impl Clone for SlotHashes {
    fn clone(&self) -> (r: Self)
        ensures
            r@ == self@,
    {
        proof {
            use_type_invariant(self);
        }
        SlotHashes { slots: self.slots.clone() }
    }
}

impl SlotHashes {
    #[verifier::type_invariant]
    spec fn well_formed(self) -> bool {
        &&& self.slots@.len() <= MAX_ENTRIES
        &&& strictly_descending(self.slots@)
    }

    /// A history of the given slots, most recent first. There is none where they
    /// are more than `MAX_ENTRIES` or do not run strictly downwards.
    pub fn new(slots: Vec<u64>) -> (r: Option<Self>)
        ensures
            r is Some <==> slots@.len() <= MAX_ENTRIES && strictly_descending(slots@),
            r is Some ==> r->0@ == slots@,
    {
        if slots.len() > MAX_ENTRIES {
            return None;
        }
        let mut i: usize = 1;
        while i < slots.len()
            invariant
                1 <= i,
                slots@.len() <= MAX_ENTRIES,
                forall|a: int, b: int| 0 <= a < b < i && b < slots@.len() ==> slots[a] > slots[b],
            decreases slots@.len() - i,
        {
            if slots[i - 1] <= slots[i] {
                return None;
            }
            assert forall|a: int, b: int| 0 <= a < b < i + 1 && b < slots@.len() implies slots[a]
                > slots[b] by {
                if b == i && a < i - 1 {
                    assert(slots[a] > slots[i - 1]);
                }
            }
            i += 1;
        }
        Some(SlotHashes { slots })
    }

    /// The slots held, most recent first.
    pub fn slots(&self) -> (r: &Vec<u64>)
        ensures
            r@ == self@,
            r@.len() <= MAX_ENTRIES,
            strictly_descending(r@),
    {
        proof {
            use_type_invariant(self);
        }
        &self.slots
    }

    /// The number of slots held.
    pub fn len(&self) -> (r: usize)
        ensures
            r == self@.len(),
            r <= MAX_ENTRIES,
    {
        proof {
            use_type_invariant(self);
        }
        self.slots.len()
    }

    /// The index of `slot` in the history, 0 being the most recent slot.
    pub fn position(&self, slot: u64) -> (r: Option<usize>)
        ensures
            match r {
                Some(p) => slot_position(self@, slot) == Some(p as nat),
                None => slot_position(self@, slot) is None,
            },
    {
        proof {
            use_type_invariant(self);
        }
        let mut lo: usize = 0;
        let mut hi: usize = self.slots.len();
        while lo < hi
            invariant
                lo <= hi <= self.slots@.len(),
                strictly_descending(self.slots@),
                forall|j: int| 0 <= j < lo ==> self.slots[j] > slot,
                forall|j: int| hi <= j < self.slots@.len() ==> self.slots[j] < slot,
            decreases hi - lo,
        {
            let mid = lo + (hi - lo) / 2;
            let probe = self.slots[mid];
            if probe == slot {
                proof {
                    lemma_slot_position(self@, slot);
                    match slot_position(self@, slot) {
                        Some(p) => {
                            assert(self.slots@[p as int] == self.slots@[mid as int]);
                            assert(p == mid);
                        },
                        None => {
                            assert(self.slots@[mid as int] != slot);
                        },
                    }
                }
                return Some(mid);
            } else if probe > slot {
                lo = mid + 1;
            } else {
                hi = mid;
            }
        }
        proof {
            lemma_slot_position(self@, slot);
            match slot_position(self@, slot) {
                Some(p) => {
                    assert(self.slots@[p as int] == slot);
                    assert(false);
                },
                None => {},
            }
        }
        None
    }
}

/// Address lookup table metadata.
#[derive(Clone, Copy, Debug)]
pub struct LookupTableMeta {
    /// Lookup tables cannot be closed until the deactivation slot is no longer
    /// in the recent slot history.
    pub deactivation_slot: u64,
    /// The slot in which the table was last extended. Only addresses added
    /// before the current slot may be looked up.
    pub last_extended_slot: u64,
    /// The index from which the table was last extended during
    /// `last_extended_slot`.
    pub last_extended_slot_start_index: u8,
    /// The address that must sign each modification.
    pub authority: Option<Pubkey>,
    pub _padding: u16,
}

/// The status of a table that is deactivated at `deactivation_slot`, seen at
/// `current_slot` with the recent slots `history`.
pub open spec fn status_of(deactivation_slot: u64, current_slot: u64, history: Seq<u64>)
    -> LookupTableStatus {
    if deactivation_slot == u64::MAX {
        LookupTableStatus::Activated
    } else if deactivation_slot == current_slot {
        LookupTableStatus::Deactivating { remaining_blocks: 513 }
    } else {
        match slot_position(history, deactivation_slot) {
            Some(p) => LookupTableStatus::Deactivating {
                remaining_blocks: if p <= 512 {
                    (512 - p) as usize
                } else {
                    0
                },
            },
            None => LookupTableStatus::Deactivated,
        }
    }
}

impl Default for LookupTableMeta {
    fn default() -> (r: Self)
        ensures
            r.deactivation_slot == u64::MAX,
            r.last_extended_slot == 0,
            r.last_extended_slot_start_index == 0,
            r.authority is None,
            r._padding == 0,
    {
        LookupTableMeta {
            deactivation_slot: u64::MAX,
            last_extended_slot: 0,
            last_extended_slot_start_index: 0,
            authority: None,
            _padding: 0,
        }
    }
}

impl LookupTableMeta {
    /// The metadata of a fresh table under `authority`.
    pub fn new(authority: Pubkey) -> (r: Self)
        ensures
            r.deactivation_slot == u64::MAX,
            r.last_extended_slot == 0,
            r.last_extended_slot_start_index == 0,
            r.authority == Some(authority),
            r._padding == 0,
    {
        LookupTableMeta {
            deactivation_slot: u64::MAX,
            last_extended_slot: 0,
            last_extended_slot_start_index: 0,
            authority: Some(authority),
            _padding: 0,
        }
    }

    /// The status of the table at `current_slot`.
    pub open spec fn status_spec(&self, current_slot: u64, history: Seq<u64>) -> LookupTableStatus {
        status_of(self.deactivation_slot, current_slot, history)
    }

    /// Whether the table can be used for lookups at `current_slot`.
    pub open spec fn is_active_spec(&self, current_slot: u64, history: Seq<u64>) -> bool {
        self.status_spec(current_slot, history) != LookupTableStatus::Deactivated
    }

    /// Returns whether the table is considered active for address lookups.
    pub fn is_active(&self, current_slot: u64, slot_hashes: &SlotHashes) -> (r: bool)
        ensures
            r == self.is_active_spec(current_slot, slot_hashes@),
    {
        match self.status(current_slot, slot_hashes) {
            LookupTableStatus::Activated => true,
            LookupTableStatus::Deactivating { .. } => true,
            LookupTableStatus::Deactivated => false,
        }
    }

    /// Returns the current status of the lookup table.
    pub fn status(&self, current_slot: u64, slot_hashes: &SlotHashes) -> (r: LookupTableStatus)
        ensures
            r == self.status_spec(current_slot, slot_hashes@),
    {
        if self.deactivation_slot == u64::MAX {
            LookupTableStatus::Activated
        } else if self.deactivation_slot == current_slot {
            LookupTableStatus::Deactivating { remaining_blocks: MAX_ENTRIES.saturating_add(1) }
        } else {
            match slot_hashes.position(self.deactivation_slot) {
                // The cool-down lasts until the deactivation slot has left the
                // slot history, so that transactions in flight can still land.
                Some(p) => LookupTableStatus::Deactivating {
                    remaining_blocks: MAX_ENTRIES.saturating_sub(p),
                },
                None => LookupTableStatus::Deactivated,
            }
        }
    }
}

/// What a `LookupTableMeta` holds, the authority by its bytes.
pub struct LookupTableMetaView {
    pub deactivation_slot: u64,
    pub last_extended_slot: u64,
    pub last_extended_slot_start_index: u8,
    pub authority: Option<Seq<u8>>,
    pub padding: u16,
}

impl View for LookupTableMeta {
    type V = LookupTableMetaView;

    open spec fn view(&self) -> LookupTableMetaView {
        LookupTableMetaView {
            deactivation_slot: self.deactivation_slot,
            last_extended_slot: self.last_extended_slot,
            last_extended_slot_start_index: self.last_extended_slot_start_index,
            authority: match self.authority {
                Some(key) => Some(key@),
                None => None,
            },
            padding: self._padding,
        }
    }
}

/// A lookup table: its metadata and the addresses it holds, in order.
#[derive(Clone, Debug)]
pub struct AddressLookupTable {
    pub meta: LookupTableMeta,
    pub addresses: Vec<Pubkey>,
}

/// What an `AddressLookupTable` holds, each address by its bytes.
pub struct AddressLookupTableView {
    pub meta: LookupTableMetaView,
    pub addresses: Seq<Seq<u8>>,
}

impl View for AddressLookupTable {
    type V = AddressLookupTableView;

    open spec fn view(&self) -> AddressLookupTableView {
        AddressLookupTableView { meta: self.meta@, addresses: keys_view(self.addresses@) }
    }
}

/// `n` zero bytes.
pub open spec fn zeros(n: nat) -> Seq<u8> {
    Seq::new(n, |i: int| 0u8)
}

/// The fields of `meta` in their stored order, before the zero fill.
pub open spec fn meta_fields(meta: LookupTableMetaView) -> Seq<u8> {
    let head = le_bytes(1, 4) + le_bytes(meta.deactivation_slot as nat, 8) + le_bytes(
        meta.last_extended_slot as nat,
        8,
    ) + seq![meta.last_extended_slot_start_index];
    match meta.authority {
        Some(key) => head + seq![1u8] + key + le_bytes(meta.padding as nat, 2),
        None => head + seq![0u8] + le_bytes(meta.padding as nat, 2),
    }
}

/// The stored form of `meta`: its fields, zero-filled to `LOOKUP_TABLE_META_SIZE`
/// bytes.
pub open spec fn meta_bytes(meta: LookupTableMetaView) -> Seq<u8> {
    meta_fields(meta) + zeros((56 - meta_fields(meta).len()) as nat)
}

/// The bytes of all `keys`, one address after the other.
pub open spec fn concat_keys(keys: Seq<Seq<u8>>) -> Seq<u8>
    decreases keys.len(),
{
    if keys.len() == 0 {
        Seq::empty()
    } else {
        concat_keys(keys.drop_last()) + keys.last()
    }
}

/// The metadata that the stored form `data` begins with.
pub open spec fn parse_meta(data: Seq<u8>) -> Result<LookupTableMetaView, InstructionError> {
    if data.len() < 4 {
        Err(InstructionError::InvalidAccountData)
    } else if le_value(data.subrange(0, 4)) == 0 {
        Err(InstructionError::UninitializedAccount)
    } else if le_value(data.subrange(0, 4)) != 1 || data.len() < 22 {
        Err(InstructionError::InvalidAccountData)
    } else if data[21] == 0 && data.len() >= 24 {
        Ok(
            LookupTableMetaView {
                deactivation_slot: le_value(data.subrange(4, 12)) as u64,
                last_extended_slot: le_value(data.subrange(12, 20)) as u64,
                last_extended_slot_start_index: data[20],
                authority: None,
                padding: le_value(data.subrange(22, 24)) as u16,
            },
        )
    } else if data[21] == 1 && data.len() >= 56 {
        Ok(
            LookupTableMetaView {
                deactivation_slot: le_value(data.subrange(4, 12)) as u64,
                last_extended_slot: le_value(data.subrange(12, 20)) as u64,
                last_extended_slot_start_index: data[20],
                authority: Some(data.subrange(22, 54)),
                padding: le_value(data.subrange(54, 56)) as u16,
            },
        )
    } else {
        Err(InstructionError::InvalidAccountData)
    }
}

/// The table that the stored form `data` holds: metadata in the first
/// `LOOKUP_TABLE_META_SIZE` bytes, then addresses of 32 bytes each.
pub open spec fn parse_table(data: Seq<u8>) -> Result<AddressLookupTableView, InstructionError> {
    match parse_meta(data) {
        Err(e) => Err(e),
        Ok(meta) => if data.len() < 56 || (data.len() - 56) % 32 != 0 {
            Err(InstructionError::InvalidAccountData)
        } else {
            Ok(
                AddressLookupTableView {
                    meta,
                    addresses: Seq::new(
                        ((data.len() - 56) / 32) as nat,
                        |i: int| data.subrange(56 + 32 * i, 88 + 32 * i),
                    ),
                },
            )
        },
    }
}

/// What the account of a lookup table holds.
#[derive(Clone, Copy, Debug)]
pub enum ProgramState {
    /// The account is not initialized.
    Uninitialized,
    /// The account is an initialized lookup table.
    LookupTable(LookupTableMeta),
}

impl ProgramState {
    /// Reads the state that the stored form `data` begins with: four bytes
    /// that tell an account that is not initialized (0) from a lookup table
    /// (1), and behind them the metadata of the table. Whatever follows is
    /// not looked at.
    pub fn deserialize(data: &[u8]) -> (r: Result<ProgramState, InstructionError>)
        ensures
            match r {
                Ok(ProgramState::Uninitialized) => parse_meta(data@) == Err::<
                    LookupTableMetaView,
                    InstructionError,
                >(InstructionError::UninitializedAccount),
                Ok(ProgramState::LookupTable(meta)) => parse_meta(data@) == Ok::<
                    LookupTableMetaView,
                    InstructionError,
                >(meta@),
                Err(e) => e == InstructionError::InvalidAccountData && parse_meta(data@) == Err::<
                    LookupTableMetaView,
                    InstructionError,
                >(e),
            },
    {
        if data.len() < 4 {
            return Err(InstructionError::InvalidAccountData);
        }
        let tag = read_u32(data, 0);
        if tag == 0 {
            return Ok(ProgramState::Uninitialized);
        }
        if tag != 1 || data.len() < 22 {
            return Err(InstructionError::InvalidAccountData);
        }
        let deactivation_slot = read_u64(data, 4);
        let last_extended_slot = read_u64(data, 12);
        let last_extended_slot_start_index = data[20];
        let option_tag = data[21];
        if option_tag == 0 && data.len() >= 24 {
            let _padding = read_u16(data, 22);
            Ok(
                ProgramState::LookupTable(
                    LookupTableMeta {
                        deactivation_slot,
                        last_extended_slot,
                        last_extended_slot_start_index,
                        authority: None,
                        _padding,
                    },
                ),
            )
        } else if option_tag == 1 && data.len() >= 56 {
            let authority = Pubkey::read(data, 22);
            let _padding = read_u16(data, 54);
            Ok(
                ProgramState::LookupTable(
                    LookupTableMeta {
                        deactivation_slot,
                        last_extended_slot,
                        last_extended_slot_start_index,
                        authority: Some(authority),
                        _padding,
                    },
                ),
            )
        } else {
            Err(InstructionError::InvalidAccountData)
        }
    }
}

/// Writes the stored form of `meta`.
fn write_meta(meta: &LookupTableMeta) -> (r: Vec<u8>)
    ensures
        r@ == meta_bytes(meta@),
        r@.len() == 56,
{
    let mut out: Vec<u8> = Vec::new();
    push_le(&mut out, 1, 4);
    push_le(&mut out, meta.deactivation_slot as u128, 8);
    push_le(&mut out, meta.last_extended_slot as u128, 8);
    out.push(meta.last_extended_slot_start_index);
    match meta.authority {
        Some(key) => {
            out.push(1);
            push_all(&mut out, &key.bytes);
        },
        None => {
            out.push(0);
        },
    }
    push_le(&mut out, meta._padding as u128, 2);
    proof {
        lemma_le_bytes_len(1, 4);
        lemma_le_bytes_len(meta.deactivation_slot as nat, 8);
        lemma_le_bytes_len(meta.last_extended_slot as nat, 8);
        lemma_le_bytes_len(meta._padding as nat, 2);
        assert(out@ =~= meta_fields(meta@));
    }
    let ghost fields = out@;
    while out.len() < LOOKUP_TABLE_META_SIZE
        invariant
            fields.len() <= out@.len() <= 56,
            out@ == fields + zeros((out@.len() - fields.len()) as nat),
        decreases 56 - out@.len(),
    {
        out.push(0);
        assert(out@ =~= fields + zeros((out@.len() - fields.len()) as nat));
    }
    out
}

impl AddressLookupTable {
    /// The number of addresses that lookups at `current_slot` may use, whatever
    /// the status of the table: all of them once the slot of the last extension
    /// has passed, else those that stood before that extension.
    pub open spec fn active_len_spec(&self, current_slot: u64) -> nat {
        if current_slot > self.meta.last_extended_slot {
            self.addresses@.len()
        } else {
            self.meta.last_extended_slot_start_index as nat
        }
    }

    /// Writes the stored form of `lookup_table_meta` over the first
    /// `LOOKUP_TABLE_META_SIZE` bytes of `data`, zeroing what the fields leave over.
    pub fn overwrite_meta_data(data: &mut Vec<u8>, lookup_table_meta: LookupTableMeta) -> (r: Result<
        (),
        InstructionError,
    >)
        ensures
            old(data)@.len() < 56 ==> r == Err::<(), InstructionError>(
                InstructionError::InvalidAccountData,
            ) && final(data)@ == old(data)@,
            old(data)@.len() >= 56 ==> r is Ok && final(data)@ == meta_bytes(lookup_table_meta@)
                + old(data)@.subrange(56, old(data)@.len() as int),
    {
        if data.len() < LOOKUP_TABLE_META_SIZE {
            return Err(InstructionError::InvalidAccountData);
        }
        let stored = write_meta(&lookup_table_meta);
        let mut i: usize = 0;
        while i < LOOKUP_TABLE_META_SIZE
            invariant
                i <= 56,
                stored@.len() == 56,
                data@.len() == old(data)@.len() >= 56,
                forall|j: int| 0 <= j < i ==> data@[j] == stored@[j],
                forall|j: int| i <= j < data@.len() ==> data@[j] == old(data)@[j],
            decreases 56 - i,
        {
            data.set(i, stored[i]);
            i += 1;
        }
        assert(data@ =~= stored@ + old(data)@.subrange(56, old(data)@.len() as int));
        Ok(())
    }

    /// Returns the number of addresses that lookups at `current_slot` may use.
    /// A table that is deactivated has none to offer and gives `NotActive`.
    pub fn get_active_addresses_len(&self, current_slot: u64, slot_hashes: &SlotHashes) -> (r:
        Result<usize, FetchError>)
        ensures
            match r {
                Ok(n) => self.meta.is_active_spec(current_slot, slot_hashes@) && n
                    == self.active_len_spec(current_slot),
                Err(e) => !self.meta.is_active_spec(current_slot, slot_hashes@) && e is NotActive,
            },
    {
        if !self.meta.is_active(current_slot, slot_hashes) {
            // A table that is no longer active can be closed at any point.
            return Err(FetchError::NotActive);
        }
        // Addresses added in the slot in which they are looked up are not yet
        // visible.
        let active_addresses_len = if current_slot > self.meta.last_extended_slot {
            self.addresses.len()
        } else {
            self.meta.last_extended_slot_start_index as usize
        };
        Ok(active_addresses_len)
    }

    /// Whether every index of `indexes` names an address that is active at
    /// `current_slot`.
    pub open spec fn indexes_in_range(&self, current_slot: u64, indexes: Seq<u8>) -> bool {
        forall|i: int|
            0 <= i < indexes.len() ==> indexes[i] < self.active_len_spec(current_slot)
                && indexes[i] < self.addresses@.len()
    }

    /// Looks up the addresses at `indexes`, in their order.
    pub fn lookup(&self, current_slot: u64, indexes: &[u8], slot_hashes: &SlotHashes) -> (r: Result<
        Vec<Pubkey>,
        FetchError,
    >)
        ensures
            match r {
                Ok(found) => {
                    &&& self.meta.is_active_spec(current_slot, slot_hashes@)
                    &&& self.indexes_in_range(current_slot, indexes@)
                    &&& found@.len() == indexes@.len()
                    &&& forall|i: int|
                        0 <= i < indexes@.len() ==> found@[i] == self.addresses@[indexes@[i] as int]
                },
                Err(FetchError::NotActive) => !self.meta.is_active_spec(
                    current_slot,
                    slot_hashes@,
                ),
                Err(FetchError::InvalidIndex) => self.meta.is_active_spec(
                    current_slot,
                    slot_hashes@,
                ) && !self.indexes_in_range(current_slot, indexes@),
                Err(_) => false,
            },
    {
        let active_addresses_len = match self.get_active_addresses_len(current_slot, slot_hashes) {
            Ok(n) => n,
            Err(e) => {
                return Err(e);
            },
        };
        let mut found: Vec<Pubkey> = Vec::new();
        let mut i: usize = 0;
        while i < indexes.len()
            invariant
                i <= indexes@.len(),
                self.meta.is_active_spec(current_slot, slot_hashes@),
                active_addresses_len == self.active_len_spec(current_slot),
                found@.len() == i,
                forall|j: int|
                    0 <= j < i ==> (#[trigger] indexes@[j]) < active_addresses_len && indexes@[j]
                        < self.addresses@.len() && found@[j] == self.addresses@[indexes@[j] as int],
            decreases indexes@.len() - i,
        {
            let index = indexes[i] as usize;
            if index >= active_addresses_len || index >= self.addresses.len() {
                assert(!(indexes@[i as int] < self.active_len_spec(current_slot)
                    && indexes@[i as int] < self.addresses@.len()));
                return Err(FetchError::InvalidIndex);
            }
            found.push(self.addresses[index]);
            i += 1;
        }
        Ok(found)
    }

    /// The stored form of the table: the metadata, then every address.
    pub fn serialize_for_tests(self) -> (r: Result<Vec<u8>, InstructionError>)
        ensures
            r is Ok,
            r->Ok_0@ == meta_bytes(self.meta@) + concat_keys(keys_view(self.addresses@)),
    {
        let mut data = write_meta(&self.meta);
        let mut i: usize = 0;
        assert(keys_view(self.addresses@).subrange(0, 0) =~= Seq::<Seq<u8>>::empty());
        assert(data@ =~= meta_bytes(self.meta@) + concat_keys(
            keys_view(self.addresses@).subrange(0, 0),
        ));
        while i < self.addresses.len()
            invariant
                i <= self.addresses@.len(),
                data@ == meta_bytes(self.meta@) + concat_keys(
                    keys_view(self.addresses@).subrange(0, i as int),
                ),
            decreases self.addresses@.len() - i,
        {
            push_all(&mut data, &self.addresses[i].bytes);
            proof {
                let keys = keys_view(self.addresses@);
                assert(keys.subrange(0, i + 1).drop_last() =~= keys.subrange(0, i as int));
                assert(keys.subrange(0, i + 1).last() == self.addresses@[i as int]@);
                assert(data@ =~= meta_bytes(self.meta@) + concat_keys(keys.subrange(0, i + 1)));
            }
            i += 1;
        }
        assert(keys_view(self.addresses@).subrange(0, i as int) =~= keys_view(self.addresses@));
        Ok(data)
    }

    /// Reads a table from its stored form.
    pub fn deserialize(data: &[u8]) -> (r: Result<AddressLookupTable, InstructionError>)
        ensures
            match r {
                Ok(table) => parse_table(data@) == Ok::<AddressLookupTableView, InstructionError>(
                    table@,
                ),
                Err(e) => parse_table(data@) == Err::<AddressLookupTableView, InstructionError>(e),
            },
    {
        let meta = match ProgramState::deserialize(data) {
            Ok(ProgramState::LookupTable(meta)) => meta,
            Ok(ProgramState::Uninitialized) => {
                return Err(InstructionError::UninitializedAccount);
            },
            Err(e) => {
                return Err(e);
            },
        };
        if data.len() < LOOKUP_TABLE_META_SIZE {
            return Err(InstructionError::InvalidAccountData);
        }
        let raw_len = data.len() - LOOKUP_TABLE_META_SIZE;
        if raw_len % 32 != 0 {
            return Err(InstructionError::InvalidAccountData);
        }
        let count = raw_len / 32;
        let len = data.len();
        let mut addresses: Vec<Pubkey> = Vec::new();
        let mut i: usize = 0;
        while i < count
            invariant
                i <= count,
                len == data@.len() == 56 + 32 * count,
                addresses@.len() == i,
                forall|j: int|
                    0 <= j < i ==> addresses@[j]@ == data@.subrange(56 + 32 * j, 88 + 32 * j),
            decreases count - i,
        {
            addresses.push(Pubkey::read(data, LOOKUP_TABLE_META_SIZE + 32 * i));
            i += 1;
        }
        let table = AddressLookupTable { meta, addresses };
        proof {
            assert(table@.addresses =~= parse_table(data@)->Ok_0.addresses);
        }
        Ok(table)
    }
}

/// The bytes of `keys`, each of 32 bytes, take 32 bytes for each key, and each
/// key stands at its place.
pub proof fn lemma_concat_keys(keys: Seq<Seq<u8>>)
    requires
        forall|i: int| 0 <= i < keys.len() ==> (#[trigger] keys[i]).len() == 32,
    ensures
        concat_keys(keys).len() == 32 * keys.len(),
        forall|i: int|
            0 <= i < keys.len() ==> concat_keys(keys).subrange(32 * i, 32 * i + 32)
                == #[trigger] keys[i],
    decreases keys.len(),
{
    if keys.len() > 0 {
        let front = keys.drop_last();
        assert forall|i: int| 0 <= i < front.len() implies (#[trigger] front[i]).len() == 32 by {
            assert(front[i] == keys[i]);
        }
        lemma_concat_keys(front);
        let all = concat_keys(keys);
        assert(all == concat_keys(front) + keys.last());
        assert(keys[keys.len() - 1].len() == 32);
        assert forall|i: int| 0 <= i < keys.len() implies all.subrange(32 * i, 32 * i + 32)
            == #[trigger] keys[i] by {
            if i < keys.len() - 1 {
                assert(all.subrange(32 * i, 32 * i + 32) =~= concat_keys(front).subrange(
                    32 * i,
                    32 * i + 32,
                ));
                assert(front[i] == keys[i]);
            } else {
                assert(all.subrange(32 * i, 32 * i + 32) =~= keys.last());
            }
        }
    }
}

/// Reading the stored form of a table gives back the table.
pub proof fn lemma_table_round_trip(table: AddressLookupTableView)
    requires
        forall|i: int| 0 <= i < table.addresses.len() ==> (#[trigger] table.addresses[i]).len() == 32,
        table.meta.authority is Some ==> table.meta.authority->0.len() == 32,
    ensures
        parse_table(meta_bytes(table.meta) + concat_keys(table.addresses)) == Ok::<
            AddressLookupTableView,
            InstructionError,
        >(table),
{
    let meta = table.meta;
    let stored = meta_bytes(meta);
    let data = stored + concat_keys(table.addresses);
    lemma_concat_keys(table.addresses);
    lemma_le_bytes_len(1, 4);
    lemma_le_bytes_len(meta.deactivation_slot as nat, 8);
    lemma_le_bytes_len(meta.last_extended_slot as nat, 8);
    lemma_le_bytes_len(meta.padding as nat, 2);
    lemma_pow256_values();
    crate::bytes::lemma_le_round_trip(1, 4);
    crate::bytes::lemma_le_round_trip(meta.deactivation_slot as nat, 8);
    crate::bytes::lemma_le_round_trip(meta.last_extended_slot as nat, 8);
    crate::bytes::lemma_le_round_trip(meta.padding as nat, 2);
    assert(stored.len() == 56);
    assert(data.subrange(0, 4) =~= le_bytes(1, 4));
    assert(data.subrange(4, 12) =~= le_bytes(meta.deactivation_slot as nat, 8));
    assert(data.subrange(12, 20) =~= le_bytes(meta.last_extended_slot as nat, 8));
    assert(data[20] == meta.last_extended_slot_start_index);
    match meta.authority {
        Some(key) => {
            assert(data[21] == 1);
            assert(data.subrange(22, 54) =~= key);
            assert(data.subrange(54, 56) =~= le_bytes(meta.padding as nat, 2));
        },
        None => {
            assert(data[21] == 0);
            assert(data.subrange(22, 24) =~= le_bytes(meta.padding as nat, 2));
        },
    }
    let read = parse_meta(data);
    assert(read is Ok);
    assert(read->Ok_0.authority == meta.authority);
    assert(read->Ok_0 == meta);
    let count = table.addresses.len();
    assert(data.len() == 56 + 32 * count);
    let addresses = Seq::new(
        ((data.len() - 56) / 32) as nat,
        |i: int| data.subrange(56 + 32 * i, 88 + 32 * i),
    );
    assert forall|i: int| 0 <= i < count implies addresses[i] == table.addresses[i] by {
        assert(data.subrange(56 + 32 * i, 88 + 32 * i) =~= concat_keys(table.addresses).subrange(
            32 * i,
            32 * i + 32,
        ));
    }
    assert(addresses =~= table.addresses);
}

/// What `deserialize` reads from what `serialize_for_tests` wrote is the
/// table that was written.
pub proof fn lemma_stored_table_reads_back(table: AddressLookupTable)
    ensures
        parse_table(meta_bytes(table.meta@) + concat_keys(keys_view(table.addresses@))) == Ok::<
            AddressLookupTableView,
            InstructionError,
        >(table@),
{
    lemma_table_round_trip(table@);
}

/// While the slot of its deactivation stands in the slot history, a table is
/// deactivating, and the blocks that remain are as many as the history can
/// still hold behind that slot: at least one, and one fewer with every slot
/// that the history takes in. Once the slot has left the history, the table
/// is deactivated.
pub proof fn lemma_cool_down(deactivation_slot: u64, current_slot: u64, history: Seq<u64>)
    requires
        deactivation_slot != u64::MAX,
        deactivation_slot != current_slot,
        history.len() <= MAX_ENTRIES,
    ensures
        match slot_position(history, deactivation_slot) {
            Some(p) => status_of(deactivation_slot, current_slot, history)
                == (LookupTableStatus::Deactivating { remaining_blocks: (512 - p) as usize })
                && 1 <= 512 - p <= 512,
            None => status_of(deactivation_slot, current_slot, history)
                == LookupTableStatus::Deactivated,
        },
{
    lemma_slot_position(history, deactivation_slot);
}

/// A table that was last extended in slot `extended` shows, while the current
/// slot is `extended`, exactly the addresses that stood before that extension,
/// and in every later slot all its addresses.
pub proof fn lemma_same_slot_extension(table: AddressLookupTable, extended: u64, later: u64)
    requires
        table.meta.last_extended_slot == extended,
        later > extended,
    ensures
        table.active_len_spec(extended) == table.meta.last_extended_slot_start_index,
        table.active_len_spec(later) == table.addresses@.len(),
{
}

/// Derives the address of a lookup table from the address of its authority and
/// a recent slot, with the bump seed that the derivation settled on.
pub fn derive_lookup_table_address(authority_address: &Pubkey, recent_block_slot: u64) -> (r: Option<
    (Pubkey, u8),
>)
    ensures
        match r {
            Some(found) => program_address(
                seq![authority_address@, le_bytes(recent_block_slot as nat, 8)],
                ADDRESS_LOOKUP_TABLE_PROGRAM_ID@,
            ) == Some((found.0@, found.1)),
            None => program_address(
                seq![authority_address@, le_bytes(recent_block_slot as nat, 8)],
                ADDRESS_LOOKUP_TABLE_PROGRAM_ID@,
            ) is None,
        },
{
    let mut slot_bytes: Vec<u8> = Vec::new();
    push_le(&mut slot_bytes, recent_block_slot as u128, 8);
    let mut seeds: Vec<Vec<u8>> = Vec::new();
    seeds.push(authority_address.to_vec());
    seeds.push(slot_bytes);
    let program = Pubkey { bytes: ADDRESS_LOOKUP_TABLE_PROGRAM_ID };
    proof {
        assert(crate::pubkey::seeds_view(seeds@) =~= seq![
            authority_address@,
            le_bytes(recent_block_slot as nat, 8),
        ]);
    }
    try_find_program_address(&seeds, &program)
}

} // verus!
