//! Accounts that own a lookup table, and the resolution of their tables.

use crate::accounts::payload_of;
use crate::bytes::le_bytes;
use crate::cache::{abandoned, all_ready, begun, claimed, ready_value, stored, views};
use crate::cache::{Entry, ResourceCache};
use crate::error::FetchError;
use crate::lut::{derive_lookup_table_address, parse_table, AddressLookupTable};
use crate::lut::ADDRESS_LOOKUP_TABLE_PROGRAM_ID;
use crate::program::{find_lut_signer, lut_signer_address};
use crate::pubkey::{copy_keys, derived_address, keys_view, Pubkey};
use vstd::prelude::*;

verus! {

/// An account schema that stores the slot from which the address of the
/// account's lookup table is derived.
pub trait LutOwner: Sized {
    /// The slot that the stored form `data` of an account of this schema holds,
    /// or `None` where `data` is no account of this schema.
    spec fn stored_lut_slot(data: Seq<u8>) -> Option<u64>;

    /// The slot that the account holds.
    spec fn lut_slot_spec(&self) -> u64;

    /// The slot from which the address of the lookup table is derived.
    fn lut_slot(&self) -> (r: u64)
        ensures
            r == self.lut_slot_spec(),
    ;

    /// Reads an account of this schema from its stored form.
    fn from_account_data(data: &[u8]) -> (r: Option<Self>)
        ensures
            match r {
                Some(account) => Self::stored_lut_slot(data@) == Some(account.lut_slot_spec()),
                None => Self::stored_lut_slot(data@) is None,
            },
    ;
}

/// A lookup table as a transaction names it: its address and the addresses it
/// holds.
#[derive(Debug)]
pub struct AddressLookupTableAccount {
    pub key: Pubkey,
    pub addresses: Vec<Pubkey>,
}

/// What an `AddressLookupTableAccount` holds, each address by its bytes.
pub struct AddressLookupTableAccountView {
    pub key: Seq<u8>,
    pub addresses: Seq<Seq<u8>>,
}

impl View for AddressLookupTableAccount {
    type V = AddressLookupTableAccountView;

    open spec fn view(&self) -> AddressLookupTableAccountView {
        AddressLookupTableAccountView { key: self.key@, addresses: keys_view(self.addresses@) }
    }
}

impl Clone for AddressLookupTableAccount {
    fn clone(&self) -> (r: Self)
        ensures
            r.key == self.key,
            r.addresses@ == self.addresses@,
            r@ == self@,
    {
        let mut addresses: Vec<Pubkey> = Vec::new();
        let mut i: usize = 0;
        while i < self.addresses.len()
            invariant
                i <= self.addresses@.len(),
                addresses@ == self.addresses@.subrange(0, i as int),
            decreases self.addresses@.len() - i,
        {
            addresses.push(self.addresses[i]);
            assert(addresses@ =~= self.addresses@.subrange(0, i + 1));
            i += 1;
        }
        assert(addresses@ =~= self.addresses@);
        AddressLookupTableAccount { key: self.key, addresses }
    }
}

/// The address of the lookup table of the account `owner`, whose data are
/// `account` and follow the schema `T`: derived from the address that signs
/// for the tables of `owner` and from the slot that the account stores.
pub open spec fn table_address<T: LutOwner>(owner: Seq<u8>, account: Option<Seq<u8>>) -> Result<
    Seq<u8>,
    FetchError,
> {
    match T::stored_lut_slot(payload_of(account)) {
        None => Err(FetchError::DeserializeError),
        Some(slot) => match lut_signer_address(owner) {
            None => Err(FetchError::NoProgramAddress),
            Some(signer) => match derived_address(
                seq![signer, le_bytes(slot as nat, 8)],
                ADDRESS_LOOKUP_TABLE_PROGRAM_ID@,
            ) {
                None => Err(FetchError::NoProgramAddress),
                Some(key) => Ok(key),
            },
        },
    }
}

/// The addresses of the lookup tables of the accounts at `keys`, whose data
/// are `accounts`, one for each key. The first account that fails decides the
/// error; a list of accounts that does not match the keys in length is
/// malformed.
pub open spec fn table_addresses<T: LutOwner>(keys: Seq<Pubkey>, accounts: Seq<Option<Vec<u8>>>)
    -> Result<Seq<Seq<u8>>, FetchError>
    decreases keys.len(),
{
    if accounts.len() != keys.len() {
        Err(FetchError::DeserializeError)
    } else if keys.len() == 0 {
        Ok(Seq::empty())
    } else {
        match table_addresses::<T>(keys.drop_last(), accounts.drop_last()) {
            Err(e) => Err(e),
            Ok(before) => match table_address::<T>(keys.last()@, account_view(accounts.last())) {
                Ok(key) => Ok(before.push(key)),
                Err(e) => Err(e),
            },
        }
    }
}

/// The tables at `lut_keys` that the data `lut_datas` of their accounts hold,
/// one for each key, or `None` where the data of an account are no stored
/// table or the list of accounts does not match the keys in length.
pub open spec fn tables_read(lut_keys: Seq<Pubkey>, lut_datas: Seq<Option<Vec<u8>>>) -> Option<
    Seq<AddressLookupTableAccountView>,
>
    decreases lut_keys.len(),
{
    if lut_datas.len() != lut_keys.len() {
        None
    } else if lut_keys.len() == 0 {
        Some(Seq::empty())
    } else {
        match (
            tables_read(lut_keys.drop_last(), lut_datas.drop_last()),
            table_of(account_view(lut_datas.last())),
        ) {
            (Some(before), Some(addresses)) => Some(
                before.push(AddressLookupTableAccountView { key: lut_keys.last()@, addresses }),
            ),
            _ => None,
        }
    }
}

/// Where the derivation fails for the first `n` accounts, it fails in the
/// same way for all of them.
proof fn lemma_table_addresses_fail<T: LutOwner>(
    keys: Seq<Pubkey>,
    accounts: Seq<Option<Vec<u8>>>,
    n: int,
    e: FetchError,
)
    requires
        keys.len() == accounts.len(),
        0 <= n <= keys.len(),
        table_addresses::<T>(keys.subrange(0, n), accounts.subrange(0, n)) == Err::<
            Seq<Seq<u8>>,
            FetchError,
        >(e),
    ensures
        table_addresses::<T>(keys, accounts) == Err::<Seq<Seq<u8>>, FetchError>(e),
    decreases keys.len() - n,
{
    if n < keys.len() {
        assert(keys.subrange(0, n + 1).drop_last() =~= keys.subrange(0, n));
        assert(accounts.subrange(0, n + 1).drop_last() =~= accounts.subrange(0, n));
        lemma_table_addresses_fail::<T>(keys, accounts, n + 1, e);
    } else {
        assert(keys.subrange(0, n) =~= keys);
        assert(accounts.subrange(0, n) =~= accounts);
    }
}

/// Where the first `n` accounts hold no tables, all of them hold none.
proof fn lemma_tables_read_fail(lut_keys: Seq<Pubkey>, lut_datas: Seq<Option<Vec<u8>>>, n: int)
    requires
        lut_keys.len() == lut_datas.len(),
        0 <= n <= lut_keys.len(),
        tables_read(lut_keys.subrange(0, n), lut_datas.subrange(0, n)) is None,
    ensures
        tables_read(lut_keys, lut_datas) is None,
    decreases lut_keys.len() - n,
{
    if n < lut_keys.len() {
        assert(lut_keys.subrange(0, n + 1).drop_last() =~= lut_keys.subrange(0, n));
        assert(lut_datas.subrange(0, n + 1).drop_last() =~= lut_datas.subrange(0, n));
        lemma_tables_read_fail(lut_keys, lut_datas, n + 1);
    } else {
        assert(lut_keys.subrange(0, n) =~= lut_keys);
        assert(lut_datas.subrange(0, n) =~= lut_datas);
    }
}

/// What an optional account holds.
pub open spec fn account_view(account: Option<Vec<u8>>) -> Option<Seq<u8>> {
    match account {
        Some(data) => Some(data@),
        None => None,
    }
}

/// The table that the data `account` of the table account at `key` hold. A
/// table account that is missing stands for a table without addresses; data
/// that are no stored table stand for nothing.
pub open spec fn table_of(account: Option<Seq<u8>>) -> Option<Seq<Seq<u8>>> {
    match account {
        None => Some(Seq::empty()),
        Some(data) => match parse_table(data) {
            Ok(table) => Some(table.addresses),
            Err(_) => None,
        },
    }
}

/// The data of an account behind the eight bytes that name its schema;
/// nothing where the account is missing or shorter than that.
pub fn account_to_vec(account: &Option<Vec<u8>>) -> (r: Vec<u8>)
    ensures
        r@ == payload_of(account_view(*account)),
{
    let mut out: Vec<u8> = Vec::new();
    match account {
        Some(data) => {
            if data.len() >= 8 {
                let mut i: usize = 8;
                while i < data.len()
                    invariant
                        8 <= i <= data@.len(),
                        out@ == data@.subrange(8, i as int),
                    decreases data@.len() - i,
                {
                    out.push(data[i]);
                    assert(out@ =~= data@.subrange(8, i + 1));
                    i += 1;
                }
            }
        },
        None => {},
    }
    out
}

/// Derives the address of the lookup table of the account at `owner` from
/// the data of that account.
pub fn lookup_table_key<T: LutOwner>(owner: &Pubkey, account: &Option<Vec<u8>>) -> (r: Result<
    Pubkey,
    FetchError,
>)
    ensures
        match r {
            Ok(key) => table_address::<T>(owner@, account_view(*account)) == Ok::<
                Seq<u8>,
                FetchError,
            >(key@),
            Err(e) => table_address::<T>(owner@, account_view(*account)) == Err::<
                Seq<u8>,
                FetchError,
            >(e),
        },
{
    let payload = account_to_vec(account);
    let data = match T::from_account_data(payload.as_slice()) {
        Some(data) => data,
        None => {
            return Err(FetchError::DeserializeError);
        },
    };
    let lut_slot = data.lut_slot();
    let lut_signer = match find_lut_signer(owner) {
        Some(key) => key,
        None => {
            return Err(FetchError::NoProgramAddress);
        },
    };
    match derive_lookup_table_address(&lut_signer, lut_slot) {
        Some(found) => Ok(found.0),
        None => Err(FetchError::NoProgramAddress),
    }
}

/// Derives the addresses of the lookup tables of the accounts at `keys` from
/// the data `accounts` of those accounts, one for each key.
pub fn lookup_table_keys<T: LutOwner>(keys: &Vec<Pubkey>, accounts: &Vec<Option<Vec<u8>>>) -> (r:
    Result<Vec<Pubkey>, FetchError>)
    ensures
        match r {
            Ok(lut_keys) => table_addresses::<T>(keys@, accounts@) == Ok::<
                Seq<Seq<u8>>,
                FetchError,
            >(keys_view(lut_keys@)),
            Err(e) => table_addresses::<T>(keys@, accounts@) == Err::<Seq<Seq<u8>>, FetchError>(e),
        },
{
    if accounts.len() != keys.len() {
        return Err(FetchError::DeserializeError);
    }
    let mut lut_keys: Vec<Pubkey> = Vec::new();
    let mut i: usize = 0;
    proof {
        assert(keys_view(lut_keys@) =~= Seq::<Seq<u8>>::empty());
    }
    while i < keys.len()
        invariant
            i <= keys@.len() == accounts@.len(),
            table_addresses::<T>(keys@.subrange(0, i as int), accounts@.subrange(0, i as int))
                == Ok::<Seq<Seq<u8>>, FetchError>(keys_view(lut_keys@)),
        decreases keys@.len() - i,
    {
        let ghost before = keys_view(lut_keys@);
        proof {
            assert(keys@.subrange(0, i + 1).drop_last() =~= keys@.subrange(0, i as int));
            assert(accounts@.subrange(0, i + 1).drop_last() =~= accounts@.subrange(0, i as int));
            assert(keys@.subrange(0, i + 1).last() == keys@[i as int]);
            assert(accounts@.subrange(0, i + 1).last() == accounts@[i as int]);
        }
        match lookup_table_key::<T>(&keys[i], &accounts[i]) {
            Ok(key) => {
                lut_keys.push(key);
                assert(keys_view(lut_keys@) =~= before.push(key@));
            },
            Err(e) => {
                proof {
                    lemma_table_addresses_fail::<T>(keys@, accounts@, i + 1, e);
                }
                return Err(e);
            },
        }
        i += 1;
    }
    proof {
        assert(keys@.subrange(0, i as int) =~= keys@);
        assert(accounts@.subrange(0, i as int) =~= accounts@);
    }
    Ok(lut_keys)
}

/// Reads the lookup table at `lut_key` from the data of its account.
pub fn load_lookup_table(lut_key: Pubkey, lut_account: &Option<Vec<u8>>) -> (r: Result<
    AddressLookupTableAccount,
    FetchError,
>)
    ensures
        match r {
            Ok(table) => table.key == lut_key && table_of(account_view(*lut_account)) == Some(
                keys_view(table.addresses@),
            ),
            Err(e) => e is DeserializeError && table_of(account_view(*lut_account)) is None,
        },
{
    match lut_account {
        None => {
            let table = AddressLookupTableAccount { key: lut_key, addresses: Vec::new() };
            assert(keys_view(table.addresses@) =~= Seq::<Seq<u8>>::empty());
            Ok(table)
        },
        Some(data) => match AddressLookupTable::deserialize(data.as_slice()) {
            Ok(parsed) => Ok(AddressLookupTableAccount { key: lut_key, addresses: parsed.addresses }),
            Err(_) => Err(FetchError::DeserializeError),
        },
    }
}

/// Reads the lookup tables at `lut_keys` from the data `lut_datas` of their
/// accounts, one for each key. A table account that is missing gives a table
/// without addresses. The reading fails with `DeserializeError` where the data
/// of an account are no stored table, or where the list of accounts does not
/// match the keys in length.
pub fn load_lookup_tables(lut_keys: &Vec<Pubkey>, lut_datas: &Vec<Option<Vec<u8>>>) -> (r: Result<
    Vec<AddressLookupTableAccount>,
    FetchError,
>)
    ensures
        match r {
            Ok(tables) => tables_read(lut_keys@, lut_datas@) == Some(views(tables@)),
            Err(e) => e is DeserializeError && tables_read(lut_keys@, lut_datas@) is None,
        },
{
    if lut_datas.len() != lut_keys.len() {
        return Err(FetchError::DeserializeError);
    }
    let mut out: Vec<AddressLookupTableAccount> = Vec::new();
    let mut i: usize = 0;
    proof {
        assert(views(out@) =~= Seq::<AddressLookupTableAccountView>::empty());
    }
    while i < lut_keys.len()
        invariant
            i <= lut_keys@.len() == lut_datas@.len(),
            tables_read(lut_keys@.subrange(0, i as int), lut_datas@.subrange(0, i as int)) == Some(
                views(out@),
            ),
        decreases lut_keys@.len() - i,
    {
        let ghost before = views(out@);
        proof {
            assert(lut_keys@.subrange(0, i + 1).drop_last() =~= lut_keys@.subrange(0, i as int));
            assert(lut_datas@.subrange(0, i + 1).drop_last() =~= lut_datas@.subrange(0, i as int));
            assert(lut_keys@.subrange(0, i + 1).last() == lut_keys@[i as int]);
            assert(lut_datas@.subrange(0, i + 1).last() == lut_datas@[i as int]);
        }
        match load_lookup_table(lut_keys[i], &lut_datas[i]) {
            Ok(table) => {
                let ghost view = table@;
                out.push(table);
                assert(views(out@) =~= before.push(view));
            },
            Err(e) => {
                proof {
                    lemma_tables_read_fail(lut_keys@, lut_datas@, i + 1);
                }
                return Err(e);
            },
        }
        i += 1;
    }
    proof {
        assert(lut_keys@.subrange(0, i as int) =~= lut_keys@);
        assert(lut_datas@.subrange(0, i as int) =~= lut_datas@);
    }
    Ok(out)
}

/// Puts the tables of the three classes of owners together: those of the
/// oracles first, then those of the feeds, then those of the queue. The first
/// class that failed, in this order, decides the error.
pub fn merge_lookup_tables(
    oracle_luts: Result<Vec<AddressLookupTableAccount>, FetchError>,
    pull_feed_luts: Result<Vec<AddressLookupTableAccount>, FetchError>,
    queue_luts: Result<Vec<AddressLookupTableAccount>, FetchError>,
) -> (r: Result<Vec<AddressLookupTableAccount>, FetchError>)
    ensures
        match (oracle_luts, pull_feed_luts, queue_luts) {
            (Ok(a), Ok(b), Ok(c)) => r is Ok && r->Ok_0@ == a@ + b@ + c@,
            (Err(e), _, _) => r == Err::<Vec<AddressLookupTableAccount>, FetchError>(e),
            (Ok(_), Err(e), _) => r == Err::<Vec<AddressLookupTableAccount>, FetchError>(e),
            (Ok(_), Ok(_), Err(e)) => r == Err::<Vec<AddressLookupTableAccount>, FetchError>(e),
        },
{
    let mut luts = match oracle_luts {
        Ok(luts) => luts,
        Err(e) => {
            return Err(e);
        },
    };
    let mut feed_luts = match pull_feed_luts {
        Ok(luts) => luts,
        Err(e) => {
            return Err(e);
        },
    };
    let mut last_luts = match queue_luts {
        Ok(luts) => luts,
        Err(e) => {
            return Err(e);
        },
    };
    luts.append(&mut feed_luts);
    luts.append(&mut last_luts);
    Ok(luts)
}

/// Where the resolution of the tables of some owners stands. From the
/// beginning on, the resolution keeps the owners in the order in which their
/// tables are handed out.
#[derive(Debug)]
pub enum LutResolution {
    /// Nothing was done yet.
    Start,
    /// The accounts of the owners that this run fetches, the second list,
    /// were asked for.
    LoadOwners(Vec<Pubkey>, Vec<Pubkey>),
    /// The accounts of the tables of those owners, the third list, were
    /// asked for.
    LoadTables(Vec<Pubkey>, Vec<Pubkey>, Vec<Pubkey>),
    /// Other runs are fetching what is still missing.
    Waiting(Vec<Pubkey>),
    Done,
    Failed,
}

/// What happened since the last step of a resolution.
#[derive(Debug)]
pub enum LutEvent {
    /// The resolution is to begin.
    Begin,
    /// The accounts that the last step asked for were fetched, or the fetch
    /// failed.
    Accounts(Result<Vec<Option<Vec<u8>>>, FetchError>),
    /// The wait that the last step asked for is over.
    Resume,
}

/// What the caller of a resolution has to do next.
#[derive(Debug)]
pub enum LutAction {
    /// Fetch the accounts at these addresses in one round trip and hand them
    /// back, `None` for an account that is missing.
    FetchAccounts(Vec<Pubkey>),
    /// Wait until another run has reported to the cache, then resume.
    Wait,
    /// The tables of the owners, one for each owner: first those that were
    /// cached when the resolution began, then the others, each group in the
    /// order of the owners.
    Done(Vec<AddressLookupTableAccount>),
    Failed(FetchError),
}

/// Those of `keys`, in their order, for which a table is there.
pub open spec fn cached_keys(
    entries: Map<Seq<u8>, Entry<AddressLookupTableAccountView>>,
    keys: Seq<Pubkey>,
) -> Seq<Pubkey>
    decreases keys.len(),
{
    if keys.len() == 0 {
        Seq::empty()
    } else if ready_value(entries, keys.last()@) is Some {
        cached_keys(entries, keys.drop_last()).push(keys.last())
    } else {
        cached_keys(entries, keys.drop_last())
    }
}

/// Those of `keys`, in their order, for which no table is there.
pub open spec fn missing_keys(
    entries: Map<Seq<u8>, Entry<AddressLookupTableAccountView>>,
    keys: Seq<Pubkey>,
) -> Seq<Pubkey>
    decreases keys.len(),
{
    if keys.len() == 0 {
        Seq::empty()
    } else if ready_value(entries, keys.last()@) is Some {
        missing_keys(entries, keys.drop_last())
    } else {
        missing_keys(entries, keys.drop_last()).push(keys.last())
    }
}

/// The order in which the tables of `keys` are handed out: the owners whose
/// tables are there come first, then the others.
pub open spec fn cached_first(
    entries: Map<Seq<u8>, Entry<AddressLookupTableAccountView>>,
    keys: Seq<Pubkey>,
) -> Seq<Pubkey> {
    cached_keys(entries, keys) + missing_keys(entries, keys)
}

/// The tables that are there for `keys`, one for each key, where a table is
/// there for every key.
pub fn cached_luts(cache: &ResourceCache<AddressLookupTableAccount>, keys: &Vec<Pubkey>) -> (r:
    Option<Vec<AddressLookupTableAccount>>)
    requires
        cache.wf(),
    ensures
        match r {
            Some(tables) => {
                &&& all_ready(cache@, keys_view(keys@))
                &&& tables@.len() == keys@.len()
                &&& forall|i: int|
                    0 <= i < keys@.len() ==> ready_value(cache@, keys@[i]@) == Some(
                        (#[trigger] tables@[i])@,
                    )
            },
            None => !all_ready(cache@, keys_view(keys@)),
        },
{
    let mut tables: Vec<AddressLookupTableAccount> = Vec::new();
    let mut i: usize = 0;
    while i < keys.len()
        invariant
            i <= keys@.len(),
            cache.wf(),
            tables@.len() == i,
            forall|j: int|
                0 <= j < i ==> ready_value(cache@, keys@[j]@) == Some((#[trigger] tables@[j])@),
        decreases keys@.len() - i,
    {
        match cache.get(&keys[i].bytes) {
            Some(table) => {
                tables.push(table.clone());
            },
            None => {
                assert(keys_view(keys@)[i as int] == keys@[i as int]@);
                return None;
            },
        }
        i += 1;
    }
    proof {
        assert forall|j: int| 0 <= j < keys_view(keys@).len() implies ready_value(
            cache@,
            #[trigger] keys_view(keys@)[j],
        ) is Some by {
            assert(ready_value(cache@, keys@[j]@) == Some(tables@[j]@));
        }
    }
    Some(tables)
}

/// Puts the owners whose tables are there in front of the others.
fn order_keys(cache: &ResourceCache<AddressLookupTableAccount>, keys: &Vec<Pubkey>) -> (r: Vec<
    Pubkey,
>)
    requires
        cache.wf(),
    ensures
        r@ == cached_first(cache@, keys@),
{
    let mut cached: Vec<Pubkey> = Vec::new();
    let mut missing: Vec<Pubkey> = Vec::new();
    let mut i: usize = 0;
    proof {
        assert(keys@.subrange(0, 0) =~= Seq::<Pubkey>::empty());
    }
    while i < keys.len()
        invariant
            i <= keys@.len(),
            cache.wf(),
            cached@ == cached_keys(cache@, keys@.subrange(0, i as int)),
            missing@ == missing_keys(cache@, keys@.subrange(0, i as int)),
        decreases keys@.len() - i,
    {
        proof {
            let upto = keys@.subrange(0, i + 1);
            assert(upto.drop_last() =~= keys@.subrange(0, i as int));
            assert(upto.last() == keys@[i as int]);
        }
        if cache.get(&keys[i].bytes).is_some() {
            cached.push(keys[i]);
        } else {
            missing.push(keys[i]);
        }
        i += 1;
    }
    proof {
        assert(keys@.subrange(0, i as int) =~= keys@);
    }
    cached.append(&mut missing);
    cached
}

/// Whether `state` and `action` end a step of the resolution that hands out
/// the tables of `order` over the entries `entries`: the resolution is done,
/// with the table of every owner, where a table is there for every owner,
/// and waits for other runs where one is missing.
pub open spec fn concludes(
    entries: Map<Seq<u8>, Entry<AddressLookupTableAccountView>>,
    order: Seq<Pubkey>,
    state: LutResolution,
    action: LutAction,
) -> bool {
    if all_ready(entries, keys_view(order)) {
        &&& state is Done
        &&& action is Done
        &&& action->Done_0@.len() == order.len()
        &&& forall|i: int|
            0 <= i < order.len() ==> ready_value(entries, order[i]@) == Some(
                (#[trigger] action->Done_0@[i])@,
            )
    } else {
        &&& state is Waiting
        &&& state->Waiting_0@ == order
        &&& action is Wait
    }
}

/// Whether a step fails with `e` and gives up the fetches of `to_fetch`.
pub open spec fn gives_up(
    before: Map<Seq<u8>, Entry<AddressLookupTableAccountView>>,
    to_fetch: Seq<Pubkey>,
    e: FetchError,
    after: Map<Seq<u8>, Entry<AddressLookupTableAccountView>>,
    state: LutResolution,
    action: LutAction,
) -> bool {
    &&& after == abandoned(before, keys_view(to_fetch))
    &&& state is Failed
    &&& action == LutAction::Failed(e)
}

/// Whether a step asks the cache for every owner of `order` and has the new
/// ones fetched, or concludes where none is new.
pub open spec fn begins(
    before: Map<Seq<u8>, Entry<AddressLookupTableAccountView>>,
    order: Seq<Pubkey>,
    after: Map<Seq<u8>, Entry<AddressLookupTableAccountView>>,
    next: LutResolution,
    action: LutAction,
) -> bool {
    &&& after == begun(before, keys_view(order))
    &&& if claimed(before, keys_view(order)).len() > 0 {
        &&& next is LoadOwners
        &&& next->LoadOwners_0@ == order
        &&& keys_view(next->LoadOwners_1@) == claimed(before, keys_view(order))
        &&& action is FetchAccounts
        &&& keys_view(action->FetchAccounts_0@) == claimed(before, keys_view(order))
    } else {
        concludes(after, order, next, action)
    }
}

/// Whether a step of the resolution of the tables of the owners `keys`, of
/// the schema `T`, that starts in `state` over the entries `before` and is
/// handed `event`, ends in `next` over the entries `after` and asks for
/// `action`.
///
/// At the beginning the owners are put in the order in which their tables
/// are handed out, and every owner is asked for in the cache; so it is again
/// after a wait. Where some owners are new, their accounts are to be fetched;
/// else the step concludes. From the accounts of the owners the addresses of
/// their tables are derived, and the accounts at those addresses are to be
/// fetched. The tables read from these are reported to the cache, and the
/// step concludes. Whatever fails gives up the fetches of this run, so that
/// nothing of the failure stays in the cache.
pub open spec fn lut_step<T: LutOwner>(
    before: Map<Seq<u8>, Entry<AddressLookupTableAccountView>>,
    keys: Seq<Pubkey>,
    state: LutResolution,
    event: LutEvent,
    after: Map<Seq<u8>, Entry<AddressLookupTableAccountView>>,
    next: LutResolution,
    action: LutAction,
) -> bool {
    match state {
        LutResolution::Start => if event is Begin {
            begins(before, cached_first(before, keys), after, next, action)
        } else {
            gives_up(before, Seq::empty(), FetchError::UnexpectedEvent, after, next, action)
        },
        LutResolution::Waiting(order) => if event is Resume {
            begins(before, order@, after, next, action)
        } else {
            gives_up(before, Seq::empty(), FetchError::UnexpectedEvent, after, next, action)
        },
        LutResolution::LoadOwners(order, to_fetch) => match event {
            LutEvent::Accounts(Ok(accounts)) => match table_addresses::<T>(to_fetch@, accounts@) {
                Ok(addresses) => {
                    &&& after == before
                    &&& next is LoadTables
                    &&& next->LoadTables_0@ == order@
                    &&& next->LoadTables_1@ == to_fetch@
                    &&& keys_view(next->LoadTables_2@) == addresses
                    &&& action is FetchAccounts
                    &&& keys_view(action->FetchAccounts_0@) == addresses
                },
                Err(e) => gives_up(before, to_fetch@, e, after, next, action),
            },
            LutEvent::Accounts(Err(e)) => gives_up(before, to_fetch@, e, after, next, action),
            _ => gives_up(before, to_fetch@, FetchError::UnexpectedEvent, after, next, action),
        },
        LutResolution::LoadTables(order, to_fetch, lut_keys) => match event {
            LutEvent::Accounts(Ok(datas)) => match tables_read(lut_keys@, datas@) {
                Some(tables) => if tables.len() == to_fetch@.len() {
                    &&& after == stored(before, keys_view(to_fetch@), tables)
                    &&& concludes(after, order@, next, action)
                } else {
                    gives_up(before, to_fetch@, FetchError::DeserializeError, after, next, action)
                },
                None => gives_up(
                    before,
                    to_fetch@,
                    FetchError::DeserializeError,
                    after,
                    next,
                    action,
                ),
            },
            LutEvent::Accounts(Err(e)) => gives_up(before, to_fetch@, e, after, next, action),
            _ => gives_up(before, to_fetch@, FetchError::UnexpectedEvent, after, next, action),
        },
        _ => gives_up(before, Seq::empty(), FetchError::UnexpectedEvent, after, next, action),
    }
}

/// Ends a step: with the tables of all owners where they are there, with a
/// wait where one is missing.
fn conclude(cache: &ResourceCache<AddressLookupTableAccount>, order: Vec<Pubkey>) -> (r: (
    LutResolution,
    LutAction,
))
    requires
        cache.wf(),
    ensures
        concludes(cache@, order@, r.0, r.1),
{
    match cached_luts(cache, &order) {
        Some(tables) => (LutResolution::Done, LutAction::Done(tables)),
        None => (LutResolution::Waiting(order), LutAction::Wait),
    }
}

/// Fails a step and gives up the fetches of `to_fetch`.
fn give_up(
    cache: &mut ResourceCache<AddressLookupTableAccount>,
    to_fetch: &Vec<Pubkey>,
    e: FetchError,
) -> (r: (LutResolution, LutAction))
    requires
        old(cache).wf(),
    ensures
        final(cache).wf(),
        gives_up(old(cache)@, to_fetch@, e, final(cache)@, r.0, r.1),
{
    cache.abandon_all(to_fetch);
    (LutResolution::Failed, LutAction::Failed(e))
}

/// Asks the cache for every owner of `order` and has the new ones fetched.
fn begin_resolution(cache: &mut ResourceCache<AddressLookupTableAccount>, order: Vec<Pubkey>) -> (r:
    (LutResolution, LutAction))
    requires
        old(cache).wf(),
    ensures
        final(cache).wf(),
        begins(old(cache)@, order@, final(cache)@, r.0, r.1),
{
    let to_fetch = cache.begin_all(&order);
    if to_fetch.len() > 0 {
        let asked = copy_keys(&to_fetch);
        (LutResolution::LoadOwners(order, to_fetch), LutAction::FetchAccounts(asked))
    } else {
        conclude(cache, order)
    }
}

/// One step of the resolution of the lookup tables of the owners `keys`,
/// whose accounts follow the schema `T`: from where the resolution stands and
/// what happened to where it stands then and what the caller has to do. The
/// tables are taken from the cache where they are there, and fetched once and
/// put there where they are not.
pub fn fetch_and_cache_luts<T: LutOwner>(
    cache: &mut ResourceCache<AddressLookupTableAccount>,
    keys: &Vec<Pubkey>,
    state: LutResolution,
    event: LutEvent,
) -> (r: (LutResolution, LutAction))
    requires
        old(cache).wf(),
    ensures
        final(cache).wf(),
        lut_step::<T>(old(cache)@, keys@, state, event, final(cache)@, r.0, r.1),
{
    let empty: Vec<Pubkey> = Vec::new();
    proof {
        assert(keys_view(empty@) =~= Seq::<Seq<u8>>::empty());
    }
    match state {
        LutResolution::Start => match event {
            LutEvent::Begin => {
                let order = order_keys(cache, keys);
                begin_resolution(cache, order)
            },
            _ => give_up(cache, &empty, FetchError::UnexpectedEvent),
        },
        LutResolution::Waiting(order) => match event {
            LutEvent::Resume => begin_resolution(cache, order),
            _ => give_up(cache, &empty, FetchError::UnexpectedEvent),
        },
        LutResolution::LoadOwners(order, to_fetch) => match event {
            LutEvent::Accounts(Ok(accounts)) => match lookup_table_keys::<T>(&to_fetch, &accounts) {
                Ok(lut_keys) => {
                    let asked = copy_keys(&lut_keys);
                    (
                        LutResolution::LoadTables(order, to_fetch, lut_keys),
                        LutAction::FetchAccounts(asked),
                    )
                },
                Err(e) => give_up(cache, &to_fetch, e),
            },
            LutEvent::Accounts(Err(e)) => give_up(cache, &to_fetch, e),
            _ => give_up(cache, &to_fetch, FetchError::UnexpectedEvent),
        },
        LutResolution::LoadTables(order, to_fetch, lut_keys) => match event {
            LutEvent::Accounts(Ok(datas)) => match load_lookup_tables(&lut_keys, &datas) {
                Ok(tables) => {
                    if tables.len() == to_fetch.len() {
                        cache.complete_all(&to_fetch, tables);
                        conclude(cache, order)
                    } else {
                        give_up(cache, &to_fetch, FetchError::DeserializeError)
                    }
                },
                Err(_) => give_up(cache, &to_fetch, FetchError::DeserializeError),
            },
            LutEvent::Accounts(Err(e)) => give_up(cache, &to_fetch, e),
            _ => give_up(cache, &to_fetch, FetchError::UnexpectedEvent),
        },
        _ => give_up(cache, &empty, FetchError::UnexpectedEvent),
    }
}

} // verus!
