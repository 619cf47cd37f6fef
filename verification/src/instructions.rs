//! The instructions that submit signed oracle responses: the accounts they
//! name and the bytes they carry.

use crate::bytes::{le_bytes, push_all, push_i128, push_le, twos_complement_128};
use crate::pubkey::Pubkey;
use vstd::prelude::*;

verus! {

/// The first eight bytes of the data of the instruction that submits the
/// responses for one feed.
pub const PULL_FEED_SUBMIT_RESPONSE_DISCRIMINATOR: [u8; 8] = [150, 22, 215, 166, 143, 93, 48, 137];

/// The first eight bytes of the data of the instruction that submits the
/// responses for many feeds.
pub const PULL_FEED_SUBMIT_RESPONSE_MANY_DISCRIMINATOR: [u8; 8] = [
    47, 156, 45, 25, 200, 71, 37, 215,
];

/// An account that an instruction names, and how the instruction uses it.
#[derive(Clone, Copy, Debug, Eq)]
pub struct AccountMeta {
    pub pubkey: Pubkey,
    pub is_signer: bool,
    pub is_writable: bool,
}

impl PartialEq for AccountMeta {
    fn eq(&self, other: &Self) -> (r: bool) {
        self.pubkey == other.pubkey && self.is_signer == other.is_signer && self.is_writable
            == other.is_writable
    }
}

impl vstd::std_specs::cmp::PartialEqSpecImpl for AccountMeta {
    open spec fn obeys_eq_spec() -> bool {
        true
    }

    open spec fn eq_spec(&self, other: &Self) -> bool {
        *self == *other
    }
}

/// An account that the instruction writes to.
pub open spec fn writable(pubkey: Pubkey, is_signer: bool) -> AccountMeta {
    AccountMeta { pubkey, is_signer, is_writable: true }
}

/// An account that the instruction only reads.
pub open spec fn readonly(pubkey: Pubkey, is_signer: bool) -> AccountMeta {
    AccountMeta { pubkey, is_signer, is_writable: false }
}

impl AccountMeta {
    /// An account that the instruction writes to.
    pub fn new(pubkey: Pubkey, is_signer: bool) -> (r: Self)
        ensures
            r == writable(pubkey, is_signer),
    {
        AccountMeta { pubkey, is_signer, is_writable: true }
    }

    /// An account that the instruction only reads.
    pub fn new_readonly(pubkey: Pubkey, is_signer: bool) -> (r: Self)
        ensures
            r == readonly(pubkey, is_signer),
    {
        AccountMeta { pubkey, is_signer, is_writable: false }
    }
}

/// An instruction for a program: the accounts it names and the data it
/// carries.
#[derive(Clone, Debug)]
pub struct Instruction {
    pub program_id: Pubkey,
    pub accounts: Vec<AccountMeta>,
    pub data: Vec<u8>,
}

/// The accounts that a submission for one feed names.
#[derive(Clone, Copy, Debug)]
pub struct PullFeedSubmitResponse {
    pub feed: Pubkey,
    pub queue: Pubkey,
    pub program_state: Pubkey,
    pub recent_slothashes: Pubkey,
    pub payer: Pubkey,
    pub system_program: Pubkey,
    pub reward_vault: Pubkey,
    pub token_program: Pubkey,
    pub token_mint: Pubkey,
}

impl PullFeedSubmitResponse {
    /// The accounts in the order the program expects them. The feed and the
    /// reward vault are written to; the payer is written to and signs.
    pub open spec fn account_metas(self) -> Seq<AccountMeta> {
        seq![
            writable(self.feed, false),
            readonly(self.queue, false),
            readonly(self.program_state, false),
            readonly(self.recent_slothashes, false),
            writable(self.payer, true),
            readonly(self.system_program, false),
            writable(self.reward_vault, false),
            readonly(self.token_program, false),
            readonly(self.token_mint, false),
        ]
    }

    pub fn to_account_metas(&self, _is_signer: Option<bool>) -> (r: Vec<AccountMeta>)
        ensures
            r@ == self.account_metas(),
    {
        let mut metas: Vec<AccountMeta> = Vec::new();
        metas.push(AccountMeta::new(self.feed, false));
        metas.push(AccountMeta::new_readonly(self.queue, false));
        metas.push(AccountMeta::new_readonly(self.program_state, false));
        metas.push(AccountMeta::new_readonly(self.recent_slothashes, false));
        metas.push(AccountMeta::new(self.payer, true));
        metas.push(AccountMeta::new_readonly(self.system_program, false));
        metas.push(AccountMeta::new(self.reward_vault, false));
        metas.push(AccountMeta::new_readonly(self.token_program, false));
        metas.push(AccountMeta::new_readonly(self.token_mint, false));
        assert(metas@ =~= self.account_metas());
        metas
    }
}

/// The accounts that a submission for many feeds names.
#[derive(Clone, Copy, Debug)]
pub struct PullFeedSubmitResponseMany {
    pub queue: Pubkey,
    pub program_state: Pubkey,
    pub recent_slothashes: Pubkey,
    pub payer: Pubkey,
    pub system_program: Pubkey,
    pub reward_vault: Pubkey,
    pub token_program: Pubkey,
    pub token_mint: Pubkey,
}

impl PullFeedSubmitResponseMany {
    /// The accounts in the order the program expects them. The reward vault is
    /// written to; the payer is written to and signs.
    pub open spec fn account_metas(self) -> Seq<AccountMeta> {
        seq![
            readonly(self.queue, false),
            readonly(self.program_state, false),
            readonly(self.recent_slothashes, false),
            writable(self.payer, true),
            readonly(self.system_program, false),
            writable(self.reward_vault, false),
            readonly(self.token_program, false),
            readonly(self.token_mint, false),
        ]
    }

    pub fn to_account_metas(&self, _is_signer: Option<bool>) -> (r: Vec<AccountMeta>)
        ensures
            r@ == self.account_metas(),
    {
        let mut metas: Vec<AccountMeta> = Vec::new();
        metas.push(AccountMeta::new_readonly(self.queue, false));
        metas.push(AccountMeta::new_readonly(self.program_state, false));
        metas.push(AccountMeta::new_readonly(self.recent_slothashes, false));
        metas.push(AccountMeta::new(self.payer, true));
        metas.push(AccountMeta::new_readonly(self.system_program, false));
        metas.push(AccountMeta::new(self.reward_vault, false));
        metas.push(AccountMeta::new_readonly(self.token_program, false));
        metas.push(AccountMeta::new_readonly(self.token_mint, false));
        assert(metas@ =~= self.account_metas());
        metas
    }
}

/// The value that says that an oracle has no data.
pub const NO_DATA: i128 = i128::MAX;

/// One oracle's signed value for one feed.
#[derive(Clone, Copy, Debug)]
pub struct Submission {
    /// The value at 18 fractional digits; `NO_DATA` where the oracle has none.
    pub value: i128,
    pub signature: [u8; 64],
    pub recovery_id: u8,
    pub offset: u8,
}

/// The submissions for one feed, made in `slot`.
#[derive(Clone, Debug)]
pub struct PullFeedSubmitResponseParams {
    pub slot: u64,
    pub submissions: Vec<Submission>,
}

/// One oracle's signed values, one for each feed.
#[derive(Clone, Debug)]
pub struct MultiSubmission {
    /// The values at 18 fractional digits; `NO_DATA` where the oracle has none.
    pub values: Vec<i128>,
    pub signature: [u8; 64],
    pub recovery_id: u8,
}

/// The submissions for many feeds, made in `slot`.
#[derive(Clone, Debug)]
pub struct PullFeedSubmitResponseManyParams {
    pub slot: u64,
    pub submissions: Vec<MultiSubmission>,
}

/// The sixteen bytes of an `i128`, least significant first.
pub open spec fn i128_bytes(value: i128) -> Seq<u8> {
    le_bytes(twos_complement_128(value as int), 16)
}

/// The bytes of one submission: value, signature, recovery id, offset.
pub open spec fn submission_bytes(s: Submission) -> Seq<u8> {
    i128_bytes(s.value) + s.signature@ + seq![s.recovery_id, s.offset]
}

/// The bytes of the submissions, one after the other.
pub open spec fn submissions_bytes(list: Seq<Submission>) -> Seq<u8>
    decreases list.len(),
{
    if list.len() == 0 {
        Seq::empty()
    } else {
        submissions_bytes(list.drop_last()) + submission_bytes(list.last())
    }
}

/// The bytes of the values, one after the other.
pub open spec fn values_bytes(values: Seq<i128>) -> Seq<u8>
    decreases values.len(),
{
    if values.len() == 0 {
        Seq::empty()
    } else {
        values_bytes(values.drop_last()) + i128_bytes(values.last())
    }
}

/// The bytes of one submission for many feeds: the number of values in four
/// bytes, the values, the signature, the recovery id.
pub open spec fn multi_submission_bytes(s: MultiSubmission) -> Seq<u8> {
    le_bytes(s.values@.len(), 4) + values_bytes(s.values@) + s.signature@ + seq![s.recovery_id]
}

/// The bytes of the submissions for many feeds, one after the other.
pub open spec fn multi_submissions_bytes(list: Seq<MultiSubmission>) -> Seq<u8>
    decreases list.len(),
{
    if list.len() == 0 {
        Seq::empty()
    } else {
        multi_submissions_bytes(list.drop_last()) + multi_submission_bytes(list.last())
    }
}

impl PullFeedSubmitResponseParams {
    /// The slot in eight bytes, the number of submissions in four, and the
    /// submissions.
    pub open spec fn bytes(&self) -> Seq<u8> {
        le_bytes(self.slot as nat, 8) + le_bytes(self.submissions@.len(), 4) + submissions_bytes(
            self.submissions@,
        )
    }

    /// The parameters as the program reads them.
    pub fn to_vec(&self) -> (r: Vec<u8>)
        requires
            self.submissions@.len() <= u32::MAX,
        ensures
            r@ == self.bytes(),
    {
        let mut buffer: Vec<u8> = Vec::new();
        push_le(&mut buffer, self.slot as u128, 8);
        push_le(&mut buffer, self.submissions.len() as u128, 4);
        let ghost head = buffer@;
        let mut i: usize = 0;
        assert(self.submissions@.subrange(0, 0) =~= Seq::<Submission>::empty());
        assert(buffer@ =~= head + submissions_bytes(self.submissions@.subrange(0, 0)));
        while i < self.submissions.len()
            invariant
                i <= self.submissions@.len(),
                buffer@ == head + submissions_bytes(self.submissions@.subrange(0, i as int)),
            decreases self.submissions@.len() - i,
        {
            let s = &self.submissions[i];
            push_i128(&mut buffer, s.value);
            push_all(&mut buffer, &s.signature);
            buffer.push(s.recovery_id);
            buffer.push(s.offset);
            proof {
                let upto = self.submissions@.subrange(0, i + 1);
                assert(upto.drop_last() =~= self.submissions@.subrange(0, i as int));
                assert(upto.last() == *s);
                assert(buffer@ =~= head + submissions_bytes(upto));
            }
            i += 1;
        }
        assert(self.submissions@.subrange(0, i as int) =~= self.submissions@);
        buffer
    }

    /// The data of the instruction: its discriminator and the parameters.
    pub fn data(&self) -> (r: Vec<u8>)
        requires
            self.submissions@.len() <= u32::MAX,
        ensures
            r@ == PULL_FEED_SUBMIT_RESPONSE_DISCRIMINATOR@ + self.bytes(),
    {
        let mut res: Vec<u8> = Vec::new();
        push_all(&mut res, &PULL_FEED_SUBMIT_RESPONSE_DISCRIMINATOR);
        let body = self.to_vec();
        push_all(&mut res, body.as_slice());
        assert(res@ =~= PULL_FEED_SUBMIT_RESPONSE_DISCRIMINATOR@ + self.bytes());
        res
    }
}

/// Appends the bytes of one submission for many feeds.
fn push_multi_submission(buffer: &mut Vec<u8>, s: &MultiSubmission)
    requires
        s.values@.len() <= u32::MAX,
    ensures
        final(buffer)@ == old(buffer)@ + multi_submission_bytes(*s),
{
    push_le(buffer, s.values.len() as u128, 4);
    let ghost head = buffer@;
    let mut i: usize = 0;
    assert(s.values@.subrange(0, 0) =~= Seq::<i128>::empty());
    assert(buffer@ =~= head + values_bytes(s.values@.subrange(0, 0)));
    while i < s.values.len()
        invariant
            i <= s.values@.len(),
            buffer@ == head + values_bytes(s.values@.subrange(0, i as int)),
        decreases s.values@.len() - i,
    {
        push_i128(buffer, s.values[i]);
        proof {
            let upto = s.values@.subrange(0, i + 1);
            assert(upto.drop_last() =~= s.values@.subrange(0, i as int));
            assert(buffer@ =~= head + values_bytes(upto));
        }
        i += 1;
    }
    assert(s.values@.subrange(0, i as int) =~= s.values@);
    push_all(buffer, &s.signature);
    buffer.push(s.recovery_id);
    assert(buffer@ =~= old(buffer)@ + multi_submission_bytes(*s));
}

impl PullFeedSubmitResponseManyParams {
    /// Whether no list is too long for the four bytes that hold its length.
    pub open spec fn fits(&self) -> bool {
        &&& self.submissions@.len() <= u32::MAX
        &&& forall|i: int|
            0 <= i < self.submissions@.len() ==> (#[trigger] self.submissions@[i]).values@.len()
                <= u32::MAX
    }

    /// The slot in eight bytes, the number of submissions in four, and the
    /// submissions.
    pub open spec fn bytes(&self) -> Seq<u8> {
        le_bytes(self.slot as nat, 8) + le_bytes(self.submissions@.len(), 4)
            + multi_submissions_bytes(self.submissions@)
    }

    /// The parameters as the program reads them.
    pub fn to_vec(&self) -> (r: Vec<u8>)
        requires
            self.fits(),
        ensures
            r@ == self.bytes(),
    {
        let mut buffer: Vec<u8> = Vec::new();
        push_le(&mut buffer, self.slot as u128, 8);
        push_le(&mut buffer, self.submissions.len() as u128, 4);
        let ghost head = buffer@;
        let mut i: usize = 0;
        assert(self.submissions@.subrange(0, 0) =~= Seq::<MultiSubmission>::empty());
        assert(buffer@ =~= head + multi_submissions_bytes(self.submissions@.subrange(0, 0)));
        while i < self.submissions.len()
            invariant
                i <= self.submissions@.len(),
                self.fits(),
                buffer@ == head + multi_submissions_bytes(self.submissions@.subrange(0, i as int)),
            decreases self.submissions@.len() - i,
        {
            push_multi_submission(&mut buffer, &self.submissions[i]);
            proof {
                let upto = self.submissions@.subrange(0, i + 1);
                assert(upto.drop_last() =~= self.submissions@.subrange(0, i as int));
                assert(upto.last() == self.submissions@[i as int]);
                assert(buffer@ =~= head + multi_submissions_bytes(upto));
            }
            i += 1;
        }
        assert(self.submissions@.subrange(0, i as int) =~= self.submissions@);
        buffer
    }

    /// The data of the instruction: its discriminator and the parameters.
    pub fn data(&self) -> (r: Vec<u8>)
        requires
            self.fits(),
        ensures
            r@ == PULL_FEED_SUBMIT_RESPONSE_MANY_DISCRIMINATOR@ + self.bytes(),
    {
        let mut res: Vec<u8> = Vec::new();
        push_all(&mut res, &PULL_FEED_SUBMIT_RESPONSE_MANY_DISCRIMINATOR);
        let body = self.to_vec();
        push_all(&mut res, body.as_slice());
        assert(res@ =~= PULL_FEED_SUBMIT_RESPONSE_MANY_DISCRIMINATOR@ + self.bytes());
        res
    }
}

} // verus!
