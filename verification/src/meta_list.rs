use vstd::prelude::*;
use vstd::bytes::spec_u32_to_le_bytes;

use anchor_lang::solana_program::program_error::ProgramError;
use anchor_lang::solana_program::pubkey::Pubkey;
use spl_tlv_account_resolution::account::ExtraAccountMeta;
use spl_tlv_account_resolution::state::ExtraAccountMetaList;
use spl_transfer_hook_interface::instruction::ExecuteInstruction;

use crate::address::Address;
use crate::program_ids::{
    associated_token_program, associated_token_program_id, mpl_core_id, mpl_core_program,
    system_program, system_program_id,
};

verus! {

/// The error type of the Solana program runtime, carried through unread.
#[verifier::external_type_specification]
#[verifier::external_body]
pub struct ExProgramError(anchor_lang::solana_program::program_error::ProgramError);

/// Why writing the extra-account-meta list failed.
pub enum MetaListError {
    /// The account data cannot hold the list.
    InvalidAccountData,
    /// The list encoder refused the account data for another reason.
    Program(ProgramError),
}

/// One extra account that the transfer hook asks the token program to pass
/// along: a fixed address (discriminator 0) with its signer and writable
/// flags.
#[derive(Clone, Copy, Debug)]
pub struct ExtraMeta {
    pub discriminator: u8,
    pub address_config: [u8; 32],
    pub is_signer: bool,
    pub is_writable: bool,
}

/// `spl_tlv_account_resolution::account::ExtraAccountMeta::new_with_pubkey`:
/// its source always succeeds, with discriminator 0, the key's bytes as the
/// address configuration, and the two flags; the contract claims that.
#[verifier::external_body]
fn meta_with_pubkey(key: &Address, is_signer: bool, is_writable: bool) -> (r: Result<ExtraMeta, ProgramError>)
    ensures
        r is Ok,
        r->Ok_0.discriminator == 0,
        r->Ok_0.address_config == key.bytes,
        r->Ok_0.is_signer == is_signer,
        r->Ok_0.is_writable == is_writable,
{
    let m = ExtraAccountMeta::new_with_pubkey(&Pubkey::new_from_array(key.bytes), is_signer, is_writable)?;
    Ok(
        ExtraMeta {
            discriminator: m.discriminator,
            address_config: m.address_config,
            is_signer: bool::from(m.is_signer),
            is_writable: bool::from(m.is_writable),
        },
    )
}

/// The extra accounts of the transfer hook, in order: the MPL Core program
/// (writable), the associated token program (writable) and the system
/// program (read-only); none of them signs.
pub open spec fn spec_extra_metas_ok(v: Seq<ExtraMeta>) -> bool {
    &&& v.len() == 3
    &&& v[0].discriminator == 0 && v[0].address_config@ == mpl_core_id() && !v[0].is_signer
        && v[0].is_writable
    &&& v[1].discriminator == 0 && v[1].address_config@ == associated_token_program_id()
        && !v[1].is_signer && v[1].is_writable
    &&& v[2].discriminator == 0 && v[2].address_config@ == system_program_id() && !v[2].is_signer
        && !v[2].is_writable
}

/// The extra accounts that the transfer hook needs.
pub fn extra_account_metas() -> (r: Result<Vec<ExtraMeta>, MetaListError>)
    ensures
        r matches Ok(v) && spec_extra_metas_ok(v@),
{
    let core = match meta_with_pubkey(&mpl_core_program(), false, true) {
        Ok(m) => m,
        Err(e) => return Err(MetaListError::Program(e)),
    };
    let ata = match meta_with_pubkey(&associated_token_program(), false, true) {
        Ok(m) => m,
        Err(e) => return Err(MetaListError::Program(e)),
    };
    let system = match meta_with_pubkey(&system_program(), false, false) {
        Ok(m) => m,
        Err(e) => return Err(MetaListError::Program(e)),
    };
    let v: Vec<ExtraMeta> = vec![core, ata, system];
    Ok(v)
}

/// The discriminator of the transfer hook's execute instruction, under
/// which the extra-account-meta list is stored: the first eight bytes of
/// the SHA-256 hash of `spl-transfer-hook-interface:execute`.
pub open spec fn execute_discriminator() -> Seq<u8> {
    seq![105u8, 37, 101, 197, 75, 251, 102, 26]
}

pub open spec fn flag_byte(b: bool) -> u8 {
    if b {
        1
    } else {
        0
    }
}

/// The 35 bytes of one entry of the list.
pub open spec fn meta_bytes(m: ExtraMeta) -> Seq<u8> {
    seq![m.discriminator] + m.address_config@ + seq![flag_byte(m.is_signer), flag_byte(m.is_writable)]
}

/// The entries of the list, one after the other.
pub open spec fn metas_bytes(ms: Seq<ExtraMeta>) -> Seq<u8>
    decreases ms.len(),
{
    if ms.len() == 0 {
        Seq::empty()
    } else {
        metas_bytes(ms.drop_last()) + meta_bytes(ms.last())
    }
}

/// The head of the list's record: the discriminator, then the length of
/// the value (four bytes of count and 35 bytes per entry), little-endian.
pub open spec fn meta_list_header(n: nat) -> Seq<u8> {
    execute_discriminator() + spec_u32_to_le_bytes((4 + 35 * n) as u32)
}

/// `data_len` bytes holding a list of `n` entries whose bytes are `entries`,
/// followed by zeros.
pub open spec fn meta_list_image(data_len: nat, n: nat, entries: Seq<u8>) -> Seq<u8> {
    let used = meta_list_header(n) + spec_u32_to_le_bytes(n as u32) + entries;
    used + Seq::new((data_len - used.len()) as nat, |i: int| 0u8)
}

/// Every byte is zero, as in an account that was just created.
pub open spec fn all_zero(s: Seq<u8>) -> bool {
    forall|i: int| 0 <= i < s.len() ==> s[i] == 0
}

/// `spl_tlv_account_resolution::state::ExtraAccountMetaList::init` for the
/// execute instruction of `spl_transfer_hook_interface`, on zeroed data.
/// It succeeds when the data holds the 16-byte head and 35 bytes per entry,
/// and then writes the discriminator, the value length, the entry count and
/// the entries. Otherwise it reports invalid account data: with fewer than
/// 12 bytes it writes nothing, with more it has written the discriminator
/// and the value length.
#[verifier::external_body]
fn init_meta_list(data: &mut Vec<u8>, metas: &Vec<ExtraMeta>) -> (r: Result<(), MetaListError>)
    requires
        all_zero(old(data)@),
        35 * metas@.len() + 4 <= u32::MAX,
    ensures
        final(data)@.len() == old(data)@.len(),
        r is Ok <==> old(data)@.len() >= 16 + 35 * metas@.len(),
        r is Ok ==> final(data)@ == meta_list_image(
            old(data)@.len(),
            metas@.len(),
            metas_bytes(metas@),
        ),
        r is Err ==> r->Err_0 is InvalidAccountData,
        r is Err && old(data)@.len() < 12 ==> final(data)@ == old(data)@,
        r is Err && old(data)@.len() >= 12 ==> final(data)@ == meta_list_header(metas@.len())
            + old(data)@.subrange(12, old(data)@.len() as int),
{
    let spl: Vec<ExtraAccountMeta> = metas.iter().map(
        |m: &ExtraMeta|
            ExtraAccountMeta {
                discriminator: m.discriminator,
                address_config: m.address_config,
                is_signer: m.is_signer.into(),
                is_writable: m.is_writable.into(),
            },
    ).collect();
    match ExtraAccountMetaList::init::<ExecuteInstruction>(data.as_mut_slice(), &spl) {
        Ok(()) => Ok(()),
        Err(ProgramError::InvalidAccountData) => Err(MetaListError::InvalidAccountData),
        Err(e) => Err(MetaListError::Program(e)),
    }
}

/// The size in bytes with which the extra-account-meta list account is
/// created.
pub const EXTRA_ACCOUNT_META_LIST_SIZE: u64 = 3;

/// The bytes of one fixed-address entry.
pub open spec fn entry_bytes(key: Seq<u8>, is_signer: bool, is_writable: bool) -> Seq<u8> {
    seq![0u8] + key + seq![flag_byte(is_signer), flag_byte(is_writable)]
}

/// The entries of the hook's list: the MPL Core program and the associated
/// token program, writable, then the system program, read-only.
pub open spec fn hook_entries() -> Seq<u8> {
    entry_bytes(mpl_core_id(), false, true) + entry_bytes(associated_token_program_id(), false, true)
        + entry_bytes(system_program_id(), false, false)
}

/// The number of bytes that the hook's list needs: the 16-byte head and
/// three entries of 35 bytes.
pub open spec fn hook_list_len() -> nat {
    16 + 35 * 3
}

/// Writes the extra-account-meta list of the transfer hook into the data of
/// a freshly created account.
pub fn write_extra_account_meta_list(data: &mut Vec<u8>) -> (r: Result<(), MetaListError>)
    requires
        all_zero(old(data)@),
    ensures
        final(data)@.len() == old(data)@.len(),
        r is Ok <==> old(data)@.len() >= hook_list_len(),
        r is Ok ==> final(data)@ == meta_list_image(old(data)@.len(), 3, hook_entries()),
        r is Err ==> r->Err_0 is InvalidAccountData,
        r is Err && old(data)@.len() < 12 ==> final(data)@ == old(data)@,
        r is Err && old(data)@.len() >= 12 ==> final(data)@ == meta_list_header(3)
            + old(data)@.subrange(12, old(data)@.len() as int),
{
    let metas = match extra_account_metas() {
        Ok(v) => v,
        Err(e) => return Err(e),
    };
    proof {
        reveal_with_fuel(metas_bytes, 4);
        assert(metas@.drop_last().drop_last().drop_last() =~= Seq::<ExtraMeta>::empty());
        assert(metas_bytes(metas@) =~= hook_entries());
    }
    init_meta_list(data, &metas)
}

/// The list that the hook writes, byte by byte: the execute discriminator,
/// the value length 109 and the count 3 (little-endian), then for each of
/// the MPL Core, associated token and system programs a zero discriminator,
/// the program's 32 bytes, a signer flag of 0 and a writable flag (1, 1, 0),
/// and zeros up to the end of the data.
pub proof fn lemma_hook_list_bytes(len: nat)
    requires
        len >= hook_list_len(),
    ensures
        ({
            let img = meta_list_image(len, 3, hook_entries());
            &&& img.len() == len
            &&& img.subrange(0, 8) == seq![105u8, 37, 101, 197, 75, 251, 102, 26]
            &&& img.subrange(8, 12) == spec_u32_to_le_bytes(109u32)
            &&& img.subrange(12, 16) == spec_u32_to_le_bytes(3u32)
            &&& img[16] == 0 && img.subrange(17, 49) == mpl_core_id() && img[49] == 0 && img[50] == 1
            &&& img[51] == 0 && img.subrange(52, 84) == associated_token_program_id() && img[84] == 0
                && img[85] == 1
            &&& img[86] == 0 && img.subrange(87, 119) == system_program_id() && img[119] == 0
                && img[120] == 0
            &&& forall|i: int| 121 <= i < len ==> img[i] == 0
        }),
{
    let img = meta_list_image(len, 3, hook_entries());
    assert(spec_u32_to_le_bytes(109u32).len() == 4 && spec_u32_to_le_bytes(3u32).len() == 4) by {
        vstd::bytes::lemma_auto_spec_u32_to_from_le_bytes();
    }
    assert(img.subrange(0, 8) =~= seq![105u8, 37, 101, 197, 75, 251, 102, 26]);
    assert(img.subrange(8, 12) =~= spec_u32_to_le_bytes(109u32));
    assert(img.subrange(12, 16) =~= spec_u32_to_le_bytes(3u32));
    assert(img.subrange(17, 49) =~= mpl_core_id());
    assert(img.subrange(52, 84) =~= associated_token_program_id());
    assert(img.subrange(87, 119) =~= system_program_id());
}

/// The account that the hook creates for its list is too small to hold it,
/// so writing the list into it always fails.
pub proof fn lemma_created_account_too_small()
    ensures
        (EXTRA_ACCOUNT_META_LIST_SIZE as nat) < hook_list_len(),
{
}

} // verus!
