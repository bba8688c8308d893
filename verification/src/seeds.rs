use vstd::prelude::*;
use vstd::bytes::{spec_u64_from_le_bytes, spec_u64_to_le_bytes, u64_to_le_bytes};

use crate::address::Address;

verus! {

/// The seed of the compression program's derived address.
pub const SEED: &'static str = "AUTH";

/// Bytes reserved for the manager account: the account discriminator,
/// the owner, a counter and room for one hundred addresses.
pub const MANAGER_ACCOUNT_SPACE: usize = 8 + 32 + 8 + 32 * 100;

/// The tag that starts the seeds of the manager account: `b"manager"`.
pub open spec fn manager_tag() -> Seq<u8> {
    seq![109u8, 97, 110, 97, 103, 101, 114]
}

/// The tag that starts the seeds of an asset account: `b"nft"`.
pub open spec fn asset_tag() -> Seq<u8> {
    seq![110u8, 102, 116]
}

/// The tag that starts the seeds of the extra-account-meta list:
/// `b"extra-account-metas"`.
pub open spec fn extra_metas_tag() -> Seq<u8> {
    seq![
        101u8, 120, 116, 114, 97, 45, 97, 99, 99, 111, 117, 110, 116, 45, 109,
        101, 116, 97, 115,
    ]
}

/// Seeds of the manager account of `owner`, with its bump.
pub open spec fn spec_manager_seeds(owner: Seq<u8>, bump: u8) -> Seq<Seq<u8>> {
    seq![manager_tag(), owner, seq![bump]]
}

/// Seeds of the asset account number `index` of `owner`, with its bump.
pub open spec fn spec_asset_seeds(owner: Seq<u8>, index: u64, bump: u8) -> Seq<Seq<u8>> {
    seq![asset_tag(), owner, spec_u64_to_le_bytes(index), seq![bump]]
}

/// Seeds of the extra-account-meta list of `mint`, with its bump.
pub open spec fn spec_extra_metas_seeds(mint: Seq<u8>, bump: u8) -> Seq<Seq<u8>> {
    seq![extra_metas_tag(), mint, seq![bump]]
}

fn manager_tag_bytes() -> (v: Vec<u8>)
    ensures
        v@ == manager_tag(),
{
    let v: Vec<u8> = vec![109, 97, 110, 97, 103, 101, 114];
    assert(v@ =~= manager_tag());
    v
}

fn asset_tag_bytes() -> (v: Vec<u8>)
    ensures
        v@ == asset_tag(),
{
    let v: Vec<u8> = vec![110, 102, 116];
    assert(v@ =~= asset_tag());
    v
}

fn extra_metas_tag_bytes() -> (v: Vec<u8>)
    ensures
        v@ == extra_metas_tag(),
{
    let v: Vec<u8> = vec![
        101, 120, 116, 114, 97, 45, 97, 99, 99, 111, 117, 110, 116, 45, 109,
        101, 116, 97, 115,
    ];
    assert(v@ =~= extra_metas_tag());
    v
}

proof fn lemma_bytes_deep_view(v: Vec<u8>)
    ensures
        v.deep_view() == v@,
{
    assert(v.deep_view() =~= v@);
}

/// The signer seeds of the manager account of `owner`:
/// `[b"manager", owner, [bump]]`.
pub fn manager_seeds(owner: &Address, bump: u8) -> (s: Vec<Vec<u8>>)
    ensures
        s.deep_view() == spec_manager_seeds(owner@, bump),
        s@.len() == 3,
        s@[0]@ == seq![109u8, 97, 110, 97, 103, 101, 114],
        s@[1]@ == owner@,
        s@[2]@ == seq![bump],
{
    proof {
        lemma_manager_seeds_layout(owner@, bump);
    }
    let a = manager_tag_bytes();
    let b = owner.to_vec();
    let c: Vec<u8> = vec![bump];
    proof {
        lemma_bytes_deep_view(a);
        lemma_bytes_deep_view(b);
        lemma_bytes_deep_view(c);
        assert(c@ =~= seq![bump]);
    }
    let s: Vec<Vec<u8>> = vec![a, b, c];
    assert(s.deep_view() =~= spec_manager_seeds(owner@, bump));
    s
}

/// The signer seeds of the asset account number `index` of `owner`:
/// `[b"nft", owner, index as little-endian bytes, [bump]]`.
pub fn asset_seeds(owner: &Address, index: u64, bump: u8) -> (s: Vec<Vec<u8>>)
    ensures
        s.deep_view() == spec_asset_seeds(owner@, index, bump),
        s@.len() == 4,
        s@[0]@ == seq![110u8, 102, 116],
        s@[1]@ == owner@,
        s@[2]@.len() == 8,
        spec_u64_from_le_bytes(s@[2]@) == index,
        s@[3]@ == seq![bump],
{
    proof {
        lemma_asset_seeds_layout(owner@, index, bump);
    }
    let a = asset_tag_bytes();
    let b = owner.to_vec();
    let c = u64_to_le_bytes(index);
    let d: Vec<u8> = vec![bump];
    proof {
        lemma_bytes_deep_view(a);
        lemma_bytes_deep_view(b);
        lemma_bytes_deep_view(c);
        lemma_bytes_deep_view(d);
        assert(d@ =~= seq![bump]);
    }
    let s: Vec<Vec<u8>> = vec![a, b, c, d];
    assert(s.deep_view() =~= spec_asset_seeds(owner@, index, bump));
    s
}

/// The signer seeds of the extra-account-meta list of `mint`:
/// `[b"extra-account-metas", mint, [bump]]`.
pub fn extra_account_metas_seeds(mint: &Address, bump: u8) -> (s: Vec<Vec<u8>>)
    ensures
        s.deep_view() == spec_extra_metas_seeds(mint@, bump),
        s@.len() == 3,
        s@[0]@ == seq![
            101u8, 120, 116, 114, 97, 45, 97, 99, 99, 111, 117, 110, 116, 45, 109, 101, 116, 97, 115,
        ],
        s@[1]@ == mint@,
        s@[2]@ == seq![bump],
{
    proof {
        lemma_extra_metas_seeds_layout(mint@, bump);
    }
    let a = extra_metas_tag_bytes();
    let b = mint.to_vec();
    let c: Vec<u8> = vec![bump];
    proof {
        lemma_bytes_deep_view(a);
        lemma_bytes_deep_view(b);
        lemma_bytes_deep_view(c);
        assert(c@ =~= seq![bump]);
    }
    let s: Vec<Vec<u8>> = vec![a, b, c];
    assert(s.deep_view() =~= spec_extra_metas_seeds(mint@, bump));
    s
}

/// The manager's seeds are the bytes of `manager`, the owner's bytes in
/// order, and the bump.
pub proof fn lemma_manager_seeds_layout(owner: Seq<u8>, bump: u8)
    ensures
        spec_manager_seeds(owner, bump).len() == 3,
        spec_manager_seeds(owner, bump)[0] == seq![109u8, 97, 110, 97, 103, 101, 114],
        spec_manager_seeds(owner, bump)[1] == owner,
        spec_manager_seeds(owner, bump)[2] == seq![bump],
{
}

/// An asset's seeds are the bytes of `nft`, the owner's bytes in order, the
/// index as eight little-endian bytes, and the bump.
pub proof fn lemma_asset_seeds_layout(owner: Seq<u8>, index: u64, bump: u8)
    ensures
        spec_asset_seeds(owner, index, bump).len() == 4,
        spec_asset_seeds(owner, index, bump)[0] == seq![110u8, 102, 116],
        spec_asset_seeds(owner, index, bump)[1] == owner,
        spec_asset_seeds(owner, index, bump)[2].len() == 8,
        spec_u64_from_le_bytes(spec_asset_seeds(owner, index, bump)[2]) == index,
        spec_asset_seeds(owner, index, bump)[3] == seq![bump],
{
    lemma_asset_seeds_encode_index(owner, index, bump);
}

/// The list's seeds are the bytes of `extra-account-metas`, the mint's
/// bytes in order, and the bump.
pub proof fn lemma_extra_metas_seeds_layout(mint: Seq<u8>, bump: u8)
    ensures
        spec_extra_metas_seeds(mint, bump).len() == 3,
        spec_extra_metas_seeds(mint, bump)[0] == seq![
            101u8, 120, 116, 114, 97, 45, 97, 99, 99, 111, 117, 110, 116, 45, 109, 101, 116, 97, 115,
        ],
        spec_extra_metas_seeds(mint, bump)[1] == mint,
        spec_extra_metas_seeds(mint, bump)[2] == seq![bump],
{
}

/// Asset seeds of different owners differ.
pub proof fn lemma_asset_seeds_distinguish_owners(a: Seq<u8>, b: Seq<u8>, i: u64, j: u64, bi: u8, bj: u8)
    requires
        a != b,
    ensures
        spec_asset_seeds(a, i, bi) != spec_asset_seeds(b, j, bj),
{
    lemma_asset_seeds_layout(a, i, bi);
    lemma_asset_seeds_layout(b, j, bj);
}

/// The index of an asset account can be read back from its seeds: the third
/// seed is the index in little-endian order, and it decodes to the index.
/// So two different indices never share their seeds.
pub proof fn lemma_asset_seeds_encode_index(owner: Seq<u8>, index: u64, bump: u8)
    ensures
        spec_asset_seeds(owner, index, bump)[2].len() == 8,
        spec_u64_from_le_bytes(spec_asset_seeds(owner, index, bump)[2]) == index,
{
    vstd::bytes::lemma_auto_spec_u64_to_from_le_bytes();
}

/// Asset seeds of different indices differ.
pub proof fn lemma_asset_seeds_injective(owner: Seq<u8>, i: u64, j: u64, bi: u8, bj: u8)
    requires
        i != j,
    ensures
        spec_asset_seeds(owner, i, bi) != spec_asset_seeds(owner, j, bj),
{
    lemma_asset_seeds_encode_index(owner, i, bi);
    lemma_asset_seeds_encode_index(owner, j, bj);
}

} // verus!
