use nft_manager::manager::{initialize, Manager};
use nft_manager::meta_list::{
    extra_account_metas, write_extra_account_meta_list, MetaListError,
    EXTRA_ACCOUNT_META_LIST_SIZE,
};
use nft_manager::seeds::{
    asset_seeds, extra_account_metas_seeds, manager_seeds, MANAGER_ACCOUNT_SPACE, SEED,
};
use nft_manager::Address;

const MPL_CORE: [u8; 32] = [
    175, 84, 171, 16, 189, 151, 165, 66, 160, 158, 247, 179, 152, 137, 221, 12, 211, 148, 164,
    204, 233, 223, 166, 205, 201, 126, 190, 45, 35, 91, 167, 72,
];
const ATA: [u8; 32] = [
    140, 151, 37, 143, 78, 36, 137, 241, 187, 61, 16, 41, 20, 142, 13, 131, 11, 90, 19, 153, 218,
    255, 16, 132, 4, 142, 123, 216, 219, 233, 248, 89,
];

fn entry(key: &[u8; 32], writable: bool) -> Vec<u8> {
    let mut v = vec![0u8];
    v.extend_from_slice(key);
    v.push(0);
    v.push(if writable { 1 } else { 0 });
    v
}

fn expected_list(len: usize) -> Vec<u8> {
    let mut v = vec![105u8, 37, 101, 197, 75, 251, 102, 26];
    v.extend_from_slice(&(4u32 + 35 * 3).to_le_bytes());
    v.extend_from_slice(&3u32.to_le_bytes());
    v.extend(entry(&MPL_CORE, true));
    v.extend(entry(&ATA, true));
    v.extend(entry(&[0u8; 32], false));
    v.resize(len, 0);
    v
}

#[test]
fn initialize_records_owner() {
    let mut m = Manager { owner: Address::new([0; 32]) };
    initialize(&mut m, &Address::new([5; 32]));
    assert!(m.owner.same(&Address::new([5; 32])));
}

#[test]
fn constants() {
    assert_eq!(SEED, "AUTH");
    assert_eq!(MANAGER_ACCOUNT_SPACE, 3248);
    assert_eq!(EXTRA_ACCOUNT_META_LIST_SIZE, 3);
}

#[test]
fn seeds_layouts() {
    let owner = Address::new([4; 32]);
    assert_eq!(manager_seeds(&owner, 9), vec![b"manager".to_vec(), vec![4; 32], vec![9]]);
    assert_eq!(
        asset_seeds(&owner, 3, 8),
        vec![b"nft".to_vec(), vec![4; 32], vec![3, 0, 0, 0, 0, 0, 0, 0], vec![8]]
    );
    assert_eq!(
        asset_seeds(&owner, 0x0102030405060708, 1)[2],
        vec![8, 7, 6, 5, 4, 3, 2, 1]
    );
    assert_eq!(
        extra_account_metas_seeds(&owner, 254),
        vec![b"extra-account-metas".to_vec(), vec![4; 32], vec![254]]
    );
}

#[test]
fn extra_metas_name_the_three_programs() {
    let metas = match extra_account_metas() {
        Ok(v) => v,
        Err(_) => panic!("the metas always build"),
    };
    assert_eq!(metas.len(), 3);
    assert_eq!(metas[0].address_config, MPL_CORE);
    assert_eq!(metas[1].address_config, ATA);
    assert_eq!(metas[2].address_config, [0u8; 32]);
    assert!(metas.iter().all(|m| m.discriminator == 0 && !m.is_signer));
    assert!(metas[0].is_writable && metas[1].is_writable && !metas[2].is_writable);
}

#[test]
fn list_written_into_large_enough_account() {
    let mut data = vec![0u8; 121];
    assert!(write_extra_account_meta_list(&mut data).is_ok());
    assert_eq!(data, expected_list(121));
    let mut roomy = vec![0u8; 200];
    assert!(write_extra_account_meta_list(&mut roomy).is_ok());
    assert_eq!(roomy, expected_list(200));
}

#[test]
fn list_refused_by_created_account_size() {
    let mut data = vec![0u8; EXTRA_ACCOUNT_META_LIST_SIZE as usize];
    match write_extra_account_meta_list(&mut data) {
        Err(MetaListError::InvalidAccountData) => {}
        Err(MetaListError::Program(_)) => panic!("the refusal is invalid account data"),
        Ok(()) => panic!("three bytes cannot hold the list"),
    }
    assert_eq!(data, vec![0u8; 3]);
}

#[test]
fn list_too_short_writes_header_only() {
    let mut data = vec![0u8; 120];
    assert!(matches!(
        write_extra_account_meta_list(&mut data),
        Err(MetaListError::InvalidAccountData)
    ));
    let mut expected = vec![105u8, 37, 101, 197, 75, 251, 102, 26];
    expected.extend_from_slice(&109u32.to_le_bytes());
    expected.resize(120, 0);
    assert_eq!(data, expected);
}

#[test]
fn list_refused_without_data() {
    let mut data: Vec<u8> = Vec::new();
    assert!(matches!(
        write_extra_account_meta_list(&mut data),
        Err(MetaListError::InvalidAccountData)
    ));
    assert!(data.is_empty());
}
