use nft_manager::hook::{
    find_first_slot, hook_repetitions, plan_mint, plan_transfer, scan_for_mint,
    transfer_direction, AssetSlot, Direction, ErrorCode, HookAccounts, HookAction, HookState,
    PluginKind, StepOutcome,
};
use nft_manager::Address;

fn addr(b: u8) -> Address {
    Address::new([b; 32])
}

fn slot(b: u8, has_data: bool) -> AssetSlot {
    AssetSlot { key: addr(b), has_data }
}

fn accounts() -> HookAccounts {
    HookAccounts {
        owner: addr(1),
        manager: addr(2),
        manager_owner: addr(1),
        manager_bump: 250,
        asset_bumps: vec![200, 201, 202, 203, 204, 205, 206, 207, 208, 209],
    }
}

fn five_slots(occupied: [bool; 5]) -> Vec<AssetSlot> {
    (0..5).map(|i| slot(10 + i as u8, occupied[i])).collect()
}

fn manager_seed_bytes() -> Vec<Vec<u8>> {
    vec![b"manager".to_vec(), vec![1u8; 32], vec![250]]
}

fn asset_seed_bytes(index: u64, bump: u8) -> Vec<Vec<u8>> {
    vec![b"nft".to_vec(), vec![1u8; 32], index.to_le_bytes().to_vec(), vec![bump]]
}

#[test]
fn direction_source_owner_is_transfer_out() {
    assert_eq!(transfer_direction(&addr(1), &addr(2), &addr(1)), Direction::TransferOut);
}

#[test]
fn direction_destination_owner_is_mint_in() {
    assert_eq!(transfer_direction(&addr(3), &addr(1), &addr(1)), Direction::MintIn);
}

#[test]
fn direction_source_wins_over_destination() {
    assert_eq!(transfer_direction(&addr(1), &addr(1), &addr(1)), Direction::TransferOut);
}

#[test]
fn direction_neither() {
    assert_eq!(transfer_direction(&addr(3), &addr(4), &addr(1)), Direction::Neither);
}

#[test]
fn address_same_differs_in_last_byte() {
    let mut bytes = [7u8; 32];
    let a = Address::new(bytes);
    bytes[31] = 8;
    let b = Address::new(bytes);
    assert!(a.same(&a));
    assert!(!a.same(&b));
    assert_eq!(a.to_vec(), vec![7u8; 32]);
}

#[test]
fn repetitions_are_amount_over_nine() {
    assert_eq!(hook_repetitions(0), 0);
    assert_eq!(hook_repetitions(8), 0);
    assert_eq!(hook_repetitions(9), 1);
    assert_eq!(hook_repetitions(20), 2);
    assert_eq!(hook_repetitions(u64::MAX), u64::MAX / 9);
}

#[test]
fn first_slot_found_from_the_front() {
    let slots = five_slots([false, false, true, false, true]);
    assert_eq!(find_first_slot(&slots, true), Some(2));
    assert_eq!(find_first_slot(&slots, false), Some(0));
    let full = five_slots([true; 5]);
    assert_eq!(find_first_slot(&full, false), None);
    assert_eq!(find_first_slot(&Vec::new(), true), None);
}

#[test]
fn mint_scan_counts_owner_assets_before_first_empty() {
    let slots = vec![slot(1, true), slot(9, true), slot(1, true), slot(5, false), slot(1, true)];
    assert_eq!(scan_for_mint(&slots, &addr(1)), (Some(3), 2));
    let full = vec![slot(1, true), slot(1, true), slot(2, true)];
    assert_eq!(scan_for_mint(&full, &addr(1)), (None, 2));
}

#[test]
fn transfer_takes_first_asset_with_data() {
    let slots = five_slots([false, true, true, false, false]);
    let p = plan_transfer(&accounts(), &slots).ok().unwrap();
    assert_eq!(p.index, 1);
    assert!(p.asset.same(&addr(11)));
    assert!(p.payer.same(&addr(1)));
    assert!(p.new_owner.same(&addr(2)));
    assert_eq!(p.signer_seeds, vec![manager_seed_bytes(), asset_seed_bytes(1, 201)]);
}

#[test]
fn transfer_with_no_asset_fails() {
    let slots = five_slots([false; 5]);
    assert_eq!(plan_transfer(&accounts(), &slots).err(), Some(ErrorCode::NoNFTsAvailable));
}

#[test]
fn transfer_beyond_known_bumps_fails() {
    let mut acc = accounts();
    acc.asset_bumps = vec![200];
    let slots = five_slots([false, true, false, false, false]);
    assert_eq!(plan_transfer(&acc, &slots).err(), Some(ErrorCode::NoAvailableIndex));
}

#[test]
fn mint_takes_first_empty_slot() {
    let mut acc = accounts();
    acc.manager_owner = addr(9);
    let slots = five_slots([true, true, false, true, false]);
    let p = plan_mint(&acc, &slots).ok().unwrap();
    assert_eq!(p.index, 2);
    assert!(p.asset.same(&addr(12)));
    assert!(p.authority.same(&addr(2)));
    assert!(p.owner.same(&addr(1)));
    assert!(p.payer.same(&addr(1)));
    assert_eq!(p.name, "name");
    assert_eq!(p.uri, "uri");
    assert_eq!(p.plugins.len(), 2);
    assert_eq!(p.plugins[0].plugin, PluginKind::PermanentFreezeDelegate { frozen: true });
    assert!(p.plugins[0].authority.same(&addr(9)));
    assert_eq!(p.plugins[1].plugin, PluginKind::PermanentTransferDelegate);
    assert!(p.plugins[1].authority.same(&addr(9)));
    assert_eq!(p.signer_seeds, vec![manager_seed_bytes(), asset_seed_bytes(2, 202)]);
}

#[test]
fn mint_with_all_slots_used_fails() {
    let slots = five_slots([true; 5]);
    assert_eq!(plan_mint(&accounts(), &slots).err(), Some(ErrorCode::NoAvailableIndex));
}

#[test]
fn mint_with_ten_owned_assets_fails() {
    let slots: Vec<AssetSlot> = (0..12).map(|_| slot(1, true)).collect();
    assert_eq!(scan_for_mint(&slots, &addr(1)), (None, 12));
    assert_eq!(plan_mint(&accounts(), &slots).err(), Some(ErrorCode::NoAvailableIndex));
}

#[test]
fn mint_beyond_known_bumps_fails() {
    let slots: Vec<AssetSlot> = (0..12).map(|i| slot(3, i != 10)).collect();
    assert_eq!(plan_mint(&accounts(), &slots).err(), Some(ErrorCode::NoAvailableIndex));
}

#[test]
fn hook_mints_once_per_nine_tokens() {
    let acc = accounts();
    let mut slots = five_slots([false; 5]);
    let mut state = HookState::start(&addr(3), &addr(1), &addr(1), 27);
    assert_eq!(state, HookState { direction: Direction::MintIn, remaining: 3 });
    let mut minted = Vec::new();
    loop {
        let (next, outcome) = state.step(&acc, &slots);
        match outcome {
            StepOutcome::Act(HookAction::Mint(p)) => {
                slots[p.index as usize].has_data = true;
                minted.push(p.index);
            }
            StepOutcome::Done => break,
            _ => panic!("unexpected outcome"),
        }
        state = next;
    }
    assert_eq!(minted, vec![0, 1, 2]);
    assert_eq!(state.remaining, 0);
}

#[test]
fn hook_transfers_first_asset_each_time() {
    let acc = accounts();
    let slots = five_slots([false, false, true, true, false]);
    let mut state = HookState::start(&addr(1), &addr(4), &addr(1), 18);
    let mut moved = Vec::new();
    loop {
        let (next, outcome) = state.step(&acc, &slots);
        match outcome {
            StepOutcome::Act(HookAction::Transfer(p)) => moved.push(p.index),
            StepOutcome::Done => break,
            _ => panic!("unexpected outcome"),
        }
        state = next;
    }
    assert_eq!(moved, vec![2, 2]);
}

#[test]
fn hook_mint_fails_when_full() {
    let acc = accounts();
    let slots = five_slots([true; 5]);
    let state = HookState::start(&addr(3), &addr(1), &addr(1), 9);
    let (next, outcome) = state.step(&acc, &slots);
    assert!(matches!(outcome, StepOutcome::Fail(ErrorCode::NoAvailableIndex)));
    assert_eq!(next, state);
}

#[test]
fn hook_does_nothing_for_strangers_or_small_amounts() {
    let acc = accounts();
    let slots = five_slots([false; 5]);
    let stranger = HookState::start(&addr(3), &addr(4), &addr(1), 90);
    assert!(matches!(stranger.step(&acc, &slots).1, StepOutcome::Done));
    let small = HookState::start(&addr(1), &addr(4), &addr(1), 8);
    assert!(matches!(small.step(&acc, &slots).1, StepOutcome::Done));
}

#[test]
fn transfer_and_mint_choose_different_slots() {
    let slots = five_slots([false, true, false, true, true]);
    let t = plan_transfer(&accounts(), &slots).ok().unwrap();
    let m = plan_mint(&accounts(), &slots).ok().unwrap();
    assert_eq!(t.index, 1);
    assert_eq!(m.index, 0);
}

#[test]
fn mint_after_filling_slot_moves_on() {
    let mut slots = five_slots([true, false, false, true, false]);
    let first = plan_mint(&accounts(), &slots).ok().unwrap();
    assert_eq!(first.index, 1);
    slots[1].has_data = true;
    let second = plan_mint(&accounts(), &slots).ok().unwrap();
    assert_eq!(second.index, 2);
    assert_eq!(plan_transfer(&accounts(), &slots).ok().unwrap().index, 0);
}

#[test]
fn hook_transfer_out_with_no_asset_fails() {
    let acc = accounts();
    let slots = five_slots([false; 5]);
    let state = HookState::start(&addr(1), &addr(2), &addr(1), 9);
    let (next, outcome) = state.step(&acc, &slots);
    assert!(matches!(outcome, StepOutcome::Fail(ErrorCode::NoNFTsAvailable)));
    assert_eq!(next, state);
}

#[test]
fn mints_take_empty_slots_in_order_then_fail() {
    let acc = accounts();
    let mut slots = five_slots([true, false, true, false, false]);
    let mut state = HookState::start(&addr(3), &addr(1), &addr(1), 45);
    let mut minted = Vec::new();
    let error = loop {
        let (next, outcome) = state.step(&acc, &slots);
        match outcome {
            StepOutcome::Act(HookAction::Mint(p)) => {
                assert!(p.index < nft_manager::hook::INSPECTED_ASSETS as u64);
                assert_eq!(
                    p.signer_seeds,
                    vec![manager_seed_bytes(), asset_seed_bytes(p.index, 200 + p.index as u8)]
                );
                slots[p.index as usize].has_data = true;
                minted.push(p.index);
            }
            StepOutcome::Fail(e) => break e,
            _ => panic!("unexpected outcome"),
        }
        state = next;
    };
    assert_eq!(minted, vec![1, 3, 4]);
    assert_eq!(error, ErrorCode::NoAvailableIndex);
    assert_eq!(state.remaining, 2);
}
