use vstd::prelude::*;

use crate::address::Address;
use crate::hook::{
    action_index, action_seeds, lemma_step_acts_on_given_slot, spec_signer_seeds,
    HookActionView, INSPECTED_ASSETS, actions_left, count_owned, first_slot, lemma_count_owned_bounded, lemma_first_slot_exists,
    mint_scan_end, spec_direction, spec_plan_mint, spec_plan_transfer, spec_start, spec_step,
    AssetSlot, Direction, ErrorCode, HookAccounts, HookState, StepOutcomeView,
};

verus! {

/// How a run of the hook over a sequence of observations of the asset
/// slots ends.
pub enum RunEnd {
    /// The hook finished without error.
    Done,
    /// The hook stopped with an error.
    Failed(ErrorCode),
    /// The observations ran out before the hook finished.
    Unfinished,
}

/// The hook run from `state`, observing `observations[k]` before its k-th
/// step: the number of actions it asks for, and how the run ends.
pub open spec fn run(state: HookState, accounts: &HookAccounts, observations: Seq<Seq<AssetSlot>>) -> (nat, RunEnd)
    decreases observations.len(),
{
    if observations.len() == 0 {
        (0, RunEnd::Unfinished)
    } else {
        let (next, outcome) = spec_step(state, accounts, observations[0]);
        match outcome {
            StepOutcomeView::Done => (0, RunEnd::Done),
            StepOutcomeView::Fail(e) => (0, RunEnd::Failed(e)),
            StepOutcomeView::Act(_) => {
                let (n, end) = run(next, accounts, observations.drop_first());
                (n + 1, end)
            },
        }
    }
}

/// Each step that acts uses up one repetition; a step that finishes does so
/// only when none is left.
pub proof fn lemma_step_uses_one_repetition(state: HookState, accounts: &HookAccounts, slots: Seq<AssetSlot>)
    ensures
        spec_step(state, accounts, slots).1 is Act ==> actions_left(spec_step(state, accounts, slots).0)
            + 1 == actions_left(state),
        spec_step(state, accounts, slots).1 is Done <==> actions_left(state) == 0,
{
}

/// From any state, a run given enough observations ends, and it ends well
/// only after exactly as many actions as repetitions were left.
pub proof fn lemma_run_ends(state: HookState, accounts: &HookAccounts, observations: Seq<Seq<AssetSlot>>)
    requires
        observations.len() > actions_left(state),
    ensures
        !(run(state, accounts, observations).1 is Unfinished),
        run(state, accounts, observations).0 <= actions_left(state),
        run(state, accounts, observations).1 is Done ==> run(state, accounts, observations).0
            == actions_left(state),
    decreases observations.len(),
{
    let (next, outcome) = spec_step(state, accounts, observations[0]);
    lemma_step_uses_one_repetition(state, accounts, observations[0]);
    if outcome is Act {
        lemma_run_ends(next, accounts, observations.drop_first());
    }
}

/// A transfer hook for `amount` tokens in which the owner takes part asks
/// for exactly `amount / 9` transfers or mints when it succeeds, and for
/// none when the owner takes no part.
pub proof fn lemma_hook_repeats_amount_div_9(
    source: Address,
    destination: Address,
    owner: Address,
    amount: u64,
    accounts: &HookAccounts,
    observations: Seq<Seq<AssetSlot>>,
)
    requires
        observations.len() > amount / 9,
    ensures
        !(run(spec_start(source, destination, owner, amount), accounts, observations).1 is Unfinished),
        run(spec_start(source, destination, owner, amount), accounts, observations).1 is Done ==> run(
            spec_start(source, destination, owner, amount),
            accounts,
            observations,
        ).0 == if spec_direction(source, destination, owner) == Direction::Neither {
            0
        } else {
            amount / 9
        },
{
    lemma_run_ends(spec_start(source, destination, owner, amount), accounts, observations);
}

/// A mint fails exactly when every slot that has a bump holds data.
pub proof fn lemma_mint_fails_iff_full(accounts: &HookAccounts, slots: Seq<AssetSlot>)
    ensures
        spec_plan_mint(accounts, slots) is Err <==> forall|j: int|
            0 <= j < slots.len() && j < accounts.asset_bumps@.len() ==> #[trigger] slots[j].has_data,
{
    lemma_first_slot_exists(slots, false);
    if spec_plan_mint(accounts, slots) is Err {
        assert forall|j: int|
            0 <= j < slots.len() && j < accounts.asset_bumps@.len() implies #[trigger] slots[j].has_data by {
            if !slots[j].has_data {
                let i = first_slot(slots, false)->0;
                assert(i <= j);
            }
        }
    }
}

/// A transfer fails exactly when no slot that has a bump holds data.
pub proof fn lemma_transfer_fails_iff_empty(accounts: &HookAccounts, slots: Seq<AssetSlot>)
    ensures
        spec_plan_transfer(accounts, slots) is Err <==> forall|j: int|
            0 <= j < slots.len() && j < accounts.asset_bumps@.len() ==> !#[trigger] slots[j].has_data,
{
    lemma_first_slot_exists(slots, true);
    if spec_plan_transfer(accounts, slots) is Err {
        assert forall|j: int|
            0 <= j < slots.len() && j < accounts.asset_bumps@.len() implies !#[trigger] slots[j].has_data by {
            if slots[j].has_data {
                let i = first_slot(slots, true)->0;
                assert(i <= j);
            }
        }
    }
}

/// Once the slot that a mint chose holds the new asset, the next mint
/// chooses a later slot, and a transfer finds an asset at or before it.
pub proof fn lemma_mint_moves_to_next_slot(accounts: &HookAccounts, slots: Seq<AssetSlot>)
    requires
        spec_plan_mint(accounts, slots) is Ok,
    ensures
        ({
            let i = spec_plan_mint(accounts, slots)->Ok_0.index as int;
            let after = slots.update(i, AssetSlot { key: slots[i].key, has_data: true });
            &&& spec_plan_mint(accounts, after) matches Ok(p) ==> p.index > i
            &&& spec_plan_transfer(accounts, after) matches Ok(p) ==> p.index <= i
            &&& spec_plan_transfer(accounts, after) is Ok
        }),
{
    let i = first_slot(slots, false)->0;
    lemma_first_slot_exists(slots, false);
    assert(accounts.asset_bumps@.len() == accounts.asset_bumps.len());
    let after = slots.update(i, AssetSlot { key: slots[i].key, has_data: true });
    lemma_first_slot_exists(after, false);
    lemma_first_slot_exists(after, true);
    assert(after[i].has_data);
    if let Some(j) = first_slot(after, false) {
        if j <= i {
            assert(after[j].has_data == slots[j].has_data);
        }
    }
    let t = first_slot(after, true)->0;
    assert(t <= i);
}

/// From one observation, a transfer and a mint never choose the same slot.
pub proof fn lemma_transfer_and_mint_differ(accounts: &HookAccounts, slots: Seq<AssetSlot>)
    ensures
        spec_plan_transfer(accounts, slots) matches Ok(t) ==> (spec_plan_mint(accounts, slots) matches Ok(
            m,
        ) ==> t.index != m.index),
{
    lemma_first_slot_exists(slots, true);
    lemma_first_slot_exists(slots, false);
    assert(accounts.asset_bumps@.len() == accounts.asset_bumps.len());
}

/// When there are fewer than ten slots, the count of assets already held by
/// the manager's owner never reaches ten, so a mint only fails for want of
/// an empty slot.
pub proof fn lemma_owned_count_below_ten(slots: Seq<AssetSlot>, manager_owner: Address)
    requires
        slots.len() < 10,
    ensures
        count_owned(slots.subrange(0, mint_scan_end(slots)), manager_owner) < 10,
{
    lemma_first_slot_exists(slots, false);
    lemma_count_owned_bounded(slots.subrange(0, mint_scan_end(slots)), manager_owner);
}

/// The hook only ever acts on the inspected asset accounts `asset_0` to
/// `asset_4`: every call it plans names one of them, and signs with the
/// manager's seeds and that asset's seeds
/// `[b"nft", owner, index as little-endian bytes, [its bump]]`.
pub proof fn lemma_hook_acts_on_inspected_assets(state: HookState, accounts: &HookAccounts, slots: Seq<AssetSlot>)
    requires
        slots.len() == INSPECTED_ASSETS,
    ensures
        spec_step(state, accounts, slots).1 matches StepOutcomeView::Act(a) ==> {
            &&& action_index(a) < INSPECTED_ASSETS
            &&& action_seeds(a) == spec_signer_seeds(
                accounts.owner,
                accounts.manager_bump,
                action_index(a),
                accounts.asset_bumps@[action_index(a) as int],
            )
        },
{
    lemma_step_acts_on_given_slot(state, accounts, slots);
}

/// The slots after an asset was created in slot `i`.
pub open spec fn filled(slots: Seq<AssetSlot>, i: int) -> Seq<AssetSlot> {
    slots.update(i, AssetSlot { key: slots[i].key, has_data: true })
}

/// A slot that a mint can use: empty, and with a known bump.
pub open spec fn mintable(accounts: &HookAccounts, slots: Seq<AssetSlot>, j: int) -> bool {
    0 <= j < slots.len() && j < accounts.asset_bumps@.len() && !slots[j].has_data
}

/// A run of minting steps in which each created asset fills its slot before
/// the next step: the slot indices minted, in order, and how the run ends.
pub open spec fn mint_run(state: HookState, accounts: &HookAccounts, slots: Seq<AssetSlot>) -> (Seq<int>, RunEnd)
    decreases state.remaining,
{
    if actions_left(state) == 0 || state.direction != Direction::MintIn {
        (Seq::empty(), RunEnd::Done)
    } else {
        match spec_plan_mint(accounts, slots) {
            Err(e) => (Seq::empty(), RunEnd::Failed(e)),
            Ok(p) => {
                let next = HookState { direction: state.direction, remaining: (state.remaining - 1) as u64 };
                let (rest, end) = mint_run(next, accounts, filled(slots, p.index as int));
                (seq![p.index as int] + rest, end)
            },
        }
    }
}

/// `mint_run` follows the hook's steps.
pub proof fn lemma_mint_run_follows_steps(state: HookState, accounts: &HookAccounts, slots: Seq<AssetSlot>)
    requires
        state.direction == Direction::MintIn,
        actions_left(state) > 0,
    ensures
        spec_step(state, accounts, slots).1 matches StepOutcomeView::Act(HookActionView::Mint(p)) ==> {
            &&& spec_plan_mint(accounts, slots) == Ok::<_, ErrorCode>(p)
            &&& spec_step(state, accounts, slots).0 == HookState {
                direction: state.direction,
                remaining: (state.remaining - 1) as u64,
            }
        },
        spec_step(state, accounts, slots).1 matches StepOutcomeView::Fail(e) ==> spec_plan_mint(
            accounts,
            slots,
        ) == Err::<crate::hook::MintPlanView, _>(e),
{
}

/// Successive mints, each filling the slot it created its asset in, take
/// the mintable slots in ascending order without skipping one. The run
/// finishes after as many mints as repetitions, or fails with
/// `NoAvailableIndex` once every mintable slot has been used.
pub proof fn lemma_mints_take_empty_slots_in_order(
    state: HookState,
    accounts: &HookAccounts,
    slots: Seq<AssetSlot>,
)
    requires
        state.direction == Direction::MintIn,
    ensures
        ({
            let (minted, end) = mint_run(state, accounts, slots);
            &&& forall|a: int, b: int| 0 <= a < b < minted.len() ==> minted[a] < minted[b]
            &&& forall|k: int| 0 <= k < minted.len() ==> #[trigger] mintable(accounts, slots, minted[k])
            &&& forall|j: int|
                mintable(accounts, slots, j) && !minted.contains(j) ==> forall|k: int|
                    0 <= k < minted.len() ==> minted[k] < j
            &&& end is Done ==> minted.len() == actions_left(state)
            &&& end matches RunEnd::Failed(e) ==> e == ErrorCode::NoAvailableIndex && forall|j: int|
                mintable(accounts, slots, j) ==> minted.contains(j)
            &&& !(end is Unfinished)
        }),
    decreases state.remaining,
{
    lemma_first_slot_exists(slots, false);
    assert(accounts.asset_bumps@.len() == accounts.asset_bumps.len());
    if actions_left(state) == 0 {
    } else {
        match spec_plan_mint(accounts, slots) {
            Err(e) => {
                assert forall|j: int| mintable(accounts, slots, j) implies false by {
                    let i = first_slot(slots, false)->0;
                    assert(i <= j);
                }
            },
            Ok(p) => {
                let i = p.index as int;
                assert(mintable(accounts, slots, i));
                let next = HookState { direction: state.direction, remaining: (state.remaining - 1) as u64 };
                let after = filled(slots, i);
                lemma_mints_take_empty_slots_in_order(next, accounts, after);
                let (rest, end) = mint_run(next, accounts, after);
                let minted = seq![i] + rest;
                assert(mint_run(state, accounts, slots) == (minted, end));
                // every slot mintable after the fill was mintable before, and lies past i
                assert forall|j: int| mintable(accounts, after, j) implies mintable(accounts, slots, j)
                    && i < j by {
                    assert(after[j] == slots[j]);
                    let f = first_slot(slots, false)->0;
                    assert(f == i);
                }
                assert forall|k: int| 0 <= k < rest.len() implies i < #[trigger] rest[k] by {
                    assert(mintable(accounts, after, rest[k]));
                }
                assert forall|a: int, b: int| 0 <= a < b < minted.len() implies minted[a] < minted[b] by {
                    if a == 0 {
                        assert(minted[b] == rest[b - 1]);
                    } else {
                        assert(minted[a] == rest[a - 1]);
                        assert(minted[b] == rest[b - 1]);
                    }
                }
                assert forall|k: int| 0 <= k < minted.len() implies #[trigger] mintable(
                    accounts,
                    slots,
                    minted[k],
                ) by {
                    if k > 0 {
                        assert(minted[k] == rest[k - 1]);
                        assert(mintable(accounts, after, rest[k - 1]));
                    }
                }
                assert forall|j: int| mintable(accounts, slots, j) && !minted.contains(j) implies forall|k: int|
                    0 <= k < minted.len() ==> minted[k] < j by {
                    assert(j != i) by {
                        assert(minted[0] == i);
                    }
                    assert(mintable(accounts, after, j));
                    assert(!rest.contains(j)) by {
                        if rest.contains(j) {
                            let k = choose|k: int| 0 <= k < rest.len() && rest[k] == j;
                            assert(minted[k + 1] == j);
                        }
                    }
                    let f = first_slot(slots, false)->0;
                    assert(f <= j);
                    assert forall|k: int| 0 <= k < minted.len() implies minted[k] < j by {
                        if k > 0 {
                            assert(minted[k] == rest[k - 1]);
                        }
                    }
                }
                if end is Failed {
                    assert forall|j: int| mintable(accounts, slots, j) implies minted.contains(j) by {
                        if j == i {
                            assert(minted[0] == j);
                        } else {
                            assert(after[j] == slots[j]);
                            assert(mintable(accounts, after, j));
                            assert(forall|jj: int| mintable(accounts, after, jj) ==> rest.contains(jj));
                            assert(rest.contains(j));
                            let k = choose|k: int| 0 <= k < rest.len() && rest[k] == j;
                            assert(minted[k + 1] == j);
                        }
                    }
                }
            },
        }
    }
}

} // verus!
