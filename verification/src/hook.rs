use vstd::prelude::*;

use crate::address::Address;
use crate::seeds::{asset_seeds, manager_seeds, spec_asset_seeds, spec_manager_seeds};

verus! {

/// Errors that the transfer hook reports.
#[derive(PartialEq, Eq, Structural, Clone, Copy, Debug)]
pub enum ErrorCode {
    /// No NFTs available to transfer.
    NoNFTsAvailable,
    /// Invalid NFT.
    InvalidNFT,
    /// No available index to mint.
    NoAvailableIndex,
}

/// Which way a token transfer goes, seen from the owner of the manager.
#[derive(PartialEq, Eq, Structural, Clone, Copy, Debug)]
pub enum Direction {
    /// The owner is the source: an NFT is transferred out to the manager.
    TransferOut,
    /// The owner is the destination: an NFT is minted to the owner.
    MintIn,
    /// The owner takes no part: the hook does nothing.
    Neither,
}

/// The direction of a transfer from `source` to `destination` for `owner`.
/// A transfer whose source is the owner is a transfer out, whatever its
/// destination; otherwise one whose destination is the owner is a mint.
pub open spec fn spec_direction(source: Address, destination: Address, owner: Address) -> Direction {
    if source == owner {
        Direction::TransferOut
    } else if destination == owner {
        Direction::MintIn
    } else {
        Direction::Neither
    }
}

/// The direction is decided by address equality alone: a transfer from the
/// owner goes out, whatever its destination; one to the owner from someone
/// else mints; any other leaves the hook idle.
pub proof fn lemma_direction_by_equality(source: Address, destination: Address, owner: Address)
    ensures
        spec_direction(owner, destination, owner) == Direction::TransferOut,
        (spec_direction(source, destination, owner) == Direction::TransferOut) == (source == owner),
        (spec_direction(source, destination, owner) == Direction::MintIn) == (source != owner
            && destination == owner),
        (spec_direction(source, destination, owner) == Direction::Neither) == (source != owner
            && destination != owner),
{
}

/// The direction of a transfer from `source` to `destination` for `owner`.
pub fn transfer_direction(source: &Address, destination: &Address, owner: &Address) -> (d: Direction)
    ensures
        d == spec_direction(*source, *destination, *owner),
        (d == Direction::TransferOut) == (*source == *owner),
        (d == Direction::MintIn) == (*source != *owner && *destination == *owner),
        (d == Direction::Neither) == (*source != *owner && *destination != *owner),
{
    proof {
        lemma_direction_by_equality(*source, *destination, *owner);
    }
    if source.same(owner) {
        Direction::TransferOut
    } else if destination.same(owner) {
        Direction::MintIn
    } else {
        Direction::Neither
    }
}

/// The number of asset accounts that the hook inspects: `asset_0` to
/// `asset_4`.
pub const INSPECTED_ASSETS: usize = 5;

/// How many times the hook repeats its work for a transferred `amount`:
/// one NFT for every nine tokens, rounded down.
pub fn hook_repetitions(amount: u64) -> (n: u64)
    ensures
        n == amount / 9,
{
    amount / 9
}

/// What the hook knows of one asset account: its address and whether it
/// holds data (an existing asset) or is empty (free to mint into).
#[derive(Clone, Copy, Debug)]
pub struct AssetSlot {
    pub key: Address,
    pub has_data: bool,
}

/// `i` is the first slot whose `has_data` equals `occupied`.
pub open spec fn is_first_slot(slots: Seq<AssetSlot>, occupied: bool, i: int) -> bool {
    &&& 0 <= i < slots.len()
    &&& slots[i].has_data == occupied
    &&& forall|j: int| 0 <= j < i ==> #[trigger] slots[j].has_data != occupied
}

/// The first slot whose `has_data` equals `occupied`, if there is one.
pub open spec fn first_slot(slots: Seq<AssetSlot>, occupied: bool) -> Option<int> {
    if exists|i: int| is_first_slot(slots, occupied, i) {
        Some(choose|i: int| is_first_slot(slots, occupied, i))
    } else {
        None
    }
}

/// There is at most one first slot.
pub proof fn lemma_first_slot_unique(slots: Seq<AssetSlot>, occupied: bool, i: int, k: int)
    requires
        is_first_slot(slots, occupied, i),
        is_first_slot(slots, occupied, k),
    ensures
        i == k,
{
    if i < k {
        assert(slots[i].has_data != occupied);
    } else if k < i {
        assert(slots[k].has_data != occupied);
    }
}

/// Below any slot with the wanted state lies a first one.
proof fn lemma_first_slot_below(slots: Seq<AssetSlot>, occupied: bool, j: int)
    requires
        0 <= j < slots.len(),
        slots[j].has_data == occupied,
    ensures
        exists|i: int| 0 <= i <= j && is_first_slot(slots, occupied, i),
    decreases j,
{
    if exists|k: int| 0 <= k < j && #[trigger] slots[k].has_data == occupied {
        let k = choose|k: int| 0 <= k < j && #[trigger] slots[k].has_data == occupied;
        lemma_first_slot_below(slots, occupied, k);
    } else {
        assert(is_first_slot(slots, occupied, j));
    }
}

/// `first_slot` finds a slot exactly when one has the wanted state.
pub proof fn lemma_first_slot_exists(slots: Seq<AssetSlot>, occupied: bool)
    ensures
        first_slot(slots, occupied) is None <==> forall|j: int|
            0 <= j < slots.len() ==> #[trigger] slots[j].has_data != occupied,
        first_slot(slots, occupied) matches Some(i) ==> is_first_slot(slots, occupied, i),
{
    if exists|j: int| 0 <= j < slots.len() && #[trigger] slots[j].has_data == occupied {
        let j = choose|j: int| 0 <= j < slots.len() && #[trigger] slots[j].has_data == occupied;
        lemma_first_slot_below(slots, occupied, j);
    }
}

/// Scans the slots from the front for the first one whose `has_data`
/// equals `occupied`.
pub fn find_first_slot(slots: &Vec<AssetSlot>, occupied: bool) -> (r: Option<usize>)
    ensures
        r matches Some(i) ==> first_slot(slots@, occupied) == Some(i as int),
        r is None ==> first_slot(slots@, occupied) is None,
        r matches Some(i) ==> i < slots@.len() && slots@[i as int].has_data == occupied,
        r matches Some(i) ==> forall|j: int| 0 <= j < i ==> #[trigger] slots@[j].has_data != occupied,
        r is None ==> forall|j: int| 0 <= j < slots@.len() ==> #[trigger] slots@[j].has_data != occupied,
{
    let mut i: usize = 0;
    while i < slots.len()
        invariant
            0 <= i <= slots.len(),
            forall|j: int| 0 <= j < i ==> #[trigger] slots@[j].has_data != occupied,
        decreases slots.len() - i,
    {
        if slots[i].has_data == occupied {
            proof {
                assert(is_first_slot(slots@, occupied, i as int));
                let k = choose|k: int| is_first_slot(slots@, occupied, k);
                lemma_first_slot_unique(slots@, occupied, i as int, k);
            }
            return Some(i);
        }
        i = i + 1;
    }
    proof {
        lemma_first_slot_exists(slots@, occupied);
    }
    None
}

/// The number of slots among `slots` whose address is `owner`.
pub open spec fn count_owned(slots: Seq<AssetSlot>, owner: Address) -> nat
    decreases slots.len(),
{
    if slots.len() == 0 {
        0
    } else {
        count_owned(slots.drop_last(), owner) + if slots.last().key == owner {
            1nat
        } else {
            0nat
        }
    }
}

/// Where the scan for a mint stops: at the first empty slot, or after the
/// last slot when none is empty.
pub open spec fn mint_scan_end(slots: Seq<AssetSlot>) -> int {
    match first_slot(slots, false) {
        Some(i) => i,
        None => slots.len() as int,
    }
}

/// A slot never holds more addresses equal to `owner` than it has slots.
pub proof fn lemma_count_owned_bounded(slots: Seq<AssetSlot>, owner: Address)
    ensures
        count_owned(slots, owner) <= slots.len(),
    decreases slots.len(),
{
    if slots.len() > 0 {
        lemma_count_owned_bounded(slots.drop_last(), owner);
    }
}

/// Scans the slots for a mint: stops at the first empty slot and counts,
/// among the occupied slots before it, those whose address is `manager_owner`.
pub fn scan_for_mint(slots: &Vec<AssetSlot>, manager_owner: &Address) -> (r: (Option<usize>, u64))
    ensures
        r.0 matches Some(i) ==> first_slot(slots@, false) == Some(i as int),
        r.0 is None ==> first_slot(slots@, false) is None,
        r.1 == count_owned(slots@.subrange(0, mint_scan_end(slots@)), *manager_owner),
{
    let mut owned: u64 = 0;
    let mut i: usize = 0;
    while i < slots.len()
        invariant
            0 <= i <= slots.len(),
            forall|j: int| 0 <= j < i ==> #[trigger] slots@[j].has_data,
            owned == count_owned(slots@.subrange(0, i as int), *manager_owner),
            owned <= i,
        decreases slots.len() - i,
    {
        if !slots[i].has_data {
            proof {
                assert(is_first_slot(slots@, false, i as int));
                let k = choose|k: int| is_first_slot(slots@, false, k);
                lemma_first_slot_unique(slots@, false, i as int, k);
            }
            return (Some(i), owned);
        }
        proof {
            assert(slots@.subrange(0, i as int + 1).drop_last() =~= slots@.subrange(0, i as int));
        }
        if slots[i].key.same(manager_owner) {
            owned = owned + 1;
        }
        i = i + 1;
    }
    proof {
        lemma_first_slot_exists(slots@, false);
        assert(slots@.subrange(0, slots@.len() as int) =~= slots@);
    }
    (None, owned)
}

/// The bump of asset account `index`, when the hook knows one.
pub open spec fn bump_for(bumps: Seq<u8>, index: int) -> Option<u8> {
    if 0 <= index < bumps.len() {
        Some(bumps[index])
    } else {
        None
    }
}

/// The fixed facts of one call of the hook.
pub struct HookAccounts {
    /// The owner whose NFTs the manager handles.
    pub owner: Address,
    /// The address of the manager account.
    pub manager: Address,
    /// The owner recorded in the manager account.
    pub manager_owner: Address,
    /// The bump of the manager account.
    pub manager_bump: u8,
    /// The bump of asset account `i`, for each index `i` the hook knows.
    pub asset_bumps: Vec<u8>,
}

/// The signer seeds of a call that acts on asset `index`: those of the
/// manager, then those of the asset.
pub open spec fn spec_signer_seeds(owner: Address, manager_bump: u8, index: u64, asset_bump: u8) -> Seq<Seq<Seq<u8>>> {
    seq![spec_manager_seeds(owner@, manager_bump), spec_asset_seeds(owner@, index, asset_bump)]
}

fn signer_seeds(owner: &Address, manager_bump: u8, index: u64, asset_bump: u8) -> (s: Vec<Vec<Vec<u8>>>)
    ensures
        s.deep_view() == spec_signer_seeds(*owner, manager_bump, index, asset_bump),
{
    let m = manager_seeds(owner, manager_bump);
    let a = asset_seeds(owner, index, asset_bump);
    let s: Vec<Vec<Vec<u8>>> = vec![m, a];
    assert(s.deep_view() =~= spec_signer_seeds(*owner, manager_bump, index, asset_bump));
    s
}

/// A transfer of asset `index` from the owner to the manager.
pub struct TransferPlan {
    pub index: u64,
    pub asset: Address,
    pub payer: Address,
    pub new_owner: Address,
    pub signer_seeds: Vec<Vec<Vec<u8>>>,
}

pub struct TransferPlanView {
    pub index: u64,
    pub asset: Address,
    pub payer: Address,
    pub new_owner: Address,
    pub signer_seeds: Seq<Seq<Seq<u8>>>,
}

impl View for TransferPlan {
    type V = TransferPlanView;

    open spec fn view(&self) -> TransferPlanView {
        TransferPlanView {
            index: self.index,
            asset: self.asset,
            payer: self.payer,
            new_owner: self.new_owner,
            signer_seeds: self.signer_seeds.deep_view(),
        }
    }
}

/// The plugins that a minted asset carries.
#[derive(PartialEq, Eq, Structural, Clone, Copy, Debug)]
pub enum PluginKind {
    PermanentFreezeDelegate { frozen: bool },
    PermanentTransferDelegate,
}

/// A plugin with the address that holds authority over it.
#[derive(Clone, Copy, Debug)]
pub struct PluginEntry {
    pub plugin: PluginKind,
    pub authority: Address,
}

/// The creation of asset `index`, owned by the owner, under the authority
/// of the manager.
pub struct MintPlan {
    pub index: u64,
    pub asset: Address,
    pub authority: Address,
    pub owner: Address,
    pub payer: Address,
    pub name: String,
    pub uri: String,
    pub plugins: Vec<PluginEntry>,
    pub signer_seeds: Vec<Vec<Vec<u8>>>,
}

pub struct MintPlanView {
    pub index: u64,
    pub asset: Address,
    pub authority: Address,
    pub owner: Address,
    pub payer: Address,
    pub name: Seq<char>,
    pub uri: Seq<char>,
    pub plugins: Seq<PluginEntry>,
    pub signer_seeds: Seq<Seq<Seq<u8>>>,
}

impl View for MintPlan {
    type V = MintPlanView;

    open spec fn view(&self) -> MintPlanView {
        MintPlanView {
            index: self.index,
            asset: self.asset,
            authority: self.authority,
            owner: self.owner,
            payer: self.payer,
            name: self.name@,
            uri: self.uri@,
            plugins: self.plugins@,
            signer_seeds: self.signer_seeds.deep_view(),
        }
    }
}

/// The plugins of every minted asset: a permanent freeze delegate, frozen,
/// and a permanent transfer delegate, both under `authority`.
pub open spec fn minted_plugins(authority: Address) -> Seq<PluginEntry> {
    seq![
        PluginEntry {
            plugin: PluginKind::PermanentFreezeDelegate { frozen: true },
            authority,
        },
        PluginEntry { plugin: PluginKind::PermanentTransferDelegate, authority },
    ]
}

/// What a transfer out does with the asset slots: it takes the first asset
/// that holds data, reports that no NFT is available when none does, and
/// that no index is available when the asset found has no bump.
pub open spec fn spec_plan_transfer(accounts: &HookAccounts, slots: Seq<AssetSlot>) -> Result<TransferPlanView, ErrorCode> {
    match first_slot(slots, true) {
        None => Err(ErrorCode::NoNFTsAvailable),
        Some(i) => match bump_for(accounts.asset_bumps@, i) {
            None => Err(ErrorCode::NoAvailableIndex),
            Some(b) => Ok(
                TransferPlanView {
                    index: i as u64,
                    asset: slots[i].key,
                    payer: accounts.owner,
                    new_owner: accounts.manager,
                    signer_seeds: spec_signer_seeds(accounts.owner, accounts.manager_bump, i as u64, b),
                },
            ),
        },
    }
}

/// What a mint does with the asset slots: it takes the first empty slot.
pub open spec fn spec_plan_mint(accounts: &HookAccounts, slots: Seq<AssetSlot>) -> Result<MintPlanView, ErrorCode> {
    match first_slot(slots, false) {
        None => Err(ErrorCode::NoAvailableIndex),
        Some(i) => match bump_for(accounts.asset_bumps@, i) {
            None => Err(ErrorCode::NoAvailableIndex),
            Some(b) => Ok(
                MintPlanView {
                    index: i as u64,
                    asset: slots[i].key,
                    authority: accounts.manager,
                    owner: accounts.owner,
                    payer: accounts.owner,
                    name: "name"@,
                    uri: "uri"@,
                    plugins: minted_plugins(accounts.manager_owner),
                    signer_seeds: spec_signer_seeds(accounts.owner, accounts.manager_bump, i as u64, b),
                },
            ),
        },
    }
}

/// A transfer out takes, from the owner to the manager, the first asset that
/// holds data, and signs with the seeds of the manager and of that asset.
/// It fails for want of an NFT exactly when no slot holds one.
pub proof fn lemma_transfer_plan_gives_first_asset_to_manager(accounts: &HookAccounts, slots: Seq<AssetSlot>)
    ensures
        spec_plan_transfer(accounts, slots) matches Ok(p) ==> {
            &&& 0 <= p.index < slots.len()
            &&& p.index < accounts.asset_bumps@.len()
            &&& slots[p.index as int].has_data
            &&& forall|j: int| 0 <= j < p.index ==> !#[trigger] slots[j].has_data
            &&& p.asset == slots[p.index as int].key
            &&& p.payer == accounts.owner
            &&& p.new_owner == accounts.manager
            &&& p.signer_seeds.len() == 2
            &&& p.signer_seeds[0] == spec_manager_seeds(accounts.owner@, accounts.manager_bump)
            &&& p.signer_seeds[1] == spec_asset_seeds(
                accounts.owner@,
                p.index,
                accounts.asset_bumps@[p.index as int],
            )
        },
        spec_plan_transfer(accounts, slots) matches Err(e) ==> {
            &&& e == ErrorCode::NoNFTsAvailable || e == ErrorCode::NoAvailableIndex
            &&& (e == ErrorCode::NoNFTsAvailable) == (forall|j: int|
                0 <= j < slots.len() ==> !#[trigger] slots[j].has_data)
        },
{
    lemma_first_slot_exists(slots, true);
    assert(accounts.asset_bumps@.len() == accounts.asset_bumps.len());
}

/// A mint creates, in the first empty slot, an asset owned and paid for by
/// the owner under the manager's authority, named `name` with uri `uri`,
/// carrying a frozen permanent freeze delegate and a permanent transfer
/// delegate, both held by the manager's owner; it signs with the seeds of
/// the manager and of that asset. It can only fail for want of an index.
pub proof fn lemma_mint_plan_creates_asset_for_owner(accounts: &HookAccounts, slots: Seq<AssetSlot>)
    ensures
        spec_plan_mint(accounts, slots) matches Ok(p) ==> {
            &&& 0 <= p.index < slots.len()
            &&& p.index < accounts.asset_bumps@.len()
            &&& !slots[p.index as int].has_data
            &&& forall|j: int| 0 <= j < p.index ==> #[trigger] slots[j].has_data
            &&& p.asset == slots[p.index as int].key
            &&& p.owner == accounts.owner
            &&& p.payer == accounts.owner
            &&& p.authority == accounts.manager
            &&& p.name == "name"@
            &&& p.uri == "uri"@
            &&& p.plugins.len() == 2
            &&& p.plugins[0].plugin == PluginKind::PermanentFreezeDelegate { frozen: true }
            &&& p.plugins[0].authority == accounts.manager_owner
            &&& p.plugins[1].plugin == PluginKind::PermanentTransferDelegate
            &&& p.plugins[1].authority == accounts.manager_owner
            &&& p.signer_seeds.len() == 2
            &&& p.signer_seeds[0] == spec_manager_seeds(accounts.owner@, accounts.manager_bump)
            &&& p.signer_seeds[1] == spec_asset_seeds(
                accounts.owner@,
                p.index,
                accounts.asset_bumps@[p.index as int],
            )
        },
        spec_plan_mint(accounts, slots) matches Err(e) ==> e == ErrorCode::NoAvailableIndex,
{
    lemma_first_slot_exists(slots, false);
    assert(accounts.asset_bumps@.len() == accounts.asset_bumps.len());
}

/// Plans the transfer of the first asset that holds data to the manager.
pub fn plan_transfer(accounts: &HookAccounts, slots: &Vec<AssetSlot>) -> (r: Result<TransferPlan, ErrorCode>)
    ensures
        match r {
            Ok(p) => spec_plan_transfer(accounts, slots@) == Ok::<TransferPlanView, ErrorCode>(p@),
            Err(e) => spec_plan_transfer(accounts, slots@) == Err::<TransferPlanView, ErrorCode>(e),
        },
        r matches Ok(p) ==> {
            &&& p.index < slots@.len()
            &&& slots@[p.index as int].has_data
            &&& forall|j: int| 0 <= j < p.index ==> !#[trigger] slots@[j].has_data
            &&& p.asset == slots@[p.index as int].key
            &&& p.payer == accounts.owner
            &&& p.new_owner == accounts.manager
        },
        r matches Err(e) ==> (e == ErrorCode::NoNFTsAvailable) == (forall|j: int|
            0 <= j < slots@.len() ==> !#[trigger] slots@[j].has_data),
{
    proof {
        lemma_transfer_plan_gives_first_asset_to_manager(accounts, slots@);
    }
    let found = find_first_slot(slots, true);
    let index = match found {
        Some(i) => i,
        None => return Err(ErrorCode::NoNFTsAvailable),
    };
    if index >= accounts.asset_bumps.len() {
        return Err(ErrorCode::NoAvailableIndex);
    }
    let bump = accounts.asset_bumps[index];
    let index64 = index as u64;
    let seeds = signer_seeds(&accounts.owner, accounts.manager_bump, index64, bump);
    Ok(
        TransferPlan {
            index: index64,
            asset: slots[index].key,
            payer: accounts.owner,
            new_owner: accounts.manager,
            signer_seeds: seeds,
        },
    )
}

fn plugins_for(authority: &Address) -> (v: Vec<PluginEntry>)
    ensures
        v@ == minted_plugins(*authority),
{
    let v: Vec<PluginEntry> = vec![
        PluginEntry {
            plugin: PluginKind::PermanentFreezeDelegate { frozen: true },
            authority: *authority,
        },
        PluginEntry { plugin: PluginKind::PermanentTransferDelegate, authority: *authority },
    ];
    assert(v@ =~= minted_plugins(*authority));
    v
}

/// Plans the creation of an asset in the first empty slot. When no slot is
/// empty it reports that no index is left, whatever the number of assets
/// that already belong to the manager's owner.
pub fn plan_mint(accounts: &HookAccounts, slots: &Vec<AssetSlot>) -> (r: Result<MintPlan, ErrorCode>)
    ensures
        match r {
            Ok(p) => spec_plan_mint(accounts, slots@) == Ok::<MintPlanView, ErrorCode>(p@),
            Err(e) => spec_plan_mint(accounts, slots@) == Err::<MintPlanView, ErrorCode>(e),
        },
        r matches Ok(p) ==> {
            &&& p.index < slots@.len()
            &&& !slots@[p.index as int].has_data
            &&& forall|j: int| 0 <= j < p.index ==> #[trigger] slots@[j].has_data
            &&& p.asset == slots@[p.index as int].key
            &&& p.owner == accounts.owner
            &&& p.payer == accounts.owner
            &&& p.authority == accounts.manager
        },
        r matches Err(e) ==> e == ErrorCode::NoAvailableIndex,
{
    proof {
        lemma_mint_plan_creates_asset_for_owner(accounts, slots@);
    }
    let (found, owned_by_manager) = scan_for_mint(slots, &accounts.manager_owner);
    if found.is_none() {
        if owned_by_manager >= 10 {
            return Err(ErrorCode::NoAvailableIndex);
        }
    }
    let index = match found {
        Some(i) => i,
        None => return Err(ErrorCode::NoAvailableIndex),
    };
    if index >= accounts.asset_bumps.len() {
        return Err(ErrorCode::NoAvailableIndex);
    }
    let bump = accounts.asset_bumps[index];
    let index64 = index as u64;
    let seeds = signer_seeds(&accounts.owner, accounts.manager_bump, index64, bump);
    let name = "name".to_owned();
    let uri = "uri".to_owned();
    Ok(
        MintPlan {
            index: index64,
            asset: slots[index].key,
            authority: accounts.manager,
            owner: accounts.owner,
            payer: accounts.owner,
            name,
            uri,
            plugins: plugins_for(&accounts.manager_owner),
            signer_seeds: seeds,
        },
    )
}

/// The state of the hook between two repetitions: the direction of the
/// transfer and how many repetitions are left.
#[derive(PartialEq, Eq, Structural, Clone, Copy, Debug)]
pub struct HookState {
    pub direction: Direction,
    pub remaining: u64,
}

/// One cross-program call that the hook asks for.
pub enum HookAction {
    Transfer(TransferPlan),
    Mint(MintPlan),
}

pub enum HookActionView {
    Transfer(TransferPlanView),
    Mint(MintPlanView),
}

impl View for HookAction {
    type V = HookActionView;

    open spec fn view(&self) -> HookActionView {
        match self {
            HookAction::Transfer(p) => HookActionView::Transfer(p@),
            HookAction::Mint(p) => HookActionView::Mint(p@),
        }
    }
}

/// What one step of the hook decides: perform an action and come back,
/// finish successfully, or fail with an error.
pub enum StepOutcome {
    Act(HookAction),
    Done,
    Fail(ErrorCode),
}

pub enum StepOutcomeView {
    Act(HookActionView),
    Done,
    Fail(ErrorCode),
}

impl View for StepOutcome {
    type V = StepOutcomeView;

    open spec fn view(&self) -> StepOutcomeView {
        match self {
            StepOutcome::Act(a) => StepOutcomeView::Act(a@),
            StepOutcome::Done => StepOutcomeView::Done,
            StepOutcome::Fail(e) => StepOutcomeView::Fail(*e),
        }
    }
}

/// The state in which the hook starts for a transfer of `amount` tokens
/// from `source` to `destination`.
pub open spec fn spec_start(source: Address, destination: Address, owner: Address, amount: u64) -> HookState {
    HookState { direction: spec_direction(source, destination, owner), remaining: amount / 9 }
}

/// How many more actions the hook asks for from `state`, if none fails.
pub open spec fn actions_left(state: HookState) -> nat {
    if state.direction == Direction::Neither {
        0
    } else {
        state.remaining as nat
    }
}

/// One step of the hook on the current asset slots.
pub open spec fn spec_step(state: HookState, accounts: &HookAccounts, slots: Seq<AssetSlot>) -> (HookState, StepOutcomeView) {
    if actions_left(state) == 0 {
        (state, StepOutcomeView::Done)
    } else {
        let next = HookState { direction: state.direction, remaining: (state.remaining - 1) as u64 };
        if state.direction == Direction::TransferOut {
            match spec_plan_transfer(accounts, slots) {
                Ok(p) => (next, StepOutcomeView::Act(HookActionView::Transfer(p))),
                Err(e) => (state, StepOutcomeView::Fail(e)),
            }
        } else {
            match spec_plan_mint(accounts, slots) {
                Ok(p) => (next, StepOutcomeView::Act(HookActionView::Mint(p))),
                Err(e) => (state, StepOutcomeView::Fail(e)),
            }
        }
    }
}

/// The asset index that an action works on.
pub open spec fn action_index(a: HookActionView) -> u64 {
    match a {
        HookActionView::Transfer(p) => p.index,
        HookActionView::Mint(p) => p.index,
    }
}

/// The signer seeds that an action carries.
pub open spec fn action_seeds(a: HookActionView) -> Seq<Seq<Seq<u8>>> {
    match a {
        HookActionView::Transfer(p) => p.signer_seeds,
        HookActionView::Mint(p) => p.signer_seeds,
    }
}

/// Every action that a step plans works on one of the given slots, and
/// signs with the seeds of the manager and of that slot's asset account.
pub proof fn lemma_step_acts_on_given_slot(state: HookState, accounts: &HookAccounts, slots: Seq<AssetSlot>)
    ensures
        spec_step(state, accounts, slots).1 matches StepOutcomeView::Act(a) ==> {
            &&& action_index(a) < slots.len()
            &&& action_index(a) < accounts.asset_bumps@.len()
            &&& action_seeds(a) == spec_signer_seeds(
                accounts.owner,
                accounts.manager_bump,
                action_index(a),
                accounts.asset_bumps@[action_index(a) as int],
            )
        },
{
    lemma_first_slot_exists(slots, true);
    lemma_first_slot_exists(slots, false);
    assert(accounts.asset_bumps@.len() == accounts.asset_bumps.len());
}

/// What a step does, from its inputs: it acts only while repetitions are
/// left and the owner takes part, using one repetition per action. A
/// transfer out moves the first asset holding data from the owner to the
/// manager; a mint creates an asset in the first empty slot, owned and paid
/// for by the owner under the manager's authority. A failing step leaves
/// the state as it was.
pub proof fn lemma_step_moves_assets_between_owner_and_manager(
    state: HookState,
    accounts: &HookAccounts,
    slots: Seq<AssetSlot>,
)
    ensures
        ({
            let (next, out) = spec_step(state, accounts, slots);
            let used = HookState { direction: state.direction, remaining: (state.remaining - 1) as u64 };
            &&& out is Done <==> (state.direction == Direction::Neither || state.remaining == 0)
            &&& out is Act ==> next == used && state.remaining > 0
            &&& !(out is Act) ==> next == state
            &&& out matches StepOutcomeView::Act(HookActionView::Transfer(p)) ==> {
                &&& state.direction == Direction::TransferOut
                &&& p.index < slots.len()
                &&& slots[p.index as int].has_data
                &&& forall|j: int| 0 <= j < p.index ==> !#[trigger] slots[j].has_data
                &&& p.asset == slots[p.index as int].key
                &&& p.payer == accounts.owner
                &&& p.new_owner == accounts.manager
            }
            &&& out matches StepOutcomeView::Act(HookActionView::Mint(p)) ==> {
                &&& state.direction == Direction::MintIn
                &&& p.index < slots.len()
                &&& !slots[p.index as int].has_data
                &&& forall|j: int| 0 <= j < p.index ==> #[trigger] slots[j].has_data
                &&& p.asset == slots[p.index as int].key
                &&& p.owner == accounts.owner
                &&& p.payer == accounts.owner
                &&& p.authority == accounts.manager
            }
            &&& out matches StepOutcomeView::Fail(e) ==> {
                &&& state.direction != Direction::Neither
                &&& state.direction == Direction::MintIn ==> e == ErrorCode::NoAvailableIndex
                &&& e == ErrorCode::NoNFTsAvailable || e == ErrorCode::NoAvailableIndex
            }
        }),
{
    lemma_transfer_plan_gives_first_asset_to_manager(accounts, slots);
    lemma_mint_plan_creates_asset_for_owner(accounts, slots);
}

impl HookState {
    /// The state in which the hook starts for a transfer of `amount` tokens
    /// from `source` to `destination`: the direction of the transfer, and
    /// one repetition for every nine tokens.
    pub fn start(source: &Address, destination: &Address, owner: &Address, amount: u64) -> (s: HookState)
        ensures
            s == spec_start(*source, *destination, *owner, amount),
            s.direction == spec_direction(*source, *destination, *owner),
            s.remaining == amount / 9,
    {
        HookState {
            direction: transfer_direction(source, destination, owner),
            remaining: hook_repetitions(amount),
        }
    }

    /// One step of the hook: with repetitions left and a direction, plan the
    /// transfer or the mint on the current slots; otherwise the hook is done.
    /// The slots are the inspected asset accounts, in order.
    pub fn step(&self, accounts: &HookAccounts, slots: &Vec<AssetSlot>) -> (r: (HookState, StepOutcome))
        requires
            slots@.len() == INSPECTED_ASSETS,
        ensures
            (r.0, r.1@) == spec_step(*self, accounts, slots@),
            r.1@ matches StepOutcomeView::Act(a) ==> action_index(a) < INSPECTED_ASSETS,
            r.1@ matches StepOutcomeView::Act(HookActionView::Transfer(p)) ==> {
                &&& self.direction == Direction::TransferOut
                &&& r.0.remaining == self.remaining - 1
                &&& slots@[p.index as int].has_data
                &&& p.asset == slots@[p.index as int].key
                &&& p.payer == accounts.owner
                &&& p.new_owner == accounts.manager
            },
            r.1@ matches StepOutcomeView::Act(HookActionView::Mint(p)) ==> {
                &&& self.direction == Direction::MintIn
                &&& r.0.remaining == self.remaining - 1
                &&& !slots@[p.index as int].has_data
                &&& p.asset == slots@[p.index as int].key
                &&& p.owner == accounts.owner
                &&& p.payer == accounts.owner
                &&& p.authority == accounts.manager
            },
            (r.1 is Done) == (self.direction == Direction::Neither || self.remaining == 0),
            (r.1 is Act) || r.0 == *self,
    {
        proof {
            lemma_step_acts_on_given_slot(*self, accounts, slots@);
            lemma_step_moves_assets_between_owner_and_manager(*self, accounts, slots@);
        }
        if self.direction == Direction::Neither || self.remaining == 0 {
            return (*self, StepOutcome::Done);
        }
        let next = HookState { direction: self.direction, remaining: self.remaining - 1 };
        if self.direction == Direction::TransferOut {
            match plan_transfer(accounts, slots) {
                Ok(p) => (next, StepOutcome::Act(HookAction::Transfer(p))),
                Err(e) => (*self, StepOutcome::Fail(e)),
            }
        } else {
            match plan_mint(accounts, slots) {
                Ok(p) => (next, StepOutcome::Act(HookAction::Mint(p))),
                Err(e) => (*self, StepOutcome::Fail(e)),
            }
        }
    }
}

} // verus!
