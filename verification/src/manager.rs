use vstd::prelude::*;

use crate::address::Address;

verus! {

/// The manager account: it records the owner whose NFTs it handles.
#[derive(Clone, Copy, Debug)]
pub struct Manager {
    pub owner: Address,
}

/// Records `owner` as the owner of the manager.
pub fn initialize(manager: &mut Manager, owner: &Address)
    ensures
        final(manager).owner == *owner,
{
    manager.owner = *owner;
}

} // verus!
