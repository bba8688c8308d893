use vstd::prelude::*;

use crate::address::Address;

verus! {

/// The address of the MPL Core program.
pub open spec fn mpl_core_id() -> Seq<u8> {
    seq![
        175u8, 84, 171, 16, 189, 151, 165, 66, 160, 158, 247, 179, 152, 137, 221, 12, 211, 148, 164,
        204, 233, 223, 166, 205, 201, 126, 190, 45, 35, 91, 167, 72,
    ]
}

/// The address of the associated token account program.
pub open spec fn associated_token_program_id() -> Seq<u8> {
    seq![
        140u8, 151, 37, 143, 78, 36, 137, 241, 187, 61, 16, 41, 20, 142, 13, 131, 11, 90, 19, 153,
        218, 255, 16, 132, 4, 142, 123, 216, 219, 233, 248, 89,
    ]
}

/// The address of the system program: thirty-two zero bytes.
pub open spec fn system_program_id() -> Seq<u8> {
    Seq::new(32, |i: int| 0u8)
}

/// `mpl_core::ID`, the program id that the MPL Core crate declares
/// (`CoREENxT6tW1HoK8ypY1SxRMZTcVPm7R94rH4PZNhX7d`); the contract claims
/// its 32 bytes.
#[verifier::external_body]
pub(crate) fn mpl_core_program() -> (a: Address)
    ensures
        a@ == mpl_core_id(),
{
    Address { bytes: mpl_core::ID.to_bytes() }
}

/// `anchor_spl::associated_token::ID`, the id of the associated token
/// account program (`ATokenGPvbdGVxr1b2hvZbsiqW5xWH25efTNsLJA8knL`); the
/// contract claims its 32 bytes.
#[verifier::external_body]
pub(crate) fn associated_token_program() -> (a: Address)
    ensures
        a@ == associated_token_program_id(),
{
    Address { bytes: anchor_spl::associated_token::ID.to_bytes() }
}

/// `anchor_lang::system_program::ID`, the id of the system program
/// (`11111111111111111111111111111111`); the contract claims its 32 bytes,
/// all zero.
#[verifier::external_body]
pub(crate) fn system_program() -> (a: Address)
    ensures
        a@ == system_program_id(),
{
    Address { bytes: anchor_lang::system_program::ID.to_bytes() }
}

} // verus!
