use vstd::prelude::*;

verus! {

/// The ways in which a vault instruction is refused.
#[derive(Clone, Copy, Debug, PartialEq, Eq, Structural)]
pub enum VaultError {
    VaultAlreadyExist,
    NotAdmin,
    UserNotExistInVec,
    MUltiplicationAtMint,
    VaultNotCreatedByAdmin,
    WrongMintAuthority,
    WrongMint,
    InsufficientBalance,
    AdditionAtUpdateUserOverflow,
    UserNotExistInVecForReal,
    SubtractionAtUpdateUserUnderflow,
}

/// The ways in which an instruction that calls the token program is refused:
/// by the vault's own rules, or because the program named as the token
/// program is not one.
#[derive(Clone, Copy, Debug, PartialEq, Eq, Structural)]
pub enum InstructionError {
    Vault(VaultError),
    IncorrectProgramId,
}

/// The message that accompanies each error.
pub open spec fn error_message(e: VaultError) -> Seq<char> {
    match e {
        VaultError::VaultAlreadyExist => "You can't recreate a vault"@,
        VaultError::NotAdmin => "Wrong Admin Provided"@,
        VaultError::UserNotExistInVec => "Cannot remove user, user does not exist"@,
        VaultError::MUltiplicationAtMint => "overflow at multiplication on mint"@,
        VaultError::VaultNotCreatedByAdmin => "Admin should already have created this Vault"@,
        VaultError::WrongMintAuthority => "The mint authority is not the vault owner"@,
        VaultError::WrongMint => "The token account does not belong to this mint"@,
        VaultError::InsufficientBalance => "Insufficient balance"@,
        VaultError::AdditionAtUpdateUserOverflow => "overflow when adding to the user balance"@,
        VaultError::UserNotExistInVecForReal => "User is not in the whitelist"@,
        VaultError::SubtractionAtUpdateUserUnderflow => "underflow when subtracting from the user balance"@,
    }
}

impl VaultError {
    /// The human-readable message of this error.
    pub fn message(&self) -> (msg: &'static str)
        ensures
            msg@ == error_message(*self),
    {
        match self {
            VaultError::VaultAlreadyExist => "You can't recreate a vault",
            VaultError::NotAdmin => "Wrong Admin Provided",
            VaultError::UserNotExistInVec => "Cannot remove user, user does not exist",
            VaultError::MUltiplicationAtMint => "overflow at multiplication on mint",
            VaultError::VaultNotCreatedByAdmin => "Admin should already have created this Vault",
            VaultError::WrongMintAuthority => "The mint authority is not the vault owner",
            VaultError::WrongMint => "The token account does not belong to this mint",
            VaultError::InsufficientBalance => "Insufficient balance",
            VaultError::AdditionAtUpdateUserOverflow => "overflow when adding to the user balance",
            VaultError::UserNotExistInVecForReal => "User is not in the whitelist",
            VaultError::SubtractionAtUpdateUserUnderflow => "underflow when subtracting from the user balance",
        }
    }
}

} // verus!
