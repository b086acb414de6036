use vstd::prelude::*;

use crate::error::VaultError;
use crate::mint_token::{MintTo, TokenFactory};
use crate::pubkey::Pubkey;
use crate::vault::{Vault, VaultOperation, WhitelistOperations};
use crate::whitelist::{balance_of, first_position, has_key};

verus! {

/// Instruction: create the vault of a mint, with the signer as its admin.
pub fn create_vault(accounts: &mut VaultOperation, vault_bump: u8) -> (result: Result<(), VaultError>)
    ensures
        result is Ok <==> old(accounts).vault_state is None,
        result is Ok ==> final(accounts).vault_state == Some(
            Vault { owner: old(accounts).owner, mint: old(accounts).mint, vault_bump },
        ),
        result is Err ==> result == Err::<(), VaultError>(VaultError::VaultAlreadyExist)
            && final(accounts).vault_state == old(accounts).vault_state,
        old(accounts).create_vault_post(final(accounts), vault_bump, result),
{
    accounts.create_vault(vault_bump)
}

/// Instruction: mint `amount` times `decimals` tokens to the signer.
pub fn mint_token(accounts: &TokenFactory, amount: u64, decimals: u8) -> (result: Result<MintTo, VaultError>)
    ensures
        result == accounts.mint_outcome(amount, decimals),
        result is Err <==> amount * decimals > u64::MAX,
        result is Err ==> result == Err::<MintTo, VaultError>(VaultError::MUltiplicationAtMint),
        result matches Ok(m) ==> {
            &&& m.amount == amount * decimals
            &&& m.decimals == decimals
            &&& m.mint == accounts.mint
            &&& m.destination == accounts.source_token_account
            &&& m.authority == accounts.user
        },
{
    accounts.init_mint(amount, decimals)
}

/// Instruction: admit `address` to the whitelist.
pub fn add_to_whitelist(accounts: &mut WhitelistOperations, address: Pubkey) -> (result: Result<(), VaultError>)
    ensures
        result is Ok <==> (old(accounts).vault matches Some(v) && v.owner == old(accounts).admin),
        result is Err ==> final(accounts).whitelist.address@ == old(accounts).whitelist.address@,
        result is Ok ==> has_key(final(accounts).whitelist.address@, address),
        result is Ok && has_key(old(accounts).whitelist.address@, address) ==> final(accounts).whitelist.address@
            == old(accounts).whitelist.address@,
        result is Ok && !has_key(old(accounts).whitelist.address@, address) ==> balance_of(
            final(accounts).whitelist.address@,
            address,
        ) == Some(0u64),
        forall|other: Pubkey|
            has_key(old(accounts).whitelist.address@, other) ==> #[trigger] balance_of(
                final(accounts).whitelist.address@,
                other,
            ) == balance_of(old(accounts).whitelist.address@, other),
        old(accounts).add_post(final(accounts), address, result),
{
    accounts.add_to_whitelist(address)
}

/// Instruction: take `address` out of the whitelist.
pub fn remove_from_whitelist(accounts: &mut WhitelistOperations, address: Pubkey) -> (result: Result<(), VaultError>)
    ensures
        result is Ok <==> (old(accounts).vault matches Some(v) && v.owner == old(accounts).admin
            && has_key(old(accounts).whitelist.address@, address)),
        result is Err ==> final(accounts).whitelist.address@ == old(accounts).whitelist.address@,
        result is Ok ==> final(accounts).whitelist.address@ == old(accounts).whitelist.address@.remove(
            first_position(old(accounts).whitelist.address@, address),
        ),
        forall|other: Pubkey|
            other != address ==> #[trigger] balance_of(final(accounts).whitelist.address@, other)
                == balance_of(old(accounts).whitelist.address@, other),
        old(accounts).remove_post(final(accounts), address, result),
{
    accounts.remove_from_whitelist(address)
}

} // verus!
