use vstd::prelude::*;

use crate::error::VaultError;
use crate::pubkey::Pubkey;

verus! {

/// A checked mint of new tokens to be made through the token program.
#[derive(Clone, Copy, Debug)]
pub struct MintTo {
    pub mint: Pubkey,
    pub destination: Pubkey,
    pub authority: Pubkey,
    pub amount: u64,
    pub decimals: u8,
}

/// The accounts of the instruction that mints tokens to the signer.
#[derive(Clone, Copy, Debug)]
pub struct TokenFactory {
    pub user: Pubkey,
    pub mint: Pubkey,
    pub source_token_account: Pubkey,
    pub extra_account_meta_list: Pubkey,
    pub blocklist: Pubkey,
    pub hook_program_id: Pubkey,
}

/// `amount * decimals` does not fit in a `u64`.
pub open spec fn mint_overflows(amount: u64, decimals: u8) -> bool {
    amount * decimals > u64::MAX
}

impl TokenFactory {
    /// What a mint of `amount` with `decimals` comes to: `amount` times
    /// `decimals` tokens for the signer's token account, with the signer as
    /// mint authority, or a refusal when the product does not fit in a `u64`.
    pub open spec fn mint_outcome(&self, amount: u64, decimals: u8) -> Result<MintTo, VaultError> {
        if mint_overflows(amount, decimals) {
            Err(VaultError::MUltiplicationAtMint)
        } else {
            Ok(
                MintTo {
                    mint: self.mint,
                    destination: self.source_token_account,
                    authority: self.user,
                    amount: (amount * decimals) as u64,
                    decimals,
                },
            )
        }
    }

    /// Decides a mint of `amount` with `decimals` (see `mint_outcome`).
    pub fn init_mint(&self, amount: u64, decimals: u8) -> (result: Result<MintTo, VaultError>)
        ensures
            result == self.mint_outcome(amount, decimals),
            result is Err <==> amount * decimals > u64::MAX,
            result is Err ==> result == Err::<MintTo, VaultError>(VaultError::MUltiplicationAtMint),
            result matches Ok(m) ==> {
                &&& m.amount == amount * decimals
                &&& m.decimals == decimals
                &&& m.mint == self.mint
                &&& m.destination == self.source_token_account
                &&& m.authority == self.user
            },
    {
        match amount.checked_mul(decimals as u64) {
            Some(total) => Ok(
                MintTo {
                    mint: self.mint,
                    destination: self.source_token_account,
                    authority: self.user,
                    amount: total,
                    decimals,
                },
            ),
            None => Err(VaultError::MUltiplicationAtMint),
        }
    }
}

/// A mint, when accepted, gives the signer's token account `amount` times
/// `decimals` tokens with the caller's decimals and the signer as authority;
/// it is refused exactly when that product does not fit in a `u64`.
pub proof fn lemma_mint_is_amount_times_decimals(factory: TokenFactory, amount: u64, decimals: u8)
    ensures
        factory.mint_outcome(amount, decimals) is Err <==> amount * decimals > u64::MAX,
        factory.mint_outcome(amount, decimals) matches Ok(m) ==> {
            &&& m.amount == amount * decimals
            &&& m.decimals == decimals
            &&& m.mint == factory.mint
            &&& m.destination == factory.source_token_account
            &&& m.authority == factory.user
        },
{
}

} // verus!
