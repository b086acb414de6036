use vstd::prelude::*;

pub mod deposit_withdraw;
pub mod error;
pub mod mint_token;
pub mod program;
pub mod pubkey;
pub mod token_instruction;
pub mod vault;
pub mod whitelist;

pub use deposit_withdraw::{DepositWithdraw, MintAccount, TokenAccount, TokenTransfer, VaultSigner, vault_seed};
pub use token_instruction::{AccountMeta, Instruction};
pub use error::{InstructionError, VaultError};
pub use mint_token::{MintTo, TokenFactory};
pub use program::{add_to_whitelist, create_vault, mint_token, remove_from_whitelist};
pub use pubkey::Pubkey;
pub use vault::{Vault, VaultOperation, WhitelistOperations};
pub use whitelist::Whitelist;

verus! {

} // verus!
