use vstd::prelude::*;

use crate::error::{InstructionError, VaultError};
use crate::token_instruction::{
    AccountMeta, Instruction, build_transfer_checked, is_token_program, le_value,
    lemma_transfer_data_layout, transfer_checked_accounts, transfer_checked_data,
};
use crate::pubkey::Pubkey;
use crate::vault::Vault;
use crate::whitelist::{
    Whitelist, balance_of, credit_overflows, credited, debit_underflows, debited, first_position,
    has_key, keys_distinct,
};

verus! {

/// What a mint account holds that the vault instructions read.
#[derive(Clone, Copy, Debug)]
pub struct MintAccount {
    pub key: Pubkey,
    pub mint_authority: Option<Pubkey>,
    pub decimals: u8,
}

/// What a token account holds that the vault instructions read.
#[derive(Clone, Copy, Debug)]
pub struct TokenAccount {
    pub key: Pubkey,
    pub mint: Pubkey,
    pub amount: u64,
}

/// The seed that, with the mint, derives the vault's address.
pub open spec fn vault_seed_bytes() -> Seq<u8> {
    seq![118u8, 97, 117, 108, 116]
}

/// The seed that, with the mint, derives the vault's address: `b"vault"`.
pub fn vault_seed() -> (seed: Vec<u8>)
    ensures
        seed@ == vault_seed_bytes(),
{
    let seed: Vec<u8> = vec![118u8, 97, 117, 108, 116];
    assert(seed@ =~= vault_seed_bytes());
    seed
}

/// The program-derived signer of a transfer out of the vault: the vault
/// address derived from the mint and its bump.
#[derive(Clone, Copy, Debug)]
pub struct VaultSigner {
    pub mint: Pubkey,
    pub vault_bump: u8,
}

impl VaultSigner {
    /// The seeds the vault signs with: the mint, the vault seed, the bump.
    pub fn seeds(&self) -> (seeds: Vec<Vec<u8>>)
        ensures
            seeds@.len() == 3,
            seeds@[0]@ == self.mint.bytes@,
            seeds@[1]@ == vault_seed_bytes(),
            seeds@[2]@ == seq![self.vault_bump],
    {
        let mut mint_seed: Vec<u8> = Vec::new();
        let mut i: usize = 0;
        while i < 32
            invariant
                i <= 32,
                mint_seed@ == self.mint.bytes@.take(i as int),
            decreases 32 - i,
        {
            mint_seed.push(self.mint.bytes[i]);
            i = i + 1;
            assert(mint_seed@ =~= self.mint.bytes@.take(i as int));
        }
        assert(mint_seed@ =~= self.mint.bytes@);
        let bump_seed: Vec<u8> = vec![self.vault_bump];
        assert(bump_seed@ =~= seq![self.vault_bump]);
        let mut seeds: Vec<Vec<u8>> = Vec::new();
        seeds.push(mint_seed);
        seeds.push(vault_seed());
        seeds.push(bump_seed);
        seeds
    }
}

/// A checked token transfer out of the vault, to be made through the token
/// program with the vault signing by its derived address.
#[derive(Clone, Copy, Debug)]
pub struct TokenTransfer {
    pub source: Pubkey,
    pub mint: Pubkey,
    pub destination: Pubkey,
    pub authority: Pubkey,
    pub amount: u64,
    pub decimals: u8,
    pub signer: VaultSigner,
}

/// The accounts of a deposit or a withdrawal.
pub struct DepositWithdraw {
    pub sender: Pubkey,
    pub owner: Pubkey,
    pub mint: MintAccount,
    pub hook_program_id: Pubkey,
    pub vault_state_key: Pubkey,
    pub vault_state: Vault,
    /// Whether the vault account was passed as writable.
    pub vault_state_is_writable: bool,
    pub vault_ata: TokenAccount,
    pub user_ata: TokenAccount,
    pub whitelist_key: Pubkey,
    pub whitelist: Whitelist,
    pub extra_account_meta_list: Pubkey,
    pub token_program: Pubkey,
}

impl DepositWithdraw {
    /// The first account constraint that fails, in the order the accounts
    /// are declared: the mint's authority, the vault account's writability,
    /// the vault's token account, the user's token account.
    pub open spec fn constraint_error(&self) -> Option<VaultError> {
        if self.mint.mint_authority != Some(self.owner) {
            Some(VaultError::WrongMintAuthority)
        } else if !self.vault_state_is_writable {
            Some(VaultError::VaultNotCreatedByAdmin)
        } else if self.vault_ata.mint != self.mint.key {
            Some(VaultError::WrongMint)
        } else if self.user_ata.mint != self.mint.key {
            Some(VaultError::WrongMint)
        } else {
            None
        }
    }

    /// The accounts of a deposit's transfer: the user's token account, the
    /// mint, the vault's token account and the signing sender, then the
    /// accounts the transfer hook reads (the extra account list, read only,
    /// and the whitelist, writable).
    pub open spec fn deposit_accounts(&self) -> Seq<AccountMeta> {
        transfer_checked_accounts(self.user_ata.key, self.mint.key, self.vault_ata.key, self.sender)
            + seq![
            AccountMeta { pubkey: self.extra_account_meta_list, is_signer: false, is_writable: false },
            AccountMeta { pubkey: self.whitelist_key, is_signer: false, is_writable: true },
        ]
    }

    /// The transfer of a withdrawal: from the vault's token account into the
    /// user's, signed by the vault with its derived address.
    pub open spec fn withdraw_transfer(&self, amount: u64) -> TokenTransfer {
        TokenTransfer {
            source: self.vault_ata.key,
            mint: self.mint.key,
            destination: self.user_ata.key,
            authority: self.vault_state_key,
            amount,
            decimals: self.mint.decimals,
            signer: VaultSigner { mint: self.mint.key, vault_bump: self.vault_state.vault_bump },
        }
    }

    /// The same account fields, the whitelist aside.
    pub open spec fn same_accounts(&self, other: &DepositWithdraw) -> bool {
        &&& self.sender == other.sender
        &&& self.owner == other.owner
        &&& self.mint == other.mint
        &&& self.hook_program_id == other.hook_program_id
        &&& self.vault_state_key == other.vault_state_key
        &&& self.vault_state == other.vault_state
        &&& self.vault_state_is_writable == other.vault_state_is_writable
        &&& self.vault_ata == other.vault_ata
        &&& self.user_ata == other.user_ata
        &&& self.whitelist_key == other.whitelist_key
        &&& self.whitelist.whitelist_bump == other.whitelist.whitelist_bump
        &&& self.extra_account_meta_list == other.extra_account_meta_list
        &&& self.token_program == other.token_program
    }

    /// Checks the account constraints of the instruction.
    pub fn check_constraints(&self) -> (result: Result<(), VaultError>)
        ensures
            result is Ok <==> {
                &&& self.mint.mint_authority == Some(self.owner)
                &&& self.vault_state_is_writable
                &&& self.vault_ata.mint == self.mint.key
                &&& self.user_ata.mint == self.mint.key
            },
            result == Err::<(), VaultError>(VaultError::WrongMint) <==> {
                &&& self.mint.mint_authority == Some(self.owner)
                &&& self.vault_state_is_writable
                &&& (self.vault_ata.mint != self.mint.key || self.user_ata.mint != self.mint.key)
            },
            match result {
                Ok(()) => self.constraint_error() is None,
                Err(e) => self.constraint_error() == Some(e),
            },
    {
        let authority_is_owner = match &self.mint.mint_authority {
            Some(a) => a.equals(&self.owner),
            None => false,
        };
        if !authority_is_owner {
            return Err(VaultError::WrongMintAuthority);
        }
        if !self.vault_state_is_writable {
            return Err(VaultError::VaultNotCreatedByAdmin);
        }
        if !self.vault_ata.mint.equals(&self.mint.key) {
            return Err(VaultError::WrongMint);
        }
        if !self.user_ata.mint.equals(&self.mint.key) {
            return Err(VaultError::WrongMint);
        }
        Ok(())
    }

    /// Decides a deposit of `amount`: the user must hold at least that much;
    /// the result is the token program's transfer from the user into the
    /// vault, with the transfer hook's accounts appended, to be made before
    /// the deposit is recorded.
    pub fn deposit(&self, amount: u64) -> (result: Result<Instruction, InstructionError>)
        ensures
            result is Ok ==> {
                &&& self.mint.mint_authority == Some(self.owner)
                &&& self.vault_state_is_writable
                &&& self.vault_ata.mint == self.mint.key
                &&& self.user_ata.mint == self.mint.key
            },
            result matches Ok(ix) ==> {
                &&& amount <= self.user_ata.amount
                &&& ix.program_id == self.token_program
                &&& ix.accounts@.len() == 6
                &&& ix.accounts@[0] == (AccountMeta { pubkey: self.user_ata.key, is_signer: false, is_writable: true })
                &&& ix.accounts@[1] == (AccountMeta { pubkey: self.mint.key, is_signer: false, is_writable: false })
                &&& ix.accounts@[2] == (AccountMeta { pubkey: self.vault_ata.key, is_signer: false, is_writable: true })
                &&& ix.accounts@[3] == (AccountMeta { pubkey: self.sender, is_signer: true, is_writable: false })
                &&& ix.accounts@[4] == (AccountMeta {
                    pubkey: self.extra_account_meta_list,
                    is_signer: false,
                    is_writable: false,
                })
                &&& ix.accounts@[5] == (AccountMeta { pubkey: self.whitelist_key, is_signer: false, is_writable: true })
                &&& ix.data@.len() == 10
                &&& ix.data@[0] == 12
                &&& le_value(ix.data@.subrange(1, 9)) == amount
                &&& ix.data@[9] == self.mint.decimals
            },
            match result {
                Ok(ix) => {
                    &&& self.constraint_error() is None
                    &&& amount <= self.user_ata.amount
                    &&& is_token_program(self.token_program)
                    &&& ix.program_id == self.token_program
                    &&& ix.accounts@ == self.deposit_accounts()
                    &&& ix.data@ == transfer_checked_data(amount, self.mint.decimals)
                },
                Err(e) => match self.constraint_error() {
                    Some(c) => e == InstructionError::Vault(c),
                    None => if self.user_ata.amount < amount {
                        e == InstructionError::Vault(VaultError::InsufficientBalance)
                    } else {
                        e == InstructionError::IncorrectProgramId && !is_token_program(self.token_program)
                    },
                },
            },
    {
        if let Err(e) = self.check_constraints() {
            return Err(InstructionError::Vault(e));
        }
        if self.user_ata.amount < amount {
            return Err(InstructionError::Vault(VaultError::InsufficientBalance));
        }
        let built = build_transfer_checked(
            &self.token_program,
            &self.user_ata.key,
            &self.mint.key,
            &self.vault_ata.key,
            &self.sender,
            amount,
            self.mint.decimals,
        );
        let mut ix = match built {
            Ok(ix) => ix,
            Err(_) => return Err(InstructionError::IncorrectProgramId),
        };
        ix.accounts.push(
            AccountMeta { pubkey: self.extra_account_meta_list, is_signer: false, is_writable: false },
        );
        ix.accounts.push(AccountMeta { pubkey: self.whitelist_key, is_signer: false, is_writable: true });
        assert(ix.accounts@ =~= self.deposit_accounts());
        proof {
            lemma_transfer_data_layout(amount, self.mint.decimals);
        }
        Ok(ix)
    }

    /// Records a deposit of `amount` once its transfer is made: the user's
    /// balance in the whitelist grows by `amount` (a user without an entry
    /// is not recorded).
    pub fn record_deposit(&mut self, amount: u64) -> (result: Result<(), VaultError>)
        ensures
            result is Ok && has_key(old(self).whitelist.address@, old(self).user_ata.key) ==> balance_of(final(self).whitelist.address@, old(self).user_ata.key) == Some(
                (balance_of(old(self).whitelist.address@, old(self).user_ata.key).unwrap() + amount) as u64,
            ),
            result is Ok && !has_key(old(self).whitelist.address@, old(self).user_ata.key) ==> final(self).whitelist.address@ == old(self).whitelist.address@,
            result is Err <==> has_key(old(self).whitelist.address@, old(self).user_ata.key) && balance_of(old(self).whitelist.address@, old(self).user_ata.key).unwrap() + amount > u64::MAX,
            result is Err ==> final(self).whitelist.address@ == old(self).whitelist.address@,
            forall|other: Pubkey|
                other != old(self).user_ata.key ==> #[trigger] balance_of(final(self).whitelist.address@, other) == balance_of(old(self).whitelist.address@, other),
            final(self).same_accounts(old(self)),
            keys_distinct(old(self).whitelist.address@) ==> keys_distinct(final(self).whitelist.address@),
            match result {
                Ok(()) => {
                    &&& !credit_overflows(old(self).whitelist.address@, old(self).user_ata.key, amount)
                    &&& final(self).whitelist.address@ == credited(
                        old(self).whitelist.address@,
                        old(self).user_ata.key,
                        amount,
                    )
                },
                Err(e) => {
                    &&& e == VaultError::AdditionAtUpdateUserOverflow
                    &&& credit_overflows(old(self).whitelist.address@, old(self).user_ata.key, amount)
                    &&& final(self).whitelist.address@ == old(self).whitelist.address@
                },
            },
    {
        let user_key = self.user_ata.key;
        self.whitelist.credit(&user_key, amount)
    }

    /// Decides a withdrawal of `amount`: the user must be in the whitelist
    /// with a recorded balance of at least `amount`; the result is the
    /// vault's transfer to the user, to be made before the withdrawal is
    /// recorded.
    pub fn withdraw(&self, amount: u64) -> (result: Result<TokenTransfer, VaultError>)
        ensures
            result is Ok ==> {
                &&& self.mint.mint_authority == Some(self.owner)
                &&& self.vault_state_is_writable
                &&& self.vault_ata.mint == self.mint.key
                &&& self.user_ata.mint == self.mint.key
            },
            result matches Ok(t) ==> {
                &&& has_key(self.whitelist.address@, self.user_ata.key)
                &&& amount <= balance_of(self.whitelist.address@, self.user_ata.key).unwrap()
                &&& t.source == self.vault_ata.key
                &&& t.mint == self.mint.key
                &&& t.destination == self.user_ata.key
                &&& t.authority == self.vault_state_key
                &&& t.amount == amount
                &&& t.decimals == self.mint.decimals
                &&& t.signer.mint == self.mint.key
                &&& t.signer.vault_bump == self.vault_state.vault_bump
            },
            match result {
                Ok(t) => {
                    &&& self.constraint_error() is None
                    &&& has_key(self.whitelist.address@, self.user_ata.key)
                    &&& amount <= balance_of(self.whitelist.address@, self.user_ata.key).unwrap()
                    &&& t == self.withdraw_transfer(amount)
                },
                Err(e) => match self.constraint_error() {
                    Some(c) => e == c,
                    None => if !has_key(self.whitelist.address@, self.user_ata.key) {
                        e == VaultError::UserNotExistInVecForReal
                    } else {
                        e == VaultError::InsufficientBalance && balance_of(
                            self.whitelist.address@,
                            self.user_ata.key,
                        ).unwrap() < amount
                    },
                },
            },
    {
        self.check_constraints()?;
        let is_user_exist = self.whitelist.contains_address(&self.user_ata.key);
        if !is_user_exist {
            return Err(VaultError::UserNotExistInVecForReal);
        }
        let user_amount = self.whitelist.balance(&self.user_ata.key);
        let enough = match user_amount {
            Some(recorded) => amount <= recorded,
            None => false,
        };
        if !enough {
            return Err(VaultError::InsufficientBalance);
        }
        let vault_bump = self.vault_state.vault_bump;
        Ok(TokenTransfer {
            source: self.vault_ata.key,
            mint: self.mint.key,
            destination: self.user_ata.key,
            authority: self.vault_state_key,
            amount,
            decimals: self.mint.decimals,
            signer: VaultSigner { mint: self.mint.key, vault_bump },
        })
    }

    /// Records a withdrawal of `amount` once its transfer is made: the
    /// user's balance shrinks by `amount`, and the entry goes away when
    /// nothing is left.
    pub fn record_withdraw(&mut self, amount: u64) -> (result: Result<(), VaultError>)
        ensures
            result is Ok && has_key(old(self).whitelist.address@, old(self).user_ata.key) && amount < balance_of(old(self).whitelist.address@, old(self).user_ata.key).unwrap() ==> balance_of(final(self).whitelist.address@, old(self).user_ata.key)
                == Some((balance_of(old(self).whitelist.address@, old(self).user_ata.key).unwrap() - amount) as u64),
            result is Ok && has_key(old(self).whitelist.address@, old(self).user_ata.key) && amount == balance_of(old(self).whitelist.address@, old(self).user_ata.key).unwrap() ==> final(self).whitelist.address@ == old(self).whitelist.address@.remove(
                first_position(old(self).whitelist.address@, old(self).user_ata.key),
            ),
            result is Ok && !has_key(old(self).whitelist.address@, old(self).user_ata.key) ==> final(self).whitelist.address@ == old(self).whitelist.address@,
            result is Err <==> has_key(old(self).whitelist.address@, old(self).user_ata.key) && balance_of(old(self).whitelist.address@, old(self).user_ata.key).unwrap() < amount,
            result is Err ==> final(self).whitelist.address@ == old(self).whitelist.address@,
            forall|other: Pubkey|
                other != old(self).user_ata.key ==> #[trigger] balance_of(final(self).whitelist.address@, other) == balance_of(old(self).whitelist.address@, other),
            final(self).same_accounts(old(self)),
            keys_distinct(old(self).whitelist.address@) ==> keys_distinct(final(self).whitelist.address@),
            match result {
                Ok(()) => {
                    &&& !debit_underflows(old(self).whitelist.address@, old(self).user_ata.key, amount)
                    &&& final(self).whitelist.address@ == debited(
                        old(self).whitelist.address@,
                        old(self).user_ata.key,
                        amount,
                    )
                },
                Err(e) => {
                    &&& e == VaultError::SubtractionAtUpdateUserUnderflow
                    &&& debit_underflows(old(self).whitelist.address@, old(self).user_ata.key, amount)
                    &&& final(self).whitelist.address@ == old(self).whitelist.address@
                },
            },
    {
        let user_key = self.user_ata.key;
        self.whitelist.debit(&user_key, amount)
    }
}

/// The accounts of an accepted deposit or withdrawal belong together: the
/// mint's authority is the vault owner, the vault account is writable, and
/// both token accounts hold the instruction's mint.
pub proof fn lemma_accepted_accounts_share_the_mint(accounts: DepositWithdraw)
    ensures
        accounts.constraint_error() is None <==> {
            &&& accounts.mint.mint_authority == Some(accounts.owner)
            &&& accounts.vault_state_is_writable
            &&& accounts.vault_ata.mint == accounts.mint.key
            &&& accounts.user_ata.mint == accounts.mint.key
        },
{
}

/// A withdrawal moves the instruction's mint from the vault's token account
/// to the user's, for the asked amount with the mint's decimals, under the
/// vault's authority and signature.
pub proof fn lemma_withdrawal_moves_the_mint_to_the_user(accounts: DepositWithdraw, amount: u64)
    ensures
        accounts.withdraw_transfer(amount).source == accounts.vault_ata.key,
        accounts.withdraw_transfer(amount).mint == accounts.mint.key,
        accounts.withdraw_transfer(amount).destination == accounts.user_ata.key,
        accounts.withdraw_transfer(amount).authority == accounts.vault_state_key,
        accounts.withdraw_transfer(amount).amount == amount,
        accounts.withdraw_transfer(amount).decimals == accounts.mint.decimals,
        accounts.withdraw_transfer(amount).signer.mint == accounts.mint.key,
        accounts.withdraw_transfer(amount).signer.vault_bump == accounts.vault_state.vault_bump,
{
}

/// A deposit's instruction moves the instruction's mint from the user's token
/// account into the vault's, signed by the sender, with the hook's accounts
/// after them.
pub proof fn lemma_deposit_moves_the_mint_into_the_vault(accounts: DepositWithdraw)
    ensures
        accounts.deposit_accounts().len() == 6,
        accounts.deposit_accounts()[0] == (AccountMeta {
            pubkey: accounts.user_ata.key,
            is_signer: false,
            is_writable: true,
        }),
        accounts.deposit_accounts()[1] == (AccountMeta {
            pubkey: accounts.mint.key,
            is_signer: false,
            is_writable: false,
        }),
        accounts.deposit_accounts()[2] == (AccountMeta {
            pubkey: accounts.vault_ata.key,
            is_signer: false,
            is_writable: true,
        }),
        accounts.deposit_accounts()[3] == (AccountMeta {
            pubkey: accounts.sender,
            is_signer: true,
            is_writable: false,
        }),
        accounts.deposit_accounts()[4] == (AccountMeta {
            pubkey: accounts.extra_account_meta_list,
            is_signer: false,
            is_writable: false,
        }),
        accounts.deposit_accounts()[5] == (AccountMeta {
            pubkey: accounts.whitelist_key,
            is_signer: false,
            is_writable: true,
        }),
{
}

} // verus!
