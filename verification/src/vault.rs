use vstd::prelude::*;

use crate::error::VaultError;
use crate::pubkey::Pubkey;
use crate::whitelist::{
    Whitelist, added, balance_of, first_position, has_key, keys_distinct, lemma_admit_keeps_balances,
    lemma_remove_keeps_others, removed,
};

verus! {

/// The vault account: who administers it, for which mint, and the bump of
/// its program-derived address.
#[derive(Clone, Copy, Debug)]
pub struct Vault {
    pub owner: Pubkey,
    pub mint: Pubkey,
    pub vault_bump: u8,
}

/// The accounts of the instruction that creates a vault: the admin that signs,
/// the mint, and what the vault account holds (`None` while it holds no vault).
pub struct VaultOperation {
    pub owner: Pubkey,
    pub mint: Pubkey,
    pub vault_state: Option<Vault>,
}

impl VaultOperation {
    /// The vault a creation comes to: the signer as admin of the mint's
    /// vault, or a refusal when the account already holds a vault.
    pub open spec fn create_vault_outcome(&self, vault_bump: u8) -> Result<Vault, VaultError> {
        if self.vault_state is Some {
            Err(VaultError::VaultAlreadyExist)
        } else {
            Ok(Vault { owner: self.owner, mint: self.mint, vault_bump })
        }
    }

    /// What a creation leaves behind: the new vault on success, the accounts
    /// unchanged on a refusal.
    pub open spec fn create_vault_post(
        &self,
        after: &VaultOperation,
        vault_bump: u8,
        result: Result<(), VaultError>,
    ) -> bool {
        &&& after.owner == self.owner
        &&& after.mint == self.mint
        &&& match self.create_vault_outcome(vault_bump) {
            Ok(v) => result is Ok && after.vault_state == Some(v),
            Err(e) => result == Err::<(), VaultError>(e) && after.vault_state == self.vault_state,
        }
    }

    /// Records the signer as the admin of a new vault for the mint; a vault
    /// that already exists cannot be made again.
    pub fn create_vault(&mut self, vault_bump: u8) -> (result: Result<(), VaultError>)
        ensures
            result is Ok <==> old(self).vault_state is None,
            result is Ok ==> final(self).vault_state == Some(
                Vault { owner: old(self).owner, mint: old(self).mint, vault_bump },
            ),
            result is Err ==> result == Err::<(), VaultError>(VaultError::VaultAlreadyExist)
                && final(self).vault_state == old(self).vault_state,
            old(self).create_vault_post(final(self), vault_bump, result),
    {
        if self.vault_state.is_some() {
            return Err(VaultError::VaultAlreadyExist);
        }
        self.vault_state = Some(Vault { owner: self.owner, mint: self.mint, vault_bump });
        Ok(())
    }
}

/// Once a vault has been created, creating it again is refused.
pub proof fn lemma_vault_cannot_be_recreated(
    before: VaultOperation,
    after: VaultOperation,
    first_bump: u8,
    second_bump: u8,
)
    requires
        before.create_vault_post(&after, first_bump, Ok(())),
    ensures
        after.create_vault_outcome(second_bump) == Err::<Vault, VaultError>(VaultError::VaultAlreadyExist),
{
}

/// Why `admin` may not change the whitelist of `vault`, if it may not.
pub open spec fn admin_error(vault: Option<Vault>, admin: Pubkey) -> Option<VaultError> {
    match vault {
        None => Some(VaultError::VaultNotCreatedByAdmin),
        Some(v) => if v.owner != admin {
            Some(VaultError::NotAdmin)
        } else {
            None
        },
    }
}

/// The accounts of the instructions that change the whitelist: the signer,
/// the vault it claims to administer, and the whitelist.
pub struct WhitelistOperations {
    pub admin: Pubkey,
    pub vault: Option<Vault>,
    pub whitelist: Whitelist,
}

impl WhitelistOperations {
    /// Refuses a signer that is not the admin of an existing vault.
    pub fn check_admin(&self) -> (result: Result<(), VaultError>)
        ensures
            result is Ok <==> (self.vault matches Some(v) && v.owner == self.admin),
            match result {
                Ok(()) => admin_error(self.vault, self.admin) is None,
                Err(e) => admin_error(self.vault, self.admin) == Some(e),
            },
    {
        match &self.vault {
            None => Err(VaultError::VaultNotCreatedByAdmin),
            Some(v) => if v.owner.equals(&self.admin) {
                Ok(())
            } else {
                Err(VaultError::NotAdmin)
            },
        }
    }

    /// What admitting `address` leaves behind: the address admitted when the
    /// signer is the vault admin, the whitelist unchanged otherwise; either
    /// way no key comes to have two entries.
    pub open spec fn add_post(
        &self,
        after: &WhitelistOperations,
        address: Pubkey,
        result: Result<(), VaultError>,
    ) -> bool {
        &&& after.admin == self.admin
        &&& after.vault == self.vault
        &&& after.whitelist.whitelist_bump == self.whitelist.whitelist_bump
        &&& keys_distinct(self.whitelist.address@) ==> keys_distinct(after.whitelist.address@)
        &&& match admin_error(self.vault, self.admin) {
            None => result is Ok && after.whitelist.address@ == added(self.whitelist.address@, address),
            Some(e) => result == Err::<(), VaultError>(e) && after.whitelist.address@
                == self.whitelist.address@,
        }
    }

    /// Admits `address` to the whitelist with a zero balance (an address
    /// already there keeps its entry); only the vault admin may do so.
    pub fn add_to_whitelist(&mut self, address: Pubkey) -> (result: Result<(), VaultError>)
        ensures
            result is Ok <==> (old(self).vault matches Some(v) && v.owner == old(self).admin),
            result is Err ==> final(self).whitelist.address@ == old(self).whitelist.address@,
            result is Ok ==> has_key(final(self).whitelist.address@, address),
            result is Ok && has_key(old(self).whitelist.address@, address) ==> final(self).whitelist.address@
                == old(self).whitelist.address@,
            result is Ok && !has_key(old(self).whitelist.address@, address) ==> balance_of(
                final(self).whitelist.address@,
                address,
            ) == Some(0u64),
            forall|other: Pubkey|
                has_key(old(self).whitelist.address@, other) ==> #[trigger] balance_of(
                    final(self).whitelist.address@,
                    other,
                ) == balance_of(old(self).whitelist.address@, other),
            old(self).add_post(final(self), address, result),
    {
        self.check_admin()?;
        self.whitelist.add_address(address);
        Ok(())
    }

    /// What removing `address` leaves behind: its first entry gone when the
    /// signer is the vault admin and the address is there, the whitelist
    /// unchanged otherwise; either way no key comes to have two entries.
    pub open spec fn remove_post(
        &self,
        after: &WhitelistOperations,
        address: Pubkey,
        result: Result<(), VaultError>,
    ) -> bool {
        &&& after.admin == self.admin
        &&& after.vault == self.vault
        &&& after.whitelist.whitelist_bump == self.whitelist.whitelist_bump
        &&& keys_distinct(self.whitelist.address@) ==> keys_distinct(after.whitelist.address@)
        &&& match admin_error(self.vault, self.admin) {
            Some(e) => result == Err::<(), VaultError>(e) && after.whitelist.address@
                == self.whitelist.address@,
            None => if has_key(self.whitelist.address@, address) {
                result is Ok && after.whitelist.address@ == removed(self.whitelist.address@, address)
            } else {
                result == Err::<(), VaultError>(VaultError::UserNotExistInVec)
                    && after.whitelist.address@ == self.whitelist.address@
            },
        }
    }

    /// Takes `address` out of the whitelist; only the vault admin may do so,
    /// and an address that is not there is refused.
    pub fn remove_from_whitelist(&mut self, address: Pubkey) -> (result: Result<(), VaultError>)
        ensures
            result is Ok <==> (old(self).vault matches Some(v) && v.owner == old(self).admin
                && has_key(old(self).whitelist.address@, address)),
            result is Err ==> final(self).whitelist.address@ == old(self).whitelist.address@,
            result is Ok ==> final(self).whitelist.address@ == old(self).whitelist.address@.remove(
                first_position(old(self).whitelist.address@, address),
            ),
            forall|other: Pubkey|
                other != address ==> #[trigger] balance_of(final(self).whitelist.address@, other)
                    == balance_of(old(self).whitelist.address@, other),
            old(self).remove_post(final(self), address, result),
    {
        self.check_admin()?;
        self.whitelist.remove_address(&address)
    }
}

/// A vault that is created belongs to the signer and the instruction's mint,
/// with the given bump; a creation is refused only when a vault exists.
pub proof fn lemma_created_vault_is_the_signers(
    before: VaultOperation,
    after: VaultOperation,
    vault_bump: u8,
    result: Result<(), VaultError>,
)
    requires
        before.create_vault_post(&after, vault_bump, result),
    ensures
        result is Ok <==> before.vault_state is None,
        result is Ok ==> after.vault_state == Some(
            Vault { owner: before.owner, mint: before.mint, vault_bump },
        ),
        result is Err ==> after.vault_state == before.vault_state,
{
}

/// Admitting an address, when it succeeds, leaves it in the whitelist and
/// every address that was there with the balance it had; a refusal changes
/// nothing; only the vault's owner succeeds.
pub proof fn lemma_admit_keeps_deposits(
    before: WhitelistOperations,
    after: WhitelistOperations,
    address: Pubkey,
    result: Result<(), VaultError>,
)
    requires
        before.add_post(&after, address, result),
    ensures
        result is Ok <==> (before.vault matches Some(v) && v.owner == before.admin),
        result is Ok ==> has_key(after.whitelist.address@, address),
        result is Err ==> after.whitelist.address@ == before.whitelist.address@,
        forall|other: Pubkey|
            has_key(before.whitelist.address@, other) ==> #[trigger] balance_of(
                after.whitelist.address@,
                other,
            ) == balance_of(before.whitelist.address@, other),
{
    lemma_admit_keeps_balances(before.whitelist.address@, address);
}

/// Removing an address, when it succeeds, takes out one entry, that of the
/// address, and leaves every other address with the balance it had.
pub proof fn lemma_remove_keeps_other_addresses(
    before: WhitelistOperations,
    after: WhitelistOperations,
    address: Pubkey,
    result: Result<(), VaultError>,
)
    requires
        before.remove_post(&after, address, result),
    ensures
        result is Ok ==> after.whitelist.address@.len() == before.whitelist.address@.len() - 1,
        forall|other: Pubkey|
            other != address ==> #[trigger] balance_of(after.whitelist.address@, other)
                == balance_of(before.whitelist.address@, other),
{
    if has_key(before.whitelist.address@, address) {
        lemma_remove_keeps_others(before.whitelist.address@, address);
    }
}

} // verus!
