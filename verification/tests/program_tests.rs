use token_vault::{
    add_to_whitelist, create_vault, mint_token, remove_from_whitelist, Pubkey, TokenFactory,
    VaultError, VaultOperation, Whitelist, WhitelistOperations,
};

fn key(b: u8) -> Pubkey {
    Pubkey::new_from_array([b; 32])
}

fn factory(admin: Pubkey, mint: Pubkey, ata: Pubkey) -> TokenFactory {
    TokenFactory {
        user: admin,
        mint,
        source_token_account: ata,
        extra_account_meta_list: key(40),
        blocklist: key(41),
        hook_program_id: key(42),
    }
}

#[test]
fn modify_name() {
    let admin = key(1);
    let mint = key(2);

    // [1] create the vault
    let mut vault_accounts = VaultOperation { owner: admin, mint, vault_state: None };
    assert_eq!(create_vault(&mut vault_accounts, 254), Ok(()));
    let fetched_vault_state = vault_accounts.vault_state.unwrap();
    assert_eq!(
        fetched_vault_state.mint.to_bytes(),
        mint.to_bytes(),
        "Account wasn't set correctly in Vault"
    );
    assert_eq!(
        fetched_vault_state.owner.to_bytes(),
        admin.to_bytes(),
        "Account wasn't set correctly in Vault"
    );

    // [3] add to whitelist
    let new_user_ata = key(3);
    let mut whitelist_accounts = WhitelistOperations {
        admin,
        vault: Some(fetched_vault_state),
        whitelist: Whitelist { address: Vec::new(), whitelist_bump: 255 },
    };
    assert_eq!(add_to_whitelist(&mut whitelist_accounts, new_user_ata), Ok(()));
    let contains_address = whitelist_accounts.whitelist.contains_address(&new_user_ata);
    println!("contains you: {}", contains_address);
    assert!(contains_address);

    // [4] mint token to self
    let admin_ata = key(4);
    let minted = mint_token(&factory(admin, mint, admin_ata), 10_000, 9).unwrap();
    println!("Admin ATA token balance: {}", minted.amount);
    assert_eq!(minted.amount, 90_000);
    assert_eq!(minted.decimals, 9);
    assert_eq!(minted.destination.to_bytes(), admin_ata.to_bytes());
    assert_eq!(minted.authority.to_bytes(), admin.to_bytes());
    assert_eq!(minted.mint.to_bytes(), mint.to_bytes());
}

#[test]
pub fn say_name() {}

#[test]
fn vault_cannot_be_created_twice() {
    let mut accounts = VaultOperation { owner: key(1), mint: key(2), vault_state: None };
    assert_eq!(create_vault(&mut accounts, 7), Ok(()));
    assert_eq!(accounts.vault_state.unwrap().vault_bump, 7);
    assert_eq!(create_vault(&mut accounts, 9), Err(VaultError::VaultAlreadyExist));
    assert_eq!(accounts.vault_state.unwrap().vault_bump, 7);
}

#[test]
fn mint_overflow_is_refused() {
    let f = factory(key(1), key(2), key(3));
    assert_eq!(mint_token(&f, u64::MAX, 2).unwrap_err(), VaultError::MUltiplicationAtMint);
    assert_eq!(mint_token(&f, u64::MAX, 1).unwrap().amount, u64::MAX);
    assert_eq!(mint_token(&f, 5, 0).unwrap().amount, 0);
}

fn admin_ops(admin: Pubkey, owner: Pubkey) -> WhitelistOperations {
    let mut accounts = VaultOperation { owner, mint: key(2), vault_state: None };
    create_vault(&mut accounts, 1).unwrap();
    WhitelistOperations {
        admin,
        vault: accounts.vault_state,
        whitelist: Whitelist { address: Vec::new(), whitelist_bump: 9 },
    }
}

#[test]
fn only_the_admin_changes_the_whitelist() {
    let mut ops = admin_ops(key(5), key(1));
    assert_eq!(add_to_whitelist(&mut ops, key(3)), Err(VaultError::NotAdmin));
    assert!(ops.whitelist.address.is_empty());
    assert_eq!(remove_from_whitelist(&mut ops, key(3)), Err(VaultError::NotAdmin));

    let mut no_vault = WhitelistOperations {
        admin: key(1),
        vault: None,
        whitelist: Whitelist { address: Vec::new(), whitelist_bump: 9 },
    };
    assert_eq!(add_to_whitelist(&mut no_vault, key(3)), Err(VaultError::VaultNotCreatedByAdmin));
    assert!(no_vault.whitelist.address.is_empty());
}

#[test]
fn add_and_remove_addresses() {
    let mut ops = admin_ops(key(1), key(1));
    assert_eq!(add_to_whitelist(&mut ops, key(3)), Ok(()));
    assert_eq!(add_to_whitelist(&mut ops, key(4)), Ok(()));
    // admitting twice keeps one entry
    assert_eq!(add_to_whitelist(&mut ops, key(3)), Ok(()));
    assert_eq!(ops.whitelist.address.len(), 2);
    assert_eq!(ops.whitelist.balance(&key(3)), Some(0));

    assert_eq!(remove_from_whitelist(&mut ops, key(3)), Ok(()));
    assert!(!ops.whitelist.contains_address(&key(3)));
    assert!(ops.whitelist.contains_address(&key(4)));
    assert_eq!(remove_from_whitelist(&mut ops, key(3)), Err(VaultError::UserNotExistInVec));
    assert_eq!(ops.whitelist.address.len(), 1);
    assert_eq!(ops.whitelist.whitelist_bump, 9);
}
