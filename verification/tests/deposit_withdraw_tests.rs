use token_vault::{
    vault_seed, DepositWithdraw, InstructionError, MintAccount, Pubkey, TokenAccount, Vault,
    VaultError, Whitelist,
};

fn key(b: u8) -> Pubkey {
    Pubkey::new_from_array([b; 32])
}

const OWNER: u8 = 1;
const MINT: u8 = 2;
const USER_ATA: u8 = 3;
const VAULT_ATA: u8 = 4;

fn accounts(user_amount: u64, ledger: Vec<(Pubkey, u64)>) -> DepositWithdraw {
    DepositWithdraw {
        sender: key(10),
        owner: key(OWNER),
        mint: MintAccount { key: key(MINT), mint_authority: Some(key(OWNER)), decimals: 9 },
        hook_program_id: key(11),
        vault_state_key: key(12),
        vault_state: Vault { owner: key(OWNER), mint: key(MINT), vault_bump: 250 },
        vault_state_is_writable: true,
        vault_ata: TokenAccount { key: key(VAULT_ATA), mint: key(MINT), amount: 0 },
        user_ata: TokenAccount { key: key(USER_ATA), mint: key(MINT), amount: user_amount },
        whitelist_key: key(13),
        whitelist: Whitelist { address: ledger, whitelist_bump: 253 },
        extra_account_meta_list: key(14),
        token_program: Pubkey::new_from_array(spl_token_2022::ID.to_bytes()),
    }
}

fn meta(ix: &token_vault::Instruction, i: usize) -> (u8, bool, bool) {
    let m = ix.accounts[i];
    (m.pubkey.to_bytes()[0], m.is_signer, m.is_writable)
}

#[test]
fn deposit_builds_the_token_program_transfer() {
    let a = accounts(100, vec![(key(USER_ATA), 5)]);
    let ix = a.deposit(40).unwrap();
    assert_eq!(ix.program_id.to_bytes(), spl_token_2022::ID.to_bytes());
    assert_eq!(ix.data, vec![12u8, 40, 0, 0, 0, 0, 0, 0, 0, 9]);
    assert_eq!(ix.accounts.len(), 6);
    assert_eq!(meta(&ix, 0), (USER_ATA, false, true));
    assert_eq!(meta(&ix, 1), (MINT, false, false));
    assert_eq!(meta(&ix, 2), (VAULT_ATA, false, true));
    assert_eq!(meta(&ix, 3), (10, true, false));
    assert_eq!(meta(&ix, 4), (14, false, false));
    assert_eq!(meta(&ix, 5), (13, false, true));

    let big = accounts(u64::MAX, vec![]);
    let ix = big.deposit(0x0102_0304_0506_0708).unwrap();
    assert_eq!(ix.data, vec![12u8, 8, 7, 6, 5, 4, 3, 2, 1, 9]);
}

#[test]
fn deposit_accepts_the_original_token_program() {
    let mut a = accounts(100, vec![]);
    a.token_program = Pubkey::new_from_array(spl_token_2022::solana_program::pubkey::Pubkey::from_str_const(
        "TokenkegQfeZyiNwAJbNbGKPFXCWuBvf9Ss623VQ5DA",
    ).to_bytes());
    let ix = a.deposit(1).unwrap();
    assert_eq!(ix.program_id.to_bytes(), a.token_program.to_bytes());
}

#[test]
fn deposit_refuses_another_token_program() {
    let mut a = accounts(100, vec![]);
    a.token_program = key(15);
    assert_eq!(a.deposit(1).unwrap_err(), InstructionError::IncorrectProgramId);
    a.user_ata.amount = 0;
    assert_eq!(
        a.deposit(1).unwrap_err(),
        InstructionError::Vault(VaultError::InsufficientBalance)
    );
}

#[test]
fn deposit_needs_the_user_balance() {
    let a = accounts(39, vec![]);
    assert_eq!(
        a.deposit(40).unwrap_err(),
        InstructionError::Vault(VaultError::InsufficientBalance)
    );
    assert!(a.deposit(39).is_ok());
}

#[test]
fn deposit_records_the_amount() {
    let mut a = accounts(100, vec![(key(7), 1), (key(USER_ATA), 5)]);
    a.deposit(40).unwrap();
    assert_eq!(a.record_deposit(40), Ok(()));
    assert_eq!(a.whitelist.balance(&key(USER_ATA)), Some(45));
    assert_eq!(a.whitelist.balance(&key(7)), Some(1));

    let mut full = accounts(100, vec![(key(USER_ATA), u64::MAX)]);
    assert_eq!(full.record_deposit(1), Err(VaultError::AdditionAtUpdateUserOverflow));
    assert_eq!(full.whitelist.balance(&key(USER_ATA)), Some(u64::MAX));

    let mut stranger = accounts(100, vec![]);
    assert_eq!(stranger.record_deposit(1), Ok(()));
    assert!(stranger.whitelist.address.is_empty());
}

#[test]
fn account_constraints() {
    let mut a = accounts(100, vec![]);
    a.mint.mint_authority = Some(key(99));
    assert_eq!(a.check_constraints(), Err(VaultError::WrongMintAuthority));
    a.mint.mint_authority = None;
    assert_eq!(
        a.deposit(1).unwrap_err(),
        InstructionError::Vault(VaultError::WrongMintAuthority)
    );

    let mut b = accounts(100, vec![]);
    b.vault_state_is_writable = false;
    assert_eq!(
        b.deposit(1).unwrap_err(),
        InstructionError::Vault(VaultError::VaultNotCreatedByAdmin)
    );

    let mut c = accounts(100, vec![]);
    c.vault_ata.mint = key(98);
    assert_eq!(c.withdraw(1).unwrap_err(), VaultError::WrongMint);

    let mut d = accounts(100, vec![]);
    d.user_ata.mint = key(98);
    assert_eq!(d.check_constraints(), Err(VaultError::WrongMint));

    assert_eq!(accounts(0, vec![]).check_constraints(), Ok(()));
}

#[test]
fn withdraw_transfers_from_the_vault_signed_by_it() {
    let a = accounts(0, vec![(key(USER_ATA), 50)]);
    let t = a.withdraw(50).unwrap();
    assert_eq!(t.source.to_bytes(), key(VAULT_ATA).to_bytes());
    assert_eq!(t.destination.to_bytes(), key(USER_ATA).to_bytes());
    assert_eq!(t.authority.to_bytes(), key(12).to_bytes());
    assert_eq!(t.amount, 50);
    assert_eq!(t.decimals, 9);
    assert_eq!(t.signer.mint.to_bytes(), key(MINT).to_bytes());
    assert_eq!(t.signer.vault_bump, 250);
    let seeds = t.signer.seeds();
    assert_eq!(seeds, vec![vec![MINT; 32], b"vault".to_vec(), vec![250u8]]);
    assert_eq!(vault_seed(), b"vault".to_vec());
}

#[test]
fn withdraw_checks_the_whitelist() {
    let a = accounts(0, vec![(key(7), 50)]);
    assert_eq!(a.withdraw(1).unwrap_err(), VaultError::UserNotExistInVecForReal);
    let b = accounts(0, vec![(key(USER_ATA), 50)]);
    assert_eq!(b.withdraw(51).unwrap_err(), VaultError::InsufficientBalance);
}

#[test]
fn withdraw_records_and_removes_an_emptied_user() {
    let mut a = accounts(0, vec![(key(USER_ATA), 50), (key(7), 1)]);
    a.withdraw(20).unwrap();
    assert_eq!(a.record_withdraw(20), Ok(()));
    assert_eq!(a.whitelist.balance(&key(USER_ATA)), Some(30));
    a.withdraw(30).unwrap();
    assert_eq!(a.record_withdraw(30), Ok(()));
    assert!(!a.whitelist.contains_address(&key(USER_ATA)));
    assert_eq!(a.whitelist.balance(&key(7)), Some(1));
    assert_eq!(a.record_withdraw(30), Ok(()));

    let mut b = accounts(0, vec![(key(USER_ATA), 5)]);
    assert_eq!(b.record_withdraw(6), Err(VaultError::SubtractionAtUpdateUserUnderflow));
    assert_eq!(b.whitelist.balance(&key(USER_ATA)), Some(5));
}
