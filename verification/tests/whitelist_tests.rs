use token_vault::{Pubkey, VaultError, Whitelist};

fn key(b: u8) -> Pubkey {
    Pubkey::new_from_array([b; 32])
}

fn list(entries: &[(u8, u64)]) -> Whitelist {
    Whitelist {
        address: entries.iter().map(|(k, a)| (key(*k), *a)).collect(),
        whitelist_bump: 254,
    }
}

fn balances(w: &Whitelist) -> Vec<(u8, u64)> {
    w.address.iter().map(|(k, a)| (k.to_bytes()[0], *a)).collect()
}

#[test]
fn keys_compare_by_every_byte() {
    let mut bytes = [7u8; 32];
    let a = Pubkey::new_from_array(bytes);
    bytes[31] = 8;
    let b = Pubkey::new_from_array(bytes);
    assert!(a.equals(&a));
    assert!(!a.equals(&b));
    assert_eq!(b.to_bytes()[31], 8);
}

#[test]
fn contains_address_finds_any_entry() {
    let w = list(&[(1, 10), (2, 0), (3, 5)]);
    assert!(w.contains_address(&key(1)));
    assert!(w.contains_address(&key(3)));
    assert!(!w.contains_address(&key(4)));
    assert!(!list(&[]).contains_address(&key(1)));
}

#[test]
fn position_and_balance_use_the_first_entry() {
    let w = list(&[(1, 10), (2, 4), (2, 6)]);
    assert_eq!(w.position(&key(2)), Some(1));
    assert_eq!(w.balance(&key(2)), Some(4));
    assert_eq!(w.position(&key(9)), None);
    assert_eq!(w.balance(&key(9)), None);
}

#[test]
fn credit_adds_to_the_first_entry_only() {
    let mut w = list(&[(1, 10), (2, 4), (2, 6)]);
    assert_eq!(w.credit(&key(2), 5), Ok(()));
    assert_eq!(balances(&w), vec![(1, 10), (2, 9), (2, 6)]);
    // an unknown key is not recorded
    assert_eq!(w.credit(&key(7), 5), Ok(()));
    assert_eq!(balances(&w), vec![(1, 10), (2, 9), (2, 6)]);
}

#[test]
fn credit_overflow_is_refused() {
    let mut w = list(&[(1, u64::MAX - 1)]);
    assert_eq!(w.credit(&key(1), 2), Err(VaultError::AdditionAtUpdateUserOverflow));
    assert_eq!(balances(&w), vec![(1, u64::MAX - 1)]);
    assert_eq!(w.credit(&key(1), 1), Ok(()));
    assert_eq!(w.balance(&key(1)), Some(u64::MAX));
}

#[test]
fn debit_removes_an_emptied_entry() {
    let mut w = list(&[(1, 10), (2, 4)]);
    assert_eq!(w.debit(&key(1), 3), Ok(()));
    assert_eq!(balances(&w), vec![(1, 7), (2, 4)]);
    assert_eq!(w.debit(&key(1), 7), Ok(()));
    assert_eq!(balances(&w), vec![(2, 4)]);
    assert_eq!(w.debit(&key(9), 7), Ok(()));
    assert_eq!(balances(&w), vec![(2, 4)]);
}

#[test]
fn debit_underflow_is_refused() {
    let mut w = list(&[(2, 4)]);
    assert_eq!(w.debit(&key(2), 5), Err(VaultError::SubtractionAtUpdateUserUnderflow));
    assert_eq!(balances(&w), vec![(2, 4)]);
}

#[test]
fn deposit_then_withdraw_restores_the_ledger() {
    let mut w = list(&[(1, 10), (2, 4)]);
    w.credit(&key(2), 6).unwrap();
    w.debit(&key(2), 6).unwrap();
    assert_eq!(balances(&w), vec![(1, 10), (2, 4)]);
    // from a zero balance the entry does not come back
    let mut z = list(&[(1, 0)]);
    z.credit(&key(1), 6).unwrap();
    z.debit(&key(1), 6).unwrap();
    assert!(z.address.is_empty());
}

#[test]
fn withdraw_then_deposit_restores_the_ledger() {
    let mut w = list(&[(1, 10)]);
    w.debit(&key(1), 4).unwrap();
    w.credit(&key(1), 4).unwrap();
    assert_eq!(balances(&w), vec![(1, 10)]);
}

#[test]
fn add_then_remove() {
    let mut w = list(&[(1, 3)]);
    w.add_address(key(2));
    assert_eq!(balances(&w), vec![(1, 3), (2, 0)]);
    w.add_address(key(1));
    assert_eq!(balances(&w), vec![(1, 3), (2, 0)]);
    assert_eq!(w.remove_address(&key(1)), Ok(()));
    assert!(!w.contains_address(&key(1)));
    assert_eq!(w.remove_address(&key(1)), Err(VaultError::UserNotExistInVec));
    assert_eq!(w.whitelist_bump, 254);
}

#[test]
fn error_messages() {
    assert_eq!(VaultError::VaultAlreadyExist.message(), "You can't recreate a vault");
    assert_eq!(VaultError::NotAdmin.message(), "Wrong Admin Provided");
    assert_eq!(
        VaultError::UserNotExistInVec.message(),
        "Cannot remove user, user does not exist"
    );
    assert_eq!(VaultError::MUltiplicationAtMint.message(), "overflow at multiplication on mint");
    assert_eq!(
        VaultError::VaultNotCreatedByAdmin.message(),
        "Admin should already have created this Vault"
    );
}

#[test]
fn operations_keep_keys_distinct() {
    let mut w = list(&[(1, 10), (2, 4)]);
    w.add_address(key(1));
    w.add_address(key(3));
    w.credit(&key(2), 1).unwrap();
    w.debit(&key(1), 10).unwrap();
    w.remove_address(&key(3)).unwrap();
    w.add_address(key(2));
    let keys: Vec<u8> = balances(&w).iter().map(|(k, _)| *k).collect();
    assert_eq!(keys, vec![2]);
}
