use vstd::prelude::*;

use crate::pubkey::Pubkey;

verus! {

#[verifier::external_type_specification]
#[verifier::external_body]
pub struct ExProgramError(spl_token_2022::solana_program::program_error::ProgramError);

/// An account that an instruction reads or writes, and whether it signs.
#[derive(Clone, Copy, Debug)]
pub struct AccountMeta {
    pub pubkey: Pubkey,
    pub is_signer: bool,
    pub is_writable: bool,
}

/// An instruction for another on-chain program: the program, the accounts
/// it is given, and its data.
#[derive(Clone, Debug)]
pub struct Instruction {
    pub program_id: Pubkey,
    pub accounts: Vec<AccountMeta>,
    pub data: Vec<u8>,
}

/// The address of the Token-2022 program.
pub open spec fn token_2022_program_id() -> Seq<u8> {
    seq![
        6u8, 221, 246, 225, 238, 117, 143, 222, 24, 66, 93, 188, 228, 108, 205, 218,
        182, 26, 252, 77, 131, 185, 13, 39, 254, 189, 249, 40, 216, 161, 139, 252,
    ]
}

/// The address of the original token program.
pub open spec fn token_program_id() -> Seq<u8> {
    seq![
        6u8, 221, 246, 225, 215, 101, 161, 147, 217, 203, 225, 70, 206, 235, 121, 172,
        28, 180, 133, 237, 95, 91, 55, 145, 58, 140, 245, 133, 126, 255, 0, 169,
    ]
}

/// `key` is one of the two token programs.
pub open spec fn is_token_program(key: Pubkey) -> bool {
    key.bytes@ == token_2022_program_id() || key.bytes@ == token_program_id()
}

/// The eight little-endian bytes of `x`.
pub open spec fn u64_le_bytes(x: u64) -> Seq<u8> {
    seq![
        (x % 0x100) as u8,
        ((x / 0x100) % 0x100) as u8,
        ((x / 0x1_0000) % 0x100) as u8,
        ((x / 0x100_0000) % 0x100) as u8,
        ((x / 0x1_0000_0000) % 0x100) as u8,
        ((x / 0x100_0000_0000) % 0x100) as u8,
        ((x / 0x1_0000_0000_0000) % 0x100) as u8,
        ((x / 0x100_0000_0000_0000) % 0x100) as u8,
    ]
}

/// The data of a checked transfer: its tag, the amount and the decimals.
pub open spec fn transfer_checked_data(amount: u64, decimals: u8) -> Seq<u8> {
    seq![12u8] + u64_le_bytes(amount) + seq![decimals]
}

/// The number that little-endian `bytes` spell.
pub open spec fn le_value(bytes: Seq<u8>) -> nat
    decreases bytes.len(),
{
    if bytes.len() == 0 {
        0
    } else {
        bytes[0] as nat + 256 * le_value(bytes.drop_first())
    }
}

proof fn lemma_le_step(bytes: Seq<u8>, k: int, x: int, c: int)
    requires
        0 <= k < bytes.len(),
        0 <= x,
        0 < c,
        bytes[k] as int == (x / c) % 256,
        le_value(bytes.subrange(k + 1, bytes.len() as int)) == x / (c * 256),
    ensures
        le_value(bytes.subrange(k, bytes.len() as int)) == x / c,
{
    assert(bytes.subrange(k, bytes.len() as int).drop_first() =~= bytes.subrange(k + 1, bytes.len() as int));
    vstd::arithmetic::div_mod::lemma_div_denominator(x, c, 256);
    vstd::arithmetic::div_mod::lemma_fundamental_div_mod(x / c, 256);
}

/// The data of a checked transfer is ten bytes: the tag 12, eight bytes that
/// read back, little-endian, as the amount, and the decimals.
pub proof fn lemma_transfer_data_layout(amount: u64, decimals: u8)
    ensures
        transfer_checked_data(amount, decimals).len() == 10,
        transfer_checked_data(amount, decimals)[0] == 12,
        transfer_checked_data(amount, decimals)[9] == decimals,
        le_value(transfer_checked_data(amount, decimals).subrange(1, 9)) == amount,
{
    let d = transfer_checked_data(amount, decimals);
    let b = u64_le_bytes(amount);
    assert(d.subrange(1, 9) =~= b);
    let x = amount as int;
    assert(b.subrange(8, 8) =~= Seq::<u8>::empty());
    assert(x / 0x1_0000_0000_0000_0000 == 0);
    lemma_le_step(b, 7, x, 0x100_0000_0000_0000);
    lemma_le_step(b, 6, x, 0x1_0000_0000_0000);
    lemma_le_step(b, 5, x, 0x100_0000_0000);
    lemma_le_step(b, 4, x, 0x1_0000_0000);
    lemma_le_step(b, 3, x, 0x100_0000);
    lemma_le_step(b, 2, x, 0x1_0000);
    lemma_le_step(b, 1, x, 0x100);
    lemma_le_step(b, 0, x, 1);
    assert(b.subrange(0, 8) =~= b);
}

/// The accounts of a checked transfer signed by `authority` alone.
pub open spec fn transfer_checked_accounts(
    source: Pubkey,
    mint: Pubkey,
    destination: Pubkey,
    authority: Pubkey,
) -> Seq<AccountMeta> {
    seq![
        AccountMeta { pubkey: source, is_signer: false, is_writable: true },
        AccountMeta { pubkey: mint, is_signer: false, is_writable: false },
        AccountMeta { pubkey: destination, is_signer: false, is_writable: true },
        AccountMeta { pubkey: authority, is_signer: true, is_writable: false },
    ]
}

/// Builds a checked transfer with `spl_token_2022::instruction::transfer_checked`,
/// without multisig signers. As its source shows, the call is refused (with
/// `IncorrectProgramId`) exactly when `token_program` is neither token program;
/// otherwise the instruction goes to `token_program`, names the source
/// (writable), the mint, the destination (writable) and the signing
/// authority, and carries tag 12, the amount in little-endian and the decimals.
#[verifier::external_body]
pub(crate) fn build_transfer_checked(
    token_program: &Pubkey,
    source: &Pubkey,
    mint: &Pubkey,
    destination: &Pubkey,
    authority: &Pubkey,
    amount: u64,
    decimals: u8,
) -> (result: Result<Instruction, spl_token_2022::solana_program::program_error::ProgramError>)
    ensures
        result is Ok <==> is_token_program(*token_program),
        result matches Ok(ix) ==> {
            &&& ix.program_id == *token_program
            &&& ix.accounts@ == transfer_checked_accounts(*source, *mint, *destination, *authority)
            &&& ix.data@ == transfer_checked_data(amount, decimals)
        },
{
    let key = |k: &Pubkey| spl_token_2022::solana_program::pubkey::Pubkey::new_from_array(k.bytes);
    let ix = spl_token_2022::instruction::transfer_checked(
        &key(token_program), &key(source), &key(mint), &key(destination), &key(authority), &[], amount, decimals,
    )?;
    let accounts = ix.accounts.iter().map(|m| AccountMeta {
        pubkey: Pubkey { bytes: m.pubkey.to_bytes() }, is_signer: m.is_signer, is_writable: m.is_writable,
    }).collect();
    Ok(Instruction { program_id: Pubkey { bytes: ix.program_id.to_bytes() }, accounts, data: ix.data })
}

} // verus!
