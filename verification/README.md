# token_vault

The rules of a whitelisted token vault on Solana, verified with Verus.

- `src/` — the verified library: 32-byte account addresses (`pubkey`), the
  vault's errors (`error`), the whitelist ledger with its laws (`whitelist`),
  vault creation and the admin-only whitelist changes (`vault`), deposits and
  withdrawals (`deposit_withdraw`), minting (`mint_token`), the token
  program's checked-transfer instruction (`token_instruction`), and the
  instruction entry points (`program`).
- `app/` — the Anchor program around it: account validation and storage,
  and the calls into the token program that the library decides on.
- `tests/` — tests of the library on concrete values.
