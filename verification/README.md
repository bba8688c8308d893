# nft_manager

The verified core of a Solana program that manages NFTs behind a token
transfer hook.

- `src/` is the Verus library: addresses (`address.rs`), seeds of the
  program-derived accounts (`seeds.rs`), the manager account
  (`manager.rs`), the ids of the programs the hook names
  (`program_ids.rs`), the extra-account-meta list (`meta_list.rs`), the
  hook's decisions as a state machine (`hook.rs`) and the laws that tie its
  steps together (`laws.rs`).
- `app/` is the Anchor program: account validation, the rent sysvar and the
  cross-program invocations that the library plans.
- `tests/` exercises the library on concrete values.
