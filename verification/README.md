# anchor_lang

A verified account layer for programs that work on accounts the runtime hands over in
serialized form. Every item under `src/` is checked by Verus against its contract.

## What it does

- `cursor` reads the serialized accounts of an instruction one record at a time. A record that
  repeats an earlier account yields that account's view, so both share one borrow state.
- `memory` holds the accounts. Its model is a sequence of accounts with their borrow states:
  any number of shared borrows, or a single exclusive one.
- `accounts` are the wrappers: `Account`, `BorshAccount`, `Signer`, `Program`, `SystemAccount`,
  `UncheckedAccount`, `Nested`, and their combinations with `Option` and `Box`. A wrapper with
  data holds a borrow from when it is loaded; a serialized account can give its borrow back
  before it is done with. `accounts::fields` states which fields of a struct load together.
- `context` gives a handler its accounts and, on demand, the ones that follow them.
- `dispatch` runs a handler: it walks and loads the declared accounts, calls the handler, writes
  the accounts back, and releases every borrow.
- `system_program` says what to ask the System program for.
- `updates` is a program whose accounts are changed after they are validated and before the
  handler sees them.
- `dup_mut` is a program whose instructions take accounts that may be one and the same. Its laws
  state which aliases load, which are refused, and with which error.

## Layout

- `src/`: the verified library. Public proof functions whose names begin with `law_` state what
  holds across functions.
- `tests/`: the library at run time, on concrete accounts.
- `app/`: ties the instructions to the accounts of the runtime and to the System program.

## What is trusted

`address::find_program_address` calls `pinocchio::Address::try_find_program_address`, and
`solana_program_error::ProgramError` is declared to Verus as it stands. Everything else is proved.
