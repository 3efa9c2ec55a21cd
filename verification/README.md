# Vesting

A means of placing a linear curve on an account's locked balance. There is always a lock in place
that prevents the balance from dropping below the *unvested* amount for any reason other than
transaction fee payment. As the amount vested increases over time, the amount unvested reduces; the
lock follows when the account, or somebody on its behalf, asks for it.

The library in `src/` is written in Verus: every function states in its contract what it returns
and what it changes, and the verifier proves it.

- `vesting_info` - a single schedule: its curve, its end, its validity.
- `schedules` - the schedules of one account: which of them remain, how much they lock, and what two
  of them make when they are merged.
- `storage` - the storage as a mathematical value, and what each call makes of it.
- `pallet` - the storage and the calls.
- `genesis` - the vesting that is in place from the first block on.
- `laws` - what holds of the pallet as a whole: of a schedule's curve, of lists of schedules, of
  mergers, of the locks, of genesis and upgrades, and of everything that may happen in any order.
- `config`, `types` - what a runtime chooses, and plain values.
- `origin`, `bounded` - the calls into `frame_system` and `BoundedVec`, whose contracts are trusted.

A call is handed the current block and the accounts that addresses lead to. When it is accepted it
returns the effects to carry out on the currency; when it is refused the storage stays as it was. A
transfer of funds, which the currency decides on, is handed in as a function.

`app/` is the pallet inside a FRAME runtime: it keeps the storage on chain, looks up addresses, and
carries out the effects on a lockable currency. `tests/` runs the library on concrete values.
