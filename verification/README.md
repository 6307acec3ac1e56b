# Theta Vault

A terminal journal for options trades. Its non-numeric decision logic is
verified by Verus; the floating-point mathematics is not.

- `src/` is the verified library: strategy and leg models, the alert rules
  and their display order, the journal's filtering, sorting by whole-number keys and month grouping, the
  key table (what each key does in each mode), form editing and navigation,
  the date picker, text and date handling, the playbook catalogue and the
  store's record formats. Calls into chrono and
  std that Verus cannot read sit behind small trusted wrappers whose
  contracts are documented where they stand.
- `tests/` runs the library on concrete values.
- `app/` is the program around it, and is not verified: the SQLite store,
  drawing the terminal interface and carrying out the actions the key table
  chooses, the JSON import, and the floating-point trade mathematics
  (statistics, greeks, payoffs, and the float parts of the alerts and
  forms).

The program takes the database path as its argument (`trades.db` by
default); `migrate [export.json] [trades.db]` imports a JSON export instead.
