# pallets

Verified logic of two modules of a FRAME runtime.

- `transaction_payment` computes the fee of a transaction, adjusts the fee multiplier to the
  fullness of blocks, withdraws and corrects fees through a handler, and ranks transactions.
- `certificate` is a registry of certificates. The admin of an organization creates certificates
  in its name and issues them to recipients.

`src/` is the library, proved with Verus. Each operation has a contract over a mathematical model
of its state. `src/transaction_payment/laws.rs`, `src/transaction_payment/adjustment.rs` and
`src/certificate/laws.rs` state what holds of the operations together. Fixed-point arithmetic,
BLAKE2b, SCALE encoding and base 58 come from outside crates; the functions that call them are
marked, and say what they claim.

`app/` ties the library to FRAME: storage, currency, events and signed extensions. It is ordinary
Rust. `tests/` runs the library.
