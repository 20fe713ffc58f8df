# blend_leverage

Leveraged lending on a Blend pool, as a strategy of a DeFindex vault.

A deposit is supplied to the pool, a fraction of it is borrowed back and supplied again, for up
to twenty rounds. Depositors own shares of the net equity. The rules of the strategy are a
library verified with Verus; the contract around it runs them on the ledger.

- `src/leverage` holds the arithmetic: the loop, equity and shares, health factors, deposit
  safety, and how many layers to unwind.
- `src/strategy` holds the calls. A call that works with the ledger and the pool is a state: it
  says what it waits for (`request`) and is taken on by the reply (`step`).
- `src/laws` states what holds of the arithmetic as a whole; the laws of a call stand with it.
- `src/fixed_point.rs` holds the one outside call that is trusted, the fixed-point
  multiplication of `soroban_fixed_point_math`.
- `app` is the Soroban contract. It performs what a call waits for, and is generic over a
  `Backend`: the storage, the pool operations and the share accounting of a deployment.
