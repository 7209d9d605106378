# calc_summary

A verified library of caches for a budget calculation, with the program around it.

- `src/` is the library, verified with Verus. `AnyMap` maps string keys to values of
  several types (`value::Value`), read back under the type they were stored with.
  `Calculated`, `Records` and `Summaries` store such values by type, date and key;
  `calculated::Calculated` keeps texts the same way on `StrMap`, the keyed map under all of them.
  `cache_build` fills the caches from the rows, budgets and accounts that were read;
  `list_growth` and `laws` hold what is proved of the caches across operations.
  Doubles are carried as their bit patterns (`F64Bits`); the arithmetic on them
  happens in the program.
- `app/` is the program: it loads the tables with diesel, hands the library plain
  records, performs the floating-point additions the library hands back, runs the
  formulas and writes the results as CSV.
- `tests/` exercises the library on concrete values.
