# svalue

Exchange-rate aggregation across cryptocurrency exchanges (Bittrex, Huobi,
Kraken), written in Verus.

* `src/` is the verified library: string helpers (`text`), a string-keyed
  table (`keyed`), decimal amounts read with `rust_decimal` (`amount`), URI
  building (`adapter_core`), pairs, rates and errors (`exchange`), and per
  exchange the listing logic, Kraken's asset-name tables and ticker search,
  and the manager that routes a rate request to every exchange listing a
  pair (`exchanges`).
* `app/` is the program around it: HTTP requests, JSON shapes, the
  asynchronous adapter traits, and Huobi's floating-point prices.
* `tests/` exercises the library on concrete values.
