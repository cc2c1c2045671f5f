# engine_rust

A bar-by-bar backtesting engine for Python strategies, split in two:

- `src/` — the verified library (Verus). It holds the engine's decisions:
  reading date-times from text and the configured date range
  (`calendar`, `config`, `stamp`, `text`), checking raw bars (`bars`), the
  joint timeline of several feeds (`timeline`), reading the orders a strategy
  asks for, matching them against the last price and recording them
  (`orders`, `records`), the context keys (`context`), and the integer parts
  of the statistics and of the factor backtest (`stats`, `factor`). Prices,
  sizes and money are a type parameter here: the library decides without
  doing arithmetic on them.
- `app/` — the Python module (PyO3): the run loops that call the strategy,
  and all floating-point work (fills with slippage and commission, position
  and cash bookkeeping, risk checks, indicators, return and risk
  statistics, factor returns and correlation).
- `tests/` — tests of the library on concrete values.

Date-time grammars (RFC 3339, strftime patterns) and the time between two
date-times are chrono's; the library calls chrono for them.
