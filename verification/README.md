# clusters

Footprint ("cluster") bars of crypto markets: trades of several venues are read, accumulated by
price level in windows of time, published as frames, and stored in ClickHouse.

`src/` is the library. It is written in Verus: every function states in its contract what it
returns, and the contract is proved.

| Part | Modules |
| --- | --- |
| Footprints | `aggregator`, `types` |
| Prices and quantities as scaled integers | `scale`, `num` |
| Venues: listings, trades, subscriptions | `binance`, `bybit`, `bitget`, `aster`, `bingx`, `hyperliquid`, `kucoin`, `mexc`, over `listing`, `trade`, `traits` |
| Sessions, reconnecting, which instruments run | `session`, `reconnect`, `supervisor`, `chunks` |
| Storage: rows, tables, retention, roll-ups | `sink`, `timeframes`, `retention`, `materialize` |
| Serving: ranges, streams, tokens, machine state | `history`, `stream`, `auth`, `sysmetrics`, `url` |
| Settings | `config` |
| Texts and JSON | `text`, `json` |

Statements that relate several functions are the public proof functions whose names begin with
`law_`.

`app/` is the process around the library: sockets, HTTP, files, timers and channels. It decides
nothing that the library can decide. `tests/` runs the library on concrete values.

What the proofs rest on without proving it is declared in three places: `text` (case mapping of
Unicode texts), `json` (`serde_json`) and `session` (gzip, by `flate2`), besides the shared text of
a `SymbolKey` in `types`.
