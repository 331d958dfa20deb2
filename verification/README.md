# meme_expert

The verified core of a Solana memecoin capture service. It ingests pump.fun
launches and trades (from PumpPortal or a Helius transaction stream) into a
rolling DuckDB, serves the data read-only over MCP, and screens recent tokens
with SQL heuristics.

`src/` is the library, written and proved with Verus:

| Module | What it holds |
| --- | --- |
| `json` | The JSON model the decoders read (object members, pointers). |
| `text` | Decimal, JSON and SQL string rendering, trimming, number syntax. |
| `model` | PumpPortal frame classification (launch, trade, control). |
| `pumpfun_decode` | pump.fun event decoding from Helius notifications. |
| `helius` | The Helius subscription request and notification reading. |
| `pumpportal` | Subscription bookkeeping (the source of truth replayed on reconnect) and the reconnect backoff. |
| `ingest` | The survivor state machine (PumpPortal) and the firehose filter (Helius). |
| `screen`, `survivors` | The screeners' parameters and query text. |
| `mcp` | Each MCP tool's statement and bound parameters. |
| `config`, `db` | Environment value reading; the snapshot statement. |

`app/` is the program around it: command line, websockets, the DuckDB writer
and reader, the MCP server, and the floating-point parts (market caps, screen
reasons, the paper-trading engine).

`tests/` exercises the library on concrete inputs.
