//! Verified core of a Solana memecoin capture service: PumpPortal frame
//! classification and pump.fun event decoding, websocket subscription
//! bookkeeping and reconnect backoff, the survivor-tracking state machine and
//! the firehose filter, and the statements behind the screeners and the MCP
//! tools.

pub mod config;
pub mod db;
pub mod helius;
pub mod ingest;
pub mod json;
pub mod mcp;
pub mod model;
pub mod pumpfun_decode;
pub mod pumpportal;
pub mod screen;
pub mod survivors;
pub mod text;
