//! Symbol handling, request construction and live-quote bookkeeping for a
//! terminal stock ticker backed by Yahoo! Finance and a Databento live bridge.

pub mod client;
pub mod quote_stream;
pub mod text;
