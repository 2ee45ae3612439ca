# market_cli

Command-line clients for four market-data services (Finage, Finnhub,
Massive, Tiingo), a provider-independent market-data layer (Massive and
Tiingo back ends with live candle streams) and a chat-completion layer
(Anthropic, OpenAI, DigitalOcean, Ollama).

- `src/` is the Verus-verified library: argument validation, token
  resolution, HTTP status mapping, request URLs, table rendering, calendar
  arithmetic, the minute and candle aggregators, the live-stream loop
  decisions, feed-event classification and the chat-shape conversions.
  Date parsing and timestamp rendering call `chrono` behind the trusted
  wrappers of `src/time.rs`.
- `app/` is the binary: argument parsing, HTTP and WebSocket I/O, JSON
  decoding into copies of the library's types, and the rows that carry
  float prices.
- `tests/` exercises the library on concrete values.
