# model_gateway

Program-aware routing support for a model gateway, verified with Verus.

- `src/sse/`: extracts token usage from server-sent event streams of OpenAI Chat,
  Anthropic Messages and OpenAI Responses. `framing` splits bytes into events and
  lines, `json` and `documents` read the data lines through `serde_json`, one module
  per protocol says what an event means, and `extractor` buffers chunks.
- `src/policies/`: the state and the selection rule of the Thunder policy, the
  capacity that a backend reports, and the choice of healthy workers.
- `src/sse/laws.rs` and `src/policies/laws.rs`: what holds of whole streams and of
  the router state across calls.
- `src/keyed.rs`, `src/text.rs`, `src/counting.rs`: maps and sets keyed by text, text
  operations, and saturating counts.
- `app/`: traits, locks and HTTP around the library.

The items that are trusted, not proved, stand in `src/sse/json.rs`: the parser and
the accessors of `serde_json`.
