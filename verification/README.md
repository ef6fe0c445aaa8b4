# llm_gateway

A gateway library, verified with Verus.

- `sse`: Server-Sent Events out of a body that arrives in chunks.
- `converter`, `request`, `response`, `stream`: chat/completions in front of the
  Responses API, in both directions and for streams.
- `llamacpp`: the decisions around a llama.cpp router: loading and unloading
  models, load progress, slots, sessions, API keys, the life cycle of the process.
- `json`, `text`: the values that the rest works on, with their mathematical
  meaning.
- `laws`: what holds over several calls or over every input.

The functions of `serde_json`, `hmac`, `sha2`, `base64` and `std` that the library
calls without a proof stand behind small wrappers; the comment above each says
what is taken on trust.

`app/` holds the commands of a desktop host: the HTTP requests, the tasks and the
types as they are serialised. It is ordinary Rust and calls the library for every
decision.
