# llmrc

A provider-neutral runtime for LLM applications whose decision logic is
specified and proved with Verus.

## Layout

- `src/` — the verified library.
  - `types`, `error`, `provider`, `duration`, `json`, `text`: chat messages,
    tool definitions, requests and responses, errors and their retry
    classification, a JSON model, UTF-8 helpers.
  - `retry`, `budget`, `token`: exponential backoff with jitter and budgets,
    the safe-retry state machine for streams, token counters and accounting
    with provenance.
  - `agent`, `registry`, `run`, `store`: tool names and argument validation,
    the tool registry, the agent loop as a state machine, session stores.
  - `bots`, `adapters`: conversation keys, UTF-8 safe message splitting,
    platform event mappings.
  - `mcp`, `table`: namespacing of MCP tools, JSON-RPC requests and results,
    the mapping of call outcomes, servers kept in name order.
  - `openai`, `ollama`: the wire forms of requests, responses, stream chunks
    and errors of the two provider families.
- `app/` — the asynchronous runtime around the library: provider clients,
  the agent and bot handler loops, retries over futures and streams, MCP
  transports, and serializable copies of the library's types.
- `tests/` — tests of the library.
