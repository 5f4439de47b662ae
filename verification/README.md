# sequential_thinking

A Model Context Protocol server for graph-structured reasoning: clients record numbered
thoughts that may revise earlier ones, branch off, or merge several parents, and query the
resulting thought graph (cycles, contradictions, unverified assumptions, abandoned branches,
quality figures), export it (Mermaid, JSON graph, Markdown, Graphviz DOT), summarize it, or
fetch reasoning templates.

## Layout

- `src/` — the library, written in Verus. Every function carries a contract that Verus
  proves: the thought records and their views (`types`), the graph analyses (`graph`), the
  session server and its branch bookkeeping (`server`), the in-memory session store
  (`persistence`), the tools (`tools`), the console box layout (`console`), and the JSON-RPC
  routing rules (`transport`). Calls into `chrono`, `textwrap` and `uuid` go through small
  wrappers whose contracts are stated in their doc comments.
- `tests/` — tests of the library on concrete values.
- `app/` — the executable: command-line options, logging, the SQLite store, JSON encoding
  of requests and replies, terminal colours, the stdio and HTTP/SSE transports, and the
  floating-point figures (average confidence, quality score and grade, confidence stars).

## Running

```
sequential_thinking [--transport stdio|http] [--port 3000] [--storage memory|sqlite]
                    [--db-path PATH] [--log-format pretty|json] [--disable-thought-logging]
```
