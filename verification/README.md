# liberado-anythingllm-mcp

An MCP server that lets AI agents send text, URLs and files to AnythingLLM
workspaces, list and search them, and remove documents.

- `src/` is the verified library: configuration (`config`), request
  construction and error reporting (`api`), decoding of file input given as
  data URLs or base64 (`data_url`), typed access to AnythingLLM's JSON
  replies (`json`) and their rendering (`responses`), plus string helpers
  (`text`).
- `app/` is the binary: it reads the environment, performs the HTTP calls
  with `reqwest` and serves the tools with `turbomcp` over stdio or HTTP.
- `tests/` exercises the library on concrete inputs.
