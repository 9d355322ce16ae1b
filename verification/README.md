# mcp_alpine

An MCP server that runs shell commands, scripts, Python and Node.js
snippets and Alpine package operations, and keeps a log of every run that a
small web page shows live.

- `src/` is the verified library:
  - `log.rs`: the bounded log store (at most 200 entries, numbered from 1),
    its mathematical model and the laws it keeps;
  - `shell.rs`: what each tool runs, how a finished run is reported and how
    it is logged;
  - `web.rs`: what a poll of the log returns;
  - `text.rs`: decimal rendering, splitting and joining words, lossy UTF-8
    decoding.
- `app/` is the server around it: the MCP tool handlers, process spawning,
  temporary files, the clock, the HTTP routes and the HTML viewer.
- `tests/` exercises the library on concrete values.
