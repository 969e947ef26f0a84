# serial-mcp-server

An MCP server that gives agents access to serial ports: listing ports,
opening and closing connections, reading, writing, waiting for a pattern,
streaming received bytes, and driving the modem-control lines.

The crate is in two parts.

- `src/` is the library, verified with Verus. It holds everything the
  server decides: the data encodings (UTF-8, spaced hex, Base64), the port
  allowlist, the registry of open connections (one connection per port),
  argument checks and limits, the result and error texts of every tool, the
  decisions of the reading loops (`tools/polling.rs`), resource URIs,
  pagination cursors, resource subscription counts and the choice of
  transport. Each public function states what it returns in its contract,
  and the `law_*` proof functions state how the operations fit together.
- `app/` is the program around it: the MCP protocol surface (rmcp), the
  serial I/O (tokio-serial), the loops that perform the reads, timers and
  notifications the library decides on, and the JSON shapes of arguments and
  results.

`tests/` exercises the library on concrete values.
