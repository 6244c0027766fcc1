# mcmanager

A web console for Minecraft servers that expose their console over
WebSocket. `servers.json` lists the servers; one worker per server keeps a
connection open, records the server's output in a bounded history, and
forwards commands typed in the browser.

- `src/` is the verified library (Verus): the configuration model, the
  bounded log, line splitting and trimming, the JSON values the console
  reads, the connection target and upgrade handshake, the decisions of a
  connected session, the worker's reconnect state machine, the plan that
  brings the running workers in line with a changed `servers.json`, the
  browser console's state (log, connection, command input), what the server
  list shows, and the web routes' decisions.
- `app/` is the server program around it: file reading and watching, the
  tokio tasks and channels, the axum routes (pages, console
  WebSocket, and the `echo`, `get_servers` and `send_command` endpoints) and
  the WebSocket plumbing.
- `tests/` exercises the library.
