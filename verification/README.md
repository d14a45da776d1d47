# collabrustator

A live collaborative Rust editor. Members of a room edit one source text together;
every edit and every run result is relayed to the whole room, and the code can be
compiled and run on the server with a time limit.

Layout:

- `src/` — the verified library (Verus): the room registry and message relay of the
  server, the run commands and run results, the JSON messages of a room, and the
  state machines of the two pages of the web client (landing page and room page),
  with the editor's text operations.
- `app/` — the server (warp, Redis, processes) and the web client's components
  (yew), which perform what the library decides.
- `tests/` — tests of the library on concrete values.
