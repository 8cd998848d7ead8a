# grass_latte

A small web dashboard for programs: a program creates nodes, texts, progress bars and
buttons under paths such as `["jobs", "download"]`, and a page in the browser shows them
and reports button clicks back over a websocket.

- `src/` is the verified library. It builds the packets sent to the page (all but
  progress bars), keeps the received clicks and the button callbacks in maps keyed by
  path, decides what each message from the page leads to, fixes the websocket port range (settable once), and
  writes that range into the page. Contracts state each of these over mathematical
  models; `src/laws.rs` proves the properties that hold across calls.
- `app/` is the running program around it: the global queue and registries, the
  websocket and HTTP servers, JSON through serde, and the page itself. Progress bars,
  which carry a float, are built there.
- `tests/` exercises the library on concrete values.
