# termweb_client

The terminal client of a remote web browser: it shows screenshots streamed
by a browser server over a websocket, and turns keyboard and mouse input
into protocol messages for it.

The decision logic is a Verus-verified library (`src/`):

- `text`: UTF-8 text as the client handles it (byte cursors, character views).
- `json`: a JSON value type with its mathematical view.
- `protocol`: the message envelope, message type names and payload objects.
- `display`: the display state and its updates.
- `commands`: the command interpreter of the main loop.
- `input`: terminal key and mouse events and the inputs they stand for.
- `client`: what the input task sends, what the network task does with
  server messages and connection events, and its reconnection timing.
- `screen`: the text models the screen is drawn from.
- `laws`: properties that span several commands or calls.

`app/` is the program around it: terminal setup, the websocket and input
tasks, drawing with ratatui, and the serde forms of messages and tabs.
`tests/` runs the library on concrete values.
