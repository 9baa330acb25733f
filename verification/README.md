# termchat

A chat server and a terminal chat client that talk JSON lines over TCP: rooms with a
join token, mentions, emoji shortcodes, themes, name colors, shared files, and an
assistant (an Ollama server) behind `/ask`.

## Layout

- `src/` is the library, verified with Verus.
  - `protocol.rs`: the messages between client and server.
  - `text.rs`, `keyed.rs`, `encoding.rs`: text helpers, keyed lists used as maps,
    base64 and file names.
  - `client/`: the line editor (`input.rs`), emoji (`emoji.rs`), themes (`theme.rs`),
    names and mentions (`display.rs`), the screen lines of the full-screen client
    (`tui.rs`), and what the client does with each key, message and file
    (`session.rs`).
  - `server/`: the shared state (`state.rs`), what the server does with each
    connection and message (`mod.rs`), the assistant (`ollama.rs`) and the
    dashboard's texts (`dashboard.rs`).
  - `config.rs`, `cli.rs`: the profile and the command line.
- `app/` is the program around it: sockets, the terminal, files, HTTP, and drawing.
  The library returns effects (messages to send, files to read or save, log lines)
  and the program carries them out.
- `tests/` runs the library on concrete cases.
