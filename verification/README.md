# tg_ws_proxy

The verified core of a local MTProto proxy for Telegram that disguises its traffic as TLS.

- `records`: framing plain bytes as TLS records and taking them out again.
- `hello`: checking the client's disguised hello, building the server's answer.
- `handshake`: the server's side of the handshake as a state machine.
- `relay`: the relay to the masking domain and the pumps between two connections.
- `settings`, `cli`, `lifecycle`: the settings, the command line, start and stop.
- `text`, `bytes`: decimal text and byte copies.
- `external`: the calls into other crates and the clock, whose contracts are trusted.

`app/` holds the program around the library: sockets, tasks, signals and the log.
