# gm_tty

A web terminal for machines behind a firewall. An agent on such a machine connects out to a server
and runs a shell; a browser connects to the same server; the server relays between the two. Access
is by token, one session per token.

    browser  <-- WebSocket -->  server  <-- WebSocket -->  agent  <-- pty -->  shell

- `src/` is the logic, verified with Verus: the frame format, the session table, what either end
  does with each message, when an agent reconnects, the settings and the tokens.
- `app/` is the program around it: sockets, the pseudo terminal, files and the environment. Under
  the name `gm-tty-agent` it is the agent, under any other name the server.
- `tests/` runs the library.

Frames on the wire are `[type: 1 byte] [length: 4 bytes, big endian] [payload]`:

| type   | meaning                                  |
|--------|------------------------------------------|
| `0x01` | terminal data                            |
| `0x02` | window size, `cols` and `rows` as `u16`  |
| `0x03` | heartbeat                                |
| `0x04` | answer to a heartbeat                    |
| `0x05` | close                                    |
