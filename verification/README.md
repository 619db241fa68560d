# resocks5

The core of a proxy rotator that speaks SOCKS5 and HTTP CONNECT, verified with
Verus: user accounts and their files, password checks, the HTTP CONNECT
handshake, the life of a tunnel up to its first byte, and the log policy.

| Directory | Content |
|-----------|---------|
| `src/`    | the verified library, on plain values only |
| `tests/`  | its tests |
| `app/`    | the program around it: files, prompts, sockets, the async runtime |

Modules of the library:

- `text` – texts as sequences of characters: numbers, splitting, trimming.
- `config` – the three configuration files, their defaults, first-launch
  initialization, file locks and atomic writes.
- `auth` – Argon2id hashes, the cache of verified logins, and accounts that are
  claimed by their first login. `auth::laws` states what holds of every login.
- `http` – the header block, the request line, `Proxy-Authorization`, the access
  policy, and the session of an accepted request.
- `cli` – the `users` commands.
- `logger` – which lines are logged, and how control characters are escaped.

Work that waits (sockets, files, slots) is cut into steps: a function of the
library takes a state and an event and gives the next state and the action to
perform. What hashing, base64, regular expressions and the random source return
is taken from their crates; each such call stands in a function marked
`external_body`, whose comment says what is relied on.
