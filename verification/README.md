# pm

A small password manager, verified with Verus.

- `src/` is the verified library: the prompt's command parser (`parser`, `words`), the
  secrets store keyed by content hash (`store`, `secret`, `hashing`), and the encrypted vault
  of entries (`vault`, `entry`, `crypto`, with base64 spelled out in `encoding`). Calls into
  outside crates (SHA-256, base64, PBKDF2, AES-256-GCM, randomness, the clock) go through
  small trusted wrappers whose contracts are stated next to them; `laws` holds the
  properties that relate operations.
- `app/` is the interactive program: it reads and writes the JSON files, runs the prompt
  loop, and holds the serde and clap copies of the library's types.
- `tests/` exercises the library on concrete values.
