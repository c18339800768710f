# envio

Profiles of environment variables, kept encrypted, managed from the command
line or a terminal interface.

- `src/` is the library, verified with Verus: the ordered map of variables,
  the ciphers (plain JSON, a passphrase cipher built on Argon2id and
  XChaCha20-Poly1305 streams, `age`, and the bookkeeping of GPG keys), the
  text a profile is edited in and how it is read back, `.env` export and
  import, paths and shell scripts, the diagnostic report, the release check,
  and the state machines of the terminal screens. Calls into outside crates
  sit behind small trusted wrappers whose contracts say what the library
  relies on.
- `tests/` runs the library on concrete values.
- `app/` is the program: command line parsing, files, prompts, GnuPG, the
  network, and drawing the terminal screens.
