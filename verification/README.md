# envz

A vault of environment variables for macOS: secrets are kept encrypted at
rest (AES-256-GCM) in a `.envz` file, the decryption seed lives in the macOS
Keychain behind Touch ID (unless `init --no-biometric` switched it off), and
commands read, change, export or inject them. The key is derived from the
seed, the binary's signing identity, the vault identity, the vault file's
canonical absolute path and an application secret, so a vault that is moved
no longer opens.

The library in `src/` holds the logic, each function with a contract proved
by Verus:

- `envmap` — the sorted map of variables and its laws;
- `envfile` — variable names and the `.env` file format;
- `crypto` — key derivation (HKDF-SHA256 with a length-prefixed `info`) and
  AES-256-GCM encryption;
- `store` — the vault file, sealing and opening it;
- `commands` — the decisions and output text of the commands;
- `env_filter` — the variables an untrusted process may see;
- `keychain`, `codesign` — what keychain status codes and signing
  identities amount to;
- `error`, `text` — errors with their texts, and character-level helpers.

`app/` is the command-line program: argument parsing, files, the Keychain,
Touch ID and processes.
