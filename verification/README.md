# remotix

The verified core of Remotix, a remote-access client for RDP, VNC and SSH
connections with an encrypted profile store.

- `src/` is the library, written in Verus and verified:
  - `crypto`: Argon2id key derivation and AES-256-GCM sealing of secrets;
  - `vault`: the master record, unlocking, changing the master password,
    sealing and opening stored profiles, the connection-log export;
  - `models`: profiles, their options and the connection log;
  - `protocols`: the decisions taken while connecting (RDP login, input
    events and the frames written back to the server, the CredSSP HTTP
    exchange, SSH authentication and the `su`
    prompt, the VNC tunnel);
  - `terminal`: what the terminal shows and sends;
  - `text`, `config`, `quick`, `sftp`: strings, paths, quick connection,
    SFTP listings.
- `app/` is the GTK program around it: the SQLite store, the network
  sessions, the terminal widget and the dialogs.
- `tests/` exercises the library on concrete values.
