# Only Climb launcher

The launcher's logic, verified with Verus, lives in `src/`:

- `text`: white space, trimming, lines, splitting, number reading.
- `json`: the JSON values the launcher reads, parsed with `serde_json`.
- `crypto`: SHA-256, hex, AES-256-GCM and nonces (calls into `sha2`, `hex`, `aes-gcm`).
- `paths`: where the license file lives.
- `license`: the license file format and the choice of the file to read.
- `fingerprint`: the device fingerprint from `wmic` and `reg query` output.
- `protect`: the sealed game binary, launch tokens and temporary names.
- `api`: the license server's answer.
- `updater`: version comparison and update decisions.
- `display`: the texts the window shows.
- `launcher`: the launcher's state machine.

`app/` is the Windows GUI (iced), the network requests (reqwest, tokio,
self-replace) and the file, process and environment access around them.
