# isotope

A metadata-resistant, post-quantum chat system over Tor, written in Verus.

`src/` is the verified library; Verus checks it whole, and its public
functions carry contracts that say what they return:

- `crypto/`: Argon2id key derivation, the dual-slot identity file (the real
  password opens one profile, the duress password the other; the real slot
  wins when both open), the Noise XX
  handshake steps and peer fingerprint check, the Kyber-1024 exchange, the
  session's post-quantum inner layer, whose keys rotate after 100 messages
  in each direction (both sides rotating at the same message) and whose send
  key also rotates after five minutes (the receiving side, finding that its
  key no longer opens a message, follows to the next one), ring signatures
  (what a ring member signs verifies against the ring), and a software HSM.
- `protocol.rs`: the wire messages and the fixed-size packet that carries
  them (a packet is read back as it was written).
- `network/`: Tor onion addresses, SOCKS5 messages, and the HTTP dress of
  packets (a dressed packet is read back as it was written).
- `server/`: the hub's rules: who may join, what is relayed to whom, offline
  mailboxes with expiry, admin commands and their rate limit, and connection
  throttling per address (20 connections a minute).
- `client/`: the slash commands, the order in which a connection comes up
  (the Join only after the hub's key matched and the Kyber upgrade),
  reconnect back-off, the dead man's switch, and file transfers.
- `vault/`: the encrypted block filesystem and its hidden volume (a file
  written to the vault is read back as it was written; the hidden volume
  writes only strictly inside the second half of the file, past its own
  metadata block, so the outer volume stays intact).

Calls into other crates (BLAKE3, ChaCha20-Poly1305, XChaCha20-Poly1305,
Argon2, X25519, Base64, Base58, hex, snow, Kyber, zeroize) go through small
trusted wrappers whose contracts state what those crates document.

`app/` is the program around the library: the command line, terminal and
file I/O, sockets, timers and threads, and the serialised forms of messages,
identities and directories. Secrets are
wiped explicitly (`NoiseSession::wipe`, `ZeroizableKeypair::zeroize`).

`tests/` exercises the library from outside.
