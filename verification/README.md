# ombracrypt

A terminal vault that seals a file or directory with a hybrid post-quantum
key (Kyber-768/1024 + X25519, combined with SHA-256), an Argon2id password
key, and a 1 MB chunked AEAD stream (AES-256-GCM or XChaCha20-Poly1305),
with a plausibly deniable duress trapdoor in the key file.

Layout:

- `src/` — the verified library.
  - `crypto.rs`: chunk nonces, key derivation, the phantom block, the
    hybrid KEM and master key synthesis.
  - `format.rs`: the `.obv` header, the `.obk` key file, chunk framing and
    associated data.
  - `stream.rs`: cipher choice, sealing/opening one chunk, and the sealer
    and opener state machines.
  - `pipeline.rs`: password prompt rules, setting up a new vault, unlocking
    a vault (or springing the trapdoor), and the laws tying them together.
  - `deception.rs`: the noise that overwrites a key file under duress, and
    the answer a sprung trapdoor gives (that of a failed decryption).
  - `primitives.rs`: the trusted calls into argon2, x25519-dalek,
    pqcrypto-kyber, sha2, aes-gcm, chacha20poly1305 and rand, and the
    `zeroize`-backed `SecretBytes` / `SecretKey` that hold key material.
  - `error.rs`: the library's errors.
- `tests/` — tests of the library.
- `app/` — the command-line program: argument parsing, prompts, archiving
  with tar, file I/O and progress display.
