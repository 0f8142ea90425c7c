# octave_core

The decision logic of a desktop/mobile music client, written in Verus and
verified: download paths and file names, upload preparation (format
sniffing, names, chunk maps with SHA-256 hashes, resume accounting), the
loopback media server's URL and `Range` grammar, the cover protocol's
request parsing and bounded image cache, the prefetch bookkeeping, the
offline-cache fallback of library reads, the auth session lifecycle and
play-history flushing, and the equalizer: rule validation and matcher
normalisation, the effective-profile resolver, the mutation outbox
(dependencies, retargeting, optimistic overlay, rebasing), the
synchronisation steps for each server answer, profile-text grammar,
recovery/promotion names and ids, and the merge that keeps a server
snapshot on the device when the server stops syncing equalizers.

- `src/` is the verified library (`octave_core`).
- `tests/` exercises it on concrete values.
- `app/` holds what the library leaves to its host: wire formats, the
  floating-point equalizer band values, files, clocks and randomness.
