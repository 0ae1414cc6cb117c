# fractal

The platform-independent logic of Fractal's Android support, with its
contracts and laws proved.

- `src/` is the verified library:
  - `session_data`: the stored form of the sessions, how sessions are turned
    into it and restored from it (with the checks of the version and of every
    field), and the round trip between the two.
  - `keystore`: the layout of the encrypted sessions file (version, length of
    the initialization vector, initialization vector, ciphertext), which
    Keystore failures are permanent, and how a failed sequence of JNI calls is
    reported.
  - `session_store`: what loading, storing and deleting a session decide from
    the outcome of reading the stored sessions, with the laws of storing and
    deleting (idempotence, replacement, distinct identifiers, keeping a file
    that might be read later, reading back what was stored or kept).
  - `panic`, `platform`, `media`: the message of a panic, the choice of the
    application's directories, and the number of samples of a waveform.
- `app/` is the input/output around it: the sessions file, MessagePack through
  `rmp_serde`, the JNI bridge to the Android Keystore, environment variables,
  panic payloads and waveform samples.
- `tests/` exercise the library.
