# echo_aec

Verified core of an echo-cancelling virtual microphone: a microphone is
captured, the system's own playback (captured as loopback) is cancelled out
of it by an acoustic echo canceller, and the result is played into a virtual
audio device that other programs use as their microphone.

- `src/` — the library, verified with Verus:
  - `device` — sorting enumerated devices into microphones, loopback sources
    and playback devices; picking a device by name.
  - `frames` — folding stereo capture to mono and cutting it into 10 ms frames.
  - `playout` — the bounded buffer between echo cancellation and playback.
  - `ring` — a bounded sample queue over the `ringbuf` crate.
  - `engine` — when the engine's workers start and stop.
  - `api` — what the control API answers.
  - `config` — the remembered device choice.
- `app/` — the HTTP/WebSocket server, device enumeration, audio streams,
  worker threads and the echo canceller itself (`f32` processing in native
  code), built on the library.
- `tests/` — tests of the library on concrete values.
