# fluyer

The logic of the Fluyer music player as a verified library: the play queue
(repeat, shuffle, reordering), the music library (sorting, album grouping,
searches), tag reading decisions (ffprobe JSON output, tag revisions, artist and
title from file names, cover choice), the cover cache's bookkeeping, the
logger's buffer, the steps of a lyrics search, the audio engine's loading
steps, the block picture behind the animated background, and the resource
figures of the process tree. The functions in `src/` carry contracts that
Verus proves; the laws that tie functions together are proof functions
named `law_*`.

The calls into std, `regex`, `rand`, `base64` and `serde_json` stand in small wrappers
marked `#[verifier::external_body]`, next to names (`uninterp spec fn`) for
what those calls return. Verus takes the wrappers' contracts on trust, as
their doc comments say; everything proved about the library rests on them.

- `src/` — the library, verified with Verus.
- `tests/` — tests of the library on concrete values.
- `app/` — the application around it: the BASS engine's C interface, file
  and process I/O, decoders, system metrics, and serialisable copies of the
  library's types.
