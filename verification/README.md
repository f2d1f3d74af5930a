# renoise2mod-core

Converts Renoise songs to classic tracker formats: `.mod` (ProTracker) and `.xm`
(FastTracker II). The conversion logic is written in Verus and proved against its contracts.

## Layout

- `src/` — the verified library:
  - `model.rs` — the song model (patterns, cells, instruments, samples, envelopes);
  - `text.rs`, `numeric.rs` — hexadecimal and note-name parsing, Rust's signed division and
    rounding as integer specifications;
  - `commands.rs`, `common.rs` — the effect translations and tick arithmetic both formats share;
  - `mod_format/` — the MOD writer: period table, channel/encoder state, pattern conversion,
    sample headers and the file layout;
  - `xm_format/` — the XM writer: effects and volume column, pattern packing, column volume
    scaling, instrument and sample headers, envelopes and the file layout;
  - `audio.rs` — MOD sample encoding and XM delta encoding (with their round-trip laws);
  - `sample_file.rs` — locating a sample file inside a song archive (a case-insensitive
    regular expression, through the `regex` crate);
  - `options.rs` — the sample-rate option;
  - `xml.rs` — a parsed XML document as plain values (parsed by the `roxmltree` crate) and
    the lookups made on it;
  - `xrns.rs` — reading the song out of Renoise's `Song.xml`: settings, pattern sequence,
    track layout flattened into channels, pattern cells, instruments, samples and key maps.
- `tests/` — tests of the library.
- `app/` — the command-line program: argument handling, reading `Song.xml` out of the song
  archive (`zip`), decoding samples (`symphonia`), the floating-point values (sample volume and
  panning, envelopes), and writing the result.
