# dash_mpd

A library for DASH MPD manifests (the XML format that describes adaptive streaming media), whose
logic is verified with Verus: the data model of a manifest, its value types (`xs:duration`,
`xs:dateTime`, URL templates, byte ranges), its conformity checks, and the decisions taken when
its media content is downloaded — which streams are selected, which media fragments are fetched
for each addressing mode and how often a failed fetch is retried, how requests, file names and
helper command lines are built, which muxing or concatenation application runs next, and when
muxing or concatenation has failed.

Each public function states its result in its `ensures` clause, over spec functions on plain
values; the laws that relate several functions are public proof functions.

## Layout

- `src/` — the verified library, one module per concern: `mpd` and `scte35` (the data model),
  `duration`, `datetime`, `digits`, `split` (value types), `template`, `timeline`, `fragments`,
  `period`, `addressing` (the media fragments of audio and video Representations), `subtitles`,
  `selection`, `classify`, `conformity`, `fetch` (the settings of a download), `download`,
  `planning`, `media`, `commands` (helper command lines), `urls`, `vtt`, `subtitle_safety`
  (subtitle documents that the converters may not read safely), `pssh`, `sandbox`, `xmlend`. Calls
  into the `url`, `chrono`, `iso8601`, `regex`, `sanitise-file-name`, `xmlparser`, `data-url`
  and `oxideav-subtitle` crates stand behind small trusted wrappers whose
  contracts are stated in their doc comments.
- `tests/` — tests of the library, run against the compiled crate.
- `app/` — ordinary Rust around the library: XML (de)serialization of manifests with serde and
  quick-xml, the error type with `std::error::Error`, the processes of the muxing and
  concatenation applications (run in the order and with the arguments that the library gives),
  and the few computations on floating-point numbers and the clock. The network downloads
  themselves (an HTTP client) are not part of it.
