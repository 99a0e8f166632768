# statusline

A status line for an AI coding CLI on Windows: it reads the JSON the CLI
pipes in, a refresh cache of model quotas and git status, and prints one
to three framed rows whose density adapts to the terminal width.

`src/` is the verified library:

- `types` — the input JSON, the refresh cache, the user configuration,
  and the preparation of the piped-in text for parsing.
- `shared` — the fixed-layout record exchanged through shared memory,
  its conversion to and from the cache, and the proof that cache data
  that fits survives the round trip.
- `seqlock` — the sequence-counter protocol guarding that record.
- `refresh` — when to fetch the quota again, what a quota response does
  to the cache, and how `git` output becomes the stored git status.
- `credential` — decoding a stored credential and picking the access
  token among the places of the documents that may hold it.
- `render` — the widgets of the info and metric rows at each layout step.
- `layout` — choosing the layout step from widget widths, joining and
  framing the rows.
- `text` — decoding, trimming, splitting, searching and decimal
  formatting of text.

`app/` holds the parts that talk to the system: serde forms of the data,
Win32 credential, mutex and shared-memory access, the HTTP request, the
`git` processes, the parsing of the token documents and printing. Theme
palettes, widget width measurement, progress bars, human-readable
numbers, path and model-name abbreviation, time-stamp parsing, hashing
and the state directory are asked of the `Environment` trait in
`app/env.rs`; this crate holds no implementation of it, and none of
`main`: a program that embeds the crate supplies both.
