# animeku

A terminal client that searches two anime/film catalogues (the
`animeku.my.id` API and the `tenflix.org` site), lists the episodes of a
title and the stream links of an episode, and opens the chosen link in a
player.

The logic is a Verus-verified library under `src/`:

- `text` — trimming, searching, splitting, replacing, decimal rendering and
  parsing, each with an exact specification over `Seq<char>`.
- `models`, `json`, `request` — the records, the JSON documents the API
  answers with, and HTTP requests as plain values.
- `cache` — the map that remembers catalogue answers.
- `ext` — the catalogues: what each sends and how each answer is read.
- `util` — frame lookup in pages, redirect links, file size labels.
- `animeku` — the session: paging through results, listings, and what
  follows a playback.
- `bindings` — the calls into `regex`, `base64`, `html-escape`, `humansize`
  and the standard library whose behaviour is stated, not proved.

`app/` is the program around it: prompts, HTTP with `reqwest`, JSON parsing
with `serde_json`, terminal output and the external player.
