# pls_core

Inflection tables and inflected word lists for the headwords of a Pāli
dictionary, written in Verus.

A host program lends the library its services through the
`PlsInflectionsHost` trait: SQL queries on the inflection database (answered
as JSON), transliteration, and its locale, URL and version. The library looks
headwords up, reads their inflection patterns, joins stems to suffixes,
localises abbreviations and fills the values of a table page. Every function
that calls a host states which texts it hands the host (queries, words to
transliterate) and what it returns for whatever the host answered those
texts with.

- `src/` — the verified library: `text` (splitting, replacing, blank text),
  `host` (the host trait and the JSON decoding of answers), `metadata`
  (headword lookup), `inflections` (inflected forms), `abbreviations`,
  `generators` (choosing the table drawing), `output` (page values),
  `ordering` (a stable sort by a caller's comparison), and `outside` (the
  trusted calls into `serde_json` and `regex`).
- `app/` — rendering with Tera: the page template, the `localise_abbrev`
  filter, and conversions to the maps and serialisable values Tera reads.
- `tests/` — tests against a host with a fixed set of answers.
