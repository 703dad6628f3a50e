# dr_write

The Dr Write actor helps students collect journal articles: a user gets an id,
keeps folders of DOIs, and the actor fetches each DOI's metadata from crossref
and keeps a record of it.

`src/` is the verified library. Its functions carry contracts that Verus proves,
except a few small trusted wrappers whose contracts Verus takes on trust: `text`
collects characters into a `String` with std; `web` calls
`cookie::Cookie::split_parse`, `form_urlencoded::parse` and
`mime_guess::from_path`; `codec` reads and writes JSON with `serde_json`.

- `text`: characters, decimal rendering, replacement, trimming and splitting.
- `keys`: the key-value store keys and the identifiers built from user input.
- `json`: JSON values and the lookups of `serde_json::Value` indexing.
- `codec`: JSON read from bytes and text, and written as text.
- `shape`: how a record is written as JSON and read back.
- `textmap`: a string map with no key twice (a folder's DOIs, a folder index).
- `doi`: DOI records, read out of crossref replies, stored and read back.
- `folder`: folders, their storage, and listings keyed by path.
- `requests`: the request bodies.
- `store`: the decisions of the operations that read, decide, then write.
- `flow`: the operations that alternate calls and decisions, as state
  machines, with a model of a faithful store for what a whole run does.
- `web`: routing, cookies, query strings, embedded file names and headers.

`app/` is the wasmCloud actor around the library: it receives HTTP requests,
makes the key-value, HTTP and messaging calls, and hands the library the texts
and bytes it reads.

`tests/` runs the library on concrete values.
