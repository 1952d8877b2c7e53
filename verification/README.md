# personal-ai-workbench

The core of a local-first desktop workbench that keeps AI output, skills and
knowledge as cards, verified with Verus.

- `src/` is the verified library: card validation and the seed cards, the
  Markdown file of a card, percent decoding and query parameters, the routing
  of the local HTTP API and its statuses, the SQL statements built from
  requests and patches, the merge of a patch into a stored card and the
  restore of a version, the text pulled out of imported documents, content
  digests, the SQLite-to-MySQL row conversions and the names of workspace
  files. Every public function carries its contract; the laws of the library
  are public proof functions beside the functions they relate.
- `app/` is the desktop program around it: the SQLite and MySQL stores, the
  HTTP server, file import and backup, the desktop commands and the
  migration tools. It hands the library plain values and acts on what it
  returns.
- `tests/` runs the library on concrete inputs.
