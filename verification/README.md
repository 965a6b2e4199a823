# onto_studio

The verified core of a desktop ontology studio: a chat client whose
conversations can draw on a document library, data sources and ontologies.

`src/` is the library, written in Verus. Its functions carry contracts that
Verus proves, with two exceptions: the small wrappers marked
`#[verifier::external_body]` around the outside crates (oxigraph, jieba,
serde_json, regex, uuid, getrandom, the SQLite stemmer and stop-word lists)
and a few std calls, whose contracts are trusted and say in their doc
comments what they claim; and the functions whose results are the clock's
or the random source's (`now_ms`, `Timestamp::now`, `new_document_id`), of
which only what holds of every outcome is stated.

- `naming`, `data_type`, `store`, `preview`, `import`, `import_steps`, `changelog`,
  `readview`, `schema`: the ontology store's rules — API-name styles, data
  types, payload validation, the dry run of an import and the decisions of
  the import itself — the order of its steps and how their outcomes are put
together (with laws that the dry run predicts the import and that the links
of an object type that failed are not written),
  change-log limits, read-views, and the migrations that read table
  definitions.
- `ttl`, `ttl_import`: the modelling rules checked on a Turtle ontology
  (over the triples oxigraph loads), ontology metadata, import plans.
- `message`, `repo`, `documents`, `folders`, `timestamp`: conversations and
  messages, folder paths, the folder tree (Inbox first, names in order),
  text windows, conversation scopes.
- `tokenizer`: the FTS5 tokenizer that cuts a text into sentences and each
  sentence into words with jieba, with exact byte offsets.
- `commands`: the decisions of the desktop commands — the size guard and the
  scope note of a message, the state of a streamed turn, ingest progress and
  results, MCP server statuses, skill activation, the bundled PDFium library.

`app/` holds what Verus does not see: the SQLite stores, the registration
of the tokenizer with SQLite, the cancellation registry of ingest jobs and
the JSON forms of the ontology types. `tests/` runs the library on concrete
values.
