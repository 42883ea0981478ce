# jsonschema-luau

Converts JSON Schema documents into Luau type definitions, in two steps:
a schema is parsed into an intermediate representation (IR) of named types,
and the IR is rendered as Luau text.

The library under `src/` is written in Verus.  Each step states what it
computes over mathematical models of its inputs and outputs (the `@` views),
and the code is proved to compute exactly that:

- `schema` — the JSON Schema document model (`JsonSchema`, `SchemaObject`,
  `SchemaMap`, kept in ascending order of names).
- `parser` — `SchemaParser`: schemas to IR; `parse_outcome` states what a
  parse gives, and the laws (`law_parse_*`, `law_required_properties`) state
  what holds of every parse.
- `ir` — the IR types, with the union and intersection rules and their laws.
- `generator` — `LuauGenerator`: IR to Luau text (`module_text`).
- `cli` — the command-line options and what a run decides.
- `error`, `keyed`, `text` — errors, ordered named entries, text helpers.

`app/` is the command-line program: it reads the command line with clap,
reads and writes files, reads JSON text with serde_json into the library's
schema model, and carries out what `Cli::run` decides.
