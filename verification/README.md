# motosan_agent_tool

Building blocks for LLM agent tools, with their behaviour stated as
contracts and proved with Verus.

- `src/` — the verified library
  - `json.rs`: the JSON value model that schemas, arguments and results carry
  - `schema.rs`: input-schema well-formedness and argument validation
    (required fields, types, enums), and schema builders
  - `tool.rs`: `ToolDef`, `ToolResult`, `ToolContent`, `ToolContext`
  - `registry.rs`: a registry of tools kept in ascending name order
  - `text.rs`: character-level text functions (trim, lines, split, search)
  - `tools/`: the built-in tools' definitions and decisions — browser
    command lines and result reading, file reading and truncation, PDF
    line preparation and word wrapping, CSV parsing and sheet tables,
    web search provider choice and result reports
- `app/` — the asynchronous runtime around it: the `Tool` trait, the
  shared registry, `serde_json` conversion, processes, files, HTTP, and
  PDF layout
- `tests/` — tests of the library on concrete values
