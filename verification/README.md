# grok_image

An MCP server for xAI's Grok image API (`generate_image`, `edit_image`,
`headshot`, `list_styles`), with its decisions verified by Verus.

- `src/` — the verified library:
  - `text.rs` string operations (trim, lower-casing, search, replace, decimal) stated over `Seq<char>`;
  - `codec.rs` standard base64 through the `base64` crate;
  - `params.rs` tool parameters and their checks;
  - `grok.rs` API request/response shapes and the model rule for `quality`;
  - `styles.rs` built-in and custom prompt styles, with the laws of the style list;
  - `image_io.rs` MIME detection, data URIs, image sources and edit fields;
  - `headshot.rs` letterbox geometry, the expand-only prompt, pronoun and quality defaults;
  - `config.rs` the configuration and the choice between file and environment;
  - `tools.rs` request planning for each tool and assembly of the answers.
- `app/` — the process: stdio MCP transport (`rmcp`), HTTP (`reqwest`), files,
  TOML parsing, image decoding/resizing/encoding (`image`), and logging.
- `tests/` — tests of the library.
