# apitester

A terminal client for HTTP APIs: collections of requests kept in TOML,
`{{var}}` interpolation from named environments, and an interactive editor
state machine, with the library's logic stated as contracts and proved with
Verus. Where the work is done by an outside crate (JSON pretty-printing by
`serde_json`, syntax colors by `syntect`, the text editor widget of
`tui-textarea`), the contracts say which call is made on what and what is
done with its answer; the answer itself is named, not proved.

- `src/` is the verified library: the request model and its string-keyed
  map, interpolation and request building, the editor's state and key
  handling, what each part of the screen shows, the decisions around
  sending, saving and exporting, history listing and time formatting,
  search, and the laws that tie operations together (`src/laws.rs`).
- `app/` is the program around it: command line, terminal, files, network,
  clipboard and drawing.
- `tests/` exercises the library on concrete values.
