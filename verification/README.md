# zed_win_keys

Windows-style (Ctrl-based) keyboard shortcuts for the Zed editor on macOS,
as a library whose behaviour is stated in contracts and proved with Verus.

- `src/` — the library, every function with its contract:
  - `bindings.rs`: the catalog of 105 bindings in 14 categories.
  - `output.rs`: the documents of the `/win-keys` slash command (category
    list, revert instructions, apply instructions with the keymap blocks),
    argument completions and the command's dispatch.
  - `keymap.rs`: keymap blocks as JSON values, how old blocks of ours are
    removed and new ones merged in while the user's own blocks stay.
  - `jsonc.rs`: removal of `//` and `/* */` comments and of trailing
    commas from keymap text.
  - `escape.rs`: how text is written inside a JSON string literal, with the
    proof that reading it back by the JSON string rules (modelled in the
    library as `json_unescape`, not serde_json itself) gives the text
    unchanged.
  - `layout.rs`: the layout in which keymap blocks are written as text, with
    the proofs that the slash command's blocks text is such a writing, and
    that the command line tool builds the same blocks with each repeated key
    holding its last value.
  - `json_text.rs`: parsing and pretty-printing JSON text through serde_json,
    behind trusted wrappers that name their results.
  - `cli.rs`, `backups.rs`: the command line tool's listing, category choice,
    report and backup handling.
  - `grouping.rs`, `order.rs`, `json.rs`, `text.rs`: shared pieces.
- `tests/` — tests that run the library.
- `app/` — the `zed-win-keys` program (arguments, files, clock) and the Zed
  extension around the library.
