# nwer_core

The core of a writing workspace for novels and screenplays, written in
Verus: every function under `src/` carries a `requires` / `ensures`
contract that Verus proves.

## Layout

- `src/models/` — chapters, blocks, screenplays, outline entries and the
  project header; the focus and multi-selection state machines of the two
  editors.
- `src/services/` — word counting, the autosave debounce, search filters
  and snippets, and the preview lines.
- `src/storage/` — the rules of the on-disk layout: storage names, paths
  below a root, chapter and screenplay tree listings, move and rename
  checks, the recent-projects list.
- `src/ai/` — assistant sessions, intents and their summaries, the
  proposal queue and the policy that applies or queues changes, the
  document edits that intents make, the tool calls that produce intents,
  and the context text handed to a model.
- `src/text.rs`, `src/ids.rs` — string helpers and the identifiers and
  clock readings that come from outside the library.
- `app/` — the program around the library: file I/O, JSON documents,
  directory scanning, tool-call decoding, and configuration.
- `tests/` — tests of the library through its public interface.

Laws that relate several operations are public proof functions, such as
`law_delete_undoes_create` and `law_replace_keeps_other_blocks` in
`src/ai/workspace_mutator.rs` and `law_discard_undoes_push` in
`src/ai/effect.rs`.
