# thclaws_core

Verified core of the thClaws vertical packs, curated games and workflow
scripts.

- `src/text.rs` — trimming, prefix/suffix tests, replacement, ordering,
  sorting and decimal formatting on character sequences, with their
  specifications.
- `src/workflow.rs` — unwrapping a model's fenced reply and rewriting the
  `async`/`await`/`Promise.all` shapes out of a workflow script.
- `src/games.rs` — the curated showcase, the `/games` listing and the
  resolution of `/game <name>`.
- `src/verticals/` — the `VerticalPack` trait, the pack registry with its
  lifecycle (enter, exit, register, list) and resource accessors, the
  `/gamedev` pack, and the logic of the gamedev tools.
- `app/` — the host: the process-wide registry, file-system and network
  work, the JavaScript sandbox, and the tool plumbing.
