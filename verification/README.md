# scanner-core

The engine of a Windows disk-space analyzer that says, for each large
folder, whether the space is safe to take back, and that can move a folder
to another drive behind an NTFS junction.

`src/` is the verified library (Verus):

- `paths`: normalization (lowercase, forward slashes), whole-component prefix tests, and
  the component-wise order of paths (it breaks ties among the largest files).
- `text`: character-level helpers (splitting, substring search, string building).
- `ownership`: uninstall entries to installed apps (cleaned, longest location first,
  adjacent duplicates dropped), install-folder ownership, Store package names.
- `rules`: the glob rules database, compiled with `globset`; first matching rule wins.
- `classify`: the safety tier of a path; the checks run in a fixed order, first hit wins.
- `scan`: the tally of a directory walk: per-directory totals, report candidates,
  ranking, the largest files, throttled progress.
- `relocate`: the move of a folder as a step-by-step decision procedure (checks, set the
  original aside, copy, junction, clean up, roll back on failure), plus progress bookkeeping.
- `order`: a stable largest-first ordering.
- `staleness`, `types`: app usage signals (none read yet) and report types.

`app/` is the unverified shell: the directory walk (jwalk), registry reads (winreg),
the file work of a move (rename, copy with `CopyFileExW`, junctions), JSON rules files and
serializable copies of the report types.
