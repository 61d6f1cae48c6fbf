# wormhole_desktop_ui

The rules behind the Wormhole desktop shell, written in Verus and proved
against their contracts: money and time formatting, chat message merging,
the thread, thread-search and sidebar state, cluster and share-browser
decisions (listing cache, polls, form checks), the workspace app routing and
provision jobs, the clipboard path rules and image encoding, and the date
picker.

Layout:

- `src/` — the verified library, one module per area (`messages`, `thread`,
  `search_results`, `sidebar`, `sidebar_flow`, `calls`, `cluster`, `devices`,
  `share_nav`, `share_listing`, `workspace`, `provision`, `clipboard`,
  `calendar`, `cron`, `device_gate`, `update`, `agent_pair`, `prefs`, `sizes`,
  `layout`, `sticker`); `text`, `find` and
  `asset_map` hold shared helpers, and `laws` the properties that span
  several operations.
- `tests/` — executable tests of the library.
- `app/` — unverified glue: preference files (serde), reading and writing
  the system clipboard (arboard), local time (chrono), the import model
  shared behind a mutex, platform defaults and the floating-point card
  layout (pathfinder_geometry).
