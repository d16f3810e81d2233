# outl — verified core

The logic of the outl outliner, written in Verus and proved against its
specifications:

- `query` — the line-based query language (`dsl`), the engine that
  filters, sorts and limits blocks (`engine`), the read model it runs on
  (`index`), and the structured and fenced entry points.
- `view` — block text decomposed into visual rows, and the cursor's
  char-index ↔ (line, col) mapping.
- `guard` — the volume guard that refuses bulk deletions.
- `sidecar` and `id` — sidecar entries, ref handles, content hashes and
  paths; block ids as ULIDs.
- `backlinks`, `sort` — group-stable recency ordering and the stable sort
  underneath every ordering in the crate.
- `prop_edit`, `property` — property editing and flattening.
- `batch`, `cli`, `page_query`, `doctor`, `reconcile`, `desync`,
  `plugin_init` — the decisions of the command-line tool, `outl query`'s
  page selection among them.
- `registry`, `plugin_model`, `palette`, `icons` — plugin registry search
  and install records, the plugin runtime's data, theme colors and glyphs.
- `plugin_query`, `plugin_host` — the block filter and lookups a plugin's
  read queries run, and the commands, toolbar buttons and transformers a
  client lists from its loaded plugins.
- `text` — the string functions the rest is written with, each against
  a specification of the `std` function it stands for.

`app/` holds the I/O edge: JSON wire forms, sidecar files on disk, the
registry over HTTP, plugin read queries and `outl query` answers as
JSON, and the command-line argument parsers.
