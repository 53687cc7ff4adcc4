# tosmole

A verified library for the data files of Tree of Savior, with a small web
viewer around it.

The library (`src/`) is written in Verus. Every function carries a
contract that Verus proves, and the spec functions beside the code state
what each format means byte by byte:

- `ipf`, `ipf_parser`: game archives, their file tables, entry decryption
  and inflation, statistics, sorting and grouping of entries.
- `category`: the folder tree of all entries and its searches and listings.
- `ies`, `ies_file`, `ies_tool`: class tables, reading and writing.
- `xac`, `xac_file`, `xsm`, `xsm_file`, `xpm`, `mesh`, `render_util`,
  `gltf`: models, motions and animations, and the meshes built from them.
- `fsb`, `tok`, `tsv`, `xml`, `threedworld`, `shared_formats`: sound banks,
  tokens, language tables, duplicate lists and map data.
- `binary`, `bytes`, `decode`, `text`, `order`, `sort`, `paths`: the
  readers, writers, orderings and text handling the formats share.

Laws that span functions (write then read, round trips, search after
insert) are public proof functions named `law_*`.

`app/` is the server and the file and network I/O: it reads files, hands
their bytes to the library and serves the results. `tests/` runs the
library on concrete values.
