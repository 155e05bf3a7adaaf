# cdda_map_editor

The data model of a map editor for Cataclysm: Dark Days Ahead, verified with
Verus.

- `src/` is the library. It reads the game's json entries into editable map
  data (mapgen entries, palettes, parameters, region settings, terrain,
  furniture, item and monster groups, overmap locations, terrains and
  specials, vehicles and vehicle parts), resolves `copy-from` chains,
  instantiates maps into tiles with random choices (vehicles are placed by a
  function that takes the turning of their parts, which needs floating
  point, from its caller), and picks the sprites of a
  tileset (tileset configuration, multitiles, `looks_like` chains, fallback
  ascii sprites). The functions carry contracts that Verus proves (a few
  that only call a closure, such as `MeabyVec::for_each`, say little); calls
  into `rand`, `indexmap` and `comfy-bounded-ints` go through a
  few small trusted wrappers whose contracts are documented where they stand.
- `tests/` runs the library on concrete values.
- `app/` is a command-line program around the library: it walks a directory of
  json files, reads them with serde and builds the game data, and loads a
  tileset configuration.

Run `app` as `cdda_map_editor <json data directory> [<tile_config.json>
[<fallback tile_config.json>]]`.
