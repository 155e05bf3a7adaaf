//! Map data model of a Cataclysm: Dark Days Ahead map editor: identifiers,
//! weighted distributions, mapgen values, tileset sprite selection and the
//! conversion of mapgen json objects into editable map data.

pub mod types;
pub mod keyed_map;
pub mod random;
pub mod parameters;
pub mod identifier;
pub mod tileset;
pub mod mapped_id;
pub mod cdda_json;
pub mod sprite_picker;
pub mod legacy_tilesheet;
pub mod number_or_range;
pub mod om_terrain;
pub mod item;
pub mod map_data;
pub mod properties;
pub mod palettes;
pub mod map;
pub mod place;
pub mod mapgen_import;
pub mod set;
pub mod map_instance;
pub mod vehicles;
pub mod overmap_vehicle_data;
pub mod game_data;
pub mod program_data;
pub mod legacy_sprite;
pub mod import;
pub mod entries;
pub mod loader;
pub mod calculate;
pub mod apply;
pub mod instantiate;
pub mod text;
pub mod tile_config;
