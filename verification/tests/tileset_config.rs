use cdda_map_editor::cdda_json::{CDDAFurniture, CDDATerrain, DeserializedCDDAJsonData};
use cdda_map_editor::legacy_tilesheet::{Tile, __MeabyWeightedDeserializationFix};
use cdda_map_editor::mapped_id::{MappedCDDAId, TilesheetCDDAId};
use cdda_map_editor::text::{find_text, parse_u32, remove_all, strip_prefix_text, trim_text};
use cdda_map_editor::tile_config::{
    fallback_tile_mapping, get_fallback_tilesheet, parse_range_comment, AsciiCharGroup,
    FallbackSpritesheet, FallbackTileConfig, LegacyTileConfig, LegacyTilesheetLoader,
    NormalSpritesheet, RangeCommentError, Spritesheet,
};
use cdda_map_editor::tileset::{Rotates, Sprite};
use cdda_map_editor::types::{CDDAIdentifier, MeabyVec};

fn id(s: &str) -> CDDAIdentifier {
    CDDAIdentifier(s.to_string())
}

fn plain_tile(ids: Vec<&str>, fg: u32) -> Tile {
    Tile {
        id: MeabyVec::Vec(ids.into_iter().map(id).collect()),
        fg: Some(MeabyVec::Single(__MeabyWeightedDeserializationFix::NotWeighted(MeabyVec::Single(fg)))),
        bg: None,
        rotates: None,
        animated: None,
        multitile: None,
        additional_tiles: None,
    }
}

fn group(offset: i32, color: &str) -> AsciiCharGroup {
    AsciiCharGroup { offset, bold: false, color: color.to_string() }
}

fn fallback_sheet(groups: Vec<AsciiCharGroup>) -> FallbackSpritesheet {
    FallbackSpritesheet { file: "fallback.png".to_string(), tiles: vec![], ascii: groups }
}

fn normal_sheet(tiles: Vec<Tile>) -> NormalSpritesheet {
    NormalSpritesheet {
        file: "tiles.png".to_string(),
        sprite_width: None,
        sprite_height: None,
        sprite_offset_x: None,
        sprite_offset_y: None,
        range: (0, 100),
        tiles,
    }
}

fn fg_index(s: &Sprite) -> Option<u32> {
    match s {
        Sprite::Single(single) => match &single.ids.fg {
            Some(v) => match v[0].data {
                Rotates::Auto(i) => Some(i),
                _ => None,
            },
            None => None,
        },
        _ => None,
    }
}

#[test]
fn range_comment_of_first_sheet_starts_at_zero() {
    assert_eq!(parse_range_comment("range 1 to 1024"), Ok((0, 1024)));
}

#[test]
fn range_comment_of_later_sheet() {
    assert_eq!(parse_range_comment("range 1025 to 2048"), Ok((1025, 2048)));
}

#[test]
fn range_comment_trims_white_space() {
    assert_eq!(parse_range_comment("range  10   to \t20 "), Ok((10, 20)));
}

#[test]
fn range_comment_errors() {
    assert_eq!(parse_range_comment("range 1-20"), Err(RangeCommentError::MissingSeparator));
    assert_eq!(parse_range_comment("sprites 1 to 20"), Err(RangeCommentError::MissingRangePrefix));
    assert_eq!(parse_range_comment("range x to 20"), Err(RangeCommentError::InvalidStart));
    assert_eq!(parse_range_comment("range 1 to twenty"), Err(RangeCommentError::InvalidEnd));
    assert_eq!(RangeCommentError::InvalidEnd.message(), "Failed to parse range end");
}

#[test]
fn text_helpers_agree_with_std() {
    for (s, p) in [("LIGHT_RED", "LIGHT_"), ("aaaa", "aa"), ("DARK_LIGHT_DARK_", "DARK_"), ("xyz", "q")] {
        assert_eq!(remove_all(s, p), s.replace(p, ""));
    }
    for s in ["  a b  ", "\u{3000}x\n", "", "   ", "q"] {
        assert_eq!(trim_text(s), s.trim());
    }
    for s in ["0", "+7", "42", "4294967295", "4294967296", "+", "", "-1", "1a", "007"] {
        assert_eq!(parse_u32(s), s.parse::<u32>().ok());
    }
    assert_eq!(find_text("range 1 to 2 to 3", " to "), Some(7));
    assert_eq!(find_text("abc", "d"), None);
    assert_eq!(strip_prefix_text("range 5", "range "), Some("5".to_string()));
    assert_eq!(strip_prefix_text("rang 5", "range "), None);
}

#[test]
fn fallback_mapping_table() {
    let m = fallback_tile_mapping();
    assert_eq!(m.len(), 93);
    assert_eq!(m[0], (' ', 32));
    assert_eq!(m[m.len() - 1], ('|', 178));
    assert!(m.contains(&('\\', 91)));
}

fn loaded() -> cdda_map_editor::legacy_tilesheet::LegacyTilesheet {
    let config = LegacyTileConfig {
        spritesheets: vec![
            Spritesheet::Normal(normal_sheet(vec![plain_tile(vec!["t_grass"], 5)])),
            Spritesheet::Fallback(fallback_sheet(vec![group(100, "WHITE"), group(300, "RED")])),
            Spritesheet::Normal(normal_sheet(vec![plain_tile(vec!["t_grass", "t_dirt"], 7)])),
        ],
    };
    LegacyTilesheetLoader::new(config).load()
}

#[test]
fn loader_keeps_last_tile_of_an_id() {
    let sheet = loaded();
    assert_eq!(sheet.id_map.len(), 2);
    assert_eq!(fg_index(sheet.id_map.get(&id("t_grass")).unwrap()), Some(7));
    assert_eq!(fg_index(sheet.id_map.get(&id("t_dirt")).unwrap()), Some(7));
}

#[test]
fn loader_numbers_fallback_sprites_by_group() {
    let sheet = loaded();
    assert_eq!(sheet.fallback_map.len(), 186);
    assert_eq!(sheet.fallback_map.get(&"A_WHITE".to_string()), Some(&164));
    assert_eq!(sheet.fallback_map.get(&"|_RED".to_string()), Some(&478));
    assert_eq!(sheet.fallback_map.get(&" _WHITE".to_string()), Some(&132));
}

#[test]
fn fallback_tilesheet_uses_last_sheet() {
    let config = FallbackTileConfig {
        spritesheets: vec![fallback_sheet(vec![group(0, "BLUE")]), fallback_sheet(vec![group(10, "GREEN")])],
    };
    let sheet = get_fallback_tilesheet(config);
    assert_eq!(sheet.id_map.len(), 0);
    assert_eq!(sheet.fallback_map.get(&"#_GREEN".to_string()), Some(&45));
    assert_eq!(sheet.fallback_map.get(&"#_BLUE".to_string()), None);
}

fn terrain(name: &str, symbol: Option<char>, color: Option<&str>) -> CDDATerrain {
    CDDATerrain {
        id: id(name),
        name: None,
        description: None,
        symbol,
        looks_like: None,
        color: color.map(|c| MeabyVec::Single(c.to_string())),
        connect_groups: None,
        connects_to: None,
        flags: vec![],
    }
}

#[test]
fn fallback_sprite_of_symbol_and_color() {
    let sheet = loaded();
    let mut data = DeserializedCDDAJsonData::new();
    data.terrain.insert(id("t_wall"), terrain("t_wall", Some('#'), Some("light_red")));
    data.terrain.insert(id("t_sand"), terrain("t_sand", Some('.'), Some("yellow")));
    data.furniture.insert(
        id("f_chair"),
        CDDAFurniture {
            id: id("f_chair"),
            name: None,
            description: None,
            symbol: None,
            looks_like: None,
            color: None,
            connect_groups: None,
            connects_to: None,
            flags: vec![],
        },
    );
    let tile = |name: &str| MappedCDDAId::simple(TilesheetCDDAId::simple(id(name)));
    assert_eq!(sheet.get_fallback(&tile("t_wall"), &data), 335);
    assert_eq!(sheet.get_fallback(&tile("f_chair"), &data), 162);
    assert_eq!(sheet.get_fallback(&tile("t_sand"), &data), 32);
    assert_eq!(sheet.get_fallback(&tile("t_unknown"), &data), 32);
}
