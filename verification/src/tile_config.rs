use vstd::prelude::*;
use crate::keyed_map::KeyedMap;
use crate::legacy_tilesheet::{
    get_multitile_sprite_from_additional_tiles, multitile_sprite_is, sprite_is, to_weighted_vec,
    AdditionalTile, LegacyTilesheet, Tile,
};
use crate::text::{
    after_prefix, char_text, decimal_u32, find_text, first_occurrence, occurs_at, parse_u32,
    strip_prefix_text, trim_text, trimmed,
};
use crate::tileset::{FgBgIds, SingleSprite, Sprite, SpriteIndex};
use crate::cdda_json::DeserializedCDDAJsonData;
use crate::mapped_id::MappedCDDAId;
use crate::text::{remove_all, to_uppercase, uppercased, without_all};
use crate::types::{CDDAIdentifier, MeabyVec};

verus! {

/// A group of the fallback spritesheet: the ascii sprites of one color,
/// starting at `offset`.
pub struct AsciiCharGroup {
    pub offset: i32,
    pub bold: bool,
    pub color: String,
}

/// The spritesheet of ascii sprites that stand in for tiles without a sprite.
pub struct FallbackSpritesheet {
    pub file: String,
    pub tiles: Vec<()>,
    pub ascii: Vec<AsciiCharGroup>,
}

/// A spritesheet of tiles, holding the sprites numbered `range`.
pub struct NormalSpritesheet {
    pub file: String,
    pub sprite_width: Option<u32>,
    pub sprite_height: Option<u32>,
    pub sprite_offset_x: Option<i32>,
    pub sprite_offset_y: Option<i32>,
    pub range: (u32, u32),
    pub tiles: Vec<Tile>,
}

/// A spritesheet of a tileset configuration.
pub enum Spritesheet {
    Normal(NormalSpritesheet),
    Fallback(FallbackSpritesheet),
}

/// The spritesheets of a tileset configuration (`tiles-new`).
pub struct LegacyTileConfig {
    pub spritesheets: Vec<Spritesheet>,
}

/// The configuration of the built-in fallback tileset.
pub struct FallbackTileConfig {
    pub spritesheets: Vec<FallbackSpritesheet>,
}

/// Why the range comment of a spritesheet could not be read.
#[derive(Debug, Clone, Copy, PartialEq, Eq, Structural)]
pub enum RangeCommentError {
    MissingSeparator,
    MissingRangePrefix,
    InvalidStart,
    InvalidEnd,
}

/// The range that a comment `range <from> to <to>` names; the first
/// sprite of the first spritesheet, numbered 1 in the comment, is read as 0.
pub open spec fn spec_range_comment(s: Seq<char>) -> Result<(u32, u32), RangeCommentError> {
    match first_occurrence(s, " to "@) {
        None => Err(RangeCommentError::MissingSeparator),
        Some(i) => match after_prefix(s.subrange(0, i), "range "@) {
            None => Err(RangeCommentError::MissingRangePrefix),
            Some(left) => match decimal_u32(trimmed(left)) {
                None => Err(RangeCommentError::InvalidStart),
                Some(from) => match decimal_u32(trimmed(s.subrange(i + " to "@.len(), s.len() as int))) {
                    None => Err(RangeCommentError::InvalidEnd),
                    Some(to) => Ok(
                        (
                            if from == 1 {
                                0
                            } else {
                                from
                            },
                            to,
                        ),
                    ),
                },
            },
        },
    }
}

/// Reads the range comment of a spritesheet (see `spec_range_comment`).
#[verifier::spinoff_prover]
pub fn parse_range_comment(s: &str) -> (r: Result<(u32, u32), RangeCommentError>)
    ensures
        r == spec_range_comment(s@),
{
    let sep = " to ";
    let i = match find_text(s, sep) {
        None => return Err(RangeCommentError::MissingSeparator),
        Some(i) => i,
    };
    let n = s.unicode_len();
    let m = sep.unicode_len();
    let left = s.substring_char(0, i);
    let right = trim_text(s.substring_char(i + m, n));
    let ghost tail = s@.subrange(i + " to "@.len(), s@.len() as int);
    assert(right@ == trimmed(tail));
    let rest = match strip_prefix_text(left, "range ") {
        None => return Err(RangeCommentError::MissingRangePrefix),
        Some(l) => l,
    };
    let from_text = trim_text(rest.as_str());
    let from = match parse_u32(from_text.as_str()) {
        None => return Err(RangeCommentError::InvalidStart),
        Some(v) => v,
    };
    let to = match parse_u32(right.as_str()) {
        None => return Err(RangeCommentError::InvalidEnd),
        Some(v) => v,
    };
    if from == 1 {
        Ok((0, to))
    } else {
        Ok((from, to))
    }
}

impl RangeCommentError {
    /// The message of the error.
    pub fn message(&self) -> (r: String)
        ensures
            r@ == match self {
                RangeCommentError::MissingSeparator => "Failed to split comment at ' to '"@,
                RangeCommentError::MissingRangePrefix => "Failed to strip 'range ' from prefix"@,
                RangeCommentError::InvalidStart => "Failed to parse range start"@,
                RangeCommentError::InvalidEnd => "Failed to parse range end"@,
            },
    {
        match self {
            RangeCommentError::MissingSeparator => String::from_str("Failed to split comment at ' to '"),
            RangeCommentError::MissingRangePrefix => String::from_str("Failed to strip 'range ' from prefix"),
            RangeCommentError::InvalidStart => String::from_str("Failed to parse range start"),
            RangeCommentError::InvalidEnd => String::from_str("Failed to parse range end"),
        }
    }
}

/// The ascii characters of the fallback spritesheet, each with the position
/// of its sprite within a color group.
pub open spec fn fallback_tile_mapping_spec() -> Seq<(char, u32)> {
    seq![
        (' ', 32u32),
        ('!', 33u32),
        ('"', 34u32),
        ('#', 35u32),
        ('$', 36u32),
        ('%', 37u32),
        ('&', 38u32),
        ('(', 40u32),
        (')', 41u32),
        ('*', 42u32),
        ('+', 43u32),
        (',', 44u32),
        ('-', 45u32),
        ('.', 46u32),
        ('/', 47u32),
        ('0', 48u32),
        ('1', 49u32),
        ('2', 50u32),
        ('3', 51u32),
        ('4', 52u32),
        ('5', 53u32),
        ('6', 54u32),
        ('7', 55u32),
        ('8', 56u32),
        ('9', 57u32),
        (':', 58u32),
        (';', 59u32),
        ('<', 60u32),
        ('=', 61u32),
        ('?', 62u32),
        ('@', 63u32),
        ('A', 64u32),
        ('B', 65u32),
        ('C', 66u32),
        ('D', 67u32),
        ('E', 68u32),
        ('F', 69u32),
        ('G', 70u32),
        ('H', 71u32),
        ('I', 72u32),
        ('J', 73u32),
        ('K', 74u32),
        ('L', 75u32),
        ('M', 76u32),
        ('N', 77u32),
        ('O', 78u32),
        ('P', 79u32),
        ('Q', 80u32),
        ('R', 81u32),
        ('S', 82u32),
        ('T', 83u32),
        ('U', 84u32),
        ('V', 85u32),
        ('W', 86u32),
        ('X', 87u32),
        ('Y', 88u32),
        ('Z', 89u32),
        ('[', 90u32),
        ('\\', 91u32),
        (']', 92u32),
        ('^', 93u32),
        ('_', 94u32),
        ('`', 95u32),
        ('a', 96u32),
        ('b', 97u32),
        ('c', 98u32),
        ('d', 99u32),
        ('e', 100u32),
        ('f', 101u32),
        ('g', 102u32),
        ('h', 103u32),
        ('i', 104u32),
        ('j', 105u32),
        ('k', 106u32),
        ('l', 107u32),
        ('m', 108u32),
        ('n', 109u32),
        ('o', 110u32),
        ('p', 111u32),
        ('q', 112u32),
        ('r', 113u32),
        ('s', 114u32),
        ('t', 115u32),
        ('u', 116u32),
        ('v', 117u32),
        ('w', 118u32),
        ('x', 119u32),
        ('y', 120u32),
        ('z', 121u32),
        ('{', 122u32),
        ('}', 124u32),
        ('~', 125u32),
        ('|', 178u32),
    ]
}

/// The ascii characters of the fallback spritesheet, each with the position
/// of its sprite within a color group.
pub fn fallback_tile_mapping() -> (r: Vec<(char, u32)>)
    ensures
        r@ == fallback_tile_mapping_spec(),
{
    vec![
        (' ', 32u32),
        ('!', 33u32),
        ('"', 34u32),
        ('#', 35u32),
        ('$', 36u32),
        ('%', 37u32),
        ('&', 38u32),
        ('(', 40u32),
        (')', 41u32),
        ('*', 42u32),
        ('+', 43u32),
        (',', 44u32),
        ('-', 45u32),
        ('.', 46u32),
        ('/', 47u32),
        ('0', 48u32),
        ('1', 49u32),
        ('2', 50u32),
        ('3', 51u32),
        ('4', 52u32),
        ('5', 53u32),
        ('6', 54u32),
        ('7', 55u32),
        ('8', 56u32),
        ('9', 57u32),
        (':', 58u32),
        (';', 59u32),
        ('<', 60u32),
        ('=', 61u32),
        ('?', 62u32),
        ('@', 63u32),
        ('A', 64u32),
        ('B', 65u32),
        ('C', 66u32),
        ('D', 67u32),
        ('E', 68u32),
        ('F', 69u32),
        ('G', 70u32),
        ('H', 71u32),
        ('I', 72u32),
        ('J', 73u32),
        ('K', 74u32),
        ('L', 75u32),
        ('M', 76u32),
        ('N', 77u32),
        ('O', 78u32),
        ('P', 79u32),
        ('Q', 80u32),
        ('R', 81u32),
        ('S', 82u32),
        ('T', 83u32),
        ('U', 84u32),
        ('V', 85u32),
        ('W', 86u32),
        ('X', 87u32),
        ('Y', 88u32),
        ('Z', 89u32),
        ('[', 90u32),
        ('\\', 91u32),
        (']', 92u32),
        ('^', 93u32),
        ('_', 94u32),
        ('`', 95u32),
        ('a', 96u32),
        ('b', 97u32),
        ('c', 98u32),
        ('d', 99u32),
        ('e', 100u32),
        ('f', 101u32),
        ('g', 102u32),
        ('h', 103u32),
        ('i', 104u32),
        ('j', 105u32),
        ('k', 106u32),
        ('l', 107u32),
        ('m', 108u32),
        ('n', 109u32),
        ('o', 110u32),
        ('p', 111u32),
        ('q', 112u32),
        ('r', 113u32),
        ('s', 114u32),
        ('t', 115u32),
        ('u', 116u32),
        ('v', 117u32),
        ('w', 118u32),
        ('x', 119u32),
        ('y', 120u32),
        ('z', 121u32),
        ('{', 122u32),
        ('}', 124u32),
        ('~', 125u32),
        ('|', 178u32),
    ]
}

/// The map made by inserting the pairs in order: a later pair of a key
/// replaces an earlier one.
pub open spec fn inserted_all<K, V>(es: Seq<(K, V)>) -> Map<K, V>
    decreases es.len(),
{
    if es.len() == 0 {
        Map::empty()
    } else {
        inserted_all(es.drop_last()).insert(es.last().0, es.last().1)
    }
}

/// The name of a fallback sprite: the character, `_`, the color.
pub open spec fn fallback_key(c: char, color: Seq<char>) -> Seq<char> {
    seq![c] + seq!['_'] + color
}

/// The fallback sprites of a color group: each ascii character under its
/// name, at the group's offset plus the character's position.
pub open spec fn group_entries(g: AsciiCharGroup) -> Seq<(Seq<char>, u32)> {
    fallback_tile_mapping_spec().map_values(
        |e: (char, u32)| (fallback_key(e.0, g.color@), ((g.offset as u32) + e.1) as u32),
    )
}

/// The fallback sprites of the color groups, in order.
pub open spec fn groups_entries(gs: Seq<AsciiCharGroup>) -> Seq<(Seq<char>, u32)>
    decreases gs.len(),
{
    if gs.len() == 0 {
        Seq::empty()
    } else {
        groups_entries(gs.drop_last()) + group_entries(gs.last())
    }
}

/// No sprite number of the groups leaves the range of `u32`.
pub open spec fn offsets_fit(gs: Seq<AsciiCharGroup>) -> bool {
    forall|i: int, j: int|
        0 <= i < gs.len() && 0 <= j < fallback_tile_mapping_spec().len() ==> (#[trigger] gs[i]).offset as u32
            + (#[trigger] fallback_tile_mapping_spec()[j]).1 <= u32::MAX
}

/// The fallback sprites of the color groups, by name.
fn fallback_map_of(groups: &Vec<AsciiCharGroup>) -> (r: KeyedMap<String, SpriteIndex>)
    requires
        offsets_fit(groups@),
    ensures
        r.map() == inserted_all(groups_entries(groups@)),
{
    let mapping = fallback_tile_mapping();
    let mut m: KeyedMap<String, SpriteIndex> = KeyedMap::new();
    let mut gi: usize = 0;
    while gi < groups.len()
        invariant
            offsets_fit(groups@),
            mapping@ == fallback_tile_mapping_spec(),
            gi <= groups@.len(),
            m.map() == inserted_all(groups_entries(groups@.subrange(0, gi as int))),
        decreases groups@.len() - gi,
    {
        let g = &groups[gi];
        let ghost before = groups_entries(groups@.subrange(0, gi as int));
        let mut j: usize = 0;
        while j < mapping.len()
            invariant
                offsets_fit(groups@),
                mapping@ == fallback_tile_mapping_spec(),
                gi < groups@.len(),
                *g == groups@[gi as int],
                j <= mapping@.len(),
                m.map() == inserted_all(before + group_entries(*g).subrange(0, j as int)),
            decreases mapping@.len() - j,
        {
            let (c, idx) = mapping[j];
            let mut key = char_text(c);
            proof {
                reveal_strlit("_");
            }
            key.append("_");
            key.append(g.color.as_str());
            assert(g.offset as u32 + mapping@[j as int].1 <= u32::MAX);
            let value: u32 = (g.offset as u32) + idx;
            let ghost es = before + group_entries(*g).subrange(0, j as int);
            m.insert(key, value);
            proof {
                let es2 = before + group_entries(*g).subrange(0, j + 1);
                assert(es2.drop_last() =~= es);
                assert(key@ =~= fallback_key(c, g.color@));
            }
            j = j + 1;
        }
        proof {
            assert(group_entries(*g).subrange(0, mapping@.len() as int) =~= group_entries(*g));
            assert(groups@.subrange(0, gi + 1).drop_last() =~= groups@.subrange(0, gi as int));
        }
        gi = gi + 1;
    }
    assert(groups@.subrange(0, groups@.len() as int) =~= groups@);
    m
}

/// Whether a tile of a tileset is drawn as a multitile: it says so and
/// lists its additional tiles.
pub open spec fn is_multitile(t: Tile) -> bool {
    t.multitile == Some(true) && t.additional_tiles is Some
}

/// Whether `s` is the sprite of the tile: its multitile sprite, or a single
/// sprite of its own entries (neither rotating nor animated unless it says so).
pub open spec fn tile_sprite_is(s: Sprite, t: Tile) -> bool {
    if is_multitile(t) {
        multitile_sprite_is(s, t, t.additional_tiles->0@)
    } else {
        s matches Sprite::Single(single) && sprite_is(
            single,
            t.fg,
            t.bg,
            match t.rotates {
                Some(b) => b,
                None => false,
            },
            match t.animated {
                Some(b) => b,
                None => false,
            },
        )
    }
}

/// The identifiers of a tile, each paired with the tile.
pub open spec fn id_pairs(t: Tile) -> Seq<(Seq<char>, Tile)> {
    t.id.values().map_values(|i: CDDAIdentifier| (i@, t))
}

/// The identifiers of the tiles, in order, each paired with its tile.
pub open spec fn tile_entries(tiles: Seq<Tile>) -> Seq<(Seq<char>, Tile)>
    decreases tiles.len(),
{
    if tiles.len() == 0 {
        Seq::empty()
    } else {
        tile_entries(tiles.drop_last()) + id_pairs(tiles.last())
    }
}

/// The tiles of the normal spritesheets, in order.
pub open spec fn normal_tiles(sheets: Seq<Spritesheet>) -> Seq<Tile>
    decreases sheets.len(),
{
    if sheets.len() == 0 {
        Seq::empty()
    } else {
        normal_tiles(sheets.drop_last()) + match sheets.last() {
            Spritesheet::Normal(n) => n.tiles@,
            Spritesheet::Fallback(_) => Seq::empty(),
        }
    }
}

/// The last fallback spritesheet, if there is one.
pub open spec fn last_fallback(sheets: Seq<Spritesheet>) -> Option<FallbackSpritesheet>
    decreases sheets.len(),
{
    if sheets.len() == 0 {
        None
    } else {
        match sheets.last() {
            Spritesheet::Fallback(f) => Some(f),
            Spritesheet::Normal(_) => last_fallback(sheets.drop_last()),
        }
    }
}

/// Whether `m` holds, for each identifier named by the pairs, the sprite of
/// the last tile that names it, and nothing else.
pub open spec fn sprites_of(m: Map<Seq<char>, Sprite>, es: Seq<(Seq<char>, Tile)>) -> bool {
    &&& m.dom() == inserted_all(es).dom()
    &&& forall|k: Seq<char>| #[trigger] m.contains_key(k) ==> tile_sprite_is(m[k], inserted_all(es)[k])
}

proof fn lemma_tile_entries_concat(a: Seq<Tile>, b: Seq<Tile>)
    ensures
        tile_entries(a + b) == tile_entries(a) + tile_entries(b),
    decreases b.len(),
{
    if b.len() == 0 {
        assert(a + b =~= a);
        assert(tile_entries(a) + tile_entries(b) =~= tile_entries(a));
    } else {
        assert((a + b).drop_last() =~= a + b.drop_last());
        assert((a + b).last() == b.last());
        lemma_tile_entries_concat(a, b.drop_last());
        assert(tile_entries(a) + tile_entries(b) =~= tile_entries(a) + tile_entries(b.drop_last()) + id_pairs(
            b.last(),
        ));
    }
}

/// The sprite of a tile (see `tile_sprite_is`).
fn tile_sprite(tile: &Tile) -> (r: Sprite)
    ensures
        tile_sprite_is(r, *tile),
{
    let multitile = match tile.multitile {
        Some(b) => b,
        None => false,
    };
    if multitile {
        match &tile.additional_tiles {
            Some(additional) => {
                match get_multitile_sprite_from_additional_tiles(tile, additional) {
                    Ok(s) => {
                        return s;
                    },
                }
            },
            None => {},
        }
    }
    let fg = to_weighted_vec(&tile.fg);
    let bg = to_weighted_vec(&tile.bg);
    Sprite::Single(
        SingleSprite {
            ids: FgBgIds::new(fg, bg),
            animated: match tile.animated {
                Some(b) => b,
                None => false,
            },
            rotates: match tile.rotates {
                Some(b) => b,
                None => false,
            },
        },
    )
}

/// Enters the sprite of the tile under each of its identifiers.
fn insert_tile(m: &mut KeyedMap<CDDAIdentifier, Sprite>, tile: &Tile, Ghost(es): Ghost<Seq<(Seq<char>, Tile)>>)
    requires
        sprites_of(old(m).map(), es),
    ensures
        sprites_of(final(m).map(), es + id_pairs(*tile)),
{
    let n = tile.id.len();
    let mut j: usize = 0;
    while j < n
        invariant
            n == tile.id.values().len(),
            j <= n,
            sprites_of(m.map(), es + id_pairs(*tile).subrange(0, j as int)),
        decreases n - j,
    {
        let id = tile.id.get(j).clone();
        let sprite = tile_sprite(tile);
        let ghost before = es + id_pairs(*tile).subrange(0, j as int);
        let ghost after = es + id_pairs(*tile).subrange(0, j + 1);
        m.insert(id, sprite);
        proof {
            assert(after.drop_last() =~= before);
            assert(after.last() == (id@, *tile));
            assert(inserted_all(after) == inserted_all(before).insert(id@, *tile));
            assert(m.map().dom() =~= inserted_all(after).dom());
        }
        j = j + 1;
    }
    assert(id_pairs(*tile).subrange(0, n as int) =~= id_pairs(*tile));
}

/// Enters the sprites of the tiles, in order.
fn insert_tiles(m: &mut KeyedMap<CDDAIdentifier, Sprite>, tiles: &Vec<Tile>, Ghost(es): Ghost<Seq<(Seq<char>, Tile)>>)
    requires
        sprites_of(old(m).map(), es),
    ensures
        sprites_of(final(m).map(), es + tile_entries(tiles@)),
{
    let mut t: usize = 0;
    while t < tiles.len()
        invariant
            t <= tiles@.len(),
            sprites_of(m.map(), es + tile_entries(tiles@.subrange(0, t as int))),
        decreases tiles@.len() - t,
    {
        let ghost before = es + tile_entries(tiles@.subrange(0, t as int));
        insert_tile(m, &tiles[t], Ghost(before));
        proof {
            assert(tiles@.subrange(0, t + 1).drop_last() =~= tiles@.subrange(0, t as int));
            assert(before + id_pairs(tiles@[t as int]) =~= es + tile_entries(tiles@.subrange(0, t + 1)));
        }
        t = t + 1;
    }
    assert(tiles@.subrange(0, tiles@.len() as int) =~= tiles@);
}

/// Builds a tileset from its configuration.
pub struct LegacyTilesheetLoader {
    config: LegacyTileConfig,
}

impl LegacyTilesheetLoader {
    pub closed spec fn config(&self) -> LegacyTileConfig {
        self.config
    }

    pub fn new(config: LegacyTileConfig) -> (r: Self)
        ensures
            r.config() == config,
    {
        LegacyTilesheetLoader { config }
    }

    /// The tileset of the configuration: under each identifier named by a
    /// tile of a normal spritesheet, the sprite of the last such tile; and
    /// the fallback sprites of the color groups of the last fallback
    /// spritesheet, which must exist.
    pub fn load(&self) -> (r: LegacyTilesheet)
        requires
            last_fallback(self.config().spritesheets@) is Some,
            offsets_fit(last_fallback(self.config().spritesheets@)->0.ascii@),
        ensures
            sprites_of(r.id_map.map(), tile_entries(normal_tiles(self.config().spritesheets@))),
            r.fallback_map.map() == inserted_all(
                groups_entries(last_fallback(self.config().spritesheets@)->0.ascii@),
            ),
    {
        let sheets = &self.config.spritesheets;
        let mut id_map: KeyedMap<CDDAIdentifier, Sprite> = KeyedMap::new();
        let mut fallback: Option<&FallbackSpritesheet> = None;
        assert(inserted_all(Seq::<(Seq<char>, Tile)>::empty()) =~= Map::empty());
        let mut i: usize = 0;
        while i < sheets.len()
            invariant
                i <= sheets@.len(),
                sprites_of(id_map.map(), tile_entries(normal_tiles(sheets@.subrange(0, i as int)))),
                match fallback {
                    Some(f) => last_fallback(sheets@.subrange(0, i as int)) == Some(*f),
                    None => last_fallback(sheets@.subrange(0, i as int)) is None,
                },
            decreases sheets@.len() - i,
        {
            let ghost done = sheets@.subrange(0, i as int);
            let ghost next = sheets@.subrange(0, i + 1);
            assert(next.drop_last() =~= done);
            match &sheets[i] {
                Spritesheet::Normal(n) => {
                    insert_tiles(&mut id_map, &n.tiles, Ghost(tile_entries(normal_tiles(done))));
                    proof {
                        lemma_tile_entries_concat(normal_tiles(done), n.tiles@);
                    }
                },
                Spritesheet::Fallback(f) => {
                    fallback = Some(f);
                    assert(normal_tiles(done) + Seq::<Tile>::empty() =~= normal_tiles(done));
                },
            }
            i = i + 1;
        }
        assert(sheets@.subrange(0, sheets@.len() as int) =~= sheets@);
        let fallback_map = match fallback {
            Some(f) => fallback_map_of(&f.ascii),
            None => KeyedMap::new(),
        };
        LegacyTilesheet { id_map, fallback_map }
    }
}

/// The tileset of the built-in fallback configuration: no tile sprites, and
/// the fallback sprites of the color groups of its last spritesheet, which
/// must exist.
pub fn get_fallback_tilesheet(config: FallbackTileConfig) -> (r: LegacyTilesheet)
    requires
        config.spritesheets@.len() > 0,
        offsets_fit(config.spritesheets@.last().ascii@),
    ensures
        r.id_map.map() == Map::<Seq<char>, Sprite>::empty(),
        r.fallback_map.map() == inserted_all(groups_entries(config.spritesheets@.last().ascii@)),
{
    let mut sheets = config.spritesheets;
    let last = sheets.pop().unwrap();
    let fallback_map = fallback_map_of(&last.ascii);
    LegacyTilesheet { id_map: KeyedMap::new(), fallback_map }
}

/// The color of a terrain or furniture: its first color, `WHITE` where it
/// names none.
pub open spec fn color_text(color: Option<MeabyVec<String>>) -> Seq<char> {
    match color {
        Some(m) => if m.values().len() > 0 {
            m.values()[0]@
        } else {
            "WHITE"@
        },
        None => "WHITE"@,
    }
}

/// A color in upper case without its `LIGHT_` and `DARK_` shades.
pub open spec fn shade_free(c: Seq<char>) -> Seq<char> {
    without_all(without_all(uppercased(c), "LIGHT_"@), "DARK_"@)
}

/// The name of the fallback sprite of a symbol (`?` where there is none)
/// and a color.
pub open spec fn fallback_name(symbol: Option<char>, color: Option<MeabyVec<String>>) -> Seq<char> {
    fallback_key(
        match symbol {
            Some(c) => c,
            None => '?',
        },
        shade_free(color_text(color)),
    )
}

/// Whether neither shade, `DARK_` nor `LIGHT_`, occurs in the text.
pub open spec fn shadeless(g: Seq<char>) -> bool {
    forall|i: int| !occurs_at(g, "DARK_"@, i) && !occurs_at(g, "LIGHT_"@, i)
}

proof fn lemma_without_absent(s: Seq<char>, p: Seq<char>)
    requires
        forall|i: int| !occurs_at(s, p, i),
    ensures
        without_all(s, p) == s,
    decreases s.len(),
{
    if s.len() > 0 {
        let rest = s.subrange(1, s.len() as int);
        assert forall|i: int| !occurs_at(rest, p, i) by {
            if occurs_at(rest, p, i) {
                assert(s.subrange(i + 1, i + 1 + p.len()) =~= rest.subrange(i, i + p.len()));
                assert(occurs_at(s, p, i + 1));
            }
        }
        lemma_without_absent(rest, p);
        assert(!occurs_at(s, p, 0));
        assert(seq![s[0]] + rest =~= s);
    }
}

proof fn lemma_without_leading(p: Seq<char>, g: Seq<char>)
    requires
        p.len() > 0,
    ensures
        without_all(p + g, p) == without_all(g, p),
{
    let s = p + g;
    assert(s.subrange(0, p.len() as int) =~= p);
    assert(occurs_at(s, p, 0));
    assert(s.subrange(p.len() as int, s.len() as int) =~= g);
}

/// No occurrence of `q` in `p + g` where `q` does not occur in `g` and its
/// first character is none of `p`'s.
proof fn lemma_absent_after_prefix(p: Seq<char>, g: Seq<char>, q: Seq<char>)
    requires
        q.len() > 0,
        forall|j: int| 0 <= j < p.len() ==> p[j] != q[0],
        forall|i: int| !occurs_at(g, q, i),
    ensures
        forall|i: int| !occurs_at(p + g, q, i),
{
    let s = p + g;
    assert forall|i: int| !occurs_at(s, q, i) by {
        if occurs_at(s, q, i) {
            assert(s.subrange(i, i + q.len())[0] == q[0]);
            if i < p.len() {
                assert(s[i] == p[i]);
            } else {
                assert(s.subrange(i, i + q.len()) =~= g.subrange(i - p.len(), i - p.len() + q.len()));
                assert(occurs_at(g, q, i - p.len()));
            }
        }
    }
}

/// A color that differs from another only by a `DARK_` or `LIGHT_` shade in
/// front of it, once both are in upper case, has the same fallback name: the
/// symbol, `_`, and the color in upper case without its shade.
pub proof fn law_fallback_name_drops_shade(
    symbol: Option<char>,
    shaded: Option<MeabyVec<String>>,
    plain: Option<MeabyVec<String>>,
    g: Seq<char>,
)
    requires
        shadeless(g),
        uppercased(color_text(plain)) == g,
        uppercased(color_text(shaded)) == "DARK_"@ + g || uppercased(color_text(shaded)) == "LIGHT_"@ + g,
    ensures
        fallback_name(symbol, shaded) == fallback_name(symbol, plain),
        symbol matches Some(c) ==> fallback_name(symbol, plain) == seq![c, '_'] + g,
        symbol is None ==> fallback_name(symbol, plain) == seq!['?', '_'] + g,
{
    reveal_strlit("DARK_");
    reveal_strlit("LIGHT_");
    let dark = "DARK_"@;
    let light = "LIGHT_"@;
    assert forall|i: int| !occurs_at(g, dark, i) by {}
    assert forall|i: int| !occurs_at(g, light, i) by {}
    lemma_without_absent(g, light);
    lemma_without_absent(g, dark);
    assert(shade_free(color_text(plain)) == g);
    if uppercased(color_text(shaded)) == dark + g {
        lemma_absent_after_prefix(dark, g, light);
        lemma_without_absent(dark + g, light);
        lemma_without_leading(dark, g);
    } else {
        lemma_without_leading(light, g);
        lemma_absent_after_prefix(light, g, dark);
    }
    assert(shade_free(color_text(shaded)) == g);
    assert(seq![match symbol {
        Some(c) => c,
        None => '?',
    }] + seq!['_'] + g =~= seq![match symbol {
        Some(c) => c,
        None => '?',
    }, '_'] + g);
}

/// A tile without a color has the fallback sprite of the color `WHITE`, as
/// does one whose list of colors is empty.
pub proof fn law_fallback_name_without_color_is_white(symbol: Option<char>, white: String, empty: Vec<String>)
    requires
        white@ == "WHITE"@,
        empty@.len() == 0,
    ensures
        fallback_name(symbol, None) == fallback_name(symbol, Some(MeabyVec::Single(white))),
        fallback_name(symbol, Some(MeabyVec::Vec(empty))) == fallback_name(symbol, None),
{
    assert(Some(MeabyVec::<String>::Single(white)) matches Some(m) && m.values() =~= seq![white]);
}

fn fallback_name_of(symbol: Option<char>, color: &Option<MeabyVec<String>>) -> (r: String)
    ensures
        r@ == fallback_name(symbol, *color),
{
    let c = match color {
        Some(m) => if m.len() > 0 {
            m.get(0).clone()
        } else {
            String::from_str("WHITE")
        },
        None => String::from_str("WHITE"),
    };
    let upper = to_uppercase(c.as_str());
    proof {
        reveal_strlit("LIGHT_");
        reveal_strlit("DARK_");
        reveal_strlit("_");
    }
    let no_light = remove_all(upper.as_str(), "LIGHT_");
    let shade = remove_all(no_light.as_str(), "DARK_");
    let mut key = char_text(
        match symbol {
            Some(c) => c,
            None => '?',
        },
    );
    key.append("_");
    key.append(shade.as_str());
    assert(key@ =~= fallback_name(symbol, *color));
    key
}

impl LegacyTilesheet {
    /// The fallback sprite of a name, the first ascii sprite where the
    /// tileset has none of that name.
    pub open spec fn fallback_of_name(self, name: Seq<char>) -> SpriteIndex {
        if self.fallback_map.map().contains_key(name) {
            self.fallback_map.map()[name]
        } else {
            fallback_tile_mapping_spec()[0].1
        }
    }

    /// The ascii sprite of a tile: that of the symbol and color of the
    /// terrain with the tile's identifier, else of the furniture, else the
    /// first ascii sprite.
    pub open spec fn spec_fallback(self, id: Seq<char>, data: DeserializedCDDAJsonData) -> SpriteIndex {
        if data.terrain.map().contains_key(id) {
            self.fallback_of_name(fallback_name(data.terrain.map()[id].symbol, data.terrain.map()[id].color))
        } else if data.furniture.map().contains_key(id) {
            self.fallback_of_name(fallback_name(data.furniture.map()[id].symbol, data.furniture.map()[id].color))
        } else {
            fallback_tile_mapping_spec()[0].1
        }
    }

    fn fallback_of(&self, name: &String) -> (r: SpriteIndex)
        ensures
            r == self.fallback_of_name(name@),
    {
        match self.fallback_map.get(name) {
            Some(v) => *v,
            None => 32,
        }
    }

    /// The ascii sprite of a tile (see `spec_fallback`).
    pub fn get_fallback(&self, id: &MappedCDDAId, json_data: &DeserializedCDDAJsonData) -> (r: SpriteIndex)
        ensures
            r == self.spec_fallback(id.tilesheet_id.id@, *json_data),
    {
        match json_data.terrain.get(&id.tilesheet_id.id) {
            Some(t) => {
                let name = fallback_name_of(t.symbol, &t.color);
                return self.fallback_of(&name);
            },
            None => {},
        }
        match json_data.furniture.get(&id.tilesheet_id.id) {
            Some(t) => {
                let name = fallback_name_of(t.symbol, &t.color);
                return self.fallback_of(&name);
            },
            None => {},
        }
        32
    }
}

} // verus!
