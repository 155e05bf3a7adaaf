use vstd::prelude::*;
use crate::cdda_json::{ids_set, texts_set, DeserializedCDDAJsonData, TileLayer};
use crate::mapped_id::MappedCDDAId;
use crate::random::{sample_weighted_index, weights_valid};
use crate::tileset::{Rotated, Rotates, Rotation, SingleSprite, Sprite, SpriteIndex, SpriteLayer};
use crate::types::{CDDAIdentifier, MeabyVec, Weighted};

verus! {

/// The tiles next to a tile, on the same layer.
pub struct AdjacentTiles {
    pub top: Option<MappedCDDAId>,
    pub right: Option<MappedCDDAId>,
    pub bottom: Option<MappedCDDAId>,
    pub left: Option<MappedCDDAId>,
}

impl AdjacentTiles {
    /// No neighbours.
    pub fn none() -> (r: AdjacentTiles)
        ensures
            r.top is None,
            r.right is None,
            r.bottom is None,
            r.left is None,
    {
        AdjacentTiles { top: None, right: None, bottom: None, left: None }
    }
}

/// What a random sprite choice needs to know of the tile: the tile itself
/// and its neighbours.
pub struct PickRandomSpriteFromMappedIdContext {
    pub mapped_cdda_id: MappedCDDAId,
    pub adjacent_tiles: AdjacentTiles,
}

impl PickRandomSpriteFromMappedIdContext {
    pub fn new(mapped_cdda_id: MappedCDDAId, adjacent_tiles: AdjacentTiles) -> (r: Self)
        ensures
            r.mapped_cdda_id == mapped_cdda_id,
            r.adjacent_tiles == adjacent_tiles,
    {
        PickRandomSpriteFromMappedIdContext { mapped_cdda_id, adjacent_tiles }
    }
}

/// The connection groups that flags imply: `WALL` from the flags `WALL`,
/// `CONNECT_WITH_WALL` and `WIRED_WALL`, `INDOORFLOOR` from `INDOORS`.
pub open spec fn implied_connections(flags: Set<Seq<char>>) -> Set<Seq<char>> {
    (if flags.contains("WALL"@) || flags.contains("CONNECT_WITH_WALL"@) || flags.contains(
        "WIRED_WALL"@,
    ) {
        Set::empty().insert("WALL"@)
    } else {
        Set::empty()
    }).union(
        if flags.contains("INDOORS"@) {
            Set::empty().insert("INDOORFLOOR"@)
        } else {
            Set::empty()
        },
    )
}

proof fn lemma_ids_set_push(v: Seq<CDDAIdentifier>, c: CDDAIdentifier)
    ensures
        ids_set(v.push(c)) == ids_set(v).insert(c@),
{
    let w = v.push(c);
    assert forall|x: Seq<char>| ids_set(w).contains(x) <==> ids_set(v).insert(c@).contains(x) by {
        if ids_set(w).contains(x) {
            let j = choose|j: int| 0 <= j < w.len() && #[trigger] w[j]@ == x;
            if j < v.len() {
                assert(v[j]@ == x);
            }
        }
        if ids_set(v).contains(x) {
            let j = choose|j: int| 0 <= j < v.len() && #[trigger] v[j]@ == x;
            assert(w[j]@ == x);
        }
        if x == c@ {
            assert(w[v.len() as int]@ == x);
        }
    }
    assert(ids_set(w) =~= ids_set(v).insert(c@));
}

/// Whether one of the strings has the text `t`.
fn contains_text(v: &Vec<String>, t: &str) -> (r: bool)
    ensures
        r == texts_set(v@).contains(t@),
{
    let target = String::from_str(t);
    let mut i: usize = 0;
    while i < v.len()
        invariant
            i <= v@.len(),
            target@ == t@,
            forall|j: int| 0 <= j < i ==> #[trigger] v@[j]@ != t@,
        decreases v@.len() - i,
    {
        if v[i] == target {
            assert(v@[i as int]@ == t@);
            return true;
        }
        i = i + 1;
    }
    assert(!texts_set(v@).contains(t@)) by {
        if texts_set(v@).contains(t@) {
            let j = choose|j: int| 0 <= j < v@.len() && #[trigger] v@[j]@ == t@;
        }
    }
    false
}

/// Adds the connection groups that the flags imply.
pub fn add_connections_from_flags(flags: &Vec<String>, connection: &mut Vec<CDDAIdentifier>)
    ensures
        ids_set(final(connection)@) == ids_set(old(connection)@).union(
            implied_connections(texts_set(flags@)),
        ),
{
    let ghost old_set = ids_set(connection@);
    let wall = contains_text(flags, "WALL") || contains_text(flags, "CONNECT_WITH_WALL")
        || contains_text(flags, "WIRED_WALL");
    if wall {
        let c = CDDAIdentifier::from_str("WALL");
        proof {
            lemma_ids_set_push(connection@, c);
        }
        connection.push(c);
    }
    let indoors = contains_text(flags, "INDOORS");
    if indoors {
        let c = CDDAIdentifier::from_str("INDOORFLOOR");
        proof {
            lemma_ids_set_push(connection@, c);
        }
        connection.push(c);
    }
    assert(ids_set(connection@) =~= old_set.union(implied_connections(texts_set(flags@))));
}

/// Whether two lists of identifiers share one.
fn ids_intersect(a: &Vec<CDDAIdentifier>, b: &Vec<CDDAIdentifier>) -> (r: bool)
    ensures
        r == exists|x: Seq<char>| ids_set(a@).contains(x) && ids_set(b@).contains(x),
{
    let mut i: usize = 0;
    while i < a.len()
        invariant
            i <= a@.len(),
            forall|p: int, q: int| 0 <= p < i && 0 <= q < b@.len() ==> #[trigger] a@[p]@ != #[trigger] b@[q]@,
        decreases a@.len() - i,
    {
        let mut j: usize = 0;
        while j < b.len()
            invariant
                i < a@.len(),
                j <= b@.len(),
                forall|p: int, q: int| 0 <= p < i && 0 <= q < b@.len() ==> #[trigger] a@[p]@ != #[trigger] b@[q]@,
                forall|q: int| 0 <= q < j ==> a@[i as int]@ != #[trigger] b@[q]@,
            decreases b@.len() - j,
        {
            if a[i].eq_id(&b[j]) {
                assert(ids_set(a@).contains(a@[i as int]@));
                assert(ids_set(b@).contains(b@[j as int]@));
                return true;
            }
            j = j + 1;
        }
        i = i + 1;
    }
    assert forall|x: Seq<char>| !(ids_set(a@).contains(x) && ids_set(b@).contains(x)) by {
        if ids_set(a@).contains(x) && ids_set(b@).contains(x) {
            let p = choose|p: int| 0 <= p < a@.len() && #[trigger] a@[p]@ == x;
            let q = choose|q: int| 0 <= q < b@.len() && #[trigger] b@[q]@ == x;
            assert(a@[p]@ != b@[q]@);
        }
    }
    false
}

/// Whether a tile connects to its neighbour: the groups it connects to
/// (with those its flags imply) meet the neighbour's connect groups (with
/// those the neighbour's flags imply), or the neighbour is the same entry.
/// Entries that the data does not know have no groups and no flags.
pub open spec fn spec_does_id_connect(
    from: Seq<char>,
    to: Option<Seq<char>>,
    layer: TileLayer,
    data: DeserializedCDDAJsonData,
) -> bool {
    let this = data.spec_connects_to(from, layer).union(
        implied_connections(data.spec_flags(from, layer)),
    );
    let other = match to {
        None => Set::empty(),
        Some(t) => data.spec_connect_groups(t, layer).union(
            implied_connections(data.spec_flags(t, layer)),
        ),
    };
    (exists|x: Seq<char>| this.contains(x) && other.contains(x)) || from == match to {
        Some(t) => t,
        None => Seq::<char>::empty(),
    }
}

pub open spec fn opt_tile_id(t: Option<MappedCDDAId>) -> Option<Seq<char>> {
    match t {
        Some(m) => Some(m.tilesheet_id.id@),
        None => None,
    }
}

pub open spec fn opt_ref_id(t: Option<&CDDAIdentifier>) -> Option<Seq<char>> {
    match t {
        Some(m) => Some(m@),
        None => None,
    }
}

/// Whether the entry `from` connects to its neighbour `to` (see
/// `spec_does_id_connect`).
pub fn ids_connect(
    from: &CDDAIdentifier,
    to: Option<&CDDAIdentifier>,
    layer: TileLayer,
    json_data: &DeserializedCDDAJsonData,
) -> (r: bool)
    ensures
        r == spec_does_id_connect(from@, opt_ref_id(to), layer, *json_data),
{
    let mut this_connects_to = match json_data.get_connects_to(from.clone(), &layer) {
        Ok(v) => v,
        Err(_) => Vec::new(),
    };
    assert(ids_set(this_connects_to@) =~= json_data.spec_connects_to(from@, layer));
    let this_flags = match json_data.get_flags(from.clone(), &layer) {
        Ok(v) => v,
        Err(_) => Vec::new(),
    };
    assert(texts_set(this_flags@) =~= json_data.spec_flags(from@, layer));
    let mut to_connect_groups: Vec<CDDAIdentifier> = Vec::new();
    let mut to_flags: Vec<String> = Vec::new();
    match to {
        None => {},
        Some(t) => {
            to_connect_groups = match json_data.get_connect_groups(t.clone(), &layer) {
                Ok(v) => v,
                Err(_) => Vec::new(),
            };
            to_flags = match json_data.get_flags(t.clone(), &layer) {
                Ok(v) => v,
                Err(_) => Vec::new(),
            };
        },
    }
    proof {
        match to {
            None => {
                assert(ids_set(to_connect_groups@) =~= Set::empty());
                assert(texts_set(to_flags@) =~= Set::empty());
            },
            Some(t) => {
                assert(ids_set(to_connect_groups@) =~= json_data.spec_connect_groups(
                    t@,
                    layer,
                ));
                assert(texts_set(to_flags@) =~= json_data.spec_flags(t@, layer));
            },
        }
    }
    let ghost this_set = json_data.spec_connects_to(from@, layer).union(
        implied_connections(json_data.spec_flags(from@, layer)),
    );
    let ghost other_set = match to {
        None => Set::empty(),
        Some(t) => json_data.spec_connect_groups(t@, layer).union(
            implied_connections(json_data.spec_flags(t@, layer)),
        ),
    };
    add_connections_from_flags(&this_flags, &mut this_connects_to);
    add_connections_from_flags(&to_flags, &mut to_connect_groups);
    assert(ids_set(this_connects_to@) == this_set);
    proof {
        if to.is_none() {
            assert(implied_connections(Set::<Seq<char>>::empty()) =~= Set::empty());
            assert(Set::<Seq<char>>::empty().union(Set::<Seq<char>>::empty()) =~= Set::empty());
        }
    }
    assert(ids_set(to_connect_groups@) == other_set);
    let shared = ids_intersect(&this_connects_to, &to_connect_groups);
    let same = match to {
        Some(t) => from.eq_id(t),
        None => from.eq_id(&CDDAIdentifier::from_str("")),
    };
    proof {
        reveal_strlit("");
        assert(""@ =~= Seq::<char>::empty());
        assert(shared == exists|x: Seq<char>| this_set.contains(x) && other_set.contains(x));
    }
    shared || same
}

pub fn does_id_connect(
    from: &MappedCDDAId,
    to: &Option<MappedCDDAId>,
    layer: TileLayer,
    json_data: &DeserializedCDDAJsonData,
) -> (r: bool)
    ensures
        r == spec_does_id_connect(from.tilesheet_id.id@, opt_tile_id(*to), layer, *json_data),
{
    match to {
        Some(t) => ids_connect(&from.tilesheet_id.id, Some(&t.tilesheet_id.id), layer, json_data),
        None => ids_connect(&from.tilesheet_id.id, None, layer, json_data),
    }
}

/// The kinds of sprites of a multitile.
#[derive(Debug, Clone, Copy, PartialEq, Eq, Structural)]
pub enum MultitileKind {
    Center,
    TConnection,
    Corner,
    EndPiece,
    Edge,
    Unconnected,
}

/// The number of connected neighbours, of `(top, right, bottom, left)`.
pub open spec fn connection_count(c: Seq<bool>) -> int {
    (if c[0] { 1int } else { 0 }) + (if c[1] { 1int } else { 0 }) + (if c[2] { 1int } else { 0 }) + (
    if c[3] {
        1int
    } else {
        0
    })
}

/// The first of the four directions (top, right, bottom, left) whose
/// connection is `v`.
pub open spec fn first_with(c: Seq<bool>, v: bool) -> int {
    if c[0] == v {
        0
    } else if c[1] == v {
        1
    } else if c[2] == v {
        2
    } else {
        3
    }
}

/// The direction that starts a pair of connected neighbours that are next
/// to each other, going clockwise.
pub open spec fn corner_start(c: Seq<bool>) -> int {
    if c[0] && c[1] {
        0
    } else if c[1] && c[2] {
        1
    } else if c[2] && c[3] {
        2
    } else {
        3
    }
}

/// The sprite of a multitile and its rotation for the connections
/// `(top, right, bottom, left)`: all four give the center; three a
/// T-connection turned away from the missing side; two opposite an edge
/// (upright, or turned for left and right); two next to each other a corner
/// turned to the first of them clockwise; one an end piece turned to it;
/// none the unconnected sprite.
pub open spec fn spec_multitile_choice(c: Seq<bool>) -> (MultitileKind, Rotation) {
    let n = connection_count(c);
    if n == 4 {
        (MultitileKind::Center, Rotation::Deg0)
    } else if n == 3 {
        (MultitileKind::TConnection, Rotation::of_quarters((first_with(c, false) + 2) % 4))
    } else if n == 2 {
        if c[0] == c[2] {
            (MultitileKind::Edge, if c[0] {
                Rotation::Deg0
            } else {
                Rotation::Deg90
            })
        } else {
            (MultitileKind::Corner, Rotation::of_quarters(corner_start(c)))
        }
    } else if n == 1 {
        (MultitileKind::EndPiece, Rotation::of_quarters(first_with(c, true)))
    } else {
        (MultitileKind::Unconnected, Rotation::Deg0)
    }
}

pub fn multitile_choice(top: bool, right: bool, bottom: bool, left: bool) -> (r: (MultitileKind, Rotation))
    ensures
        r == spec_multitile_choice(seq![top, right, bottom, left]),
{
    match (top, right, bottom, left) {
        (true, true, true, true) => (MultitileKind::Center, Rotation::Deg0),
        (true, true, false, true) => (MultitileKind::TConnection, Rotation::Deg0),
        (true, true, true, false) => (MultitileKind::TConnection, Rotation::Deg90),
        (false, true, true, true) => (MultitileKind::TConnection, Rotation::Deg180),
        (true, false, true, true) => (MultitileKind::TConnection, Rotation::Deg270),
        (true, true, false, false) => (MultitileKind::Corner, Rotation::Deg0),
        (false, true, true, false) => (MultitileKind::Corner, Rotation::Deg90),
        (false, false, true, true) => (MultitileKind::Corner, Rotation::Deg180),
        (true, false, false, true) => (MultitileKind::Corner, Rotation::Deg270),
        (true, false, false, false) => (MultitileKind::EndPiece, Rotation::Deg0),
        (false, true, false, false) => (MultitileKind::EndPiece, Rotation::Deg90),
        (false, false, true, false) => (MultitileKind::EndPiece, Rotation::Deg180),
        (false, false, false, true) => (MultitileKind::EndPiece, Rotation::Deg270),
        (true, false, true, false) => (MultitileKind::Edge, Rotation::Deg0),
        (false, true, false, true) => (MultitileKind::Edge, Rotation::Deg90),
        (false, false, false, false) => (MultitileKind::Unconnected, Rotation::Deg0),
    }
}

/// The connections `(top, right, bottom, left)` after turning the tile a
/// quarter clockwise: the left neighbour's connection comes to the top,
/// the top's to the right, and so on.
pub open spec fn turned_connections(c: Seq<bool>) -> Seq<bool> {
    seq![c[3], c[0], c[1], c[2]]
}

/// Turning a tile's connections a quarter clockwise picks the same kind of
/// multitile sprite, and turns a T-connection, a corner or an end piece a
/// quarter clockwise too; an edge turns between upright and sideways.
pub proof fn law_multitile_turns_with_connections(c: Seq<bool>)
    requires
        c.len() == 4,
    ensures
        spec_multitile_choice(turned_connections(c)).0 == spec_multitile_choice(c).0,
        ({
            let k = spec_multitile_choice(c).0;
            k is TConnection || k is Corner || k is EndPiece
        }) ==> spec_multitile_choice(turned_connections(c)).1.quarters() == (spec_multitile_choice(c).1.quarters() + 1)
            % 4,
        spec_multitile_choice(c).0 is Edge ==> spec_multitile_choice(turned_connections(c)).1.quarters() == (
        spec_multitile_choice(c).1.quarters() + 1) % 2,
{
}

/// A T-connection points away from its missing side, and the sprite of
/// three connections with the bottom missing stands upright: with the left
/// missing it is turned a quarter clockwise, with the top missing a half,
/// with the right missing three quarters.
pub proof fn law_t_connection_faces_away_from_missing_side(c: Seq<bool>)
    requires
        c.len() == 4,
        connection_count(c) == 3,
    ensures
        spec_multitile_choice(c).0 is TConnection,
        !c[2] ==> spec_multitile_choice(c).1 == Rotation::Deg0,
        !c[3] ==> spec_multitile_choice(c).1 == Rotation::Deg90,
        !c[0] ==> spec_multitile_choice(c).1 == Rotation::Deg180,
        !c[1] ==> spec_multitile_choice(c).1 == Rotation::Deg270,
{
}

/// The kind of multitile sprite follows the connections: all four give the
/// center, three a T-connection, two opposite ones an edge, two next to
/// each other a corner, one an end piece, none the unconnected sprite; and
/// a sprite connected upward (alone, with the bottom, or with the right, and
/// so its turned forms) stands upright, as do the center and the
/// unconnected sprite.
pub proof fn law_multitile_kind_follows_connections(c: Seq<bool>)
    requires
        c.len() == 4,
    ensures
        connection_count(c) == 4 <==> spec_multitile_choice(c) == (MultitileKind::Center, Rotation::Deg0),
        connection_count(c) == 3 <==> spec_multitile_choice(c).0 is TConnection,
        connection_count(c) == 2 && c[0] == c[2] <==> spec_multitile_choice(c).0 is Edge,
        connection_count(c) == 2 && c[0] != c[2] <==> spec_multitile_choice(c).0 is Corner,
        connection_count(c) == 1 <==> spec_multitile_choice(c).0 is EndPiece,
        connection_count(c) == 0 <==> spec_multitile_choice(c) == (MultitileKind::Unconnected, Rotation::Deg0),
        c == seq![true, false, false, false] ==> spec_multitile_choice(c).1 == Rotation::Deg0,
        c == seq![true, false, true, false] ==> spec_multitile_choice(c).1 == Rotation::Deg0,
        c == seq![true, true, false, false] ==> spec_multitile_choice(c).1 == Rotation::Deg0,
{
}

/// The weights of weighted sprite choices.
pub open spec fn rotates_weights(indices: Seq<Weighted<Rotates>>) -> Seq<i32> {
    Seq::new(indices.len(), |i: int| indices[i].weight)
}

/// What a weighted random choice among sprite choices may give: nothing
/// when the weights admit no choice, else a choice of positive weight, drawn
/// for the tile's rotation and the extra rotation.
pub open spec fn weighted_pick_outcome(
    indices: Seq<Weighted<Rotates>>,
    rotation: Rotation,
    extra: Rotation,
    can_rotate: bool,
    r: Option<Rotated<MeabyVec<SpriteIndex>>>,
) -> bool {
    match r {
        None => !weights_valid(rotates_weights(indices)),
        Some(x) => weights_valid(rotates_weights(indices)) && exists|i: int|
            0 <= i < indices.len() && indices[i].weight > 0 && {
                let p = #[trigger] indices[i].data.spec_index_with_rotation(rotation, extra, can_rotate);
                x.data == MeabyVec::Single(p.0) && x.rotation == p.1
            },
    }
}

/// As `weighted_pick_outcome`, where there may be no choices at all.
pub open spec fn opt_pick_outcome(
    ids: Option<Vec<Weighted<Rotates>>>,
    rotation: Rotation,
    extra: Rotation,
    can_rotate: bool,
    r: Option<Rotated<MeabyVec<SpriteIndex>>>,
) -> bool {
    match ids {
        None => r is None,
        Some(v) => weighted_pick_outcome(v@, rotation, extra, can_rotate, r),
    }
}

/// Picks one of the weighted sprite choices at random.
fn pick_weighted_rotates(
    indices: &Vec<Weighted<Rotates>>,
    rotation: Rotation,
    extra: Rotation,
    can_rotate: bool,
) -> (r: Option<Rotated<MeabyVec<SpriteIndex>>>)
    ensures
        weighted_pick_outcome(indices@, rotation, extra, can_rotate, r),
{
    let mut weights: Vec<i32> = Vec::new();
    let mut i: usize = 0;
    while i < indices.len()
        invariant
            i <= indices@.len(),
            weights@.len() == i,
            forall|j: int| 0 <= j < i ==> #[trigger] weights@[j] == indices@[j].weight,
        decreases indices@.len() - i,
    {
        weights.push(indices[i].weight);
        i = i + 1;
    }
    assert(weights@ =~= rotates_weights(indices@));
    match sample_weighted_index(&weights) {
        Err(_) => None,
        Ok(k) => {
            let (index, rot) = indices[k].data.get_index_with_rotation(rotation, extra, can_rotate);
            let r = Rotated::new(MeabyVec::Single(index), rot);
            assert(indices@[k as int].weight > 0);
            Some(r)
        },
    }
}

fn pick_opt(
    ids: &Option<Vec<Weighted<Rotates>>>,
    rotation: Rotation,
    extra: Rotation,
    can_rotate: bool,
) -> (r: Option<Rotated<MeabyVec<SpriteIndex>>>)
    ensures
        opt_pick_outcome(*ids, rotation, extra, can_rotate, r),
{
    match ids {
        None => None,
        Some(v) => pick_weighted_rotates(v, rotation, extra, can_rotate),
    }
}

/// The multitile sprite of the given kind, if the multitile has one.
pub open spec fn spec_multitile_sprite(sprite: Sprite, kind: MultitileKind) -> Option<SingleSprite> {
    match sprite {
        Sprite::Multitile { center, t_connection, corner, end_piece, edge, unconnected, .. } => match kind {
            MultitileKind::Center => center,
            MultitileKind::TConnection => t_connection,
            MultitileKind::Corner => corner,
            MultitileKind::EndPiece => end_piece,
            MultitileKind::Edge => edge,
            MultitileKind::Unconnected => unconnected,
        },
        Sprite::Single(_) => None,
    }
}

/// The animation frames of a layer: every sprite choice drawn for the
/// tile's rotation.
pub open spec fn animated_frames(indices: Seq<Weighted<Rotates>>, rotation: Rotation, can_rotate: bool) -> Seq<SpriteIndex> {
    Seq::new(indices.len(), |i: int| indices[i].data.spec_index_with_rotation(rotation, Rotation::Deg0, can_rotate).0)
}

/// What a random pick of the sprite to draw for a tile may give.
pub open spec fn spec_random_pick(
    ctx: PickRandomSpriteFromMappedIdContext,
    sprite: Sprite,
    sprite_layer: SpriteLayer,
    tile_layer: TileLayer,
    data: DeserializedCDDAJsonData,
    r: Option<Rotated<MeabyVec<SpriteIndex>>>,
) -> bool {
    let rot = ctx.mapped_cdda_id.rotation;
    match sprite {
        Sprite::Single(s) => match s.ids.spec_of_sprite_layer(sprite_layer) {
            None => r is None,
            Some(v) => if v@.len() == 0 {
                r is None
            } else if s.animated {
                r matches Some(x) && x.data.values() == animated_frames(v@, rot, s.rotates)
                    && x.data is Vec && x.rotation == if s.rotates {
                    rot
                } else {
                    Rotation::Deg0
                }
            } else {
                weighted_pick_outcome(v@, rot, Rotation::Deg0, s.rotates, r)
            },
        },
        Sprite::Multitile { fallback, broken, open, .. } => {
            let fallback_ok = opt_pick_outcome(fallback.ids.fg, rot, Rotation::Deg0, fallback.rotates, r);
            if ctx.mapped_cdda_id.is_broken {
                match broken {
                    None => fallback_ok,
                    Some(b) => opt_pick_outcome(b.ids.fg, rot, Rotation::Deg0, b.rotates, r),
                }
            } else if ctx.mapped_cdda_id.is_open {
                match open {
                    None => fallback_ok,
                    Some(o) => opt_pick_outcome(o.ids.fg, rot, Rotation::Deg0, o.rotates, r),
                }
            } else {
                let from = ctx.mapped_cdda_id.tilesheet_id.id@;
                let adj = ctx.adjacent_tiles;
                let c = seq![
                    spec_does_id_connect(from, opt_tile_id(adj.top), tile_layer, data),
                    spec_does_id_connect(from, opt_tile_id(adj.right), tile_layer, data),
                    spec_does_id_connect(from, opt_tile_id(adj.bottom), tile_layer, data),
                    spec_does_id_connect(from, opt_tile_id(adj.left), tile_layer, data),
                ];
                let (kind, extra) = spec_multitile_choice(c);
                match spec_multitile_sprite(sprite, kind) {
                    None => fallback_ok,
                    Some(s) => opt_pick_outcome(
                        s.ids.spec_of_sprite_layer(sprite_layer),
                        rot,
                        extra,
                        s.rotates,
                        r,
                    ),
                }
            }
        },
    }
}

/// Picks the sprite to draw for a tile at random among its weighted
/// choices; a multitile by the connections to its neighbours.
pub struct RandomSpritePicker;

impl RandomSpritePicker {
    pub fn new() -> (r: RandomSpritePicker) {
        RandomSpritePicker
    }

    /// A random sprite of the layer's choices; `None` where the layer has
    /// no choices or their weights admit none.
    pub fn pick_random_sprite_from_indices(
        &mut self,
        context: &PickRandomSpriteFromMappedIdContext,
        indices: &Vec<Weighted<Rotates>>,
        can_rotate: bool,
    ) -> (r: Option<Rotated<MeabyVec<SpriteIndex>>>)
        ensures
            weighted_pick_outcome(indices@, context.mapped_cdda_id.rotation, Rotation::Deg0, can_rotate, r),
    {
        pick_weighted_rotates(indices, context.mapped_cdda_id.rotation, Rotation::Deg0, can_rotate)
    }

    pub fn pick(
        &mut self,
        context: PickRandomSpriteFromMappedIdContext,
        sprite: &Sprite,
        sprite_layer: SpriteLayer,
        tile_layer: TileLayer,
        json_data: &DeserializedCDDAJsonData,
    ) -> (r: Option<Rotated<MeabyVec<SpriteIndex>>>)
        ensures
            spec_random_pick(context, *sprite, sprite_layer, tile_layer, *json_data, r),
    {
        let rot = context.mapped_cdda_id.rotation;
        match sprite {
            Sprite::Single(s) => {
                let layer_indices = match s.ids.of_sprite_layer(sprite_layer) {
                    None => return None,
                    Some(i) => i,
                };
                if layer_indices.len() == 0 {
                    return None;
                }
                if s.animated {
                    let mut frames: Vec<SpriteIndex> = Vec::new();
                    let mut i: usize = 0;
                    while i < layer_indices.len()
                        invariant
                            i <= layer_indices@.len(),
                            frames@.len() == i,
                            forall|j: int| 0 <= j < i ==> #[trigger] frames@[j]
                                == animated_frames(layer_indices@, rot, s.rotates)[j],
                        decreases layer_indices@.len() - i,
                    {
                        let (index, _) = layer_indices[i].data.get_index_with_rotation(
                            rot,
                            Rotation::Deg0,
                            s.rotates,
                        );
                        frames.push(index);
                        i = i + 1;
                    }
                    assert(frames@ =~= animated_frames(layer_indices@, rot, s.rotates));
                    let rotation = if s.rotates {
                        rot
                    } else {
                        Rotation::Deg0
                    };
                    Some(Rotated::new(MeabyVec::Vec(frames), rotation))
                } else {
                    self.pick_random_sprite_from_indices(&context, layer_indices, s.rotates)
                }
            },
            Sprite::Multitile {
                fallback,
                center,
                corner,
                t_connection,
                edge,
                unconnected,
                end_piece,
                broken,
                open,
            } => {
                let random_fallback_index = pick_opt(&fallback.ids.fg, rot, Rotation::Deg0, fallback.rotates);
                if context.mapped_cdda_id.is_broken {
                    return match broken {
                        None => random_fallback_index,
                        Some(b) => pick_opt(&b.ids.fg, rot, Rotation::Deg0, b.rotates),
                    };
                }
                if context.mapped_cdda_id.is_open {
                    return match open {
                        None => random_fallback_index,
                        Some(o) => pick_opt(&o.ids.fg, rot, Rotation::Deg0, o.rotates),
                    };
                }
                let top = does_id_connect(
                    &context.mapped_cdda_id,
                    &context.adjacent_tiles.top,
                    tile_layer,
                    json_data,
                );
                let right = does_id_connect(
                    &context.mapped_cdda_id,
                    &context.adjacent_tiles.right,
                    tile_layer,
                    json_data,
                );
                let bottom = does_id_connect(
                    &context.mapped_cdda_id,
                    &context.adjacent_tiles.bottom,
                    tile_layer,
                    json_data,
                );
                let left = does_id_connect(
                    &context.mapped_cdda_id,
                    &context.adjacent_tiles.left,
                    tile_layer,
                    json_data,
                );
                let (kind, extra) = multitile_choice(top, right, bottom, left);
                let chosen = match kind {
                    MultitileKind::Center => center,
                    MultitileKind::TConnection => t_connection,
                    MultitileKind::Corner => corner,
                    MultitileKind::EndPiece => end_piece,
                    MultitileKind::Edge => edge,
                    MultitileKind::Unconnected => unconnected,
                };
                match chosen {
                    None => random_fallback_index,
                    Some(s) => pick_opt(s.ids.of_sprite_layer(sprite_layer), rot, extra, s.rotates),
                }
            },
        }
    }
}

/// Picks the first sprite of a tile's layer, unturned, to stand for the tile.
pub struct RepresentativeSpritePicker;

impl RepresentativeSpritePicker {
    pub fn pick(
        &mut self,
        sprite: &Sprite,
        sprite_layer: SpriteLayer,
        _tile_layer: TileLayer,
        _json_data: &DeserializedCDDAJsonData,
    ) -> (r: Option<Rotated<MeabyVec<SpriteIndex>>>)
        ensures
            ({
                let single = match *sprite {
                    Sprite::Single(s) => s,
                    Sprite::Multitile { fallback, .. } => fallback,
                };
                match single.ids.spec_of_sprite_layer(sprite_layer) {
                    Some(v) => if v@.len() > 0 {
                        r == Some(
                            Rotated { data: MeabyVec::Single(v@[0].data.first()), rotation: Rotation::Deg0 },
                        )
                    } else {
                        r is None
                    },
                    None => r is None,
                }
            }),
    {
        let single_sprite = match sprite {
            Sprite::Single(s) => s,
            Sprite::Multitile { fallback, .. } => fallback,
        };
        match single_sprite.ids.of_sprite_layer(sprite_layer) {
            None => None,
            Some(ids) => {
                if ids.len() == 0 {
                    return None;
                }
                let first_index = match &ids[0].data {
                    Rotates::Auto(a) => *a,
                    Rotates::Pre2(p) => p.0,
                    Rotates::Pre4(p) => p.0,
                };
                Some(Rotated::none(MeabyVec::Single(first_index)))
            },
        }
    }
}

} // verus!
