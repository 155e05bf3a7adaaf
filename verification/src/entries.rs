use vstd::prelude::*;
use indexmap::IndexMap;
use crate::cdda_json::{CDDAFurniture, CDDATerrain, CDDAVehiclePart};
use crate::game_data::CDDAOvermapLocation;
use crate::overmap_vehicle_data::{
    clone_id_vec, clone_placements, clone_special_ty, placements_view, special_ty_view, CDDAOvermapSpecial, CDDAVehicle,
    OvermapSpecialSubType, VehiclePartPlacement,
};
use crate::mapped_id::{clone_opt_string, opt_text};
use crate::game_data::{CDDAOvermapTerrain, OvermapTerrainMapgen};
use crate::identifier::{GetIdentifierError, WeightedIndexError};
use crate::keyed_map::KeyedMap;
use crate::number_or_range::NumberOrRange;
use crate::random::{sample_weighted_index, weights_valid};
use crate::types::ParameterIdentifier;
use crate::import::{
    clone_delete, clone_extend, clone_flag_list, clone_ids, clone_opt_cdda_string, clone_opt_id,
    clone_opt_ids, clone_opt_texts, delete_agree, delete_flags, extend_agree, extend_flags, first_cdda_string,
    first_id, first_ids, first_some, first_texts, id_texts, opt_ids_agree, opt_texts_agree, texts,
    ImportCDDAObject,
};
use crate::types::{CDDADeleteOp, CDDAExtendOp, CDDAIdentifier, CDDAString, MeabyVec};

verus! {

/// The entry that a `copy-from` names, as text.
pub open spec fn copy_text(c: Option<CDDAIdentifier>) -> Option<Seq<char>> {
    match c {
        Some(x) => Some(x@),
        None => None,
    }
}

fn copy_ref(c: &Option<CDDAIdentifier>) -> (r: Option<&CDDAIdentifier>)
    ensures
        match r {
            Some(x) => copy_text(*c) == Some(x@),
            None => copy_text(*c) is None,
        },
{
    match c {
        Some(x) => Some(x),
        None => None,
    }
}

fn extend_ref(e: &Option<CDDAExtendOp>) -> (r: Option<&CDDAExtendOp>)
    ensures
        extend_flags(match r {
            Some(x) => Some(*x),
            None => None,
        }) == extend_flags(*e),
{
    match e {
        Some(x) => Some(x),
        None => None,
    }
}

fn delete_ref(d: &Option<CDDADeleteOp>) -> (r: Option<&CDDADeleteOp>)
    ensures
        delete_flags(match r {
            Some(x) => Some(*x),
            None => None,
        }) == delete_flags(*d),
{
    match d {
        Some(x) => Some(x),
        None => None,
    }
}

/// A terrain entry as the game data writes it: one or more ids, and what
/// it copies from another terrain.
pub struct CDDATerrainIntermediate {
    pub id: MeabyVec<CDDAIdentifier>,
    pub flags: Vec<String>,
    pub copy_from: Option<CDDAIdentifier>,
    pub extend: Option<CDDAExtendOp>,
    pub delete: Option<CDDADeleteOp>,
    pub name: Option<CDDAString>,
    pub description: Option<CDDAString>,
    pub symbol: Option<char>,
    pub looks_like: Option<CDDAIdentifier>,
    pub color: Option<MeabyVec<String>>,
    pub connect_groups: Option<MeabyVec<CDDAIdentifier>>,
    pub connects_to: Option<MeabyVec<CDDAIdentifier>>,
    pub source: Option<String>,
}

impl ImportCDDAObject for CDDATerrainIntermediate {
    open spec fn spec_ids(&self) -> Seq<Seq<char>> {
        id_texts(self.id.values())
    }

    open spec fn spec_with_id(entry: Self, id: CDDAIdentifier) -> Self {
        CDDATerrainIntermediate { id: MeabyVec::Single(id), ..entry }
    }

    proof fn lemma_ids(a: Self, b: Self, over: Self, id: CDDAIdentifier) {
        assert(id_texts(seq![id]) =~= seq![id@]);
    }

    fn ids(&self) -> (r: &MeabyVec<CDDAIdentifier>) {
        &self.id
    }

    fn with_id(&self, id: &CDDAIdentifier) -> (r: Self) {
        let mut c = self.duplicate();
        c.id = MeabyVec::Single(id.clone());
        c
    }

    open spec fn spec_copy_from(&self) -> Option<Seq<char>> {
        copy_text(self.copy_from)
    }

    open spec fn spec_extend(&self) -> Option<Seq<Seq<char>>> {
        extend_flags(self.extend)
    }

    open spec fn spec_delete(&self) -> Option<Seq<Seq<char>>> {
        delete_flags(self.delete)
    }

    open spec fn spec_flags(&self) -> Seq<Seq<char>> {
        texts(self.flags@)
    }

    open spec fn agrees(a: Self, b: Self) -> bool {
        &&& id_texts(a.id.values()) == id_texts(b.id.values())
        &&& a.copy_from == b.copy_from
        &&& extend_agree(a.extend, b.extend)
        &&& delete_agree(a.delete, b.delete)
        &&& a.name == b.name
        &&& a.description == b.description
        &&& a.symbol == b.symbol
        &&& a.looks_like == b.looks_like
        &&& opt_texts_agree(a.color, b.color)
        &&& opt_ids_agree(a.connect_groups, b.connect_groups)
        &&& opt_ids_agree(a.connects_to, b.connects_to)
    }

    /// The base's id and flags, the override's `copy-from`, `extend` and
    /// `delete`, and each other field from the override where it has one,
    /// else from the base.
    open spec fn spec_merge(base: Self, over: Self) -> Self {
        CDDATerrainIntermediate {
            source: base.source,
            id: base.id,
            flags: base.flags,
            copy_from: over.copy_from,
            extend: over.extend,
            delete: over.delete,
            name: first_some(over.name, base.name),
            description: first_some(over.description, base.description),
            symbol: first_some(over.symbol, base.symbol),
            looks_like: first_some(over.looks_like, base.looks_like),
            color: first_some(over.color, base.color),
            connect_groups: first_some(over.connect_groups, base.connect_groups),
            connects_to: first_some(over.connects_to, base.connects_to),
        }
    }

    proof fn lemma_agrees(a: Self, b: Self, c: Self) {
    }

    proof fn lemma_merge_agrees(b1: Self, b2: Self, over: Self) {
    }

    fn merge(base: &Self, override_: &Self) -> (r: Self) {
        CDDATerrainIntermediate {
            source: clone_opt_string(&base.source),
            id: clone_ids(&base.id),
            flags: clone_flag_list(&base.flags),
            copy_from: clone_opt_id(&override_.copy_from),
            extend: clone_extend(&override_.extend),
            delete: clone_delete(&override_.delete),
            name: first_cdda_string(&override_.name, &base.name),
            description: first_cdda_string(&override_.description, &base.description),
            symbol: if override_.symbol.is_some() {
                override_.symbol
            } else {
                base.symbol
            },
            looks_like: first_id(&override_.looks_like, &base.looks_like),
            color: first_texts(&override_.color, &base.color),
            connect_groups: first_ids(&override_.connect_groups, &base.connect_groups),
            connects_to: first_ids(&override_.connects_to, &base.connects_to),
        }
    }

    fn copy_from(&self) -> (r: Option<&CDDAIdentifier>) {
        copy_ref(&self.copy_from)
    }

    fn extend(&self) -> (r: Option<&CDDAExtendOp>) {
        extend_ref(&self.extend)
    }

    fn delete(&self) -> (r: Option<&CDDADeleteOp>) {
        delete_ref(&self.delete)
    }

    fn flags(&self) -> (r: &Vec<String>) {
        &self.flags
    }

    fn set_flags(&mut self, flags: Vec<String>) {
        self.flags = flags;
    }

    open spec fn spec_source(&self) -> Option<Seq<char>> {
        opt_text(self.source)
    }

    fn set_source(&mut self, path: &String) {
        self.source = Some(path.clone());
    }

    fn duplicate(&self) -> (r: Self) {
        CDDATerrainIntermediate {
            source: clone_opt_string(&self.source),
            id: clone_ids(&self.id),
            flags: clone_flag_list(&self.flags),
            copy_from: clone_opt_id(&self.copy_from),
            extend: clone_extend(&self.extend),
            delete: clone_delete(&self.delete),
            name: clone_opt_cdda_string(&self.name),
            description: clone_opt_cdda_string(&self.description),
            symbol: self.symbol,
            looks_like: clone_opt_id(&self.looks_like),
            color: clone_opt_texts(&self.color),
            connect_groups: clone_opt_ids(&self.connect_groups),
            connects_to: clone_opt_ids(&self.connects_to),
        }
    }
}

impl CDDATerrainIntermediate {
    /// The terrain of an entry with exactly one id.
    pub fn into_terrain(self) -> (r: CDDATerrain)
        requires
            self.id.values().len() == 1,
        ensures
            r.id == self.id.values()[0],
            r.flags == self.flags,
            r.name == self.name,
            r.description == self.description,
            r.symbol == self.symbol,
            r.looks_like == self.looks_like,
            r.color == self.color,
            r.connect_groups == self.connect_groups,
            r.connects_to == self.connects_to,
    {
        let ids = self.id.into_vec();
        let mut ids = ids;
        let id = ids.remove(0);
        CDDATerrain {
            id,
            name: self.name,
            description: self.description,
            symbol: self.symbol,
            looks_like: self.looks_like,
            color: self.color,
            connect_groups: self.connect_groups,
            connects_to: self.connects_to,
            flags: self.flags,
        }
    }
}

/// A furniture entry as the game data writes it: one or more ids, and what
/// it copies from another furniture.
pub struct CDDAFurnitureIntermediate {
    pub id: MeabyVec<CDDAIdentifier>,
    pub flags: Vec<String>,
    pub copy_from: Option<CDDAIdentifier>,
    pub extend: Option<CDDAExtendOp>,
    pub delete: Option<CDDADeleteOp>,
    pub name: Option<CDDAString>,
    pub description: Option<CDDAString>,
    pub symbol: Option<char>,
    pub looks_like: Option<CDDAIdentifier>,
    pub color: Option<MeabyVec<String>>,
    pub connect_groups: Option<MeabyVec<CDDAIdentifier>>,
    pub connects_to: Option<MeabyVec<CDDAIdentifier>>,
    pub source: Option<String>,
}

impl ImportCDDAObject for CDDAFurnitureIntermediate {
    open spec fn spec_ids(&self) -> Seq<Seq<char>> {
        id_texts(self.id.values())
    }

    open spec fn spec_with_id(entry: Self, id: CDDAIdentifier) -> Self {
        CDDAFurnitureIntermediate { id: MeabyVec::Single(id), ..entry }
    }

    proof fn lemma_ids(a: Self, b: Self, over: Self, id: CDDAIdentifier) {
        assert(id_texts(seq![id]) =~= seq![id@]);
    }

    fn ids(&self) -> (r: &MeabyVec<CDDAIdentifier>) {
        &self.id
    }

    fn with_id(&self, id: &CDDAIdentifier) -> (r: Self) {
        let mut c = self.duplicate();
        c.id = MeabyVec::Single(id.clone());
        c
    }

    open spec fn spec_copy_from(&self) -> Option<Seq<char>> {
        copy_text(self.copy_from)
    }

    open spec fn spec_extend(&self) -> Option<Seq<Seq<char>>> {
        extend_flags(self.extend)
    }

    open spec fn spec_delete(&self) -> Option<Seq<Seq<char>>> {
        delete_flags(self.delete)
    }

    open spec fn spec_flags(&self) -> Seq<Seq<char>> {
        texts(self.flags@)
    }

    open spec fn agrees(a: Self, b: Self) -> bool {
        &&& id_texts(a.id.values()) == id_texts(b.id.values())
        &&& a.copy_from == b.copy_from
        &&& extend_agree(a.extend, b.extend)
        &&& delete_agree(a.delete, b.delete)
        &&& a.name == b.name
        &&& a.description == b.description
        &&& a.symbol == b.symbol
        &&& a.looks_like == b.looks_like
        &&& opt_texts_agree(a.color, b.color)
        &&& opt_ids_agree(a.connect_groups, b.connect_groups)
        &&& opt_ids_agree(a.connects_to, b.connects_to)
    }

    /// The base's id and flags, the override's `copy-from`, `extend` and
    /// `delete`, and each other field from the override where it has one,
    /// else from the base.
    open spec fn spec_merge(base: Self, over: Self) -> Self {
        CDDAFurnitureIntermediate {
            source: base.source,
            id: base.id,
            flags: base.flags,
            copy_from: over.copy_from,
            extend: over.extend,
            delete: over.delete,
            name: first_some(over.name, base.name),
            description: first_some(over.description, base.description),
            symbol: first_some(over.symbol, base.symbol),
            looks_like: first_some(over.looks_like, base.looks_like),
            color: first_some(over.color, base.color),
            connect_groups: first_some(over.connect_groups, base.connect_groups),
            connects_to: first_some(over.connects_to, base.connects_to),
        }
    }

    proof fn lemma_agrees(a: Self, b: Self, c: Self) {
    }

    proof fn lemma_merge_agrees(b1: Self, b2: Self, over: Self) {
    }

    fn merge(base: &Self, override_: &Self) -> (r: Self) {
        CDDAFurnitureIntermediate {
            source: clone_opt_string(&base.source),
            id: clone_ids(&base.id),
            flags: clone_flag_list(&base.flags),
            copy_from: clone_opt_id(&override_.copy_from),
            extend: clone_extend(&override_.extend),
            delete: clone_delete(&override_.delete),
            name: first_cdda_string(&override_.name, &base.name),
            description: first_cdda_string(&override_.description, &base.description),
            symbol: if override_.symbol.is_some() {
                override_.symbol
            } else {
                base.symbol
            },
            looks_like: first_id(&override_.looks_like, &base.looks_like),
            color: first_texts(&override_.color, &base.color),
            connect_groups: first_ids(&override_.connect_groups, &base.connect_groups),
            connects_to: first_ids(&override_.connects_to, &base.connects_to),
        }
    }

    fn copy_from(&self) -> (r: Option<&CDDAIdentifier>) {
        copy_ref(&self.copy_from)
    }

    fn extend(&self) -> (r: Option<&CDDAExtendOp>) {
        extend_ref(&self.extend)
    }

    fn delete(&self) -> (r: Option<&CDDADeleteOp>) {
        delete_ref(&self.delete)
    }

    fn flags(&self) -> (r: &Vec<String>) {
        &self.flags
    }

    fn set_flags(&mut self, flags: Vec<String>) {
        self.flags = flags;
    }

    open spec fn spec_source(&self) -> Option<Seq<char>> {
        opt_text(self.source)
    }

    fn set_source(&mut self, path: &String) {
        self.source = Some(path.clone());
    }

    fn duplicate(&self) -> (r: Self) {
        CDDAFurnitureIntermediate {
            source: clone_opt_string(&self.source),
            id: clone_ids(&self.id),
            flags: clone_flag_list(&self.flags),
            copy_from: clone_opt_id(&self.copy_from),
            extend: clone_extend(&self.extend),
            delete: clone_delete(&self.delete),
            name: clone_opt_cdda_string(&self.name),
            description: clone_opt_cdda_string(&self.description),
            symbol: self.symbol,
            looks_like: clone_opt_id(&self.looks_like),
            color: clone_opt_texts(&self.color),
            connect_groups: clone_opt_ids(&self.connect_groups),
            connects_to: clone_opt_ids(&self.connects_to),
        }
    }
}

impl CDDAFurnitureIntermediate {
    /// The furniture of an entry with exactly one id.
    pub fn into_furniture(self) -> (r: CDDAFurniture)
        requires
            self.id.values().len() == 1,
        ensures
            r.id == self.id.values()[0],
            r.flags == self.flags,
            r.name == self.name,
            r.description == self.description,
            r.symbol == self.symbol,
            r.looks_like == self.looks_like,
            r.color == self.color,
            r.connect_groups == self.connect_groups,
            r.connects_to == self.connects_to,
    {
        let ids = self.id.into_vec();
        let mut ids = ids;
        let id = ids.remove(0);
        CDDAFurniture {
            id,
            name: self.name,
            description: self.description,
            symbol: self.symbol,
            looks_like: self.looks_like,
            color: self.color,
            connect_groups: self.connect_groups,
            connects_to: self.connects_to,
            flags: self.flags,
        }
    }
}


/// What a member of a monster group names: another group or a monster.
pub enum MonsterGroupMonsterKind {
    Group { group: CDDAIdentifier },
    Monster { monster: CDDAIdentifier },
}

/// A member of a monster group, with its weight among the members.
pub struct MonsterGroupMonster {
    pub id: MonsterGroupMonsterKind,
    pub weight: i32,
    pub cost_multiplier: u32,
    pub pack_size: NumberOrRange<u32>,
}

/// A monster group of the game data.
pub struct CDDAMonsterGroup {
    pub id: CDDAIdentifier,
    pub monsters: Vec<MonsterGroupMonster>,
    pub flags: Vec<String>,
}

/// A monster group as the game data writes it.
pub struct CDDAMonsterGroupIntermediate {
    pub id: MeabyVec<CDDAIdentifier>,
    pub flags: Vec<String>,
    pub copy_from: Option<CDDAIdentifier>,
    pub extend: Option<CDDAExtendOp>,
    pub delete: Option<CDDADeleteOp>,
    pub monsters: Vec<MonsterGroupMonster>,
    pub source: Option<String>,
}

pub enum GetRandomMonsterError {
    WeightedIndexError(WeightedIndexError),
    GetIdentifierError(GetIdentifierError),
    MissingMonstergroup(String),
}

fn clone_member(m: &MonsterGroupMonster) -> (r: MonsterGroupMonster)
    ensures
        r == *m,
{
    MonsterGroupMonster {
        id: match &m.id {
            MonsterGroupMonsterKind::Group { group } => MonsterGroupMonsterKind::Group { group: group.clone() },
            MonsterGroupMonsterKind::Monster { monster } => MonsterGroupMonsterKind::Monster {
                monster: monster.clone(),
            },
        },
        weight: m.weight,
        cost_multiplier: m.cost_multiplier,
        pack_size: m.pack_size.clone(),
    }
}

fn clone_members(v: &Vec<MonsterGroupMonster>) -> (r: Vec<MonsterGroupMonster>)
    ensures
        r@ == v@,
{
    let mut out: Vec<MonsterGroupMonster> = Vec::new();
    let mut i: usize = 0;
    while i < v.len()
        invariant
            i <= v@.len(),
            out@ == v@.take(i as int),
        decreases v@.len() - i,
    {
        out.push(clone_member(&v[i]));
        proof {
            assert(out@ =~= v@.take(i + 1));
        }
        i = i + 1;
    }
    proof {
        assert(v@.take(v@.len() as int) =~= v@);
    }
    out
}

impl ImportCDDAObject for CDDAMonsterGroupIntermediate {
    open spec fn spec_ids(&self) -> Seq<Seq<char>> {
        id_texts(self.id.values())
    }

    open spec fn spec_with_id(entry: Self, id: CDDAIdentifier) -> Self {
        CDDAMonsterGroupIntermediate { id: MeabyVec::Single(id), ..entry }
    }

    proof fn lemma_ids(a: Self, b: Self, over: Self, id: CDDAIdentifier) {
        assert(id_texts(seq![id]) =~= seq![id@]);
    }

    fn ids(&self) -> (r: &MeabyVec<CDDAIdentifier>) {
        &self.id
    }

    fn with_id(&self, id: &CDDAIdentifier) -> (r: Self) {
        let mut c = self.duplicate();
        c.id = MeabyVec::Single(id.clone());
        c
    }

    open spec fn spec_copy_from(&self) -> Option<Seq<char>> {
        copy_text(self.copy_from)
    }

    open spec fn spec_extend(&self) -> Option<Seq<Seq<char>>> {
        extend_flags(self.extend)
    }

    open spec fn spec_delete(&self) -> Option<Seq<Seq<char>>> {
        delete_flags(self.delete)
    }

    open spec fn spec_flags(&self) -> Seq<Seq<char>> {
        texts(self.flags@)
    }

    open spec fn agrees(a: Self, b: Self) -> bool {
        &&& id_texts(a.id.values()) == id_texts(b.id.values())
        &&& a.copy_from == b.copy_from
        &&& extend_agree(a.extend, b.extend)
        &&& delete_agree(a.delete, b.delete)
        &&& a.monsters@ == b.monsters@
    }

    /// The base's id and flags; the override's `copy-from`, `extend`,
    /// `delete` and members.
    open spec fn spec_merge(base: Self, over: Self) -> Self {
        CDDAMonsterGroupIntermediate {
            source: base.source,
            id: base.id,
            flags: base.flags,
            copy_from: over.copy_from,
            extend: over.extend,
            delete: over.delete,
            monsters: over.monsters,
        }
    }

    proof fn lemma_agrees(a: Self, b: Self, c: Self) {
    }

    proof fn lemma_merge_agrees(b1: Self, b2: Self, over: Self) {
    }

    fn merge(base: &Self, override_: &Self) -> (r: Self) {
        CDDAMonsterGroupIntermediate {
            source: clone_opt_string(&base.source),
            id: clone_ids(&base.id),
            flags: clone_flag_list(&base.flags),
            copy_from: clone_opt_id(&override_.copy_from),
            extend: clone_extend(&override_.extend),
            delete: clone_delete(&override_.delete),
            monsters: clone_members(&override_.monsters),
        }
    }

    fn copy_from(&self) -> (r: Option<&CDDAIdentifier>) {
        copy_ref(&self.copy_from)
    }

    fn extend(&self) -> (r: Option<&CDDAExtendOp>) {
        extend_ref(&self.extend)
    }

    fn delete(&self) -> (r: Option<&CDDADeleteOp>) {
        delete_ref(&self.delete)
    }

    fn flags(&self) -> (r: &Vec<String>) {
        &self.flags
    }

    fn set_flags(&mut self, flags: Vec<String>) {
        self.flags = flags;
    }

    open spec fn spec_source(&self) -> Option<Seq<char>> {
        opt_text(self.source)
    }

    fn set_source(&mut self, path: &String) {
        self.source = Some(path.clone());
    }

    fn duplicate(&self) -> (r: Self) {
        CDDAMonsterGroupIntermediate {
            source: clone_opt_string(&self.source),
            id: clone_ids(&self.id),
            flags: clone_flag_list(&self.flags),
            copy_from: clone_opt_id(&self.copy_from),
            extend: clone_extend(&self.extend),
            delete: clone_delete(&self.delete),
            monsters: clone_members(&self.monsters),
        }
    }
}

impl CDDAMonsterGroupIntermediate {
    /// The monster group of an entry with exactly one id.
    pub fn into_monster_group(self) -> (r: CDDAMonsterGroup)
        requires
            self.id.values().len() == 1,
        ensures
            r.id == self.id.values()[0],
            r.flags == self.flags,
            r.monsters == self.monsters,
    {
        let mut ids = self.id.into_vec();
        let id = ids.remove(0);
        CDDAMonsterGroup { id, monsters: self.monsters, flags: self.flags }
    }
}

/// The weights of the members of a group, in order.
pub open spec fn member_weights(ms: Seq<MonsterGroupMonster>) -> Seq<i32> {
    Seq::new(ms.len(), |i: int| ms[i].weight)
}

/// Whether a random choice within the group ends within `fuel` nested
/// groups: every member group of positive weight that exists ends in turn.
pub open spec fn group_choice_ends(g: CDDAMonsterGroup, all: Map<Seq<char>, CDDAMonsterGroup>, fuel: nat) -> bool
    decreases fuel,
{
    forall|i: int|
        0 <= i < g.monsters@.len() && #[trigger] g.monsters@[i].weight > 0 ==> match g.monsters@[i].id {
            MonsterGroupMonsterKind::Group { group } => all.contains_key(group@) ==> fuel > 0
                && group_choice_ends(all[group@], all, (fuel - 1) as nat),
            MonsterGroupMonsterKind::Monster { .. } => true,
        }
}

/// Whether choosing within the group may give the monster `id`: a member of
/// positive weight is that monster, or a known group that may give it.
pub open spec fn may_give_monster(
    g: CDDAMonsterGroup,
    all: Map<Seq<char>, CDDAMonsterGroup>,
    fuel: nat,
    id: Seq<char>,
) -> bool
    decreases fuel,
{
    exists|i: int|
        0 <= i < g.monsters@.len() && #[trigger] g.monsters@[i].weight > 0 && match g.monsters@[i].id {
            MonsterGroupMonsterKind::Monster { monster } => monster@ == id,
            MonsterGroupMonsterKind::Group { group } => all.contains_key(group@) && fuel > 0
                && may_give_monster(all[group@], all, (fuel - 1) as nat, id),
        }
}

/// Whether choosing within the group may reach a member group named `name`
/// that is not known.
pub open spec fn may_miss_group(
    g: CDDAMonsterGroup,
    all: Map<Seq<char>, CDDAMonsterGroup>,
    fuel: nat,
    name: Seq<char>,
) -> bool
    decreases fuel,
{
    exists|i: int|
        0 <= i < g.monsters@.len() && #[trigger] g.monsters@[i].weight > 0 && match g.monsters@[i].id {
            MonsterGroupMonsterKind::Monster { .. } => false,
            MonsterGroupMonsterKind::Group { group } => if all.contains_key(group@) {
                fuel > 0 && may_miss_group(all[group@], all, (fuel - 1) as nat, name)
            } else {
                group@ == name
            },
        }
}

/// Whether choosing within the group may reach a group, itself or one of
/// its members, whose weights `w` admit no choice.
pub open spec fn may_fail_weights(
    g: CDDAMonsterGroup,
    all: Map<Seq<char>, CDDAMonsterGroup>,
    fuel: nat,
    w: Seq<i32>,
) -> bool
    decreases fuel,
{
    ||| !weights_valid(member_weights(g.monsters@)) && w == member_weights(g.monsters@)
    ||| exists|i: int|
        0 <= i < g.monsters@.len() && #[trigger] g.monsters@[i].weight > 0 && match g.monsters@[i].id {
            MonsterGroupMonsterKind::Monster { .. } => false,
            MonsterGroupMonsterKind::Group { group } => all.contains_key(group@) && fuel > 0
                && may_fail_weights(all[group@], all, (fuel - 1) as nat, w),
        }
}

/// Whether choosing a monster of the group may fail: it may reach a member
/// group that is not known, or a group whose weights admit no choice.
pub open spec fn group_may_fail(g: CDDAMonsterGroup, all: Map<Seq<char>, CDDAMonsterGroup>) -> bool {
    (exists|fuel: nat, n: Seq<char>| #[trigger] may_miss_group(g, all, fuel, n)) || (exists|fuel: nat, w: Seq<i32>|
        #[trigger] may_fail_weights(g, all, fuel, w))
}

impl CDDAMonsterGroup {
    fn random_monster_with_fuel(
        &self,
        monstergroups: &KeyedMap<CDDAIdentifier, CDDAMonsterGroup>,
        calculated_parameters: &IndexMap<ParameterIdentifier, CDDAIdentifier>,
        Ghost(fuel): Ghost<nat>,
    ) -> (r: Result<CDDAIdentifier, GetRandomMonsterError>)
        requires
            group_choice_ends(*self, monstergroups.map(), fuel),
        ensures
            !weights_valid(member_weights(self.monsters@)) ==> (r matches Err(
                GetRandomMonsterError::WeightedIndexError(WeightedIndexError::InvalidWeights(w)),
            ) && w@ == member_weights(self.monsters@)),
            r matches Ok(id) ==> may_give_monster(*self, monstergroups.map(), fuel, id@),
            r matches Err(GetRandomMonsterError::MissingMonstergroup(n)) ==> may_miss_group(
                *self,
                monstergroups.map(),
                fuel,
                n@,
            ),
            r matches Err(GetRandomMonsterError::WeightedIndexError(WeightedIndexError::InvalidWeights(w)))
                ==> may_fail_weights(*self, monstergroups.map(), fuel, w@),
            !(r matches Err(GetRandomMonsterError::GetIdentifierError(_))),
        decreases fuel,
    {
        let mut weights: Vec<i32> = Vec::new();
        let mut i: usize = 0;
        while i < self.monsters.len()
            invariant
                i <= self.monsters@.len(),
                weights@ == member_weights(self.monsters@).take(i as int),
            decreases self.monsters@.len() - i,
        {
            weights.push(self.monsters[i].weight);
            proof {
                assert(weights@ =~= member_weights(self.monsters@).take(i + 1));
            }
            i = i + 1;
        }
        proof {
            assert(member_weights(self.monsters@).take(self.monsters@.len() as int) =~= member_weights(
                self.monsters@,
            ));
        }
        let chosen_index = match sample_weighted_index(&weights) {
            Ok(c) => c,
            Err(_) => {
                return Err(GetRandomMonsterError::WeightedIndexError(WeightedIndexError::InvalidWeights(weights)));
            },
        };
        let chosen = &self.monsters[chosen_index];
        proof {
            assert(self.monsters@[chosen_index as int].weight > 0);
        }
        match &chosen.id {
            MonsterGroupMonsterKind::Monster { monster } => {
                let id = match monster.get_identifier(calculated_parameters) {
                    Ok(id) => id,
                };
                Ok(id)
            },
            MonsterGroupMonsterKind::Group { group } => {
                let id = match group.get_identifier(calculated_parameters) {
                    Ok(id) => id,
                };
                match monstergroups.get(&id) {
                    None => Err(GetRandomMonsterError::MissingMonstergroup(id.0)),
                    Some(g) => {
                        let r = g.random_monster_with_fuel(
                            monstergroups,
                            calculated_parameters,
                            Ghost((fuel - 1) as nat),
                        );
                        proof {
                            assert(self.monsters@[chosen_index as int].weight > 0);
                        }
                        r
                    },
                }
            },
        }
    }

    /// A monster picked at random: a member is chosen with the members'
    /// weights; a monster is the answer, a group is asked in turn.
    pub fn get_random_monster(
        &self,
        monstergroups: &KeyedMap<CDDAIdentifier, CDDAMonsterGroup>,
        calculated_parameters: &IndexMap<ParameterIdentifier, CDDAIdentifier>,
    ) -> (r: Result<CDDAIdentifier, GetRandomMonsterError>)
        requires
            exists|fuel: nat| group_choice_ends(*self, monstergroups.map(), fuel),
        ensures
            !weights_valid(member_weights(self.monsters@)) ==> (r matches Err(
                GetRandomMonsterError::WeightedIndexError(WeightedIndexError::InvalidWeights(w)),
            ) && w@ == member_weights(self.monsters@)),
            r matches Ok(id) ==> exists|fuel: nat| may_give_monster(*self, monstergroups.map(), fuel, id@),
            r matches Err(GetRandomMonsterError::MissingMonstergroup(n)) ==> exists|fuel: nat|
                may_miss_group(*self, monstergroups.map(), fuel, n@),
            r matches Err(GetRandomMonsterError::WeightedIndexError(WeightedIndexError::InvalidWeights(w)))
                ==> exists|fuel: nat| may_fail_weights(*self, monstergroups.map(), fuel, w@),
            !(r matches Err(GetRandomMonsterError::GetIdentifierError(_))),
            r is Err ==> group_may_fail(*self, monstergroups.map()),
    {
        let ghost fuel = choose|fuel: nat| group_choice_ends(*self, monstergroups.map(), fuel);
        self.random_monster_with_fuel(monstergroups, calculated_parameters, Ghost(fuel))
    }
}

/// Two optional lists of built-in mapgens are equal.
pub open spec fn opt_mapgens_agree(a: Option<Vec<OvermapTerrainMapgen>>, b: Option<Vec<OvermapTerrainMapgen>>) -> bool {
    match (a, b) {
        (None, None) => true,
        (Some(x), Some(y)) => x@ == y@,
        _ => false,
    }
}

fn clone_opt_mapgens(v: &Option<Vec<OvermapTerrainMapgen>>) -> (r: Option<Vec<OvermapTerrainMapgen>>)
    ensures
        opt_mapgens_agree(r, *v),
{
    match v {
        None => None,
        Some(list) => {
            let mut out: Vec<OvermapTerrainMapgen> = Vec::new();
            let mut i: usize = 0;
            while i < list.len()
                invariant
                    i <= list@.len(),
                    out@ == list@.take(i as int),
                decreases list@.len() - i,
            {
                out.push(OvermapTerrainMapgen { builtin: list[i].builtin.clone() });
                proof {
                    assert(out@ =~= list@.take(i + 1));
                }
                i = i + 1;
            }
            proof {
                assert(list@.take(list@.len() as int) =~= list@);
            }
            Some(out)
        },
    }
}

/// An overmap terrain as the game data writes it.
pub struct CDDAOvermapTerrainIntermediate {
    pub id: MeabyVec<CDDAIdentifier>,
    pub flags: Vec<String>,
    pub copy_from: Option<CDDAIdentifier>,
    pub extend: Option<CDDAExtendOp>,
    pub delete: Option<CDDADeleteOp>,
    pub name: Option<CDDAString>,
    pub symbol: Option<char>,
    pub mapgen: Option<Vec<OvermapTerrainMapgen>>,
    pub source: Option<String>,
}

impl ImportCDDAObject for CDDAOvermapTerrainIntermediate {
    open spec fn spec_ids(&self) -> Seq<Seq<char>> {
        id_texts(self.id.values())
    }

    open spec fn spec_with_id(entry: Self, id: CDDAIdentifier) -> Self {
        CDDAOvermapTerrainIntermediate { id: MeabyVec::Single(id), ..entry }
    }

    proof fn lemma_ids(a: Self, b: Self, over: Self, id: CDDAIdentifier) {
        assert(id_texts(seq![id]) =~= seq![id@]);
    }

    fn ids(&self) -> (r: &MeabyVec<CDDAIdentifier>) {
        &self.id
    }

    fn with_id(&self, id: &CDDAIdentifier) -> (r: Self) {
        let mut c = self.duplicate();
        c.id = MeabyVec::Single(id.clone());
        c
    }

    open spec fn spec_copy_from(&self) -> Option<Seq<char>> {
        copy_text(self.copy_from)
    }

    open spec fn spec_extend(&self) -> Option<Seq<Seq<char>>> {
        extend_flags(self.extend)
    }

    open spec fn spec_delete(&self) -> Option<Seq<Seq<char>>> {
        delete_flags(self.delete)
    }

    open spec fn spec_flags(&self) -> Seq<Seq<char>> {
        texts(self.flags@)
    }

    open spec fn agrees(a: Self, b: Self) -> bool {
        &&& id_texts(a.id.values()) == id_texts(b.id.values())
        &&& a.copy_from == b.copy_from
        &&& extend_agree(a.extend, b.extend)
        &&& delete_agree(a.delete, b.delete)
        &&& a.name == b.name
        &&& a.symbol == b.symbol
        &&& opt_mapgens_agree(a.mapgen, b.mapgen)
    }

    /// The base's id and flags, the override's `copy-from`, `extend` and
    /// `delete`, and each other field from the override where it has one,
    /// else from the base.
    open spec fn spec_merge(base: Self, over: Self) -> Self {
        CDDAOvermapTerrainIntermediate {
            source: base.source,
            id: base.id,
            flags: base.flags,
            copy_from: over.copy_from,
            extend: over.extend,
            delete: over.delete,
            name: first_some(over.name, base.name),
            symbol: first_some(over.symbol, base.symbol),
            mapgen: first_some(over.mapgen, base.mapgen),
        }
    }

    proof fn lemma_agrees(a: Self, b: Self, c: Self) {
    }

    proof fn lemma_merge_agrees(b1: Self, b2: Self, over: Self) {
    }

    fn merge(base: &Self, override_: &Self) -> (r: Self) {
        CDDAOvermapTerrainIntermediate {
            source: clone_opt_string(&base.source),
            id: clone_ids(&base.id),
            flags: clone_flag_list(&base.flags),
            copy_from: clone_opt_id(&override_.copy_from),
            extend: clone_extend(&override_.extend),
            delete: clone_delete(&override_.delete),
            name: first_cdda_string(&override_.name, &base.name),
            symbol: if override_.symbol.is_some() {
                override_.symbol
            } else {
                base.symbol
            },
            mapgen: if override_.mapgen.is_some() {
                clone_opt_mapgens(&override_.mapgen)
            } else {
                clone_opt_mapgens(&base.mapgen)
            },
        }
    }

    fn copy_from(&self) -> (r: Option<&CDDAIdentifier>) {
        copy_ref(&self.copy_from)
    }

    fn extend(&self) -> (r: Option<&CDDAExtendOp>) {
        extend_ref(&self.extend)
    }

    fn delete(&self) -> (r: Option<&CDDADeleteOp>) {
        delete_ref(&self.delete)
    }

    fn flags(&self) -> (r: &Vec<String>) {
        &self.flags
    }

    fn set_flags(&mut self, flags: Vec<String>) {
        self.flags = flags;
    }

    open spec fn spec_source(&self) -> Option<Seq<char>> {
        opt_text(self.source)
    }

    fn set_source(&mut self, path: &String) {
        self.source = Some(path.clone());
    }

    fn duplicate(&self) -> (r: Self) {
        CDDAOvermapTerrainIntermediate {
            source: clone_opt_string(&self.source),
            id: clone_ids(&self.id),
            flags: clone_flag_list(&self.flags),
            copy_from: clone_opt_id(&self.copy_from),
            extend: clone_extend(&self.extend),
            delete: clone_delete(&self.delete),
            name: clone_opt_cdda_string(&self.name),
            symbol: self.symbol,
            mapgen: clone_opt_mapgens(&self.mapgen),
        }
    }
}

impl CDDAOvermapTerrainIntermediate {
    /// The overmap terrain of an entry with exactly one id.
    pub fn into_overmap_terrain(self) -> (r: CDDAOvermapTerrain)
        requires
            self.id.values().len() == 1,
        ensures
            r.id == self.id.values()[0],
            r.flags == self.flags,
            r.name == self.name,
            r.symbol == self.symbol,
            r.mapgen == self.mapgen,
    {
        let mut ids = self.id.into_vec();
        let id = ids.remove(0);
        CDDAOvermapTerrain { id, name: self.name, symbol: self.symbol, mapgen: self.mapgen, flags: self.flags }
    }
}

/// A vehicle part entry as the game data writes it: one or more ids, and
/// what it copies from another vehicle part.
pub struct CDDAVehiclePartDataIntermediate {
    pub id: MeabyVec<CDDAIdentifier>,
    pub flags: Vec<String>,
    pub copy_from: Option<CDDAIdentifier>,
    pub extend: Option<CDDAExtendOp>,
    pub delete: Option<CDDADeleteOp>,
    pub looks_like: Option<CDDAIdentifier>,
    pub name: Option<CDDAString>,
    pub location: Option<String>,
    pub source: Option<String>,
}

impl ImportCDDAObject for CDDAVehiclePartDataIntermediate {
    open spec fn spec_ids(&self) -> Seq<Seq<char>> {
        id_texts(self.id.values())
    }

    open spec fn spec_with_id(entry: Self, id: CDDAIdentifier) -> Self {
        CDDAVehiclePartDataIntermediate { id: MeabyVec::Single(id), ..entry }
    }

    proof fn lemma_ids(a: Self, b: Self, over: Self, id: CDDAIdentifier) {
        assert(id_texts(seq![id]) =~= seq![id@]);
    }

    fn ids(&self) -> (r: &MeabyVec<CDDAIdentifier>) {
        &self.id
    }

    fn with_id(&self, id: &CDDAIdentifier) -> (r: Self) {
        let mut c = self.duplicate();
        c.id = MeabyVec::Single(id.clone());
        c
    }

    open spec fn spec_copy_from(&self) -> Option<Seq<char>> {
        copy_text(self.copy_from)
    }

    open spec fn spec_extend(&self) -> Option<Seq<Seq<char>>> {
        extend_flags(self.extend)
    }

    open spec fn spec_delete(&self) -> Option<Seq<Seq<char>>> {
        delete_flags(self.delete)
    }

    open spec fn spec_flags(&self) -> Seq<Seq<char>> {
        texts(self.flags@)
    }

    open spec fn agrees(a: Self, b: Self) -> bool {
        &&& id_texts(a.id.values()) == id_texts(b.id.values())
        &&& a.copy_from == b.copy_from
        &&& extend_agree(a.extend, b.extend)
        &&& delete_agree(a.delete, b.delete)
        &&& a.looks_like == b.looks_like
        &&& a.name == b.name
        &&& opt_text(a.location) == opt_text(b.location)
    }

    /// The base's id and flags, the override's `copy-from`, `extend` and
    /// `delete`, and each other field from the override where it has one,
    /// else from the base.
    open spec fn spec_merge(base: Self, over: Self) -> Self {
        CDDAVehiclePartDataIntermediate {
            source: base.source,
            id: base.id,
            flags: base.flags,
            copy_from: over.copy_from,
            extend: over.extend,
            delete: over.delete,
            looks_like: first_some(over.looks_like, base.looks_like),
            name: first_some(over.name, base.name),
            location: first_some(over.location, base.location),
        }
    }

    proof fn lemma_agrees(a: Self, b: Self, c: Self) {
    }

    proof fn lemma_merge_agrees(b1: Self, b2: Self, over: Self) {
    }

    fn merge(base: &Self, override_: &Self) -> (r: Self) {
        CDDAVehiclePartDataIntermediate {
            source: clone_opt_string(&base.source),
            id: clone_ids(&base.id),
            flags: clone_flag_list(&base.flags),
            copy_from: clone_opt_id(&override_.copy_from),
            extend: clone_extend(&override_.extend),
            delete: clone_delete(&override_.delete),
            looks_like: first_id(&override_.looks_like, &base.looks_like),
            name: first_cdda_string(&override_.name, &base.name),
            location: if override_.location.is_some() {
                clone_opt_string(&override_.location)
            } else {
                clone_opt_string(&base.location)
            },
        }
    }

    fn copy_from(&self) -> (r: Option<&CDDAIdentifier>) {
        copy_ref(&self.copy_from)
    }

    fn extend(&self) -> (r: Option<&CDDAExtendOp>) {
        extend_ref(&self.extend)
    }

    fn delete(&self) -> (r: Option<&CDDADeleteOp>) {
        delete_ref(&self.delete)
    }

    fn flags(&self) -> (r: &Vec<String>) {
        &self.flags
    }

    fn set_flags(&mut self, flags: Vec<String>) {
        self.flags = flags;
    }

    open spec fn spec_source(&self) -> Option<Seq<char>> {
        opt_text(self.source)
    }

    fn set_source(&mut self, path: &String) {
        self.source = Some(path.clone());
    }

    fn duplicate(&self) -> (r: Self) {
        CDDAVehiclePartDataIntermediate {
            source: clone_opt_string(&self.source),
            id: clone_ids(&self.id),
            flags: clone_flag_list(&self.flags),
            copy_from: clone_opt_id(&self.copy_from),
            extend: clone_extend(&self.extend),
            delete: clone_delete(&self.delete),
            looks_like: clone_opt_id(&self.looks_like),
            name: clone_opt_cdda_string(&self.name),
            location: clone_opt_string(&self.location),
        }
    }
}

impl CDDAVehiclePartDataIntermediate {
    /// The vehicle part of an entry with exactly one id.
    pub fn into_vehicle_part(self) -> (r: CDDAVehiclePart)
        requires
            self.id.values().len() == 1,
        ensures
            r.id == self.id.values()[0],
            r.flags == self.flags,
            r.looks_like == self.looks_like,
            r.name == self.name,
            r.location == self.location,
    {
        let mut ids = self.id.into_vec();
        let id = ids.remove(0);
        CDDAVehiclePart { id, looks_like: self.looks_like, name: self.name, flags: self.flags, location: self.location }
    }
}

/// An overmap location entry as the game data writes it: one or more ids, and what it
/// copies from another overmap location.
pub struct CDDAOvermapLocationIntermediate {
    pub id: MeabyVec<CDDAIdentifier>,
    pub flags: Vec<String>,
    pub copy_from: Option<CDDAIdentifier>,
    pub extend: Option<CDDAExtendOp>,
    pub delete: Option<CDDADeleteOp>,
    pub terrains: Vec<CDDAIdentifier>,
    pub source: Option<String>,
}

impl ImportCDDAObject for CDDAOvermapLocationIntermediate {
    open spec fn spec_ids(&self) -> Seq<Seq<char>> {
        id_texts(self.id.values())
    }

    open spec fn spec_with_id(entry: Self, id: CDDAIdentifier) -> Self {
        CDDAOvermapLocationIntermediate { id: MeabyVec::Single(id), ..entry }
    }

    proof fn lemma_ids(a: Self, b: Self, over: Self, id: CDDAIdentifier) {
        assert(id_texts(seq![id]) =~= seq![id@]);
    }

    fn ids(&self) -> (r: &MeabyVec<CDDAIdentifier>) {
        &self.id
    }

    fn with_id(&self, id: &CDDAIdentifier) -> (r: Self) {
        let mut c = self.duplicate();
        c.id = MeabyVec::Single(id.clone());
        c
    }

    open spec fn spec_copy_from(&self) -> Option<Seq<char>> {
        copy_text(self.copy_from)
    }

    open spec fn spec_extend(&self) -> Option<Seq<Seq<char>>> {
        extend_flags(self.extend)
    }

    open spec fn spec_delete(&self) -> Option<Seq<Seq<char>>> {
        delete_flags(self.delete)
    }

    open spec fn spec_flags(&self) -> Seq<Seq<char>> {
        texts(self.flags@)
    }

    open spec fn agrees(a: Self, b: Self) -> bool {
        &&& id_texts(a.id.values()) == id_texts(b.id.values())
        &&& a.copy_from == b.copy_from
        &&& extend_agree(a.extend, b.extend)
        &&& delete_agree(a.delete, b.delete)
        &&& id_texts(a.terrains@) == id_texts(b.terrains@)
    }

    /// The base's id and flags, the override's `copy-from`, `extend` and
    /// `delete`, each optional field from the override where it has one,
    /// else from the base, and each other field from the override.
    open spec fn spec_merge(base: Self, over: Self) -> Self {
        CDDAOvermapLocationIntermediate {
            source: base.source,
            id: base.id,
            flags: base.flags,
            copy_from: over.copy_from,
            extend: over.extend,
            delete: over.delete,
            terrains: over.terrains,
        }
    }

    proof fn lemma_agrees(a: Self, b: Self, c: Self) {
    }

    proof fn lemma_merge_agrees(b1: Self, b2: Self, over: Self) {
    }

    fn merge(base: &Self, override_: &Self) -> (r: Self) {
        CDDAOvermapLocationIntermediate {
            source: clone_opt_string(&base.source),
            id: clone_ids(&base.id),
            flags: clone_flag_list(&base.flags),
            copy_from: clone_opt_id(&override_.copy_from),
            extend: clone_extend(&override_.extend),
            delete: clone_delete(&override_.delete),
            terrains: clone_id_vec(&override_.terrains),
        }
    }

    fn copy_from(&self) -> (r: Option<&CDDAIdentifier>) {
        copy_ref(&self.copy_from)
    }

    fn extend(&self) -> (r: Option<&CDDAExtendOp>) {
        extend_ref(&self.extend)
    }

    fn delete(&self) -> (r: Option<&CDDADeleteOp>) {
        delete_ref(&self.delete)
    }

    fn flags(&self) -> (r: &Vec<String>) {
        &self.flags
    }

    fn set_flags(&mut self, flags: Vec<String>) {
        self.flags = flags;
    }

    open spec fn spec_source(&self) -> Option<Seq<char>> {
        opt_text(self.source)
    }

    fn set_source(&mut self, path: &String) {
        self.source = Some(path.clone());
    }

    fn duplicate(&self) -> (r: Self) {
        CDDAOvermapLocationIntermediate {
            source: clone_opt_string(&self.source),
            id: clone_ids(&self.id),
            flags: clone_flag_list(&self.flags),
            copy_from: clone_opt_id(&self.copy_from),
            extend: clone_extend(&self.extend),
            delete: clone_delete(&self.delete),
            terrains: clone_id_vec(&self.terrains),
        }
    }
}

impl CDDAOvermapLocationIntermediate {
    /// The overmap location of an entry with exactly one id.
    pub fn into_overmap_location(self) -> (r: CDDAOvermapLocation)
        requires
            self.id.values().len() == 1,
        ensures
            r.id == self.id.values()[0],
            r.flags == self.flags,
            r.terrains == self.terrains,
    {
        let mut ids = self.id.into_vec();
        let id = ids.remove(0);
        CDDAOvermapLocation { id, flags: self.flags, terrains: self.terrains }
    }
}

/// An overmap special entry as the game data writes it: one or more ids, and what it
/// copies from another overmap special.
pub struct CDDAOvermapSpecialIntermediate {
    pub id: MeabyVec<CDDAIdentifier>,
    pub flags: Vec<String>,
    pub copy_from: Option<CDDAIdentifier>,
    pub extend: Option<CDDAExtendOp>,
    pub delete: Option<CDDADeleteOp>,
    pub ty: OvermapSpecialSubType,
    pub source: Option<String>,
}

impl ImportCDDAObject for CDDAOvermapSpecialIntermediate {
    open spec fn spec_ids(&self) -> Seq<Seq<char>> {
        id_texts(self.id.values())
    }

    open spec fn spec_with_id(entry: Self, id: CDDAIdentifier) -> Self {
        CDDAOvermapSpecialIntermediate { id: MeabyVec::Single(id), ..entry }
    }

    proof fn lemma_ids(a: Self, b: Self, over: Self, id: CDDAIdentifier) {
        assert(id_texts(seq![id]) =~= seq![id@]);
    }

    fn ids(&self) -> (r: &MeabyVec<CDDAIdentifier>) {
        &self.id
    }

    fn with_id(&self, id: &CDDAIdentifier) -> (r: Self) {
        let mut c = self.duplicate();
        c.id = MeabyVec::Single(id.clone());
        c
    }

    open spec fn spec_copy_from(&self) -> Option<Seq<char>> {
        copy_text(self.copy_from)
    }

    open spec fn spec_extend(&self) -> Option<Seq<Seq<char>>> {
        extend_flags(self.extend)
    }

    open spec fn spec_delete(&self) -> Option<Seq<Seq<char>>> {
        delete_flags(self.delete)
    }

    open spec fn spec_flags(&self) -> Seq<Seq<char>> {
        texts(self.flags@)
    }

    open spec fn agrees(a: Self, b: Self) -> bool {
        &&& id_texts(a.id.values()) == id_texts(b.id.values())
        &&& a.copy_from == b.copy_from
        &&& extend_agree(a.extend, b.extend)
        &&& delete_agree(a.delete, b.delete)
        &&& special_ty_view(a.ty) == special_ty_view(b.ty)
    }

    /// The base's id and flags, the override's `copy-from`, `extend` and
    /// `delete`, each optional field from the override where it has one,
    /// else from the base, and each other field from the override.
    open spec fn spec_merge(base: Self, over: Self) -> Self {
        CDDAOvermapSpecialIntermediate {
            source: base.source,
            id: base.id,
            flags: base.flags,
            copy_from: over.copy_from,
            extend: over.extend,
            delete: over.delete,
            ty: over.ty,
        }
    }

    proof fn lemma_agrees(a: Self, b: Self, c: Self) {
    }

    proof fn lemma_merge_agrees(b1: Self, b2: Self, over: Self) {
    }

    fn merge(base: &Self, override_: &Self) -> (r: Self) {
        CDDAOvermapSpecialIntermediate {
            source: clone_opt_string(&base.source),
            id: clone_ids(&base.id),
            flags: clone_flag_list(&base.flags),
            copy_from: clone_opt_id(&override_.copy_from),
            extend: clone_extend(&override_.extend),
            delete: clone_delete(&override_.delete),
            ty: clone_special_ty(&override_.ty),
        }
    }

    fn copy_from(&self) -> (r: Option<&CDDAIdentifier>) {
        copy_ref(&self.copy_from)
    }

    fn extend(&self) -> (r: Option<&CDDAExtendOp>) {
        extend_ref(&self.extend)
    }

    fn delete(&self) -> (r: Option<&CDDADeleteOp>) {
        delete_ref(&self.delete)
    }

    fn flags(&self) -> (r: &Vec<String>) {
        &self.flags
    }

    fn set_flags(&mut self, flags: Vec<String>) {
        self.flags = flags;
    }

    open spec fn spec_source(&self) -> Option<Seq<char>> {
        opt_text(self.source)
    }

    fn set_source(&mut self, path: &String) {
        self.source = Some(path.clone());
    }

    fn duplicate(&self) -> (r: Self) {
        CDDAOvermapSpecialIntermediate {
            source: clone_opt_string(&self.source),
            id: clone_ids(&self.id),
            flags: clone_flag_list(&self.flags),
            copy_from: clone_opt_id(&self.copy_from),
            extend: clone_extend(&self.extend),
            delete: clone_delete(&self.delete),
            ty: clone_special_ty(&self.ty),
        }
    }
}

impl CDDAOvermapSpecialIntermediate {
    /// The overmap special of an entry with exactly one id.
    pub fn into_overmap_special(self) -> (r: CDDAOvermapSpecial)
        requires
            self.id.values().len() == 1,
        ensures
            r.id == self.id.values()[0],
            r.flags == self.flags,
            r.ty == self.ty,
    {
        let mut ids = self.id.into_vec();
        let id = ids.remove(0);
        CDDAOvermapSpecial { id, flags: self.flags, ty: self.ty }
    }
}

/// A vehicle entry as the game data writes it: one or more ids, and what it
/// copies from another vehicle.
pub struct CDDAVehicleIntermediate {
    pub id: MeabyVec<CDDAIdentifier>,
    pub flags: Vec<String>,
    pub copy_from: Option<CDDAIdentifier>,
    pub extend: Option<CDDAExtendOp>,
    pub delete: Option<CDDADeleteOp>,
    pub name: Option<CDDAString>,
    pub parts: Vec<VehiclePartPlacement>,
    pub source: Option<String>,
}

impl ImportCDDAObject for CDDAVehicleIntermediate {
    open spec fn spec_ids(&self) -> Seq<Seq<char>> {
        id_texts(self.id.values())
    }

    open spec fn spec_with_id(entry: Self, id: CDDAIdentifier) -> Self {
        CDDAVehicleIntermediate { id: MeabyVec::Single(id), ..entry }
    }

    proof fn lemma_ids(a: Self, b: Self, over: Self, id: CDDAIdentifier) {
        assert(id_texts(seq![id]) =~= seq![id@]);
    }

    fn ids(&self) -> (r: &MeabyVec<CDDAIdentifier>) {
        &self.id
    }

    fn with_id(&self, id: &CDDAIdentifier) -> (r: Self) {
        let mut c = self.duplicate();
        c.id = MeabyVec::Single(id.clone());
        c
    }

    open spec fn spec_copy_from(&self) -> Option<Seq<char>> {
        copy_text(self.copy_from)
    }

    open spec fn spec_extend(&self) -> Option<Seq<Seq<char>>> {
        extend_flags(self.extend)
    }

    open spec fn spec_delete(&self) -> Option<Seq<Seq<char>>> {
        delete_flags(self.delete)
    }

    open spec fn spec_flags(&self) -> Seq<Seq<char>> {
        texts(self.flags@)
    }

    open spec fn agrees(a: Self, b: Self) -> bool {
        &&& id_texts(a.id.values()) == id_texts(b.id.values())
        &&& a.copy_from == b.copy_from
        &&& extend_agree(a.extend, b.extend)
        &&& delete_agree(a.delete, b.delete)
        &&& a.name == b.name
        &&& placements_view(a.parts@) == placements_view(b.parts@)
    }

    /// The base's id and flags, the override's `copy-from`, `extend` and
    /// `delete`, each optional field from the override where it has one,
    /// else from the base, and each other field from the override.
    open spec fn spec_merge(base: Self, over: Self) -> Self {
        CDDAVehicleIntermediate {
            source: base.source,
            id: base.id,
            flags: base.flags,
            copy_from: over.copy_from,
            extend: over.extend,
            delete: over.delete,
            name: first_some(over.name, base.name),
            parts: over.parts,
        }
    }

    proof fn lemma_agrees(a: Self, b: Self, c: Self) {
    }

    proof fn lemma_merge_agrees(b1: Self, b2: Self, over: Self) {
    }

    fn merge(base: &Self, override_: &Self) -> (r: Self) {
        CDDAVehicleIntermediate {
            source: clone_opt_string(&base.source),
            id: clone_ids(&base.id),
            flags: clone_flag_list(&base.flags),
            copy_from: clone_opt_id(&override_.copy_from),
            extend: clone_extend(&override_.extend),
            delete: clone_delete(&override_.delete),
            name: first_cdda_string(&override_.name, &base.name),
            parts: clone_placements(&override_.parts),
        }
    }

    fn copy_from(&self) -> (r: Option<&CDDAIdentifier>) {
        copy_ref(&self.copy_from)
    }

    fn extend(&self) -> (r: Option<&CDDAExtendOp>) {
        extend_ref(&self.extend)
    }

    fn delete(&self) -> (r: Option<&CDDADeleteOp>) {
        delete_ref(&self.delete)
    }

    fn flags(&self) -> (r: &Vec<String>) {
        &self.flags
    }

    fn set_flags(&mut self, flags: Vec<String>) {
        self.flags = flags;
    }

    open spec fn spec_source(&self) -> Option<Seq<char>> {
        opt_text(self.source)
    }

    fn set_source(&mut self, path: &String) {
        self.source = Some(path.clone());
    }

    fn duplicate(&self) -> (r: Self) {
        CDDAVehicleIntermediate {
            source: clone_opt_string(&self.source),
            id: clone_ids(&self.id),
            flags: clone_flag_list(&self.flags),
            copy_from: clone_opt_id(&self.copy_from),
            extend: clone_extend(&self.extend),
            delete: clone_delete(&self.delete),
            name: clone_opt_cdda_string(&self.name),
            parts: clone_placements(&self.parts),
        }
    }
}

impl CDDAVehicleIntermediate {
    /// The vehicle of an entry with exactly one id.
    pub fn into_vehicle(self) -> (r: CDDAVehicle)
        requires
            self.id.values().len() == 1,
        ensures
            r.id == self.id.values()[0],
            r.flags == self.flags,
            r.name == self.name,
            r.parts == self.parts,
    {
        let mut ids = self.id.into_vec();
        let id = ids.remove(0);
        CDDAVehicle { id, flags: self.flags, name: self.name, parts: self.parts }
    }
}

/// Merging an override onto a base terrain keeps each optional field of
/// the override where it has one, and the base's where it has none;
/// the id stays the base's, the `copy-from` becomes the override's.
pub proof fn law_terrain_merge_keeps_override(base: CDDATerrainIntermediate, over: CDDATerrainIntermediate)
    ensures
        over.name is Some ==> CDDATerrainIntermediate::spec_merge(base, over).name == over.name,
        over.name is None ==> CDDATerrainIntermediate::spec_merge(base, over).name == base.name,
        over.description is Some ==> CDDATerrainIntermediate::spec_merge(base, over).description == over.description,
        over.description is None ==> CDDATerrainIntermediate::spec_merge(base, over).description == base.description,
        over.symbol is Some ==> CDDATerrainIntermediate::spec_merge(base, over).symbol == over.symbol,
        over.symbol is None ==> CDDATerrainIntermediate::spec_merge(base, over).symbol == base.symbol,
        over.looks_like is Some ==> CDDATerrainIntermediate::spec_merge(base, over).looks_like == over.looks_like,
        over.looks_like is None ==> CDDATerrainIntermediate::spec_merge(base, over).looks_like == base.looks_like,
        over.color is Some ==> CDDATerrainIntermediate::spec_merge(base, over).color == over.color,
        over.color is None ==> CDDATerrainIntermediate::spec_merge(base, over).color == base.color,
        over.connect_groups is Some ==> CDDATerrainIntermediate::spec_merge(base, over).connect_groups == over.connect_groups,
        over.connect_groups is None ==> CDDATerrainIntermediate::spec_merge(base, over).connect_groups == base.connect_groups,
        over.connects_to is Some ==> CDDATerrainIntermediate::spec_merge(base, over).connects_to == over.connects_to,
        over.connects_to is None ==> CDDATerrainIntermediate::spec_merge(base, over).connects_to == base.connects_to,
        CDDATerrainIntermediate::spec_merge(base, over).id == base.id,
        CDDATerrainIntermediate::spec_merge(base, over).copy_from == over.copy_from,
{
}

/// Merging an override onto a base furniture keeps each optional field of
/// the override where it has one, and the base's where it has none;
/// the id stays the base's, the `copy-from` becomes the override's.
pub proof fn law_furniture_merge_keeps_override(base: CDDAFurnitureIntermediate, over: CDDAFurnitureIntermediate)
    ensures
        over.name is Some ==> CDDAFurnitureIntermediate::spec_merge(base, over).name == over.name,
        over.name is None ==> CDDAFurnitureIntermediate::spec_merge(base, over).name == base.name,
        over.description is Some ==> CDDAFurnitureIntermediate::spec_merge(base, over).description == over.description,
        over.description is None ==> CDDAFurnitureIntermediate::spec_merge(base, over).description == base.description,
        over.symbol is Some ==> CDDAFurnitureIntermediate::spec_merge(base, over).symbol == over.symbol,
        over.symbol is None ==> CDDAFurnitureIntermediate::spec_merge(base, over).symbol == base.symbol,
        over.looks_like is Some ==> CDDAFurnitureIntermediate::spec_merge(base, over).looks_like == over.looks_like,
        over.looks_like is None ==> CDDAFurnitureIntermediate::spec_merge(base, over).looks_like == base.looks_like,
        over.color is Some ==> CDDAFurnitureIntermediate::spec_merge(base, over).color == over.color,
        over.color is None ==> CDDAFurnitureIntermediate::spec_merge(base, over).color == base.color,
        over.connect_groups is Some ==> CDDAFurnitureIntermediate::spec_merge(base, over).connect_groups == over.connect_groups,
        over.connect_groups is None ==> CDDAFurnitureIntermediate::spec_merge(base, over).connect_groups == base.connect_groups,
        over.connects_to is Some ==> CDDAFurnitureIntermediate::spec_merge(base, over).connects_to == over.connects_to,
        over.connects_to is None ==> CDDAFurnitureIntermediate::spec_merge(base, over).connects_to == base.connects_to,
        CDDAFurnitureIntermediate::spec_merge(base, over).id == base.id,
        CDDAFurnitureIntermediate::spec_merge(base, over).copy_from == over.copy_from,
{
}

/// Merging an override onto a base overmap terrain keeps each optional field of
/// the override where it has one, and the base's where it has none;
/// the id stays the base's, the `copy-from` becomes the override's.
pub proof fn law_overmap_terrain_merge_keeps_override(base: CDDAOvermapTerrainIntermediate, over: CDDAOvermapTerrainIntermediate)
    ensures
        over.name is Some ==> CDDAOvermapTerrainIntermediate::spec_merge(base, over).name == over.name,
        over.name is None ==> CDDAOvermapTerrainIntermediate::spec_merge(base, over).name == base.name,
        over.symbol is Some ==> CDDAOvermapTerrainIntermediate::spec_merge(base, over).symbol == over.symbol,
        over.symbol is None ==> CDDAOvermapTerrainIntermediate::spec_merge(base, over).symbol == base.symbol,
        over.mapgen is Some ==> CDDAOvermapTerrainIntermediate::spec_merge(base, over).mapgen == over.mapgen,
        over.mapgen is None ==> CDDAOvermapTerrainIntermediate::spec_merge(base, over).mapgen == base.mapgen,
        CDDAOvermapTerrainIntermediate::spec_merge(base, over).id == base.id,
        CDDAOvermapTerrainIntermediate::spec_merge(base, over).copy_from == over.copy_from,
{
}

/// Merging an override onto a base vehicle part keeps each optional field of
/// the override where it has one, and the base's where it has none;
/// the id stays the base's, the `copy-from` becomes the override's.
pub proof fn law_vehicle_part_data_merge_keeps_override(base: CDDAVehiclePartDataIntermediate, over: CDDAVehiclePartDataIntermediate)
    ensures
        over.looks_like is Some ==> CDDAVehiclePartDataIntermediate::spec_merge(base, over).looks_like == over.looks_like,
        over.looks_like is None ==> CDDAVehiclePartDataIntermediate::spec_merge(base, over).looks_like == base.looks_like,
        over.name is Some ==> CDDAVehiclePartDataIntermediate::spec_merge(base, over).name == over.name,
        over.name is None ==> CDDAVehiclePartDataIntermediate::spec_merge(base, over).name == base.name,
        over.location is Some ==> CDDAVehiclePartDataIntermediate::spec_merge(base, over).location == over.location,
        over.location is None ==> CDDAVehiclePartDataIntermediate::spec_merge(base, over).location == base.location,
        CDDAVehiclePartDataIntermediate::spec_merge(base, over).id == base.id,
        CDDAVehiclePartDataIntermediate::spec_merge(base, over).copy_from == over.copy_from,
{
}

/// Merging an override onto a base vehicle keeps each optional field of
/// the override where it has one, and the base's where it has none, and takes the override's parts;
/// the id stays the base's, the `copy-from` becomes the override's.
pub proof fn law_vehicle_merge_keeps_override(base: CDDAVehicleIntermediate, over: CDDAVehicleIntermediate)
    ensures
        over.name is Some ==> CDDAVehicleIntermediate::spec_merge(base, over).name == over.name,
        over.name is None ==> CDDAVehicleIntermediate::spec_merge(base, over).name == base.name,
        CDDAVehicleIntermediate::spec_merge(base, over).parts == over.parts,
        CDDAVehicleIntermediate::spec_merge(base, over).id == base.id,
        CDDAVehicleIntermediate::spec_merge(base, over).copy_from == over.copy_from,
{
}

/// Merging an override onto a base monster group takes the override's monsters;
/// the id stays the base's, the `copy-from` becomes the override's.
pub proof fn law_monster_group_merge_keeps_override(base: CDDAMonsterGroupIntermediate, over: CDDAMonsterGroupIntermediate)
    ensures
        CDDAMonsterGroupIntermediate::spec_merge(base, over).monsters == over.monsters,
        CDDAMonsterGroupIntermediate::spec_merge(base, over).id == base.id,
        CDDAMonsterGroupIntermediate::spec_merge(base, over).copy_from == over.copy_from,
{
}

/// Merging an override onto a base overmap location takes the override's terrains;
/// the id stays the base's, the `copy-from` becomes the override's.
pub proof fn law_overmap_location_merge_keeps_override(base: CDDAOvermapLocationIntermediate, over: CDDAOvermapLocationIntermediate)
    ensures
        CDDAOvermapLocationIntermediate::spec_merge(base, over).terrains == over.terrains,
        CDDAOvermapLocationIntermediate::spec_merge(base, over).id == base.id,
        CDDAOvermapLocationIntermediate::spec_merge(base, over).copy_from == over.copy_from,
{
}

/// Merging an override onto a base overmap special takes the override's type;
/// the id stays the base's, the `copy-from` becomes the override's.
pub proof fn law_overmap_special_merge_keeps_override(base: CDDAOvermapSpecialIntermediate, over: CDDAOvermapSpecialIntermediate)
    ensures
        CDDAOvermapSpecialIntermediate::spec_merge(base, over).ty == over.ty,
        CDDAOvermapSpecialIntermediate::spec_merge(base, over).id == base.id,
        CDDAOvermapSpecialIntermediate::spec_merge(base, over).copy_from == over.copy_from,
{
}

/// Entries that agree (as a merge result is held to agree with what
/// merging gives) have the same copied fields: a merged entry holds the
/// name, description, symbol and `looks_like` that merging gives.
pub proof fn law_agreeing_terrains_share_fields(a: CDDATerrainIntermediate, b: CDDATerrainIntermediate)
    requires
        CDDATerrainIntermediate::agrees(a, b),
    ensures
        a.name == b.name,
        a.description == b.description,
        a.symbol == b.symbol,
        a.looks_like == b.looks_like,
        a.copy_from == b.copy_from,
{
}

/// As `law_agreeing_terrains_share_fields`, for furniture.
pub proof fn law_agreeing_furnitures_share_fields(a: CDDAFurnitureIntermediate, b: CDDAFurnitureIntermediate)
    requires
        CDDAFurnitureIntermediate::agrees(a, b),
    ensures
        a.name == b.name,
        a.description == b.description,
        a.symbol == b.symbol,
        a.looks_like == b.looks_like,
        a.copy_from == b.copy_from,
{
}

/// As `law_agreeing_terrains_share_fields`, for overmap terrains.
pub proof fn law_agreeing_overmap_terrains_share_fields(
    a: CDDAOvermapTerrainIntermediate,
    b: CDDAOvermapTerrainIntermediate,
)
    requires
        CDDAOvermapTerrainIntermediate::agrees(a, b),
    ensures
        a.name == b.name,
        a.symbol == b.symbol,
        a.copy_from == b.copy_from,
{
}

/// As `law_agreeing_terrains_share_fields`, for vehicle parts.
pub proof fn law_agreeing_vehicle_parts_share_fields(
    a: CDDAVehiclePartDataIntermediate,
    b: CDDAVehiclePartDataIntermediate,
)
    requires
        CDDAVehiclePartDataIntermediate::agrees(a, b),
    ensures
        a.name == b.name,
        a.looks_like == b.looks_like,
        a.copy_from == b.copy_from,
{
}

} // verus!
