use vstd::prelude::*;
use crate::number_or_range::NumberOrRange;
use crate::types::{reverse_vec, CDDAIdentifier, MeabyVec, Weighted};

verus! {

/// The probability of an item group entry that gives none.
pub const DEFAULT_PROBABILITY: i32 = 100;

/// An item entry of an item group.
pub struct Item {
    pub item: CDDAIdentifier,
    pub probability: i32,
    pub count: Option<NumberOrRange<i32>>,
}

impl Item {
    /// The entry of one item with the default probability and no count.
    pub fn from(value: CDDAIdentifier) -> (r: Item)
        ensures
            r.item == value,
            r.probability == DEFAULT_PROBABILITY,
            r.count is None,
    {
        Item { item: value, probability: DEFAULT_PROBABILITY, count: None }
    }
}

/// A group entry of an item group.
pub struct Group {
    pub group: CDDAIdentifier,
    pub damage: Option<MeabyVec<i32>>,
    pub probability: i32,
}

impl Group {
    /// The entry of one group with the default probability and no damage.
    pub fn from(value: CDDAIdentifier) -> (r: Group)
        ensures
            r.group == value,
            r.probability == DEFAULT_PROBABILITY,
            r.damage is None,
    {
        Group { group: value, damage: None, probability: DEFAULT_PROBABILITY }
    }
}

/// How an item group picks its entries.
#[derive(Debug, Clone, Copy, PartialEq, Eq, Structural)]
pub enum ItemGroupSubtype {
    Collection,
    Distribution,
}

/// An entry of an item group.
pub enum ItemEntry {
    Item(Item),
    Group(Group),
    Distribution { distribution: Vec<ItemEntry>, probability: Option<i32> },
    Collection { collection: Vec<ItemEntry>, probability: Option<i32> },
}

/// An entry of the `items` list of an item group: a plain item identifier,
/// an identifier with a probability, or a full entry.
pub enum EntryItemShortcut {
    NotWeighted(CDDAIdentifier),
    Weighted(Weighted<CDDAIdentifier>),
    Item(Item),
    Group(Group),
    Distribution { distribution: Vec<ItemEntry>, probability: Option<i32> },
    Collection { collection: Vec<ItemEntry>, probability: Option<i32> },
}

/// An entry of the `groups` list of an item group: a plain group identifier,
/// an identifier with a probability, or a full entry.
pub enum EntryGroupShortcut {
    NotWeighted(CDDAIdentifier),
    Weighted(Weighted<CDDAIdentifier>),
    Item(Item),
    Group(Group),
    Distribution { distribution: Vec<ItemEntry>, probability: Option<i32> },
    Collection { collection: Vec<ItemEntry>, probability: Option<i32> },
}

impl EntryItemShortcut {
    /// The full entry: a plain identifier is an item, an identifier with a
    /// probability an item of that probability.
    pub fn into_entry(self) -> (r: ItemEntry)
        ensures
            match self {
                EntryItemShortcut::NotWeighted(nw) => r == ItemEntry::Item(
                    Item { item: nw, probability: DEFAULT_PROBABILITY, count: None },
                ),
                EntryItemShortcut::Weighted(w) => r == ItemEntry::Item(
                    Item { item: w.data, probability: w.weight, count: None },
                ),
                EntryItemShortcut::Item(i) => r == ItemEntry::Item(i),
                EntryItemShortcut::Group(g) => r == ItemEntry::Group(g),
                EntryItemShortcut::Distribution { distribution, probability } => r
                    == ItemEntry::Distribution { distribution, probability },
                EntryItemShortcut::Collection { collection, probability } => r
                    == ItemEntry::Collection { collection, probability },
            },
    {
        match self {
            EntryItemShortcut::NotWeighted(nw) => ItemEntry::Item(Item::from(nw)),
            EntryItemShortcut::Weighted(w) => {
                let mut item = Item::from(w.data);
                item.probability = w.weight;
                ItemEntry::Item(item)
            },
            EntryItemShortcut::Item(i) => ItemEntry::Item(i),
            EntryItemShortcut::Group(g) => ItemEntry::Group(g),
            EntryItemShortcut::Distribution { distribution, probability } => ItemEntry::Distribution {
                distribution,
                probability,
            },
            EntryItemShortcut::Collection { collection, probability } => ItemEntry::Collection {
                collection,
                probability,
            },
        }
    }
}

impl EntryGroupShortcut {
    /// The full entry: a plain identifier is a group, an identifier with a
    /// probability a group of that probability.
    pub fn into_entry(self) -> (r: ItemEntry)
        ensures
            match self {
                EntryGroupShortcut::NotWeighted(nw) => r == ItemEntry::Group(
                    Group { group: nw, damage: None, probability: DEFAULT_PROBABILITY },
                ),
                EntryGroupShortcut::Weighted(w) => r == ItemEntry::Group(
                    Group { group: w.data, damage: None, probability: w.weight },
                ),
                EntryGroupShortcut::Item(i) => r == ItemEntry::Item(i),
                EntryGroupShortcut::Group(g) => r == ItemEntry::Group(g),
                EntryGroupShortcut::Distribution { distribution, probability } => r
                    == ItemEntry::Distribution { distribution, probability },
                EntryGroupShortcut::Collection { collection, probability } => r
                    == ItemEntry::Collection { collection, probability },
            },
    {
        match self {
            EntryGroupShortcut::NotWeighted(nw) => ItemEntry::Group(Group::from(nw)),
            EntryGroupShortcut::Weighted(w) => {
                let mut group = Group::from(w.data);
                group.probability = w.weight;
                ItemEntry::Group(group)
            },
            EntryGroupShortcut::Item(i) => ItemEntry::Item(i),
            EntryGroupShortcut::Group(g) => ItemEntry::Group(g),
            EntryGroupShortcut::Distribution { distribution, probability } => ItemEntry::Distribution {
                distribution,
                probability,
            },
            EntryGroupShortcut::Collection { collection, probability } => ItemEntry::Collection {
                collection,
                probability,
            },
        }
    }
}

pub open spec fn spec_item_entry(e: EntryItemShortcut) -> ItemEntry {
    match e {
        EntryItemShortcut::NotWeighted(nw) => ItemEntry::Item(
            Item { item: nw, probability: DEFAULT_PROBABILITY, count: None },
        ),
        EntryItemShortcut::Weighted(w) => ItemEntry::Item(
            Item { item: w.data, probability: w.weight, count: None },
        ),
        EntryItemShortcut::Item(i) => ItemEntry::Item(i),
        EntryItemShortcut::Group(g) => ItemEntry::Group(g),
        EntryItemShortcut::Distribution { distribution, probability } => ItemEntry::Distribution {
            distribution,
            probability,
        },
        EntryItemShortcut::Collection { collection, probability } => ItemEntry::Collection {
            collection,
            probability,
        },
    }
}

pub open spec fn spec_group_entry(e: EntryGroupShortcut) -> ItemEntry {
    match e {
        EntryGroupShortcut::NotWeighted(nw) => ItemEntry::Group(
            Group { group: nw, damage: None, probability: DEFAULT_PROBABILITY },
        ),
        EntryGroupShortcut::Weighted(w) => ItemEntry::Group(
            Group { group: w.data, damage: None, probability: w.weight },
        ),
        EntryGroupShortcut::Item(i) => ItemEntry::Item(i),
        EntryGroupShortcut::Group(g) => ItemEntry::Group(g),
        EntryGroupShortcut::Distribution { distribution, probability } => ItemEntry::Distribution {
            distribution,
            probability,
        },
        EntryGroupShortcut::Collection { collection, probability } => ItemEntry::Collection {
            collection,
            probability,
        },
    }
}

/// An item group as the game data writes it.
pub struct CDDAItemGroupIntermediate {
    pub id: CDDAIdentifier,
    pub subtype: ItemGroupSubtype,
    pub items: Vec<EntryItemShortcut>,
    pub groups: Vec<EntryGroupShortcut>,
    pub entries: Vec<ItemEntry>,
}

/// An item group written in place of a reference.
pub struct CDDAItemGroupInPlace {
    pub common: CDDAItemGroupCommon,
    pub items: Vec<EntryItemShortcut>,
    pub groups: Vec<EntryGroupShortcut>,
}

pub struct CDDAItemGroupCommon {
    pub entries: Vec<ItemEntry>,
    pub subtype: ItemGroupSubtype,
}

/// An item group with all its entries in full form.
pub struct CDDAItemGroup {
    pub id: CDDAIdentifier,
    pub common: CDDAItemGroupCommon,
}

impl CDDAItemGroupIntermediate {
    /// The group with the `items` entries, then the `groups` entries, then
    /// the full `entries`, in that order.
    pub fn into_group(self) -> (r: CDDAItemGroup)
        ensures
            r.id == self.id,
            r.common.subtype == self.subtype,
            r.common.entries@ == self.items@.map_values(|e: EntryItemShortcut| spec_item_entry(e))
                + self.groups@.map_values(|e: EntryGroupShortcut| spec_group_entry(e)) + self.entries@,
    {
        let ghost items_view = self.items@;
        let ghost groups_view = self.groups@;
        let ghost entries_view = self.entries@;
        let CDDAItemGroupIntermediate { id, subtype, items, groups, entries: extra } = self;
        let mut entries: Vec<ItemEntry> = Vec::new();
        let mut items = reverse_vec(items);
        let mut groups = reverse_vec(groups);
        let n = items.len();
        let mut i: usize = 0;
        while i < n
            invariant
                n == items_view.len(),
                i <= n,
                items@.len() == n - i,
                forall|j: int| 0 <= j < n - i ==> #[trigger] items@[j] == items_view[n - 1 - j],
                entries@ == items_view.subrange(0, i as int).map_values(
                    |e: EntryItemShortcut| spec_item_entry(e),
                ),
            decreases n - i,
        {
            let e = items.pop().unwrap();
            let ghost before = entries@;
            entries.push(e.into_entry());
            i = i + 1;
            assert(entries@ =~= items_view.subrange(0, i as int).map_values(
                |e: EntryItemShortcut| spec_item_entry(e),
            ));
        }
        let ghost after_items = entries@;
        let m = groups.len();
        let mut k: usize = 0;
        while k < m
            invariant
                m == groups_view.len(),
                k <= m,
                groups@.len() == m - k,
                forall|j: int| 0 <= j < m - k ==> #[trigger] groups@[j] == groups_view[m - 1 - j],
                entries@ == after_items + groups_view.subrange(0, k as int).map_values(
                    |e: EntryGroupShortcut| spec_group_entry(e),
                ),
            decreases m - k,
        {
            let e = groups.pop().unwrap();
            entries.push(e.into_entry());
            k = k + 1;
            assert(entries@ =~= after_items + groups_view.subrange(0, k as int).map_values(
                |e: EntryGroupShortcut| spec_group_entry(e),
            ));
        }
        let mut extra = extra;
        entries.append(&mut extra);
        assert(items_view.subrange(0, n as int) =~= items_view);
        assert(groups_view.subrange(0, m as int) =~= groups_view);
        CDDAItemGroup { id, common: CDDAItemGroupCommon { entries, subtype } }
    }
}

} // verus!
