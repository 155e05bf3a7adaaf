use vstd::prelude::*;
use crate::keyed_map::{KeyedMap, MapKey};
use crate::types::{CDDADeleteOp, CDDAExtendOp, CDDAIdentifier, CDDAString, MeabyVec};

verus! {

/// The texts of a list of strings.
pub open spec fn texts(s: Seq<String>) -> Seq<Seq<char>> {
    s.map_values(|x: String| x@)
}

/// The texts of a list of identifiers.
pub open spec fn id_texts(s: Seq<CDDAIdentifier>) -> Seq<Seq<char>> {
    s.map_values(|x: CDDAIdentifier| x@)
}

/// The flags that an `extend` names, if it names any.
pub open spec fn extend_flags(e: Option<CDDAExtendOp>) -> Option<Seq<Seq<char>>> {
    match e {
        Some(op) => match op.flags {
            Some(f) => Some(texts(f@)),
            None => None,
        },
        None => None,
    }
}

/// The flags that a `delete` names, if it names any.
pub open spec fn delete_flags(d: Option<CDDADeleteOp>) -> Option<Seq<Seq<char>>> {
    match d {
        Some(op) => match op.flags {
            Some(f) => Some(texts(f@)),
            None => None,
        },
        None => None,
    }
}

/// The flags that an entry copied from a parent ends with: the parent's
/// flags, then those that `extend` adds, without any that `delete` names.
pub open spec fn copied_flags(
    parent: Seq<Seq<char>>,
    extend: Option<Seq<Seq<char>>>,
    delete: Option<Seq<Seq<char>>>,
) -> Seq<Seq<char>> {
    let extended = match extend {
        Some(e) => parent + e,
        None => parent,
    };
    match delete {
        Some(d) => extended.filter(|f: Seq<char>| !d.contains(f)),
        None => extended,
    }
}

/// Two optional lists of identifiers hold the same identifiers.
pub open spec fn opt_ids_agree(a: Option<MeabyVec<CDDAIdentifier>>, b: Option<MeabyVec<CDDAIdentifier>>) -> bool {
    match (a, b) {
        (None, None) => true,
        (Some(x), Some(y)) => id_texts(x.values()) == id_texts(y.values()),
        _ => false,
    }
}

/// Two optional lists of strings hold the same texts.
pub open spec fn opt_texts_agree(a: Option<MeabyVec<String>>, b: Option<MeabyVec<String>>) -> bool {
    match (a, b) {
        (None, None) => true,
        (Some(x), Some(y)) => texts(x.values()) == texts(y.values()),
        _ => false,
    }
}

/// Two optional `extend` or `delete` lists name the same flags.
pub open spec fn opt_flags_agree(a: Option<Vec<String>>, b: Option<Vec<String>>) -> bool {
    match (a, b) {
        (None, None) => true,
        (Some(x), Some(y)) => texts(x@) == texts(y@),
        _ => false,
    }
}

/// A json entry that can copy another entry of its kind (`copy-from`) and
/// add or remove flags of it (`extend`, `delete`).
pub trait ImportCDDAObject: Sized {
    /// The entry that this one copies.
    spec fn spec_copy_from(&self) -> Option<Seq<char>>;

    /// The flags that this entry adds to those it copies.
    spec fn spec_extend(&self) -> Option<Seq<Seq<char>>>;

    /// The flags that this entry removes from those it copies.
    spec fn spec_delete(&self) -> Option<Seq<Seq<char>>>;

    /// The entry's flags.
    spec fn spec_flags(&self) -> Seq<Seq<char>>;

    /// The ids the entry is written for.
    spec fn spec_ids(&self) -> Seq<Seq<char>>;

    /// The entry with the single id `id` in place of its ids.
    spec fn spec_with_id(entry: Self, id: CDDAIdentifier) -> Self;

    /// Whether two entries hold the same values in every field but their
    /// flags.
    spec fn agrees(a: Self, b: Self) -> bool;

    /// The entry that merging `over` onto `base` gives, flags aside.
    spec fn spec_merge(base: Self, over: Self) -> Self;

    proof fn lemma_agrees(a: Self, b: Self, c: Self)
        ensures
            Self::agrees(a, a),
            Self::agrees(a, b) ==> Self::agrees(b, a),
            Self::agrees(a, b) && Self::agrees(b, c) ==> Self::agrees(a, c),
    ;

    proof fn lemma_ids(a: Self, b: Self, over: Self, id: CDDAIdentifier)
        ensures
            Self::agrees(a, b) ==> a.spec_ids() == b.spec_ids(),
            Self::spec_merge(a, over).spec_ids() == a.spec_ids(),
            Self::spec_with_id(a, id).spec_ids() == seq![id@],
    ;

    proof fn lemma_merge_agrees(b1: Self, b2: Self, over: Self)
        requires
            Self::agrees(b1, b2),
        ensures
            Self::agrees(Self::spec_merge(b1, over), Self::spec_merge(b2, over)),
    ;

    /// Merges `override_` onto `base`: the result keeps the base's id and
    /// flags.
    fn merge(base: &Self, override_: &Self) -> (r: Self)
        ensures
            Self::agrees(r, Self::spec_merge(*base, *override_)),
            r.spec_flags() == base.spec_flags(),
    ;

    fn copy_from(&self) -> (r: Option<&CDDAIdentifier>)
        ensures
            match r {
                Some(c) => self.spec_copy_from() == Some(c@),
                None => self.spec_copy_from() is None,
            },
    ;

    fn extend(&self) -> (r: Option<&CDDAExtendOp>)
        ensures
            extend_flags(match r {
                Some(e) => Some(*e),
                None => None,
            }) == self.spec_extend(),
    ;

    fn delete(&self) -> (r: Option<&CDDADeleteOp>)
        ensures
            delete_flags(match r {
                Some(d) => Some(*d),
                None => None,
            }) == self.spec_delete(),
    ;

    fn flags(&self) -> (r: &Vec<String>)
        ensures
            texts(r@) == self.spec_flags(),
    ;

    fn set_flags(&mut self, flags: Vec<String>)
        ensures
            final(self).spec_flags() == texts(flags@),
            Self::agrees(*final(self), *old(self)),
    ;

    fn ids(&self) -> (r: &MeabyVec<CDDAIdentifier>)
        ensures
            id_texts(r.values()) == self.spec_ids(),
    ;

    /// A copy of the entry for the single id `id`.
    fn with_id(&self, id: &CDDAIdentifier) -> (r: Self)
        ensures
            Self::agrees(r, Self::spec_with_id(*self, *id)),
            r.spec_flags() == self.spec_flags(),
    ;

    /// The json file the entry was read from, where it is known.
    spec fn spec_source(&self) -> Option<Seq<char>>;

    /// Records the json file the entry was read from.
    fn set_source(&mut self, path: &String)
        ensures
            final(self).spec_source() == Some(path@),
            final(self).spec_flags() == old(self).spec_flags(),
            Self::agrees(*final(self), *old(self)),
    ;

    /// A copy of the entry.
    fn duplicate(&self) -> (r: Self)
        ensures
            Self::agrees(r, *self),
            r.spec_flags() == self.spec_flags(),
    ;
}

/// The entry, flags aside, and the flags that copying gives, following
/// `copy-from` for at most `fuel` further steps; `None` when the fuel runs
/// out first.
pub open spec fn spec_copy<T: ImportCDDAObject>(obj: T, all: Map<Seq<char>, T>, fuel: nat) -> Option<
    (T, Seq<Seq<char>>),
>
    decreases fuel,
{
    match obj.spec_copy_from() {
        None => Some((obj, obj.spec_flags())),
        Some(p) => if !all.contains_key(p) {
            Some((obj, obj.spec_flags()))
        } else {
            let parent = all[p];
            let resolved = if parent.spec_copy_from() is Some {
                if fuel == 0 {
                    None
                } else {
                    spec_copy(parent, all, (fuel - 1) as nat)
                }
            } else {
                Some((parent, parent.spec_flags()))
            };
            match resolved {
                None => None,
                Some((pe, pf)) => Some(
                    (T::spec_merge(pe, obj), copied_flags(pf, obj.spec_extend(), obj.spec_delete())),
                ),
            }
        },
    }
}

/// The entry with what it copies filled in: when the entry it copies
/// exists (itself resolved first when it copies another), that entry with
/// the flags extended and deleted, merged with this one; otherwise this
/// entry as it is.
pub fn calculate_copy<T: ImportCDDAObject>(obj: &T, all_intermediate_objects: &KeyedMap<CDDAIdentifier, T>) -> (r: T)
    requires
        exists|fuel: nat| spec_copy(*obj, all_intermediate_objects.map(), fuel) is Some,
    ensures
        forall|fuel: nat| #[trigger]
            spec_copy(*obj, all_intermediate_objects.map(), fuel) is Some ==> {
                let (e, f) = spec_copy(*obj, all_intermediate_objects.map(), fuel)->0;
                T::agrees(r, e) && r.spec_flags() == f
            },
{
    let ghost f0 = choose|fuel: nat| spec_copy(*obj, all_intermediate_objects.map(), fuel) is Some;
    let r = copy_with_fuel(obj, all_intermediate_objects, Ghost(f0));
    proof {
        assert forall|fuel: nat| #[trigger]
            spec_copy(*obj, all_intermediate_objects.map(), fuel) is Some implies {
                let (e, f) = spec_copy(*obj, all_intermediate_objects.map(), fuel)->0;
                T::agrees(r, e) && r.spec_flags() == f
            } by {
            lemma_copy_fuel(*obj, all_intermediate_objects.map(), fuel, f0);
            let ef = spec_copy(*obj, all_intermediate_objects.map(), fuel).unwrap().0;
            let e0 = spec_copy(*obj, all_intermediate_objects.map(), f0).unwrap().0;
            T::lemma_agrees(ef, e0, ef);
            T::lemma_agrees(r, e0, ef);
        }
    }
    r
}

/// Copying gives the same entry with any fuel that suffices.
pub proof fn lemma_copy_fuel<T: ImportCDDAObject>(obj: T, all: Map<Seq<char>, T>, f: nat, g: nat)
    requires
        spec_copy(obj, all, f) is Some,
        spec_copy(obj, all, g) is Some,
    ensures
        T::agrees(spec_copy(obj, all, f).unwrap().0, spec_copy(obj, all, g).unwrap().0),
        spec_copy(obj, all, f).unwrap().1 == spec_copy(obj, all, g).unwrap().1,
    decreases f,
{
    T::lemma_agrees(spec_copy(obj, all, f).unwrap().0, spec_copy(obj, all, g).unwrap().0, obj);
    match obj.spec_copy_from() {
        None => {},
        Some(p) => if all.contains_key(p) {
            let parent = all[p];
            if parent.spec_copy_from() is Some {
                lemma_copy_fuel(parent, all, (f - 1) as nat, (g - 1) as nat);
                T::lemma_merge_agrees(
                    spec_copy(parent, all, (f - 1) as nat).unwrap().0,
                    spec_copy(parent, all, (g - 1) as nat).unwrap().0,
                    obj,
                );
            }
        },
    }
}

/// The texts of a list grow by the text of what is pushed.
proof fn lemma_texts_push(s: Seq<String>, x: String)
    ensures
        texts(s.push(x)) == texts(s).push(x@),
{
    assert(texts(s.push(x)) =~= texts(s).push(x@));
}

/// The flags with those of `extra` appended.
fn extended_flags(flags: &Vec<String>, extra: &Vec<String>) -> (r: Vec<String>)
    ensures
        texts(r@) == texts(flags@) + texts(extra@),
{
    let mut out = clone_flag_list(flags);
    let mut j: usize = 0;
    while j < extra.len()
        invariant
            j <= extra@.len(),
            out@ == flags@ + extra@.take(j as int),
        decreases extra@.len() - j,
    {
        out.push(extra[j].clone());
        proof {
            assert(out@ =~= flags@ + extra@.take(j + 1));
        }
        j = j + 1;
    }
    proof {
        assert(extra@.take(extra@.len() as int) =~= extra@);
        assert(texts(flags@ + extra@) =~= texts(flags@) + texts(extra@));
    }
    out
}

/// Whether `name` is among the flags.
fn names_flag(flags: &Vec<String>, name: &String) -> (r: bool)
    ensures
        r == texts(flags@).contains(name@),
{
    let mut i: usize = 0;
    while i < flags.len()
        invariant
            i <= flags@.len(),
            forall|j: int| 0 <= j < i ==> flags@[j]@ != name@,
        decreases flags@.len() - i,
    {
        if flags[i] == *name {
            proof {
                assert(texts(flags@)[i as int] == name@);
            }
            return true;
        }
        i = i + 1;
    }
    proof {
        if texts(flags@).contains(name@) {
            let k = choose|k: int| 0 <= k < texts(flags@).len() && texts(flags@)[k] == name@;
            assert(flags@[k]@ == name@);
        }
    }
    false
}

/// The flags without those that `removed` names.
fn remaining_flags(flags: &Vec<String>, removed: &Vec<String>) -> (r: Vec<String>)
    ensures
        texts(r@) == texts(flags@).filter(|f: Seq<char>| !texts(removed@).contains(f)),
{
    let ghost d = texts(removed@);
    let ghost pred = |f: Seq<char>| !d.contains(f);
    let mut out: Vec<String> = Vec::new();
    let mut i: usize = 0;
    while i < flags.len()
        invariant
            i <= flags@.len(),
            d == texts(removed@),
            pred == (|f: Seq<char>| !d.contains(f)),
            texts(out@) == texts(flags@).take(i as int).filter(pred),
        decreases flags@.len() - i,
    {
        let named = names_flag(removed, &flags[i]);
        proof {
            let s = texts(flags@).take(i + 1);
            assert(s.drop_last() =~= texts(flags@).take(i as int));
            assert(s.last() == flags@[i as int]@);
        }
        let ghost before = out@;
        if !named {
            out.push(flags[i].clone());
            proof {
                let s = texts(flags@).take(i + 1);
                lemma_texts_push(before, flags@[i as int]);
                assert(pred(s.last()));
                reveal(Seq::filter);
                assert(s.filter(pred) == s.drop_last().filter(pred).push(s.last()));
            }
        } else {
            proof {
                let s = texts(flags@).take(i + 1);
                assert(!pred(s.last()));
                reveal(Seq::filter);
                assert(s.filter(pred) == s.drop_last().filter(pred));
            }
        }
        i = i + 1;
    }
    proof {
        assert(texts(flags@).take(flags@.len() as int) =~= texts(flags@));
    }
    out
}

/// Copying with at most `fuel` further steps along `copy-from`.
fn copy_with_fuel<T: ImportCDDAObject>(obj: &T, all: &KeyedMap<CDDAIdentifier, T>, Ghost(fuel): Ghost<nat>) -> (r: T)
    requires
        spec_copy(*obj, all.map(), fuel) is Some,
    ensures
        T::agrees(r, spec_copy(*obj, all.map(), fuel).unwrap().0),
        r.spec_flags() == spec_copy(*obj, all.map(), fuel).unwrap().1,
    decreases fuel,
{
    proof {
        T::lemma_agrees(*obj, *obj, *obj);
    }
    match obj.copy_from() {
        None => obj.duplicate(),
        Some(pid) => match all.get(pid) {
            None => obj.duplicate(),
            Some(p) => {
                let ghost pe = if p.spec_copy_from() is Some {
                    spec_copy(*p, all.map(), (fuel - 1) as nat).unwrap().0
                } else {
                    *p
                };
                let mut parent = if p.copy_from().is_some() {
                    copy_with_fuel(p, all, Ghost((fuel - 1) as nat))
                } else {
                    proof {
                        T::lemma_agrees(*p, *p, *p);
                    }
                    p.duplicate()
                };
                let ghost parent0 = parent;
                let extended = match obj.extend() {
                    Some(e) => match &e.flags {
                        Some(new_flags) => Some(extended_flags(parent.flags(), new_flags)),
                        None => None,
                    },
                    None => None,
                };
                match extended {
                    Some(f) => parent.set_flags(f),
                    None => {},
                }
                let ghost parent1 = parent;
                let remaining = match obj.delete() {
                    Some(d) => match &d.flags {
                        Some(removed) => Some(remaining_flags(parent.flags(), removed)),
                        None => None,
                    },
                    None => None,
                };
                match remaining {
                    Some(f) => parent.set_flags(f),
                    None => {},
                }
                let r = T::merge(&parent, obj);
                proof {
                    T::lemma_agrees(parent, parent1, parent0);
                    T::lemma_agrees(parent, parent0, pe);
                    T::lemma_merge_agrees(parent, pe, *obj);
                    T::lemma_agrees(r, T::spec_merge(parent, *obj), T::spec_merge(pe, *obj));
                }
                r
            },
        },
    }
}

/// The text of a display string, copied.
pub fn clone_cdda_string(s: &CDDAString) -> (r: CDDAString)
    ensures
        r == *s,
{
    match s {
        CDDAString::String(t) => CDDAString::String(t.clone()),
        CDDAString::StringMap { str } => CDDAString::StringMap { str: str.clone() },
    }
}

pub fn clone_opt_cdda_string(s: &Option<CDDAString>) -> (r: Option<CDDAString>)
    ensures
        r == *s,
{
    match s {
        Some(t) => Some(clone_cdda_string(t)),
        None => None,
    }
}

pub fn clone_opt_id(s: &Option<CDDAIdentifier>) -> (r: Option<CDDAIdentifier>)
    ensures
        r == *s,
{
    match s {
        Some(t) => Some(t.clone()),
        None => None,
    }
}

/// A copy of a list of identifiers.
pub fn clone_ids(m: &MeabyVec<CDDAIdentifier>) -> (r: MeabyVec<CDDAIdentifier>)
    ensures
        id_texts(r.values()) == id_texts(m.values()),
{
    match m {
        MeabyVec::Single(s) => {
            let r = MeabyVec::Single(s.clone());
            proof {
                assert(id_texts(r.values()) =~= id_texts(m.values()));
            }
            r
        },
        MeabyVec::Vec(v) => {
            let mut out: Vec<CDDAIdentifier> = Vec::new();
            let mut i: usize = 0;
            while i < v.len()
                invariant
                    i <= v@.len(),
                    out@ == v@.take(i as int),
                decreases v@.len() - i,
            {
                out.push(v[i].clone());
                proof {
                    assert(out@ =~= v@.take(i + 1));
                }
                i = i + 1;
            }
            proof {
                assert(v@.take(v@.len() as int) =~= v@);
            }
            MeabyVec::Vec(out)
        },
    }
}

pub fn clone_opt_ids(m: &Option<MeabyVec<CDDAIdentifier>>) -> (r: Option<MeabyVec<CDDAIdentifier>>)
    ensures
        opt_ids_agree(r, *m),
{
    match m {
        Some(v) => Some(clone_ids(v)),
        None => None,
    }
}

/// A copy of a list of strings.
pub fn clone_texts(m: &MeabyVec<String>) -> (r: MeabyVec<String>)
    ensures
        texts(r.values()) == texts(m.values()),
{
    match m {
        MeabyVec::Single(s) => {
            let r = MeabyVec::Single(s.clone());
            proof {
                assert(texts(r.values()) =~= texts(m.values()));
            }
            r
        },
        MeabyVec::Vec(v) => {
            let mut out: Vec<String> = Vec::new();
            let mut i: usize = 0;
            while i < v.len()
                invariant
                    i <= v@.len(),
                    out@ == v@.take(i as int),
                decreases v@.len() - i,
            {
                out.push(v[i].clone());
                proof {
                    assert(out@ =~= v@.take(i + 1));
                }
                i = i + 1;
            }
            proof {
                assert(v@.take(v@.len() as int) =~= v@);
            }
            MeabyVec::Vec(out)
        },
    }
}

pub fn clone_opt_texts(m: &Option<MeabyVec<String>>) -> (r: Option<MeabyVec<String>>)
    ensures
        opt_texts_agree(r, *m),
{
    match m {
        Some(v) => Some(clone_texts(v)),
        None => None,
    }
}

/// A copy of a list of strings with the same texts.
pub fn clone_flag_list(v: &Vec<String>) -> (r: Vec<String>)
    ensures
        r@ == v@,
{
    let mut out: Vec<String> = Vec::new();
    let mut i: usize = 0;
    while i < v.len()
        invariant
            i <= v@.len(),
            out@ == v@.take(i as int),
        decreases v@.len() - i,
    {
        out.push(v[i].clone());
        proof {
            assert(out@ =~= v@.take(i + 1));
        }
        i = i + 1;
    }
    proof {
        assert(v@.take(v@.len() as int) =~= v@);
    }
    out
}

pub fn clone_opt_flag_list(v: &Option<Vec<String>>) -> (r: Option<Vec<String>>)
    ensures
        opt_flags_agree(r, *v),
        r is Some <==> v is Some,
        r matches Some(x) ==> x@ == v->0@,
{
    match v {
        Some(x) => Some(clone_flag_list(x)),
        None => None,
    }
}

/// The first of two optional values that is present.
pub open spec fn first_some<T>(a: Option<T>, b: Option<T>) -> Option<T> {
    match a {
        Some(x) => Some(x),
        None => b,
    }
}

/// Two optional `extend` operations name the same flags.
pub open spec fn extend_agree(a: Option<CDDAExtendOp>, b: Option<CDDAExtendOp>) -> bool {
    match (a, b) {
        (None, None) => true,
        (Some(x), Some(y)) => opt_flags_agree(x.flags, y.flags),
        _ => false,
    }
}

/// Two optional `delete` operations name the same flags.
pub open spec fn delete_agree(a: Option<CDDADeleteOp>, b: Option<CDDADeleteOp>) -> bool {
    match (a, b) {
        (None, None) => true,
        (Some(x), Some(y)) => opt_flags_agree(x.flags, y.flags),
        _ => false,
    }
}

pub fn clone_extend(e: &Option<CDDAExtendOp>) -> (r: Option<CDDAExtendOp>)
    ensures
        extend_agree(r, *e),
{
    match e {
        Some(op) => Some(CDDAExtendOp { flags: clone_opt_flag_list(&op.flags) }),
        None => None,
    }
}

pub fn clone_delete(d: &Option<CDDADeleteOp>) -> (r: Option<CDDADeleteOp>)
    ensures
        delete_agree(r, *d),
{
    match d {
        Some(op) => Some(CDDADeleteOp { flags: clone_opt_flag_list(&op.flags) }),
        None => None,
    }
}

pub fn first_cdda_string(a: &Option<CDDAString>, b: &Option<CDDAString>) -> (r: Option<CDDAString>)
    ensures
        r == first_some(*a, *b),
{
    if a.is_some() {
        clone_opt_cdda_string(a)
    } else {
        clone_opt_cdda_string(b)
    }
}

pub fn first_id(a: &Option<CDDAIdentifier>, b: &Option<CDDAIdentifier>) -> (r: Option<CDDAIdentifier>)
    ensures
        r == first_some(*a, *b),
{
    if a.is_some() {
        clone_opt_id(a)
    } else {
        clone_opt_id(b)
    }
}

pub fn first_ids(a: &Option<MeabyVec<CDDAIdentifier>>, b: &Option<MeabyVec<CDDAIdentifier>>) -> (r: Option<
    MeabyVec<CDDAIdentifier>,
>)
    ensures
        opt_ids_agree(r, first_some(*a, *b)),
{
    if a.is_some() {
        clone_opt_ids(a)
    } else {
        clone_opt_ids(b)
    }
}

pub fn first_texts(a: &Option<MeabyVec<String>>, b: &Option<MeabyVec<String>>) -> (r: Option<MeabyVec<String>>)
    ensures
        opt_texts_agree(r, first_some(*a, *b)),
{
    if a.is_some() {
        clone_opt_texts(a)
    } else {
        clone_opt_texts(b)
    }
}


/// Every entry of the map is written for one id alone.
pub open spec fn all_single<T: ImportCDDAObject>(all: Map<Seq<char>, T>) -> bool {
    forall|k: Seq<char>| #[trigger] all.contains_key(k) ==> all[k].spec_ids().len() == 1
}

/// Following `copy-from` ends for every entry of the map.
pub open spec fn all_copies_end<T: ImportCDDAObject>(all: Map<Seq<char>, T>) -> bool {
    forall|k: Seq<char>| #[trigger] all.contains_key(k) ==> exists|fuel: nat| spec_copy(all[k], all, fuel) is Some
}

/// `v` is the entry stored under `k` with its copy resolved.
pub open spec fn resolved<T: ImportCDDAObject>(all: Map<Seq<char>, T>, k: Seq<char>, v: T) -> bool {
    forall|fuel: nat| #[trigger]
        spec_copy(all[k], all, fuel) is Some ==> {
            let (e, f) = spec_copy(all[k], all, fuel)->0;
            T::agrees(v, e) && v.spec_flags() == f
        }
}

/// Copying keeps an entry written for one id alone when all are.
pub proof fn lemma_copy_single<T: ImportCDDAObject>(obj: T, all: Map<Seq<char>, T>, fuel: nat)
    requires
        obj.spec_ids().len() == 1,
        all_single(all),
        spec_copy(obj, all, fuel) is Some,
    ensures
        spec_copy(obj, all, fuel).unwrap().0.spec_ids().len() == 1,
    decreases fuel,
{
    match obj.spec_copy_from() {
        None => {},
        Some(p) => if all.contains_key(p) {
            let parent = all[p];
            let pe = if parent.spec_copy_from() is Some {
                lemma_copy_single(parent, all, (fuel - 1) as nat);
                spec_copy(parent, all, (fuel - 1) as nat).unwrap().0
            } else {
                parent
            };
            T::lemma_ids(pe, pe, obj, arbitrary());
        },
    }
}

/// The entries of the map with their copies resolved, in the map's order.
pub fn resolved_entries<T: ImportCDDAObject>(all: &KeyedMap<CDDAIdentifier, T>) -> (r: Vec<(CDDAIdentifier, T)>)
    requires
        all_single(all.map()),
        all_copies_end(all.map()),
    ensures
        forall|k: Seq<char>| #[trigger]
            all.map().contains_key(k) <==> exists|i: int| 0 <= i < r@.len() && #[trigger] r@[i].0@ == k,
        forall|i: int| #![trigger r@[i]]
            0 <= i < r@.len() ==> all.map().contains_key(r@[i].0@) && resolved(all.map(), r@[i].0@, r@[i].1)
                && r@[i].1.spec_ids().len() == 1,
{
    all.lemma_entries_cover();
    let n = all.len();
    let mut out: Vec<(CDDAIdentifier, T)> = Vec::new();
    let mut i: usize = 0;
    while i < n
        invariant
            n == all.entries().len(),
            i <= n,
            out@.len() == i,
            all_single(all.map()),
            all_copies_end(all.map()),
            forall|j: int| #![trigger out@[j]]
                0 <= j < i ==> out@[j].0@ == all.entries()[j].0@ && all.map().contains_key(out@[j].0@) && resolved(
                    all.map(),
                    out@[j].0@,
                    out@[j].1,
                ) && out@[j].1.spec_ids().len() == 1,
        decreases n - i,
    {
        let k = all.key_at(i);
        let v = all.value_at(i);
        let c = calculate_copy(v, all);
        proof {
            let f = choose|fuel: nat| spec_copy(*v, all.map(), fuel) is Some;
            lemma_copy_single(*v, all.map(), f);
            T::lemma_ids(c, spec_copy(*v, all.map(), f).unwrap().0, c, arbitrary());
        }
        out.push((k.clone(), c));
        i = i + 1;
    }
    proof {
        assert forall|k: Seq<char>| #[trigger]
            all.map().contains_key(k) <==> exists|i: int| 0 <= i < out@.len() && #[trigger] out@[i].0@ == k by {
            if all.map().contains_key(k) {
                let j = choose|j: int| 0 <= j < all.entries().len() && #[trigger] all.entries()[j].0.key() == k;
                assert(out@[j].0@ == k);
            }
        }
    }
    out
}

/// Whether following `copy-from` from `obj` ends within `steps` steps.
fn chain_ends<T: ImportCDDAObject>(obj: &T, all: &KeyedMap<CDDAIdentifier, T>, steps: usize) -> (r: bool)
    ensures
        r ==> spec_copy(*obj, all.map(), steps as nat) is Some,
    decreases steps,
{
    match obj.copy_from() {
        None => true,
        Some(pid) => match all.get(pid) {
            None => true,
            Some(p) => {
                if p.copy_from().is_none() {
                    true
                } else if steps == 0 {
                    false
                } else {
                    chain_ends(p, all, steps - 1)
                }
            },
        },
    }
}

/// Whether the `copy-from` chain of the entry under `k` ends.
pub open spec fn copy_ends<T: ImportCDDAObject>(all: Map<Seq<char>, T>, k: Seq<char>) -> bool {
    exists|fuel: nat| spec_copy(all[k], all, fuel) is Some
}

/// Whether the `copy-from` chain of every entry of `all` ends within as
/// many steps as `all` has entries; `false` where a chain runs longer.
pub fn copies_end<T: ImportCDDAObject>(all: &KeyedMap<CDDAIdentifier, T>) -> (r: bool)
    ensures
        r ==> all_copies_end(all.map()),
{
    let n = all.len();
    all.lemma_entries_cover();
    let mut i: usize = 0;
    while i < n
        invariant
            n == all.entries().len(),
            i <= n,
            forall|j: int| 0 <= j < i ==> #[trigger] copy_ends(all.map(), all.entries()[j].0.key()),
        decreases n - i,
    {
        let v = all.value_at(i);
        if !chain_ends(v, all, n) {
            return false;
        }
        proof {
            assert(spec_copy(all.map()[all.entries()[i as int].0.key()], all.map(), n as nat) is Some);
            assert(copy_ends(all.map(), all.entries()[i as int].0.key()));
        }
        i = i + 1;
    }
    proof {
        assert forall|k: Seq<char>| #[trigger] all.map().contains_key(k) implies exists|fuel: nat|
            spec_copy(all.map()[k], all.map(), fuel) is Some by {
            let j = choose|j: int| 0 <= j < all.entries().len() && #[trigger] all.entries()[j].0.key() == k;
            assert(copy_ends(all.map(), all.entries()[j].0.key()));
        }
    }
    true
}

} // verus!
