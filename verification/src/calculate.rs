use vstd::prelude::*;
use indexmap::IndexMap;
use crate::cdda_json::DeserializedCDDAJsonData;
use crate::identifier::{
    inner_outcome, may_pick, param_value, params_view, switch_key, value_may_fail, weights_of, GetIdentifierError, GetRandomError,
    WeightedIndexError,
};
use crate::keyed_map::{KeyedMap, MapKey};
use crate::map::MapGen;
use crate::palettes::{CDDAPalette, Parameter};
use crate::parameters::{
    entry_insert, entry_lookup, entry_position, lemma_entry_position_bounds, new_calculated_parameters,
    parameter_entries, parameter_pairs, set_calculated_parameter,
};
use crate::random::weights_valid;
use crate::types::{CDDADistributionInner, CDDAIdentifier, Distribution, MapGenValue, ParameterIdentifier};

verus! {

pub enum CalculateParametersError {
    MissingPalette(String),
    GetRandomError(GetRandomError),
    GetIdentifierError(GetIdentifierError),
}

/// The identifiers of a distribution, as texts.
pub open spec fn dist_members(d: Distribution) -> Set<Seq<char>> {
    Set::new(
        |s: Seq<char>|
            exists|i: int| 0 <= i < d.distribution.values().len() && #[trigger] d.distribution.values()[i].spec_data()@ == s,
    )
}

/// The values a parameter named `name` may take: an identifier of the
/// default of a parameter of that name, among `own` or of a palette of `all`.
pub open spec fn param_choices(
    all: Map<Seq<char>, CDDAPalette>,
    own: KeyedMap<ParameterIdentifier, Parameter>,
    name: Seq<char>,
) -> Set<Seq<char>> {
    Set::new(
        |s: Seq<char>|
            (own.map().contains_key(name) && dist_members(own.map()[name].default).contains(s)) || exists|k: Seq<char>|
                #[trigger] all.contains_key(k) && all[k].parameters.map().contains_key(name) && dist_members(
                    all[k].parameters.map()[name].default,
                ).contains(s),
    )
}

/// The values of the cases of a switch.
pub open spec fn case_values(cases: KeyedMap<CDDAIdentifier, CDDAIdentifier>) -> Set<Seq<char>> {
    Set::new(|s: Seq<char>| exists|k: Seq<char>| #[trigger] cases.map().contains_key(k) && cases.map()[k]@ == s)
}

pub open spec fn opt_text_set(o: Option<CDDAIdentifier>) -> Set<Seq<char>> {
    match o {
        Some(x) => set![x@],
        None => Set::empty(),
    }
}

/// The identifiers that an entry of a distribution may resolve to.
pub open spec fn inner_mentions(
    v: CDDADistributionInner,
    all: Map<Seq<char>, CDDAPalette>,
    own: KeyedMap<ParameterIdentifier, Parameter>,
) -> Set<Seq<char>> {
    match v {
        CDDADistributionInner::String(s) => set![s@],
        CDDADistributionInner::Param { param, fallback } => param_choices(all, own, param@).union(
            opt_text_set(fallback),
        ),
        CDDADistributionInner::Switch { cases, .. } => case_values(cases),
        CDDADistributionInner::Distribution(d) => dist_members(d),
    }
}

/// The identifiers that a mapgen value may resolve to, when the calculated
/// parameters hold only values their parameters may take.
pub open spec fn value_mentions(
    v: MapGenValue,
    all: Map<Seq<char>, CDDAPalette>,
    own: KeyedMap<ParameterIdentifier, Parameter>,
) -> Set<Seq<char>> {
    match v {
        MapGenValue::String(s) => set![s@],
        MapGenValue::Param { param, fallback } => param_choices(all, own, param@).union(opt_text_set(fallback)),
        MapGenValue::Switch { cases, .. } => case_values(cases),
        MapGenValue::Distribution(d) => Set::new(
            |s: Seq<char>|
                exists|i: int|
                    0 <= i < d.values().len() && #[trigger] inner_mentions(d.values()[i].spec_data(), all, own).contains(s),
        ),
    }
}

/// Every calculated parameter holds a value its parameter may take.
pub open spec fn params_from(
    params: Seq<(Seq<char>, Seq<char>)>,
    all: Map<Seq<char>, CDDAPalette>,
    own: KeyedMap<ParameterIdentifier, Parameter>,
) -> bool {
    forall|i: int| 0 <= i < params.len() ==> param_choices(all, own, params[i].0).contains(#[trigger] params[i].1)
}

/// Whether following the palettes that `palettes` may name ends within
/// `fuel` steps: each palette that a value may name and that exists ends
/// in turn.
pub open spec fn palettes_end(
    palettes: Seq<MapGenValue>,
    all: Map<Seq<char>, CDDAPalette>,
    own: KeyedMap<ParameterIdentifier, Parameter>,
    fuel: nat,
) -> bool
    decreases fuel,
{
    forall|i: int, id: Seq<char>|
        0 <= i < palettes.len() && #[trigger] value_mentions(palettes[i], all, own).contains(id) && all.contains_key(id)
            ==> fuel > 0 && palettes_end(all[id].palettes@, all, all[id].parameters, (fuel - 1) as nat)
}

/// Whether `w` are the weights of the default of a parameter among `own` or
/// of a palette of `all`.
pub open spec fn default_weights(
    all: Map<Seq<char>, CDDAPalette>,
    own: KeyedMap<ParameterIdentifier, Parameter>,
    w: Seq<i32>,
) -> bool {
    ||| exists|n: Seq<char>| #[trigger]
        own.map().contains_key(n) && w == weights_of(own.map()[n].default.distribution.values())
    ||| exists|k: Seq<char>, n: Seq<char>|
        #[trigger] all.contains_key(k) && #[trigger] all[k].parameters.map().contains_key(n) && w == weights_of(
            all[k].parameters.map()[n].default.distribution.values(),
        )
}

/// Whether a palette value may refuse the calculation: it may fail to
/// resolve with some parameters, or may name a palette that `all` does not
/// hold.
pub open spec fn palette_value_may_fail(
    v: MapGenValue,
    all: Map<Seq<char>, CDDAPalette>,
    own: KeyedMap<ParameterIdentifier, Parameter>,
) -> bool {
    (exists|params: Seq<(Seq<char>, Seq<char>)>| #[trigger] value_may_fail(v, params)) || exists|id: Seq<char>|
        #[trigger] value_mentions(v, all, own).contains(id) && !all.contains_key(id)
}

/// Whether calculating parameters from `own` and `palettes` may fail: a
/// default of a parameter (of `own` or of a palette of `all`) has weights
/// that admit no choice, or a palette value of `palettes` or of a palette
/// of `all` may fail.
pub open spec fn calc_may_fail(
    palettes: Seq<MapGenValue>,
    all: Map<Seq<char>, CDDAPalette>,
    own: KeyedMap<ParameterIdentifier, Parameter>,
) -> bool {
    ||| exists|w: Seq<i32>| #[trigger] default_weights(all, own, w) && !weights_valid(w)
    ||| exists|i: int| 0 <= i < palettes.len() && #[trigger] palette_value_may_fail(palettes[i], all, own)
    ||| exists|k: Seq<char>, i: int|
        all.contains_key(k) && 0 <= i < all[k].palettes@.len() && #[trigger] palette_value_may_fail(
            all[k].palettes@[i],
            all,
            all[k].parameters,
        )
}

/// A failure of the calculation for a palette of `all` is one for anything
/// that names it.
proof fn lemma_child_may_fail(
    palettes: Seq<MapGenValue>,
    all: Map<Seq<char>, CDDAPalette>,
    own: KeyedMap<ParameterIdentifier, Parameter>,
    id: Seq<char>,
)
    requires
        all.contains_key(id),
        calc_may_fail(all[id].palettes@, all, all[id].parameters),
    ensures
        calc_may_fail(palettes, all, own),
{
    if exists|w: Seq<i32>| #[trigger] default_weights(all, all[id].parameters, w) && !weights_valid(w) {
        let w = choose|w: Seq<i32>| #[trigger] default_weights(all, all[id].parameters, w) && !weights_valid(w);
        if exists|n: Seq<char>| #[trigger]
            all[id].parameters.map().contains_key(n) && w == weights_of(all[id].parameters.map()[n].default.distribution.values()) {
            let n = choose|n: Seq<char>| #[trigger]
                all[id].parameters.map().contains_key(n) && w == weights_of(
                    all[id].parameters.map()[n].default.distribution.values(),
                );
            assert(all.contains_key(id) && all[id].parameters.map().contains_key(n));
        }
        assert(default_weights(all, own, w));
    } else if exists|i: int| 0 <= i < all[id].palettes@.len() && #[trigger] palette_value_may_fail(
        all[id].palettes@[i],
        all,
        all[id].parameters,
    ) {
        let i = choose|i: int| 0 <= i < all[id].palettes@.len() && #[trigger] palette_value_may_fail(
            all[id].palettes@[i],
            all,
            all[id].parameters,
        );
        assert(all.contains_key(id) && 0 <= i < all[id].palettes@.len());
    }
}

/// What holds of every outcome of calculating parameters from `own` and
/// `palettes`: each calculated value is one its parameter may take, every
/// parameter of `own` has a value, a missing palette is not in `all`, and
/// weights that admit no choice belong to the default of some parameter.
pub open spec fn calculation_outcome(
    r: Result<IndexMap<ParameterIdentifier, CDDAIdentifier>, CalculateParametersError>,
    all: Map<Seq<char>, CDDAPalette>,
    own: KeyedMap<ParameterIdentifier, Parameter>,
) -> bool {
    &&& r matches Ok(m) ==> params_from(parameter_entries(m), all, own) && forall|n: Seq<char>| #[trigger]
        own.map().contains_key(n) ==> entry_lookup(parameter_entries(m), n) is Some
    &&& r matches Err(CalculateParametersError::MissingPalette(s)) ==> !all.contains_key(s@)
    &&& r matches Err(CalculateParametersError::GetRandomError(GetRandomError::WeightedIndexError(WeightedIndexError::InvalidWeights(w))))
        ==> default_weights(all, own, w@)
    &&& !(r matches Err(CalculateParametersError::GetRandomError(GetRandomError::GetIdentifierError(_))))
}

/// Whether resolving the mapgen value with the calculated parameters may
/// give `id` (see `MapGenValue::get_identifier`).
pub open spec fn value_outcome(v: MapGenValue, params: Seq<(Seq<char>, Seq<char>)>, id: Seq<char>) -> bool {
    match v {
        MapGenValue::String(s) => id == s@,
        MapGenValue::Param { param, fallback } => param_value(
            params,
            param@,
            match fallback {
                Some(f) => Some(f@),
                None => None,
            },
        ) == Some(id),
        MapGenValue::Switch { switch, cases } => {
            let key = switch_key(params, switch);
            cases.map().contains_key(key) && id == cases.map()[key]@
        },
        MapGenValue::Distribution(d) => exists|i: int|
            0 <= i < d.values().len() && inner_outcome(#[trigger] d.values()[i].spec_data(), params, Some(id)),
    }
}

/// A resolved mapgen value is one it may resolve to.
proof fn lemma_value_mentioned(
    v: MapGenValue,
    params: Seq<(Seq<char>, Seq<char>)>,
    all: Map<Seq<char>, CDDAPalette>,
    own: KeyedMap<ParameterIdentifier, Parameter>,
    id: Seq<char>,
)
    requires
        params_from(params, all, own),
        value_outcome(v, params, id),
    ensures
        value_mentions(v, all, own).contains(id),
{
    match v {
        MapGenValue::String(s) => {},
        MapGenValue::Param { param, fallback } => {
            lemma_entry_position_bounds(params, param@);
            let pos = entry_position(params, param@);
            if pos < params.len() {
                assert(param_choices(all, own, params[pos].0).contains(params[pos].1));
            }
        },
        MapGenValue::Switch { switch, cases } => {
            let key = switch_key(params, switch);
            assert(cases.map().contains_key(key));
        },
        MapGenValue::Distribution(d) => {
            let i = choose|i: int|
                0 <= i < d.values().len() && inner_outcome(#[trigger] d.values()[i].spec_data(), params, Some(id));
            let x = d.values()[i].spec_data();
            match x {
                CDDADistributionInner::Param { param, fallback } => {
                    lemma_entry_position_bounds(params, param@);
                    let pos = entry_position(params, param@);
                    if pos < params.len() {
                        assert(param_choices(all, own, params[pos].0).contains(params[pos].1));
                    }
                },
                CDDADistributionInner::Switch { switch, cases } => {
                    let key = switch_key(params, switch);
                    assert(cases.map().contains_key(key));
                },
                CDDADistributionInner::Distribution(dd) => {
                    let j = choose|j: int|
                        0 <= j < dd.distribution.values().len() && dd.distribution.values()[j].spec_weight() > 0
                            && #[trigger] dd.distribution.values()[j].spec_data()@ == id;
                    assert(dist_members(dd).contains(id));
                },
                CDDADistributionInner::String(_) => {},
            }
            assert(inner_mentions(x, all, own).contains(id));
        },
    }
}

/// Setting a parameter to a value it may take keeps `params_from`.
proof fn lemma_insert_from(
    params: Seq<(Seq<char>, Seq<char>)>,
    all: Map<Seq<char>, CDDAPalette>,
    own: KeyedMap<ParameterIdentifier, Parameter>,
    k: Seq<char>,
    v: Seq<char>,
)
    requires
        params_from(params, all, own),
        param_choices(all, own, k).contains(v),
    ensures
        params_from(entry_insert(params, k, v), all, own),
        forall|n: Seq<char>| entry_lookup(params, n) is Some ==> #[trigger] entry_lookup(entry_insert(params, k, v), n) is Some,
        entry_lookup(entry_insert(params, k, v), k) is Some,
{
    lemma_entry_position_bounds(params, k);
    let r = entry_insert(params, k, v);
    assert forall|n: Seq<char>| entry_lookup(params, n) is Some implies #[trigger] entry_lookup(r, n) is Some by {
        lemma_entry_position_bounds(params, n);
        lemma_entry_position_bounds(r, n);
        let pn = entry_position(params, n);
        assert(r.len() >= params.len());
        if entry_position(r, n) >= r.len() {
            assert(r[pn].0 == n);
        }
    }
    lemma_entry_position_bounds(r, k);
    let pk = entry_position(params, k);
    if entry_position(r, k) >= r.len() {
        if pk < params.len() {
            assert(r[pk].0 == k);
        } else {
            assert(r[params.len() as int].0 == k);
        }
    }
}

/// Weights of a palette's parameter are weights of a parameter of `all`.
proof fn lemma_child_weights(
    e: CalculateParametersError,
    all: Map<Seq<char>, CDDAPalette>,
    child_own: KeyedMap<ParameterIdentifier, Parameter>,
    own: KeyedMap<ParameterIdentifier, Parameter>,
    id: Seq<char>,
)
    requires
        all.contains_key(id),
        child_own == all[id].parameters,
        e matches CalculateParametersError::GetRandomError(
            GetRandomError::WeightedIndexError(WeightedIndexError::InvalidWeights(w)),
        ) ==> default_weights(all, child_own, w@),
    ensures
        e matches CalculateParametersError::GetRandomError(
            GetRandomError::WeightedIndexError(WeightedIndexError::InvalidWeights(w)),
        ) ==> default_weights(all, own, w@),
{
    if let CalculateParametersError::GetRandomError(GetRandomError::WeightedIndexError(WeightedIndexError::InvalidWeights(w))) = e {
        if exists|nn: Seq<char>| #[trigger] child_own.map().contains_key(nn) && w@ == weights_of(
            child_own.map()[nn].default.distribution.values(),
        ) {
            let nn = choose|nn: Seq<char>| #[trigger] child_own.map().contains_key(nn) && w@ == weights_of(
                child_own.map()[nn].default.distribution.values(),
            );
            assert(all.contains_key(id) && all[id].parameters.map().contains_key(nn));
        }
    }
}

/// Calculates parameters from `own`, then from the palettes that
/// `palettes` name, following `copy` at most `fuel` steps deep.
fn calculate_from(
    own: &KeyedMap<ParameterIdentifier, Parameter>,
    palettes: &Vec<MapGenValue>,
    all: &KeyedMap<CDDAIdentifier, CDDAPalette>,
    Ghost(fuel): Ghost<nat>,
) -> (r: Result<IndexMap<ParameterIdentifier, CDDAIdentifier>, CalculateParametersError>)
    requires
        palettes_end(palettes@, all.map(), *own, fuel),
    ensures
        calculation_outcome(r, all.map(), *own),
        r is Err ==> calc_may_fail(palettes@, all.map(), *own),
    decreases fuel,
{
    let mut calculated = new_calculated_parameters();
    let n = own.len();
    let mut i: usize = 0;
    own.lemma_entries_cover();
    proof {
        assert forall|j: int| 0 <= j < n implies own.map().contains_key(#[trigger] own.entries()[j].0@) by {
            assert(own.entries()[j].0.key() == own.entries()[j].0@);
        }
    }
    while i < n
        invariant
            n == own.entries().len(),
            i <= n,
            params_from(parameter_entries(calculated), all.map(), *own),
            forall|j: int| 0 <= j < i ==> #[trigger] entry_lookup(parameter_entries(calculated), own.entries()[j].0@) is Some,
            forall|j: int| 0 <= j < n ==> own.map().contains_key(#[trigger] own.entries()[j].0@),
        decreases n - i,
    {
        let name = own.key_at(i);
        let parameter = own.value_at(i);
        let value = match parameter.default.distribution.get_identifier(&calculated) {
            Ok(v) => v,
            Err(e) => {
                proof {
                    assert(own.map().contains_key(name@));
                    assert(default_weights(all.map(), *own, weights_of(parameter.default.distribution.values())));
                }
                return Err(CalculateParametersError::GetRandomError(e));
            },
        };
        proof {
            let vals = parameter.default.distribution.values();
            let j = choose|j: int| 0 <= j < vals.len() && vals[j].spec_weight() > 0 && #[trigger] vals[j].spec_data()@ == value@;
            assert(dist_members(parameter.default).contains(value@));
            assert(param_choices(all.map(), *own, name@).contains(value@));
            lemma_insert_from(parameter_entries(calculated), all.map(), *own, name@, value@);
        }
        set_calculated_parameter(&mut calculated, name.clone(), value);
        i = i + 1;
    }
    own.lemma_entries_cover();
    proof {
        assert forall|nn: Seq<char>| #[trigger] own.map().contains_key(nn) implies entry_lookup(
            parameter_entries(calculated),
            nn,
        ) is Some by {
            let j = choose|j: int| 0 <= j < own.entries().len() && #[trigger] own.entries()[j].0.key() == nn;
            assert(own.entries()[j].0@ == nn);
        }
    }
    let m = palettes.len();
    let mut j: usize = 0;
    while j < m
        invariant
            m == palettes@.len(),
            j <= m,
            palettes_end(palettes@, all.map(), *own, fuel),
            params_from(parameter_entries(calculated), all.map(), *own),
            forall|nn: Seq<char>| #[trigger]
                own.map().contains_key(nn) ==> entry_lookup(parameter_entries(calculated), nn) is Some,
        decreases m - j,
    {
        let id = match palettes[j].get_identifier(&calculated) {
            Ok(id) => id,
            Err(e) => {
                proof {
                    assert(value_may_fail(palettes@[j as int], parameter_entries(calculated)));
                    assert(palette_value_may_fail(palettes@[j as int], all.map(), *own));
                }
                return Err(CalculateParametersError::GetIdentifierError(e));
            },
        };
        proof {
            lemma_value_mentioned(palettes@[j as int], parameter_entries(calculated), all.map(), *own, id@);
        }
        let palette = match all.get(&id) {
            Some(p) => p,
            None => {
                proof {
                    assert(value_mentions(palettes@[j as int], all.map(), *own).contains(id@));
                    assert(palette_value_may_fail(palettes@[j as int], all.map(), *own));
                }
                return Err(CalculateParametersError::MissingPalette(id.0));
            },
        };
        proof {
            assert(value_mentions(palettes@[j as int], all.map(), *own).contains(id@));
        }
        let child = calculate_from(&palette.parameters, &palette.palettes, all, Ghost((fuel - 1) as nat));
        let child = match child {
            Ok(c) => c,
            Err(e) => {
                proof {
                    lemma_child_weights(e, all.map(), palette.parameters, *own, id@);
                    lemma_child_may_fail(palettes@, all.map(), *own, id@);
                }
                return Err(e);
            },
        };
        let ghost child_entries = parameter_entries(child);
        let pairs = parameter_pairs(child);
        let count = pairs.len();
        let mut pending = crate::types::reverse_vec(pairs);
        let ghost ps = pending@;
        let mut c: usize = 0;
        while c < count
            invariant
                count == child_entries.len(),
                c <= count,
                pending@.len() == count - c,
                forall|x: int| 0 <= x < count - c ==> (#[trigger] pending@[x].0@, pending@[x].1@) == child_entries[count - 1 - x],
                params_from(child_entries, all.map(), palette.parameters),
                all.map().contains_key(id@) && palette == all.map()[id@],
                params_from(parameter_entries(calculated), all.map(), *own),
                forall|nn: Seq<char>| #[trigger]
                    own.map().contains_key(nn) ==> entry_lookup(parameter_entries(calculated), nn) is Some,
            decreases count - c,
        {
            let (k, v) = pending.pop().unwrap();
            proof {
                assert((k@, v@) == child_entries[c as int]);
                assert(child_entries[c as int].1 == v@ && child_entries[c as int].0 == k@);
                assert(param_choices(all.map(), palette.parameters, k@).contains(v@));
                assert(param_choices(all.map(), *own, k@).contains(v@)) by {
                    if palette.parameters.map().contains_key(k@) && dist_members(palette.parameters.map()[k@].default).contains(
                        v@,
                    ) {
                        assert(all.map().contains_key(id@));
                    }
                }
                lemma_insert_from(parameter_entries(calculated), all.map(), *own, k@, v@);
            }
            set_calculated_parameter(&mut calculated, k, v);
            c = c + 1;
        }
        j = j + 1;
    }
    Ok(calculated)
}

impl CDDAPalette {
    /// The palette's parameters, each a random choice from its default,
    /// then those of the palettes it names, each chosen palette calculated
    /// in turn; a later value of a parameter replaces an earlier one.
    pub fn calculate_parameters(&self, all_palettes: &KeyedMap<CDDAIdentifier, CDDAPalette>) -> (r: Result<
        IndexMap<ParameterIdentifier, CDDAIdentifier>,
        CalculateParametersError,
    >)
        requires
            exists|fuel: nat| palettes_end(self.palettes@, all_palettes.map(), self.parameters, fuel),
        ensures
            calculation_outcome(r, all_palettes.map(), self.parameters),
            r is Err ==> calc_may_fail(self.palettes@, all_palettes.map(), self.parameters),
    {
        let ghost fuel = choose|fuel: nat| palettes_end(self.palettes@, all_palettes.map(), self.parameters, fuel);
        calculate_from(&self.parameters, &self.palettes, all_palettes, Ghost(fuel))
    }
}

/// Calculates the parameters of a map by random choices.
pub struct CalculateRandomParameters;

impl CalculateRandomParameters {
    /// The map's parameters, each a random choice from its default, then
    /// those of the palettes the map names (see `CDDAPalette::calculate_parameters`).
    pub fn calculate_parameters(&self, mapgen: &MapGen, cdda_data: &DeserializedCDDAJsonData) -> (r: Result<
        IndexMap<ParameterIdentifier, CDDAIdentifier>,
        CalculateParametersError,
    >)
        requires
            exists|fuel: nat| palettes_end(mapgen.common.palettes@, cdda_data.palettes.map(), mapgen.common.parameters, fuel),
        ensures
            calculation_outcome(r, cdda_data.palettes.map(), mapgen.common.parameters),
            r is Err ==> calc_may_fail(mapgen.common.palettes@, cdda_data.palettes.map(), mapgen.common.parameters),
    {
        let ghost fuel = choose|fuel: nat|
            palettes_end(mapgen.common.palettes@, cdda_data.palettes.map(), mapgen.common.parameters, fuel);
        calculate_from(&mapgen.common.parameters, &mapgen.common.palettes, &cdda_data.palettes, Ghost(fuel))
    }
}

} // verus!
