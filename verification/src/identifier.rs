use vstd::prelude::*;
use indexmap::IndexMap;
use std::convert::Infallible;
use crate::parameters::{calculated_parameter, entry_lookup, parameter_entries};
use crate::random::{sample_weighted_index, weights_valid};
use crate::types::{
    CDDADistributionInner, CDDAIdentifier, DistributionInner, MapGenValue, MeabyVec,
    MeabyWeighted, ParameterIdentifier, Switch,
};

verus! {

pub enum WeightedIndexError {
    InvalidWeights(Vec<i32>),
}

pub enum GetRandomError {
    WeightedIndexError(WeightedIndexError),
    GetIdentifierError(usize),
}

pub enum GetIdentifierError {
    GetRandomError(GetRandomError),
    MissingFallback(String),
    MissingSwitchCaseValue(String, String),
}

/// The weights of weighted values; an unweighted value weighs one.
pub open spec fn weights_of<T>(values: Seq<MeabyWeighted<T>>) -> Seq<i32> {
    Seq::new(values.len(), |i: int| values[i].spec_weight())
}

/// The calculated parameters as a sequence of (name, value) texts.
pub open spec fn params_view(params: IndexMap<ParameterIdentifier, CDDAIdentifier>) -> Seq<(Seq<char>, Seq<char>)> {
    parameter_entries(params)
}

/// The identifier that a parameter resolves to: its calculated value, else the fallback.
pub open spec fn param_value(
    params: Seq<(Seq<char>, Seq<char>)>,
    param: Seq<char>,
    fallback: Option<Seq<char>>,
) -> Option<Seq<char>> {
    match entry_lookup(params, param) {
        Some(v) => Some(v),
        None => fallback,
    }
}

/// The key that a switch looks up among its cases: the parameter's
/// calculated value, else the switch's fallback.
pub open spec fn switch_key(params: Seq<(Seq<char>, Seq<char>)>, switch: Switch) -> Seq<char> {
    match entry_lookup(params, switch.param@) {
        Some(v) => v,
        None => switch.fallback@,
    }
}

/// Whether a weighted choice between identifiers may give `id`: some entry
/// with a positive weight holds it.
pub open spec fn may_pick(values: Seq<MeabyWeighted<CDDAIdentifier>>, id: Seq<char>) -> bool {
    exists|i: int| 0 <= i < values.len() && values[i].spec_weight() > 0 && #[trigger] values[i].spec_data()@ == id
}

/// What resolving a distribution entry may give: `Some(id)` for an
/// identifier, `None` for a failure.
pub open spec fn inner_outcome(
    v: CDDADistributionInner,
    params: Seq<(Seq<char>, Seq<char>)>,
    o: Option<Seq<char>>,
) -> bool {
    match v {
        CDDADistributionInner::String(s) => o == Some(s@),
        CDDADistributionInner::Param { param, fallback } => o == param_value(
            params,
            param@,
            match fallback {
                Some(f) => Some(f@),
                None => None,
            },
        ),
        CDDADistributionInner::Switch { switch, cases } => {
            let key = switch_key(params, switch);
            o == if cases.map().contains_key(key) {
                Some(cases.map()[key]@)
            } else {
                None
            }
        },
        CDDADistributionInner::Distribution(d) => {
            let vals = d.distribution.values();
            match o {
                Some(id) => weights_valid(weights_of(vals)) && may_pick(vals, id),
                None => !weights_valid(weights_of(vals)),
            }
        },
    }
}

/// Whether resolving the mapgen value may fail: a parameter with neither
/// a value nor a fallback, a switch without the case of its key, a
/// distribution whose weights admit no choice or that may pick an entry
/// that fails.
pub open spec fn value_may_fail(v: MapGenValue, params: Seq<(Seq<char>, Seq<char>)>) -> bool {
    match v {
        MapGenValue::String(_) => false,
        MapGenValue::Param { param, fallback } => param_value(
            params,
            param@,
            match fallback {
                Some(f) => Some(f@),
                None => None,
            },
        ) is None,
        MapGenValue::Switch { switch, cases } => !cases.map().contains_key(switch_key(params, switch)),
        MapGenValue::Distribution(d) => !weights_valid(weights_of(d.values())) || exists|i: int|
            #![trigger d.values()[i]]
            0 <= i < d.values().len() && d.values()[i].spec_weight() > 0 && inner_outcome(
                d.values()[i].spec_data(),
                params,
                None,
            ),
    }
}

/// Whether resolving the mapgen value fails whatever is drawn: as
/// `value_may_fail`, but a distribution fails only where its weights admit
/// no choice or every entry it may pick fails.
pub open spec fn value_must_fail(v: MapGenValue, params: Seq<(Seq<char>, Seq<char>)>) -> bool {
    match v {
        MapGenValue::Distribution(d) => !weights_valid(weights_of(d.values())) || forall|i: int|
            #![trigger d.values()[i]]
            0 <= i < d.values().len() && d.values()[i].spec_weight() > 0 ==> inner_outcome(
                d.values()[i].spec_data(),
                params,
                None,
            ),
        _ => value_may_fail(v, params),
    }
}

/// A distribution entry does not both give an identifier and fail.
pub proof fn lemma_inner_outcome_one(v: CDDADistributionInner, params: Seq<(Seq<char>, Seq<char>)>, x: Seq<char>)
    ensures
        !(inner_outcome(v, params, None) && inner_outcome(v, params, Some(x))),
{
}

/// Picks the index of one of the weighted values at random, with the
/// weights of the values.
pub fn choose_weighted<T>(values: &MeabyVec<MeabyWeighted<T>>) -> (r: Result<usize, GetRandomError>)
    ensures
        r is Ok <==> weights_valid(weights_of(values.values())),
        r matches Ok(i) ==> i < values.values().len() && values.values()[i as int].spec_weight() > 0,
        r matches Err(e) ==> (e matches GetRandomError::WeightedIndexError(
            WeightedIndexError::InvalidWeights(w),
        ) && w@ == weights_of(values.values())),
{
    let n = values.len();
    let mut weights: Vec<i32> = Vec::new();
    let mut i: usize = 0;
    while i < n
        invariant
            n == values.values().len(),
            i <= n,
            weights@.len() == i,
            forall|j: int| 0 <= j < i ==> #[trigger] weights@[j] == values.values()[j].spec_weight(),
        decreases n - i,
    {
        weights.push(values.get(i).weight_or_one());
        i = i + 1;
    }
    proof {
        assert(weights@ =~= weights_of(values.values()));
    }
    match sample_weighted_index(&weights) {
        Ok(idx) => Ok(idx),
        Err(_) => Err(GetRandomError::WeightedIndexError(WeightedIndexError::InvalidWeights(weights))),
    }
}

pub(crate) fn resolve_param(
    params: &IndexMap<ParameterIdentifier, CDDAIdentifier>,
    param: &ParameterIdentifier,
    fallback: &Option<CDDAIdentifier>,
) -> (r: Result<CDDAIdentifier, GetIdentifierError>)
    ensures
        match param_value(
            params_view(*params),
            param@,
            match fallback {
                Some(f) => Some(f@),
                None => None,
            },
        ) {
            Some(x) => r matches Ok(id) && id@ == x,
            None => r matches Err(GetIdentifierError::MissingFallback(p)) && p@ == param@,
        },
{
    match calculated_parameter(params, param) {
        Some(p) => Ok(p.clone()),
        None => match fallback {
            Some(f) => Ok(f.clone()),
            None => Err(GetIdentifierError::MissingFallback(param.0.clone())),
        },
    }
}

pub(crate) fn resolve_switch(
    params: &IndexMap<ParameterIdentifier, CDDAIdentifier>,
    switch: &Switch,
    cases: &crate::keyed_map::KeyedMap<CDDAIdentifier, CDDAIdentifier>,
) -> (r: Result<CDDAIdentifier, GetIdentifierError>)
    ensures
        ({
            let key = switch_key(params_view(*params), *switch);
            if cases.map().contains_key(key) {
                r matches Ok(id) && id@ == cases.map()[key]@
            } else {
                r matches Err(GetIdentifierError::MissingSwitchCaseValue(a, b)) && a@ == key && b@
                    == switch.param@
            }
        }),
{
    let id = match calculated_parameter(params, &switch.param) {
        Some(p) => p.clone(),
        None => switch.fallback.clone(),
    };
    match cases.get(&id) {
        Some(v) => Ok(v.clone()),
        None => Err(GetIdentifierError::MissingSwitchCaseValue(id.0, switch.param.0.clone())),
    }
}

impl MeabyVec<MeabyWeighted<CDDAIdentifier>> {
    /// Picks one identifier at random with the weights of the entries.
    pub fn get_identifier(
        &self,
        _calculated_parameters: &IndexMap<ParameterIdentifier, CDDAIdentifier>,
    ) -> (r: Result<CDDAIdentifier, GetRandomError>)
        ensures
            r is Ok <==> weights_valid(weights_of(self.values())),
            r matches Ok(id) ==> may_pick(self.values(), id@),
            r matches Err(e) ==> (e matches GetRandomError::WeightedIndexError(
                WeightedIndexError::InvalidWeights(w),
            ) && w@ == weights_of(self.values())),
    {
        let i = choose_weighted(self)?;
        let item = self.get(i);
        let id = match item {
            MeabyWeighted::Weighted(w) => w.data.clone(),
            MeabyWeighted::NotWeighted(d) => d.clone(),
        };
        proof {
            assert(self.values()[i as int].spec_data()@ == id@);
        }
        Ok(id)
    }
}

impl CDDAIdentifier {
    /// An identifier resolves to itself.
    pub fn get_identifier(
        &self,
        _calculated_parameters: &IndexMap<ParameterIdentifier, CDDAIdentifier>,
    ) -> (r: Result<CDDAIdentifier, Infallible>)
        ensures
            r matches Ok(id) && id@ == self@,
    {
        Ok(self.clone())
    }
}

impl DistributionInner {
    /// A parameter resolves to its calculated value or its fallback, a plain
    /// identifier to itself. A switch here is not supported.
    pub fn get_identifier(
        &self,
        calculated_parameters: &IndexMap<ParameterIdentifier, CDDAIdentifier>,
    ) -> (r: Result<CDDAIdentifier, Infallible>)
        requires
            !(self is Switch),
        ensures
            match self {
                DistributionInner::Param { param, fallback } => r matches Ok(id) && id@
                    == param_value(params_view(*calculated_parameters), param@, Some(fallback@))->0,
                DistributionInner::Normal(n) => r matches Ok(id) && id@ == n@,
                _ => false,
            },
    {
        match self {
            DistributionInner::Param { param, fallback } => {
                match calculated_parameter(calculated_parameters, param) {
                    Some(p) => Ok(p.clone()),
                    None => Ok(fallback.clone()),
                }
            },
            DistributionInner::Normal(n) => Ok(n.clone()),
            DistributionInner::Switch { .. } => {
                proof {
                    assert(false);
                }
                Ok(CDDAIdentifier(String::new()))
            },
        }
    }
}

impl CDDADistributionInner {
    pub fn get_identifier(
        &self,
        calculated_parameters: &IndexMap<ParameterIdentifier, CDDAIdentifier>,
    ) -> (r: Result<CDDAIdentifier, GetIdentifierError>)
        ensures
            r matches Ok(id) ==> inner_outcome(*self, params_view(*calculated_parameters), Some(id@)),
            r is Err ==> inner_outcome(*self, params_view(*calculated_parameters), None),
            match self {
                CDDADistributionInner::Param { param, fallback } => r is Err ==> (r matches Err(
                    GetIdentifierError::MissingFallback(p),
                ) && p@ == param@),
                CDDADistributionInner::Switch { switch, cases } => r is Err ==> (r matches Err(
                    GetIdentifierError::MissingSwitchCaseValue(a, b),
                ) && a@ == switch_key(params_view(*calculated_parameters), *switch) && b@
                    == switch.param@),
                CDDADistributionInner::Distribution(d) => r is Err ==> (r matches Err(
                    GetIdentifierError::GetRandomError(
                        GetRandomError::WeightedIndexError(WeightedIndexError::InvalidWeights(w)),
                    ),
                ) && w@ == weights_of(d.distribution.values())),
                CDDADistributionInner::String(_) => r is Ok,
            },
    {
        match self {
            CDDADistributionInner::String(s) => Ok(s.clone()),
            CDDADistributionInner::Distribution(d) => {
                match d.distribution.get_identifier(calculated_parameters) {
                    Ok(id) => Ok(id),
                    Err(e) => Err(GetIdentifierError::GetRandomError(e)),
                }
            },
            CDDADistributionInner::Param { param, fallback } => resolve_param(
                calculated_parameters,
                param,
                fallback,
            ),
            CDDADistributionInner::Switch { switch, cases } => resolve_switch(
                calculated_parameters,
                switch,
                cases,
            ),
        }
    }
}

impl MeabyVec<MeabyWeighted<CDDADistributionInner>> {
    /// Picks one entry at random with the weights of the entries and resolves it.
    pub fn get_identifier(
        &self,
        calculated_parameters: &IndexMap<ParameterIdentifier, CDDAIdentifier>,
    ) -> (r: Result<CDDAIdentifier, GetRandomError>)
        ensures
            !weights_valid(weights_of(self.values())) ==> (r matches Err(
                GetRandomError::WeightedIndexError(WeightedIndexError::InvalidWeights(w)),
            ) && w@ == weights_of(self.values())),
            weights_valid(weights_of(self.values())) ==> exists|i: int|
                0 <= i < self.values().len() && self.values()[i].spec_weight() > 0 && match r {
                    Ok(id) => inner_outcome(
                        #[trigger] self.values()[i].spec_data(),
                        params_view(*calculated_parameters),
                        Some(id@),
                    ),
                    Err(e) => e == GetRandomError::GetIdentifierError(i as usize) && inner_outcome(
                        self.values()[i].spec_data(),
                        params_view(*calculated_parameters),
                        None,
                    ),
                },
    {
        let i = choose_weighted(self)?;
        let item = self.get(i);
        let inner = match item {
            MeabyWeighted::Weighted(w) => &w.data,
            MeabyWeighted::NotWeighted(d) => d,
        };
        proof {
            assert(*inner == self.values()[i as int].spec_data());
        }
        let res = inner.get_identifier(calculated_parameters);
        let r = match res {
            Ok(id) => Ok(id),
            Err(_) => Err(GetRandomError::GetIdentifierError(i)),
        };
        proof {
            let ii = i as int;
            assert(0 <= ii < self.values().len() && self.values()[ii].spec_weight() > 0);
            assert(ii as usize == i);
        }
        r
    }
}

impl MapGenValue {
    /// Resolves the mapgen value to an identifier: a parameter by its
    /// calculated value or fallback, a switch by the case of the parameter's
    /// value, a distribution by a weighted random choice.
    pub fn get_identifier(
        &self,
        calculated_parameters: &IndexMap<ParameterIdentifier, CDDAIdentifier>,
    ) -> (r: Result<CDDAIdentifier, GetIdentifierError>)
        ensures
            r is Err ==> value_may_fail(*self, params_view(*calculated_parameters)),
            value_must_fail(*self, params_view(*calculated_parameters)) ==> r is Err,
            match self {
                MapGenValue::String(s) => r matches Ok(id) && id@ == s@,
                MapGenValue::Param { param, fallback } => match param_value(
                    params_view(*calculated_parameters),
                    param@,
                    match fallback {
                        Some(f) => Some(f@),
                        None => None,
                    },
                ) {
                    Some(x) => r matches Ok(id) && id@ == x,
                    None => r matches Err(GetIdentifierError::MissingFallback(p)) && p@ == param@,
                },
                MapGenValue::Switch { switch, cases } => {
                    let key = switch_key(params_view(*calculated_parameters), *switch);
                    if cases.map().contains_key(key) {
                        r matches Ok(id) && id@ == cases.map()[key]@
                    } else {
                        r matches Err(GetIdentifierError::MissingSwitchCaseValue(a, b)) && a@ == key
                            && b@ == switch.param@
                    }
                },
                MapGenValue::Distribution(d) => {
                    &&& !weights_valid(weights_of(d.values())) ==> (r matches Err(
                        GetIdentifierError::GetRandomError(
                            GetRandomError::WeightedIndexError(
                                WeightedIndexError::InvalidWeights(w),
                            ),
                        ),
                    ) && w@ == weights_of(d.values()))
                    &&& weights_valid(weights_of(d.values())) ==> exists|i: int|
                        0 <= i < d.values().len() && d.values()[i].spec_weight() > 0 && match r {
                            Ok(id) => inner_outcome(
                                #[trigger] d.values()[i].spec_data(),
                                params_view(*calculated_parameters),
                                Some(id@),
                            ),
                            Err(e) => e == GetIdentifierError::GetRandomError(
                                GetRandomError::GetIdentifierError(i as usize),
                            ) && inner_outcome(
                                d.values()[i].spec_data(),
                                params_view(*calculated_parameters),
                                None,
                            ),
                        }
                },
            },
    {
        match self {
            MapGenValue::String(s) => Ok(s.clone()),
            MapGenValue::Distribution(d) => {
                let r = match d.get_identifier(calculated_parameters) {
                    Ok(id) => Ok(id),
                    Err(e) => Err(GetIdentifierError::GetRandomError(e)),
                };
                proof {
                    let params = params_view(*calculated_parameters);
                    if weights_valid(weights_of(d.values())) {
                        let i = choose|i: int|
                            0 <= i < d.values().len() && d.values()[i].spec_weight() > 0 && match r {
                                Ok(id) => inner_outcome(#[trigger] d.values()[i].spec_data(), params, Some(id@)),
                                Err(e) => e == GetIdentifierError::GetRandomError(
                                    GetRandomError::GetIdentifierError(i as usize),
                                ) && inner_outcome(d.values()[i].spec_data(), params, None),
                            };
                        assert(d.values()[i] == d.values()[i]);
                        if r is Ok {
                            lemma_inner_outcome_one(d.values()[i].spec_data(), params, r->Ok_0@);
                        }
                    }
                }
                r
            },
            MapGenValue::Param { param, fallback } => resolve_param(
                calculated_parameters,
                param,
                fallback,
            ),
            MapGenValue::Switch { switch, cases } => resolve_switch(
                calculated_parameters,
                switch,
                cases,
            ),
        }
    }
}

} // verus!
