//! Provider states: the named preconditions of an interaction.

use vstd::prelude::*;
use crate::collections::{put, Duplicate, Entries, Same, SortedMap};
use crate::json::{compact_text, json_text, lemma_json_model, member, Json, JsonModel};

verus! {

/// A state that the provider must be in before an interaction, with the
/// values that describe it.
#[derive(Debug, PartialEq, Eq, Hash)]
pub struct ProviderState {
    pub name: String,
    pub params: SortedMap<Json>,
}

/// The mathematical value of a `ProviderState`.
pub struct StateModel {
    pub name: Seq<char>,
    pub params: Entries<JsonModel>,
}

impl DeepView for ProviderState {
    type V = StateModel;

    open spec fn deep_view(&self) -> StateModel {
        StateModel { name: self.name@, params: self.params.deep_view() }
    }
}

impl Duplicate for ProviderState {
    fn duplicate(&self) -> (r: ProviderState) {
        ProviderState { name: self.name.clone(), params: self.params.duplicate() }
    }
}

/// The state that one item of `providerStates` writes: its `name`, as a
/// text, and its `params`, where they are an object.
pub open spec fn state_of(j: JsonModel) -> StateModel {
    StateModel {
        name: match member(j, "name"@) {
            Some(v) => crate::json::plain_text(v),
            None => "unknown provider states"@,
        },
        params: match member(j, "params"@) {
            Some(JsonModel::Object(m)) => m,
            _ => seq![],
        },
    }
}

/// A state with a name and no values.
pub open spec fn named_state(name: Seq<char>) -> StateModel {
    StateModel { name, params: seq![] }
}

/// The states that an older pact writes as one name: none for `null` or the
/// empty text, else one state with that name.
pub open spec fn single_state(v: JsonModel) -> Seq<StateModel> {
    match v {
        JsonModel::String(s) => if s.len() == 0 {
            seq![]
        } else {
            seq![named_state(s)]
        },
        JsonModel::Null => seq![],
        other => seq![named_state(compact_text(other))],
    }
}

/// The provider states of an interaction: the items of `providerStates`
/// where it is there, none where it is there and no array; else the one
/// state of `providerState` or `provider_state`.
pub open spec fn states_of(j: JsonModel) -> Seq<StateModel> {
    match member(j, "providerStates"@) {
        Some(JsonModel::Array(items)) => Seq::new(items.len(), |i: int| state_of(items[i])),
        Some(_) => seq![],
        None => match member(j, "providerState"@) {
            Some(v) => single_state(v),
            None => match member(j, "provider_state"@) {
                Some(v) => single_state(v),
                None => seq![],
            },
        },
    }
}

/// The members by which a state is written: `name`, and `params` where
/// there are any.
pub open spec fn state_members(s: StateModel) -> Entries<JsonModel> {
    let base = put(Seq::empty(), "name"@, JsonModel::String(s.name));
    if s.params.len() > 0 {
        put(base, "params"@, JsonModel::Object(s.params))
    } else {
        base
    }
}

/// The JSON values by which states are written, in their order.
pub open spec fn states_json(states: Seq<StateModel>) -> Seq<JsonModel> {
    Seq::new(states.len(), |i: int| JsonModel::Object(state_members(states[i])))
}

/// The names of the states, in their order.
pub open spec fn state_names(states: Seq<StateModel>) -> Seq<Seq<char>> {
    Seq::new(states.len(), |i: int| states[i].name)
}

impl ProviderState {
    /// A state with the name `name` and no values.
    pub fn default(name: &str) -> (r: ProviderState)
        ensures
            r.deep_view() == named_state(name@),
    {
        ProviderState { name: name.to_owned(), params: SortedMap::new() }
    }

    /// Reads the state that one item of `providerStates` writes.
    pub fn from_json_v3(j: &Json) -> (r: ProviderState)
        ensures
            r.deep_view() == state_of(j.deep_view()),
    {
        let name = match j.get("name") {
            Some(v) => v.to_plain_text(),
            None => "unknown provider states".to_owned(),
        };
        let params = match j.get("params") {
            Some(v) => {
                proof {
                    lemma_json_model(*v);
                }
                match v {
                    Json::Object(m) => m.duplicate(),
                    _ => SortedMap::new(),
                }
            },
            None => SortedMap::new(),
        };
        ProviderState { name, params }
    }

    /// Reads the states that an older pact writes as one name.
    fn single(v: &Json) -> (r: Vec<ProviderState>)
        ensures
            r.deep_view() == single_state(v.deep_view()),
    {
        let mut r: Vec<ProviderState> = Vec::new();
        assert(r.deep_view() =~= Seq::<StateModel>::empty());
        match v {
            Json::String(s) => {
                if s.as_str().unicode_len() > 0 {
                    r.push(ProviderState { name: s.clone(), params: SortedMap::new() });
                    assert(r.deep_view() =~= seq![named_state(s@)]);
                }
            },
            Json::Null => {},
            _ => {
                let name = json_text(v);
                r.push(ProviderState { name, params: SortedMap::new() });
                assert(r.deep_view() =~= seq![named_state(name@)]);
            },
        }
        r
    }

    /// Reads the provider states of an interaction from its JSON form.
    pub fn from_json(pact_json: &Json) -> (r: Vec<ProviderState>)
        ensures
            r.deep_view() == states_of(pact_json.deep_view()),
    {
        match pact_json.get("providerStates") {
            Some(v) => {
                proof {
                    lemma_json_model(*v);
                }
                let mut r: Vec<ProviderState> = Vec::new();
                assert(r.deep_view() =~= Seq::<StateModel>::empty());
                match v {
                    Json::Array(items) => {
                        let ghost all = states_of(pact_json.deep_view());
                        let mut i: usize = 0;
                        while i < items.len()
                            invariant
                                i <= items.len(),
                                all.len() == items.len(),
                                forall|k: int| 0 <= k < items.len() ==> all[k] == state_of(
                                    #[trigger] items@[k].deep_view(),
                                ),
                                r.deep_view() == all.take(i as int),
                            decreases items.len() - i,
                        {
                            let state = ProviderState::from_json_v3(&items[i]);
                            let ghost before = r.deep_view();
                            r.push(state);
                            proof {
                                assert(r.deep_view() =~= before.push(state.deep_view()));
                                assert(all.take(i + 1) == all.take(i as int).push(all[i as int]));
                            }
                            i += 1;
                        }
                        proof {
                            assert(all.take(items.len() as int) == all);
                        }
                    },
                    _ => {},
                }
                r
            },
            None => match pact_json.get("providerState") {
                Some(v) => ProviderState::single(v),
                None => match pact_json.get("provider_state") {
                    Some(v) => ProviderState::single(v),
                    None => {
                        let r: Vec<ProviderState> = Vec::new();
                        assert(r.deep_view() =~= Seq::<StateModel>::empty());
                        r
                    },
                },
            },
        }
    }

    /// Writes the state as a JSON object.
    pub fn to_json(&self) -> (r: Json)
        ensures
            r.deep_view() == JsonModel::Object(state_members(self.deep_view())),
    {
        let mut members: SortedMap<Json> = SortedMap::new();
        members.insert("name".to_owned(), Json::String(self.name.clone()));
        if !self.params.is_empty() {
            members.insert("params".to_owned(), Json::object(self.params.duplicate()));
        }
        Json::object(members)
    }
}

/// Writes provider states as JSON objects, in their order.
pub fn states_to_json(states: &Vec<ProviderState>) -> (r: Vec<Json>)
    ensures
        r.deep_view() == states_json(states.deep_view()),
{
    let mut r: Vec<Json> = Vec::new();
    let ghost all = states_json(states.deep_view());
    let mut i: usize = 0;
    while i < states.len()
        invariant
            i <= states.len(),
            all == states_json(states.deep_view()),
            r.deep_view() == all.take(i as int),
        decreases states.len() - i,
    {
        let item = states[i].to_json();
        let ghost before = r.deep_view();
        r.push(item);
        proof {
            assert(r.deep_view() =~= before.push(item.deep_view()));
            assert(all.take(i + 1) == all.take(i as int).push(all[i as int]));
        }
        i += 1;
    }
    proof {
        assert(all.take(states.len() as int) == all);
    }
    r
}

/// The names of provider states, in their order.
pub fn names_of(states: &Vec<ProviderState>) -> (r: Vec<String>)
    ensures
        r.deep_view() == state_names(states.deep_view()),
{
    let mut r: Vec<String> = Vec::new();
    let ghost all = state_names(states.deep_view());
    let mut i: usize = 0;
    while i < states.len()
        invariant
            i <= states.len(),
            all == state_names(states.deep_view()),
            r.deep_view() == all.take(i as int),
        decreases states.len() - i,
    {
        let name = states[i].name.clone();
        let ghost before = r.deep_view();
        r.push(name);
        proof {
            assert(r.deep_view() =~= before.push(name@));
            assert(all.take(i + 1) == all.take(i as int).push(all[i as int]));
        }
        i += 1;
    }
    proof {
        assert(all.take(states.len() as int) == all);
    }
    r
}

impl Same for ProviderState {
    fn same(&self, other: &ProviderState) -> (b: bool) {
        self.name == other.name && self.params.same(&other.params)
    }
}

} // verus!
