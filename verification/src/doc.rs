use vstd::prelude::*;

use crate::json::Json;
use crate::json::JsonV;
use crate::json::jlookup;
use crate::json::jwith;
use crate::json::obj_lookup;
use crate::json::obj_with;
use crate::json::view_list;
use crate::json::lemma_jwith_same;
use crate::ident::id_matches;
use crate::person::PersonUpdate;
use crate::person::spec_apply_updates;
use crate::roles::spec_has_profession;
use crate::roles::professions_of;
use crate::roles::captain_role_of;

verus! {

/// Why a document operation failed: the expected sub-structure is missing or
/// has the wrong shape, or no entity matched.
#[derive(Debug)]
pub enum DocError {
    /// The document has no state section.
    MissingState,
    /// The state section has no array-shaped entity collection.
    MissingCharacters,
    /// The state section has no countable-resources record.
    MissingResources,
    /// The state section has no titan record.
    MissingTitans,
    /// The state section has no competitor record.
    MissingCompetitors,
    /// The state section's time-bonus record is not key-value shaped.
    MissingTimeBonuses,
    /// No entity matched the requested role and identifier.
    PersonNotFound(String),
    /// No record matched the requested titan identifier.
    TitanNotFound(String),
    /// No record matched the requested competitor identifier.
    CompetitorNotFound(String),
}

/// The document's state section, when present.
pub open spec fn state_of(d: JsonV) -> Option<JsonV> {
    jlookup(d, "stateJson"@)
}

/// The entity collection of the state section, when it is array-shaped.
pub open spec fn characters_of(d: JsonV) -> Option<Seq<JsonV>> {
    match state_of(d) {
        Option::Some(s) => match jlookup(s, "characters"@) {
            Option::Some(JsonV::Arr(a)) => Option::Some(a),
            _ => Option::None,
        },
        Option::None => Option::None,
    }
}

/// The document's state section.
pub fn state_json<'a>(doc: &'a Json) -> (r: Result<&'a Json, DocError>)
    ensures
        match r {
            Result::Ok(v) => state_of(doc@) == Option::Some(v@),
            Result::Err(e) => state_of(doc@) is None && e is MissingState,
        },
{
    match doc.get("stateJson") {
        Option::Some(v) => Result::Ok(v),
        Option::None => Result::Err(DocError::MissingState),
    }
}

/// The entity collection of the document's state section.
pub fn characters<'a>(doc: &'a Json) -> (r: Result<&'a Vec<Json>, DocError>)
    ensures
        match r {
            Result::Ok(v) => characters_of(doc@) == Option::Some(view_list(v@)),
            Result::Err(e) => {
                &&& characters_of(doc@) is None
                &&& (e is MissingState <==> state_of(doc@) is None)
                &&& (e is MissingState || e is MissingCharacters)
            },
        },
{
    match doc.get("stateJson") {
        Option::Some(state) => {
            match state.get("characters") {
                Option::Some(c) => {
                    match c {
                        Json::Arr(v) => Result::Ok(v),
                        _ => Result::Err(DocError::MissingCharacters),
                    }
                },
                Option::None => Result::Err(DocError::MissingCharacters),
            }
        },
        Option::None => Result::Err(DocError::MissingState),
    }
}

/// Mutable access to the document's state section.
pub fn get_state_json_mut<'a>(data: &'a mut Json) -> (r: Result<&'a mut Json, DocError>)
    ensures
        match r {
            Result::Ok(m) => {
                &&& state_of(old(data)@) == Option::Some((*m)@)
                &&& final(data)@ == jwith(old(data)@, "stateJson"@, final(m)@)
            },
            Result::Err(e) => {
                &&& e is MissingState
                &&& state_of(old(data)@) is None
                &&& final(data)@ == old(data)@
            },
        },
{
    match data.get_mut("stateJson") {
        Option::Some(m) => Result::Ok(m),
        Option::None => Result::Err(DocError::MissingState),
    }
}

/// Whether an entity satisfies the logical role and carries the identifier.
pub open spec fn person_matches(c: JsonV, p: Seq<char>, id: Seq<char>) -> bool {
    &&& spec_has_profession(c, p)
    &&& match jlookup(c, "id"@) {
        Option::Some(v) => id_matches(v, id),
        Option::None => false,
    }
}

/// Index of the first matching entity; meaningful only when one matches.
pub open spec fn first_person_idx(a: Seq<JsonV>, p: Seq<char>, id: Seq<char>) -> int
    decreases a.len(),
{
    if a.len() == 0 {
        0
    } else if person_matches(a[0], p, id) {
        0
    } else {
        1 + first_person_idx(a.drop_first(), p, id)
    }
}

pub open spec fn has_person(a: Seq<JsonV>, p: Seq<char>, id: Seq<char>) -> bool {
    exists|i: int| 0 <= i < a.len() && person_matches(a[i], p, id)
}

pub proof fn lemma_first_person_idx(a: Seq<JsonV>, p: Seq<char>, id: Seq<char>)
    requires
        has_person(a, p, id),
    ensures
        0 <= first_person_idx(a, p, id) < a.len(),
        person_matches(a[first_person_idx(a, p, id)], p, id),
        forall|j: int| 0 <= j < first_person_idx(a, p, id) ==> !person_matches(a[j], p, id),
    decreases a.len(),
{
    if a.len() > 0 && !person_matches(a[0], p, id) {
        assert(has_person(a.drop_first(), p, id)) by {
            let i = choose|i: int| 0 <= i < a.len() && person_matches(a[i], p, id);
            assert(a.drop_first()[i - 1] == a[i]);
        }
        lemma_first_person_idx(a.drop_first(), p, id);
        assert forall|j: int|
            0 <= j < first_person_idx(a, p, id) implies !person_matches(a[j], p, id) by {
            if j > 0 {
                assert(a[j] == a.drop_first()[j - 1]);
            }
        }
    }
}

pub proof fn lemma_first_person_idx_at(a: Seq<JsonV>, p: Seq<char>, id: Seq<char>, i: int)
    requires
        0 <= i < a.len(),
        person_matches(a[i], p, id),
        forall|j: int| 0 <= j < i ==> !person_matches(a[j], p, id),
    ensures
        has_person(a, p, id),
        first_person_idx(a, p, id) == i,
    decreases a.len(),
{
    if i > 0 {
        assert forall|j: int| 0 <= j < i - 1 implies !person_matches(a.drop_first()[j], p, id) by {
            assert(a.drop_first()[j] == a[j + 1]);
        }
        assert(a.drop_first()[i - 1] == a[i]);
        lemma_first_person_idx_at(a.drop_first(), p, id, i - 1);
    }
}

/// Whether one entity matches, executably.
fn person_matches_exec(c: &Json, profession: &str, person_id: &str) -> (r: bool)
    ensures
        r == person_matches(c@, profession@, person_id@),
{
    if !crate::roles::has_profession(c, profession) {
        return false;
    }
    match c.get("id") {
        Option::Some(v) => crate::ident::json_id_matches(v, person_id),
        Option::None => false,
    }
}

/// Index of the first entity matching role and identifier.
#[verifier::loop_isolation(false)]
fn find_person(chars: &Json, profession: &str, person_id: &str) -> (r: Option<usize>)
    requires
        chars@ is Arr,
    ensures
        match r {
            Option::Some(i) => {
                &&& has_person(chars@->Arr_0, profession@, person_id@)
                &&& first_person_idx(chars@->Arr_0, profession@, person_id@) == i
                &&& i < chars@->Arr_0.len()
            },
            Option::None => !has_person(chars@->Arr_0, profession@, person_id@),
        },
{
    match chars {
        Json::Arr(v) => {
            let ghost a = view_list(v@);
            proof {
                crate::json::lemma_view_list_len(v@);
            }
            let n = v.len();
            let mut i: usize = 0;
            while i < n
                invariant
                    i <= n,
                    forall|j: int|
                        0 <= j < i ==> !person_matches(a[j], profession@, person_id@),
                decreases n - i,
            {
                proof {
                    crate::json::lemma_view_list_index(v@, i as int);
                }
                if person_matches_exec(&v[i], profession, person_id) {
                    proof {
                        lemma_first_person_idx_at(a, profession@, person_id@, i as int);
                    }
                    return Option::Some(i);
                }
                i += 1;
            }
            proof {
                assert(!has_person(a, profession@, person_id@)) by {
                    if has_person(a, profession@, person_id@) {
                        let w = choose|w: int|
                            0 <= w < a.len() && person_matches(a[w], profession@, person_id@);
                    }
                }
            }
            Option::None
        },
        _ => Option::None,
    }
}

/// Snapshots of every entity satisfying the logical role, in order.
pub open spec fn filter_role(a: Seq<JsonV>, p: Seq<char>) -> Seq<JsonV>
    decreases a.len(),
{
    if a.len() == 0 {
        Seq::empty()
    } else if spec_has_profession(a.last(), p) {
        filter_role(a.drop_last(), p).push(a.last())
    } else {
        filter_role(a.drop_last(), p)
    }
}

/// Full snapshots of the entities satisfying a logical role.
#[verifier::loop_isolation(false)]
pub fn get_persons(doc: &Json, profession: &str) -> (r: Result<Vec<Json>, DocError>)
    ensures
        match r {
            Result::Ok(v) => {
                &&& characters_of(doc@) is Some
                &&& view_list(v@) == filter_role(characters_of(doc@)->Some_0, profession@)
            },
            Result::Err(e) => {
                &&& characters_of(doc@) is None
                &&& (e is MissingState <==> state_of(doc@) is None)
                &&& (e is MissingState || e is MissingCharacters)
            },
        },
{
    let chars = match characters(doc) {
        Result::Ok(v) => v,
        Result::Err(e) => {
            return Result::Err(e);
        },
    };
    let ghost a = view_list(chars@);
    proof {
        crate::json::lemma_view_list_len(chars@);
    }
    let n = chars.len();
    let mut out: Vec<Json> = Vec::new();
    let mut i: usize = 0;
    while i < n
        invariant
            i <= n,
            view_list(out@) == filter_role(a.take(i as int), profession@),
        decreases n - i,
    {
        proof {
            crate::json::lemma_view_list_index(chars@, i as int);
            assert(a.take(i + 1).drop_last() =~= a.take(i as int));
            assert(a.take(i + 1).last() == a[i as int]);
        }
        let c = &chars[i];
        if crate::roles::has_profession(c, profession) {
            let copy = c.deep_copy();
            proof {
                crate::json::lemma_view_list_push(out@, copy);
            }
            out.push(copy);
        }
        i += 1;
    }
    proof {
        assert(a.take(n as int) =~= a);
    }
    Result::Ok(out)
}

/// The role key a skill write resolves to: for "Executive", the first captain
/// alias present on the entity, with the literal name as fallback; any other
/// role name is used as given.
pub open spec fn resolved_role(c: JsonV, p: Seq<char>) -> Seq<char> {
    if p == "Executive"@ {
        match professions_of(c) {
            Option::Some(o) => match captain_role_of(o) {
                Option::Some(alias) => alias,
                Option::None => p,
            },
            Option::None => p,
        }
    } else {
        p
    }
}

/// The document after a matched entity is patched in place: only the state
/// section's entity collection changes, and in it only the first matching
/// entity, which receives the sparse update under the resolved role key.
pub open spec fn spec_update_person(
    d: JsonV,
    p: Seq<char>,
    id: Seq<char>,
    u: PersonUpdate,
) -> JsonV {
    let s = state_of(d)->Some_0;
    let a = characters_of(d)->Some_0;
    let i = first_person_idx(a, p, id);
    let c = a[i];
    let c2 = spec_apply_updates(c, resolved_role(c, p), u);
    jwith(d, "stateJson"@, jwith(s, "characters"@, JsonV::Arr(a.update(i, c2))))
}

/// Patch one entity: locate it by logical role and identifier, resolve the
/// role key, and apply the sparse update in place. A failed lookup leaves the
/// document untouched.
pub fn update_person(
    doc: &mut Json,
    profession: &str,
    person_id: &str,
    update: &PersonUpdate,
) -> (r: Result<(), DocError>)
    ensures
        match r {
            Result::Ok(()) => {
                &&& characters_of(old(doc)@) is Some
                &&& has_person(characters_of(old(doc)@)->Some_0, profession@, person_id@)
                &&& final(doc)@ == spec_update_person(
                    old(doc)@,
                    profession@,
                    person_id@,
                    *update,
                )
            },
            Result::Err(e) => {
                &&& final(doc)@ == old(doc)@
                &&& match e {
                    DocError::MissingState => state_of(old(doc)@) is None,
                    DocError::MissingCharacters => state_of(old(doc)@) is Some
                        && characters_of(old(doc)@) is None,
                    DocError::PersonNotFound(missing) => characters_of(old(doc)@) is Some
                        && !has_person(
                        characters_of(old(doc)@)->Some_0,
                        profession@,
                        person_id@,
                    ) && missing@ == person_id@,
                    _ => false,
                }
            },
        },
{
    let ghost d0 = doc@;
    match doc.get_mut("stateJson") {
        Option::Some(state) => {
            let ghost s0 = (*state)@;
            match state.get_mut("characters") {
                Option::Some(chars) => {
                    let ghost c0 = (*chars)@;
                    if !chars.is_array() {
                        proof {
                            lemma_jwith_same(s0, "characters"@, c0);
                            lemma_jwith_same(d0, "stateJson"@, s0);
                        }
                        return Result::Err(DocError::MissingCharacters);
                    }
                    match find_person(chars, profession, person_id) {
                        Option::Some(i) => {
                            proof {
                                lemma_first_person_idx(c0->Arr_0, profession@, person_id@);
                            }
                            let alias_opt: Option<&'static str> = match chars.arr_get(i) {
                                Option::Some(c) => crate::roles::get_captain_profession(c),
                                Option::None => Option::None,
                            };
                            let actual: &str = if crate::json::str_eq(profession, "Executive") {
                                match alias_opt {
                                    Option::Some(alias) => alias,
                                    Option::None => profession,
                                }
                            } else {
                                profession
                            };
                            match chars.arr_get_mut(i) {
                                Option::Some(person) => {
                                    crate::person::apply_updates(person, actual, update);
                                },
                                Option::None => {
                                    proof {
                                        assert(false);
                                    }
                                },
                            }
                            Result::Ok(())
                        },
                        Option::None => {
                            proof {
                                lemma_jwith_same(s0, "characters"@, c0);
                                lemma_jwith_same(d0, "stateJson"@, s0);
                            }
                            Result::Err(DocError::PersonNotFound(person_id.to_owned()))
                        },
                    }
                },
                Option::None => {
                    proof {
                        lemma_jwith_same(d0, "stateJson"@, s0);
                    }
                    Result::Err(DocError::MissingCharacters)
                },
            }
        },
        Option::None => Result::Err(DocError::MissingState),
    }
}

/// A sparse update for the player studio's top-level scalars. The reputation
/// value arrives already rendered, exactly as it will be stored.
pub struct StudioUpdate {
    pub budget: Option<i64>,
    pub cash: Option<i64>,
    pub reputation: Option<String>,
    pub influence: Option<i64>,
}

/// What applying a studio update to the state section yields. On a state
/// section that is not key-value shaped nothing changes.
pub open spec fn spec_update_studio(s: JsonV, u: StudioUpdate) -> JsonV {
    let s1 = match u.budget {
        Option::Some(b) => jwith(s, "budget"@, JsonV::Int(b as int)),
        Option::None => s,
    };
    let s2 = match u.cash {
        Option::Some(c) => jwith(s1, "cash"@, JsonV::Int(c as int)),
        Option::None => s1,
    };
    let s3 = match u.reputation {
        Option::Some(t) => jwith(s2, "reputation"@, JsonV::Str(t@)),
        Option::None => s2,
    };
    match u.influence {
        Option::Some(i) => jwith(s3, "influence"@, JsonV::Int(i as int)),
        Option::None => s3,
    }
}

/// Apply a sparse studio update to the state section.
pub fn update_studio(doc: &mut Json, update: &StudioUpdate) -> (r: Result<(), DocError>)
    ensures
        match r {
            Result::Ok(()) => {
                &&& state_of(old(doc)@) is Some
                &&& final(doc)@ == jwith(
                    old(doc)@,
                    "stateJson"@,
                    spec_update_studio(state_of(old(doc)@)->Some_0, *update),
                )
            },
            Result::Err(e) => {
                &&& e is MissingState
                &&& state_of(old(doc)@) is None
                &&& final(doc)@ == old(doc)@
            },
        },
{
    let ghost d0 = doc@;
    match doc.get_mut("stateJson") {
        Option::Some(state) => {
            let ghost s0 = (*state)@;
            if state.is_object() {
                if let Option::Some(b) = update.budget {
                    state.set("budget", Json::Int(b));
                }
                if let Option::Some(c) = update.cash {
                    state.set("cash", Json::Int(c));
                }
                if let Option::Some(t) = &update.reputation {
                    state.set("reputation", Json::Str(t.clone()));
                }
                if let Option::Some(i) = update.influence {
                    state.set("influence", Json::Int(i));
                }
            } else {
                proof {
                    lemma_jwith_same(d0, "stateJson"@, s0);
                }
            }
            Result::Ok(())
        },
        Option::None => Result::Err(DocError::MissingState),
    }
}

/// The countable-resources record of the state section, when it is key-value
/// shaped.
pub open spec fn resources_of(d: JsonV) -> Option<Seq<(Seq<char>, JsonV)>> {
    match state_of(d) {
        Option::Some(s) => match jlookup(s, "otherCountableResources"@) {
            Option::Some(JsonV::Obj(o)) => Option::Some(o),
            _ => Option::None,
        },
        Option::None => Option::None,
    }
}

/// The integer-valued entries of the resources record, in stored order, with
/// the serializer's "$type" marker key excluded.
pub open spec fn resource_entries(o: Seq<(Seq<char>, JsonV)>) -> Seq<(Seq<char>, int)>
    decreases o.len(),
{
    if o.len() == 0 {
        Seq::empty()
    } else {
        let rest = resource_entries(o.drop_last());
        let e = o.last();
        if e.0 != "$type"@ && e.1 is Int {
            rest.push((e.0, e.1->Int_0))
        } else {
            rest
        }
    }
}

/// The integer-valued countable resources, keyed by resource code.
#[verifier::loop_isolation(false)]
pub fn get_resources(doc: &Json) -> (r: Result<Vec<(String, i64)>, DocError>)
    ensures
        match r {
            Result::Ok(v) => {
                &&& resources_of(doc@) is Some
                &&& v@.len() == resource_entries(resources_of(doc@)->Some_0).len()
                &&& forall|j: int|
                    0 <= j < v@.len() ==> (#[trigger] v@[j]).0@ == resource_entries(
                        resources_of(doc@)->Some_0,
                    )[j].0 && v@[j].1 as int == resource_entries(resources_of(doc@)->Some_0)[j].1
            },
            Result::Err(e) => {
                &&& resources_of(doc@) is None
                &&& (e is MissingState <==> state_of(doc@) is None)
                &&& (e is MissingState || e is MissingResources)
            },
        },
{
    let state = match state_json(doc) {
        Result::Ok(s) => s,
        Result::Err(e) => {
            return Result::Err(e);
        },
    };
    let res = match state.get("otherCountableResources") {
        Option::Some(m) => m,
        Option::None => {
            return Result::Err(DocError::MissingResources);
        },
    };
    match res {
        Json::Obj(fields) => {
            let ghost o = crate::json::view_fields(fields@);
            proof {
                crate::json::lemma_view_fields_len(fields@);
            }
            let n = fields.len();
            let mut out: Vec<(String, i64)> = Vec::new();
            let mut i: usize = 0;
            while i < n
                invariant
                    i <= n,
                    out@.len() == resource_entries(o.take(i as int)).len(),
                    forall|j: int|
                        0 <= j < out@.len() ==> (#[trigger] out@[j]).0@ == resource_entries(
                            o.take(i as int),
                        )[j].0 && out@[j].1 as int == resource_entries(o.take(i as int))[j].1,
                decreases n - i,
            {
                proof {
                    crate::json::lemma_view_fields_index(fields@, i as int);
                    assert(o.take(i + 1).drop_last() =~= o.take(i as int));
                    assert(o.take(i + 1).last() == o[i as int]);
                }
                let e = &fields[i];
                if !crate::json::str_eq(e.0.as_str(), "$type") {
                    match e.1.as_int() {
                        Option::Some(x) => {
                            out.push((e.0.clone(), x));
                        },
                        Option::None => {},
                    }
                }
                i += 1;
            }
            proof {
                assert(o.take(n as int) =~= o);
            }
            Result::Ok(out)
        },
        _ => Result::Err(DocError::MissingResources),
    }
}

/// Overwrite (or create) one countable resource with an integer value.
pub fn update_resource(doc: &mut Json, resource_id: &str, value: i64) -> (r: Result<
    (),
    DocError,
>)
    ensures
        match r {
            Result::Ok(()) => {
                &&& resources_of(old(doc)@) is Some
                &&& final(doc)@ == jwith(
                    old(doc)@,
                    "stateJson"@,
                    jwith(
                        state_of(old(doc)@)->Some_0,
                        "otherCountableResources"@,
                        JsonV::Obj(
                            obj_with(
                                resources_of(old(doc)@)->Some_0,
                                resource_id@,
                                JsonV::Int(value as int),
                            ),
                        ),
                    ),
                )
            },
            Result::Err(e) => {
                &&& final(doc)@ == old(doc)@
                &&& resources_of(old(doc)@) is None
                &&& (e is MissingState <==> state_of(old(doc)@) is None)
                &&& (e is MissingState || e is MissingResources)
            },
        },
{
    let ghost d0 = doc@;
    match doc.get_mut("stateJson") {
        Option::Some(state) => {
            let ghost s0 = (*state)@;
            match state.get_mut("otherCountableResources") {
                Option::Some(m) => {
                    let ghost m0 = (*m)@;
                    if m.is_object() {
                        m.set(resource_id, Json::Int(value));
                        Result::Ok(())
                    } else {
                        proof {
                            lemma_jwith_same(s0, "otherCountableResources"@, m0);
                            lemma_jwith_same(d0, "stateJson"@, s0);
                        }
                        Result::Err(DocError::MissingResources)
                    }
                },
                Option::None => {
                    proof {
                        lemma_jwith_same(d0, "stateJson"@, s0);
                    }
                    Result::Err(DocError::MissingResources)
                },
            }
        },
        Option::None => Result::Err(DocError::MissingState),
    }
}

/// The titan record of the state section, when it is key-value shaped.
pub open spec fn titans_of(d: JsonV) -> Option<Seq<(Seq<char>, JsonV)>> {
    match state_of(d) {
        Option::Some(s) => match jlookup(s, "openedTitans"@) {
            Option::Some(JsonV::Obj(o)) => Option::Some(o),
            _ => Option::None,
        },
        Option::None => Option::None,
    }
}

/// The titan entries carrying an integer second component, in stored order.
pub open spec fn titan_entries(o: Seq<(Seq<char>, JsonV)>) -> Seq<(Seq<char>, int)>
    decreases o.len(),
{
    if o.len() == 0 {
        Seq::empty()
    } else {
        let rest = titan_entries(o.drop_last());
        let e = o.last();
        match jlookup(e.1, "Item2"@) {
            Option::Some(JsonV::Int(x)) => rest.push((e.0, x)),
            _ => rest,
        }
    }
}

/// The opened titans' integer levels, keyed by titan code.
#[verifier::loop_isolation(false)]
pub fn get_titans(doc: &Json) -> (r: Result<Vec<(String, i64)>, DocError>)
    ensures
        match r {
            Result::Ok(v) => {
                &&& titans_of(doc@) is Some
                &&& v@.len() == titan_entries(titans_of(doc@)->Some_0).len()
                &&& forall|j: int|
                    0 <= j < v@.len() ==> (#[trigger] v@[j]).0@ == titan_entries(
                        titans_of(doc@)->Some_0,
                    )[j].0 && v@[j].1 as int == titan_entries(titans_of(doc@)->Some_0)[j].1
            },
            Result::Err(e) => {
                &&& titans_of(doc@) is None
                &&& (e is MissingState <==> state_of(doc@) is None)
                &&& (e is MissingState || e is MissingTitans)
            },
        },
{
    let state = match state_json(doc) {
        Result::Ok(s) => s,
        Result::Err(e) => {
            return Result::Err(e);
        },
    };
    let opened = match state.get("openedTitans") {
        Option::Some(m) => m,
        Option::None => {
            return Result::Err(DocError::MissingTitans);
        },
    };
    match opened {
        Json::Obj(fields) => {
            let ghost o = crate::json::view_fields(fields@);
            proof {
                crate::json::lemma_view_fields_len(fields@);
            }
            let n = fields.len();
            let mut out: Vec<(String, i64)> = Vec::new();
            let mut i: usize = 0;
            while i < n
                invariant
                    i <= n,
                    out@.len() == titan_entries(o.take(i as int)).len(),
                    forall|j: int|
                        0 <= j < out@.len() ==> (#[trigger] out@[j]).0@ == titan_entries(
                            o.take(i as int),
                        )[j].0 && out@[j].1 as int == titan_entries(o.take(i as int))[j].1,
                decreases n - i,
            {
                proof {
                    crate::json::lemma_view_fields_index(fields@, i as int);
                    assert(o.take(i + 1).drop_last() =~= o.take(i as int));
                    assert(o.take(i + 1).last() == o[i as int]);
                }
                let e = &fields[i];
                match e.1.get("Item2") {
                    Option::Some(v) => {
                        match v.as_int() {
                            Option::Some(x) => {
                                out.push((e.0.clone(), x));
                            },
                            Option::None => {},
                        }
                    },
                    Option::None => {},
                }
                i += 1;
            }
            proof {
                assert(o.take(n as int) =~= o);
            }
            Result::Ok(out)
        },
        _ => Result::Err(DocError::MissingTitans),
    }
}

/// Overwrite the integer second component of one opened titan.
pub fn update_titan(doc: &mut Json, titan_id: &str, value: i64) -> (r: Result<(), DocError>)
    ensures
        match r {
            Result::Ok(()) => {
                &&& titans_of(old(doc)@) is Some
                &&& obj_lookup(titans_of(old(doc)@)->Some_0, titan_id@) is Some
                &&& {
                    let o = titans_of(old(doc)@)->Some_0;
                    let t = obj_lookup(o, titan_id@)->Some_0;
                    final(doc)@ == jwith(
                        old(doc)@,
                        "stateJson"@,
                        jwith(
                            state_of(old(doc)@)->Some_0,
                            "openedTitans"@,
                            JsonV::Obj(
                                obj_with(o, titan_id@, jwith(t, "Item2"@, JsonV::Int(value as int))),
                            ),
                        ),
                    )
                }
            },
            Result::Err(e) => {
                &&& final(doc)@ == old(doc)@
                &&& match e {
                    DocError::MissingState => state_of(old(doc)@) is None,
                    DocError::MissingTitans => state_of(old(doc)@) is Some && titans_of(
                        old(doc)@,
                    ) is None,
                    DocError::TitanNotFound(missing) => titans_of(old(doc)@) is Some
                        && obj_lookup(titans_of(old(doc)@)->Some_0, titan_id@) is None
                        && missing@ == titan_id@,
                    _ => false,
                }
            },
        },
{
    let ghost d0 = doc@;
    match doc.get_mut("stateJson") {
        Option::Some(state) => {
            let ghost s0 = (*state)@;
            match state.get_mut("openedTitans") {
                Option::Some(m) => {
                    let ghost m0 = (*m)@;
                    if m.is_object() {
                        if m.has_key(titan_id) {
                            match m.get_mut(titan_id) {
                                Option::Some(titan) => {
                                    if titan.is_object() {
                                        titan.set("Item2", Json::Int(value));
                                    } else {
                                        proof {
                                            lemma_jwith_same(m0, titan_id@, (*titan)@);
                                            lemma_jwith_same(s0, "openedTitans"@, m0);
                                        }
                                    }
                                },
                                Option::None => {
                                    proof {
                                        assert(false);
                                    }
                                },
                            }
                            Result::Ok(())
                        } else {
                            proof {
                                lemma_jwith_same(s0, "openedTitans"@, m0);
                                lemma_jwith_same(d0, "stateJson"@, s0);
                            }
                            Result::Err(DocError::TitanNotFound(titan_id.to_owned()))
                        }
                    } else {
                        proof {
                            lemma_jwith_same(s0, "openedTitans"@, m0);
                            lemma_jwith_same(d0, "stateJson"@, s0);
                        }
                        Result::Err(DocError::MissingTitans)
                    }
                },
                Option::None => {
                    proof {
                        lemma_jwith_same(d0, "stateJson"@, s0);
                    }
                    Result::Err(DocError::MissingTitans)
                },
            }
        },
        Option::None => Result::Err(DocError::MissingState),
    }
}

/// The time-bonus record of the state section, when it is key-value shaped.
pub open spec fn time_bonuses_of(d: JsonV) -> Option<Seq<(Seq<char>, JsonV)>> {
    match state_of(d) {
        Option::Some(s) => match jlookup(s, "timeBonuses"@) {
            Option::Some(JsonV::Obj(o)) => Option::Some(o),
            _ => Option::None,
        },
        Option::None => Option::None,
    }
}

/// The integer-valued time-bonus entries, in stored order.
pub open spec fn bonus_entries(o: Seq<(Seq<char>, JsonV)>) -> Seq<(Seq<char>, int)>
    decreases o.len(),
{
    if o.len() == 0 {
        Seq::empty()
    } else {
        let rest = bonus_entries(o.drop_last());
        let e = o.last();
        if e.1 is Int {
            rest.push((e.0, e.1->Int_0))
        } else {
            rest
        }
    }
}

/// The per-department time bonuses; an absent or malformed record reads as
/// empty.
#[verifier::loop_isolation(false)]
pub fn get_time_bonuses(doc: &Json) -> (r: Result<Vec<(String, i64)>, DocError>)
    ensures
        match r {
            Result::Ok(v) => {
                &&& state_of(doc@) is Some
                &&& match time_bonuses_of(doc@) {
                    Option::Some(o) => {
                        &&& v@.len() == bonus_entries(o).len()
                        &&& forall|j: int|
                            0 <= j < v@.len() ==> (#[trigger] v@[j]).0@ == bonus_entries(o)[j].0
                                && v@[j].1 as int == bonus_entries(o)[j].1
                    },
                    Option::None => v@.len() == 0,
                }
            },
            Result::Err(e) => e is MissingState && state_of(doc@) is None,
        },
{
    let state = match state_json(doc) {
        Result::Ok(s) => s,
        Result::Err(e) => {
            return Result::Err(e);
        },
    };
    let bonuses = match state.get("timeBonuses") {
        Option::Some(m) => m,
        Option::None => {
            return Result::Ok(Vec::new());
        },
    };
    match bonuses {
        Json::Obj(fields) => {
            let ghost o = crate::json::view_fields(fields@);
            proof {
                crate::json::lemma_view_fields_len(fields@);
            }
            let n = fields.len();
            let mut out: Vec<(String, i64)> = Vec::new();
            let mut i: usize = 0;
            while i < n
                invariant
                    i <= n,
                    out@.len() == bonus_entries(o.take(i as int)).len(),
                    forall|j: int|
                        0 <= j < out@.len() ==> (#[trigger] out@[j]).0@ == bonus_entries(
                            o.take(i as int),
                        )[j].0 && out@[j].1 as int == bonus_entries(o.take(i as int))[j].1,
                decreases n - i,
            {
                proof {
                    crate::json::lemma_view_fields_index(fields@, i as int);
                    assert(o.take(i + 1).drop_last() =~= o.take(i as int));
                    assert(o.take(i + 1).last() == o[i as int]);
                }
                let e = &fields[i];
                match e.1.as_int() {
                    Option::Some(x) => {
                        out.push((e.0.clone(), x));
                    },
                    Option::None => {},
                }
                i += 1;
            }
            proof {
                assert(o.take(n as int) =~= o);
            }
            Result::Ok(out)
        },
        _ => Result::Ok(Vec::new()),
    }
}

/// The time-bonus record after one department's bonus is set, or removed when
/// the value is zero.
pub open spec fn spec_time_bonus_map(
    o: Seq<(Seq<char>, JsonV)>,
    dept: Seq<char>,
    value: int,
) -> Seq<(Seq<char>, JsonV)> {
    if value == 0 {
        crate::json::obj_without(o, dept)
    } else {
        obj_with(o, dept, JsonV::Int(value))
    }
}

/// Set one department's time bonus; a zero value removes the entry. A missing
/// record is created first.
pub fn update_time_bonus(doc: &mut Json, department: &str, value: i64) -> (r: Result<
    (),
    DocError,
>)
    ensures
        match r {
            Result::Ok(()) => {
                &&& state_of(old(doc)@) is Some
                &&& {
                    let s0 = state_of(old(doc)@)->Some_0;
                    let s1 = if jlookup(s0, "timeBonuses"@) is None && s0 is Obj {
                        jwith(s0, "timeBonuses"@, JsonV::Obj(Seq::empty()))
                    } else {
                        s0
                    };
                    match jlookup(s1, "timeBonuses"@) {
                        Option::Some(JsonV::Obj(o)) => final(doc)@ == jwith(
                            old(doc)@,
                            "stateJson"@,
                            jwith(
                                s1,
                                "timeBonuses"@,
                                JsonV::Obj(spec_time_bonus_map(o, department@, value as int)),
                            ),
                        ),
                        _ => false,
                    }
                }
            },
            Result::Err(e) => {
                &&& final(doc)@ == old(doc)@
                &&& match e {
                    DocError::MissingState => state_of(old(doc)@) is None,
                    DocError::MissingTimeBonuses => {
                        let s0 = state_of(old(doc)@)->Some_0;
                        &&& state_of(old(doc)@) is Some
                        &&& !(jlookup(s0, "timeBonuses"@) matches Option::Some(t) && t is Obj)
                        &&& !(jlookup(s0, "timeBonuses"@) is None && s0 is Obj)
                    },
                    _ => false,
                }
            },
        },
{
    let ghost d0 = doc@;
    match doc.get_mut("stateJson") {
        Option::Some(state) => {
            let ghost s0 = (*state)@;
            let missing = match state.get("timeBonuses") {
                Option::Some(_) => false,
                Option::None => true,
            };
            if missing && state.is_object() {
                let empty: Vec<(String, Json)> = Vec::new();
                proof {
                    assert(crate::json::view_fields(empty@) =~= Seq::<
                        (Seq<char>, JsonV),
                    >::empty());
                    crate::json::lemma_jwith_lookup(s0, "timeBonuses"@, JsonV::Obj(Seq::empty()));
                }
                state.set("timeBonuses", Json::Obj(empty));
            }
            let ghost s1 = (*state)@;
            match state.get_mut("timeBonuses") {
                Option::Some(m) => {
                    let ghost m0 = (*m)@;
                    if m.is_object() {
                        if value == 0 {
                            m.remove_key(department);
                        } else {
                            m.set(department, Json::Int(value));
                        }
                        Result::Ok(())
                    } else {
                        proof {
                            lemma_jwith_same(s1, "timeBonuses"@, m0);
                            lemma_jwith_same(d0, "stateJson"@, s1);
                        }
                        Result::Err(DocError::MissingTimeBonuses)
                    }
                },
                Option::None => {
                    proof {
                        lemma_jwith_same(d0, "stateJson"@, s1);
                    }
                    Result::Err(DocError::MissingTimeBonuses)
                },
            }
        },
        Option::None => Result::Err(DocError::MissingState),
    }
}

/// One competitor studio's projected scalars, with absent fields defaulted.
pub struct CompetitorStudio {
    pub id: String,
    pub last_budget: i64,
    pub income_this_month: i64,
    pub ip: i64,
    pub is_dead: bool,
    pub budget_cheats_remaining: i64,
}

/// A sparse update for one competitor studio.
pub struct CompetitorUpdate {
    pub last_budget: Option<i64>,
    pub ip: Option<i64>,
    pub budget_cheats_remaining: Option<i64>,
}

/// The integer a field holds, or a default when absent or not an integer.
pub open spec fn int_field_or(v: JsonV, k: Seq<char>, d: int) -> int {
    match jlookup(v, k) {
        Option::Some(JsonV::Int(i)) => i,
        _ => d,
    }
}

/// The boolean a field holds, or a default when absent or not a boolean.
pub open spec fn bool_field_or(v: JsonV, k: Seq<char>, d: bool) -> bool {
    match jlookup(v, k) {
        Option::Some(JsonV::Bool(b)) => b,
        _ => d,
    }
}

/// The competitor record of the state section, when it is key-value shaped.
pub open spec fn competitors_of(d: JsonV) -> Option<Seq<(Seq<char>, JsonV)>> {
    match state_of(d) {
        Option::Some(s) => match jlookup(s, "competitorStudios"@) {
            Option::Some(JsonV::Obj(o)) => Option::Some(o),
            _ => Option::None,
        },
        Option::None => Option::None,
    }
}

/// The integer a value's field holds when it is an integer, else a default.
fn read_int_field(v: &Json, key: &str, d: i64) -> (r: i64)
    ensures
        r as int == int_field_or(v@, key@, d as int),
{
    match v.get(key) {
        Option::Some(f) => match f.as_int() {
            Option::Some(x) => x,
            Option::None => d,
        },
        Option::None => d,
    }
}

/// The boolean a value's field holds when it is a boolean, else a default.
fn read_bool_field(v: &Json, key: &str, d: bool) -> (r: bool)
    ensures
        r == bool_field_or(v@, key@, d),
{
    match v.get(key) {
        Option::Some(f) => match f {
            Json::Bool(b) => *b,
            _ => d,
        },
        Option::None => d,
    }
}

/// Snapshots of every competitor studio's scalars, in stored order.
#[verifier::loop_isolation(false)]
pub fn get_competitors(doc: &Json) -> (r: Result<Vec<CompetitorStudio>, DocError>)
    ensures
        match r {
            Result::Ok(v) => {
                &&& competitors_of(doc@) is Some
                &&& v@.len() == competitors_of(doc@)->Some_0.len()
                &&& forall|j: int|
                    0 <= j < v@.len() ==> {
                        let e = competitors_of(doc@)->Some_0[j];
                        &&& (#[trigger] v@[j]).id@ == e.0
                        &&& v@[j].last_budget as int == int_field_or(e.1, "lastBudget"@, 0)
                        &&& v@[j].income_this_month as int == int_field_or(
                            e.1,
                            "incomeThisMonth"@,
                            0,
                        )
                        &&& v@[j].ip as int == int_field_or(e.1, "ip"@, 0)
                        &&& v@[j].is_dead == bool_field_or(e.1, "isDead"@, false)
                        &&& v@[j].budget_cheats_remaining as int == int_field_or(
                            e.1,
                            "budgetCheatsRemaining"@,
                            0,
                        )
                    }
            },
            Result::Err(e) => {
                &&& competitors_of(doc@) is None
                &&& (e is MissingState <==> state_of(doc@) is None)
                &&& (e is MissingState || e is MissingCompetitors)
            },
        },
{
    let state = match state_json(doc) {
        Result::Ok(s) => s,
        Result::Err(e) => {
            return Result::Err(e);
        },
    };
    let comp = match state.get("competitorStudios") {
        Option::Some(m) => m,
        Option::None => {
            return Result::Err(DocError::MissingCompetitors);
        },
    };
    match comp {
        Json::Obj(fields) => {
            let ghost o = crate::json::view_fields(fields@);
            proof {
                crate::json::lemma_view_fields_len(fields@);
            }
            let n = fields.len();
            let mut out: Vec<CompetitorStudio> = Vec::new();
            let mut i: usize = 0;
            while i < n
                invariant
                    i <= n,
                    out@.len() == i,
                    forall|j: int|
                        0 <= j < i ==> {
                            let e = o[j];
                            &&& (#[trigger] out@[j]).id@ == e.0
                            &&& out@[j].last_budget as int == int_field_or(e.1, "lastBudget"@, 0)
                            &&& out@[j].income_this_month as int == int_field_or(
                                e.1,
                                "incomeThisMonth"@,
                                0,
                            )
                            &&& out@[j].ip as int == int_field_or(e.1, "ip"@, 0)
                            &&& out@[j].is_dead == bool_field_or(e.1, "isDead"@, false)
                            &&& out@[j].budget_cheats_remaining as int == int_field_or(
                                e.1,
                                "budgetCheatsRemaining"@,
                                0,
                            )
                        },
                decreases n - i,
            {
                proof {
                    crate::json::lemma_view_fields_index(fields@, i as int);
                }
                let e = &fields[i];
                let studio = CompetitorStudio {
                    id: e.0.clone(),
                    last_budget: read_int_field(&e.1, "lastBudget", 0),
                    income_this_month: read_int_field(&e.1, "incomeThisMonth", 0),
                    ip: read_int_field(&e.1, "ip", 0),
                    is_dead: read_bool_field(&e.1, "isDead", false),
                    budget_cheats_remaining: read_int_field(&e.1, "budgetCheatsRemaining", 0),
                };
                out.push(studio);
                i += 1;
            }
            Result::Ok(out)
        },
        _ => Result::Err(DocError::MissingCompetitors),
    }
}

/// One competitor record after its sparse update, field by field.
pub open spec fn spec_update_competitor(st: JsonV, u: CompetitorUpdate) -> JsonV {
    let s1 = match u.last_budget {
        Option::Some(v) => jwith(st, "lastBudget"@, JsonV::Int(v as int)),
        Option::None => st,
    };
    let s2 = match u.ip {
        Option::Some(v) => jwith(s1, "ip"@, JsonV::Int(v as int)),
        Option::None => s1,
    };
    match u.budget_cheats_remaining {
        Option::Some(v) => jwith(s2, "budgetCheatsRemaining"@, JsonV::Int(v as int)),
        Option::None => s2,
    }
}

/// Apply a sparse update to one competitor studio.
pub fn update_competitor(doc: &mut Json, competitor_id: &str, update: &CompetitorUpdate) -> (r:
    Result<(), DocError>)
    ensures
        match r {
            Result::Ok(()) => {
                &&& competitors_of(old(doc)@) is Some
                &&& obj_lookup(competitors_of(old(doc)@)->Some_0, competitor_id@) is Some
                &&& {
                    let o = competitors_of(old(doc)@)->Some_0;
                    let st = obj_lookup(o, competitor_id@)->Some_0;
                    final(doc)@ == jwith(
                        old(doc)@,
                        "stateJson"@,
                        jwith(
                            state_of(old(doc)@)->Some_0,
                            "competitorStudios"@,
                            JsonV::Obj(
                                obj_with(o, competitor_id@, spec_update_competitor(st, *update)),
                            ),
                        ),
                    )
                }
            },
            Result::Err(e) => {
                &&& final(doc)@ == old(doc)@
                &&& match e {
                    DocError::MissingState => state_of(old(doc)@) is None,
                    DocError::MissingCompetitors => state_of(old(doc)@) is Some && competitors_of(
                        old(doc)@,
                    ) is None,
                    DocError::CompetitorNotFound(missing) => competitors_of(old(doc)@) is Some
                        && obj_lookup(
                        competitors_of(old(doc)@)->Some_0,
                        competitor_id@,
                    ) is None && missing@ == competitor_id@,
                    _ => false,
                }
            },
        },
{
    let ghost d0 = doc@;
    match doc.get_mut("stateJson") {
        Option::Some(state) => {
            let ghost s0 = (*state)@;
            match state.get_mut("competitorStudios") {
                Option::Some(m) => {
                    let ghost m0 = (*m)@;
                    if m.is_object() {
                        if m.has_key(competitor_id) {
                            match m.get_mut(competitor_id) {
                                Option::Some(studio) => {
                                    let ghost st0 = (*studio)@;
                                    if studio.is_object() {
                                        if let Option::Some(v) = update.last_budget {
                                            studio.set("lastBudget", Json::Int(v));
                                        }
                                        if let Option::Some(v) = update.ip {
                                            studio.set("ip", Json::Int(v));
                                        }
                                        if let Option::Some(v) = update.budget_cheats_remaining {
                                            studio.set("budgetCheatsRemaining", Json::Int(v));
                                        }
                                    } else {
                                        proof {
                                            lemma_jwith_same(m0, competitor_id@, st0);
                                            lemma_jwith_same(s0, "competitorStudios"@, m0);
                                        }
                                    }
                                },
                                Option::None => {
                                    proof {
                                        assert(false);
                                    }
                                },
                            }
                            Result::Ok(())
                        } else {
                            proof {
                                lemma_jwith_same(s0, "competitorStudios"@, m0);
                                lemma_jwith_same(d0, "stateJson"@, s0);
                            }
                            Result::Err(DocError::CompetitorNotFound(competitor_id.to_owned()))
                        }
                    } else {
                        proof {
                            lemma_jwith_same(s0, "competitorStudios"@, m0);
                            lemma_jwith_same(d0, "stateJson"@, s0);
                        }
                        Result::Err(DocError::MissingCompetitors)
                    }
                },
                Option::None => {
                    proof {
                        lemma_jwith_same(d0, "stateJson"@, s0);
                    }
                    Result::Err(DocError::MissingCompetitors)
                },
            }
        },
        Option::None => Result::Err(DocError::MissingState),
    }
}

/// The string a field holds, or a default when absent or not a string.
pub open spec fn str_field_or(v: JsonV, k: Seq<char>, d: Seq<char>) -> Seq<char> {
    match jlookup(v, k) {
        Option::Some(JsonV::Str(t)) => t,
        _ => d,
    }
}

/// The decimal rendering under which a reputation value is reported: integers
/// in canonical decimal form, carried renderings and strings as stored, and
/// zero for anything else.
pub open spec fn reputation_repr(s: JsonV) -> Seq<char> {
    match jlookup(s, "reputation"@) {
        Option::Some(JsonV::Int(i)) => crate::num::dec_int(i),
        Option::Some(JsonV::Num(t)) => t,
        Option::Some(JsonV::Str(t)) => t,
        _ => "0"@,
    }
}

/// The number of movies: the length of the state section's movie array, zero
/// when absent or malformed.
pub open spec fn movies_count_of(s: JsonV) -> int {
    match jlookup(s, "movies"@) {
        Option::Some(JsonV::Arr(a)) => a.len() as int,
        _ => 0,
    }
}

/// A read-only summary of a loaded document: the current date, the player
/// studio, per-role entity counts, and the studio's top-level scalars.
pub struct SaveInfo {
    pub current_date: String,
    pub player_studio_name: String,
    pub actors_count: usize,
    pub directors_count: usize,
    pub producers_count: usize,
    pub writers_count: usize,
    pub editors_count: usize,
    pub composers_count: usize,
    pub cinematographers_count: usize,
    pub agents_count: usize,
    pub dept_heads_count: usize,
    pub executives_count: usize,
    pub movies_count: usize,
    pub studios_count: usize,
    pub budget: i64,
    pub cash: i64,
    pub reputation: String,
    pub influence: i64,
    pub studio_logo_id: i64,
}

/// The string a value's field holds when it is a string, else a default.
fn read_str_field(v: &Json, key: &str, d: &str) -> (r: String)
    ensures
        r@ == str_field_or(v@, key@, d@),
{
    match v.get(key) {
        Option::Some(f) => match f.as_str() {
            Option::Some(t) => t.to_owned(),
            Option::None => d.to_owned(),
        },
        Option::None => d.to_owned(),
    }
}

/// Summarize a loaded document for display.
pub fn summarize(doc: &Json) -> (r: Result<SaveInfo, DocError>)
    ensures
        match r {
            Result::Ok(info) => {
                &&& state_of(doc@) is Some
                &&& characters_of(doc@) is Some
                &&& {
                    let s = state_of(doc@)->Some_0;
                    let chars = characters_of(doc@)->Some_0;
                    &&& info.current_date@ == crate::date::spec_current_date(
                        str_field_or(s, "timePassed"@, "0.00:00:00"@),
                    )
                    &&& info.player_studio_name@ == str_field_or(
                        s,
                        "studioName"@,
                        "Player Studio"@,
                    )
                    &&& info.actors_count == crate::roles::count_role(chars, "Actor"@)
                    &&& info.directors_count == crate::roles::count_role(chars, "Director"@)
                    &&& info.producers_count == crate::roles::count_role(chars, "Producer"@)
                    &&& info.writers_count == crate::roles::count_role(chars, "Scriptwriter"@)
                    &&& info.editors_count == crate::roles::count_role(chars, "FilmEditor"@)
                    &&& info.composers_count == crate::roles::count_role(chars, "Composer"@)
                    &&& info.cinematographers_count == crate::roles::count_role(
                        chars,
                        "Cinematographer"@,
                    )
                    &&& info.agents_count == crate::roles::count_role(chars, "Agent"@)
                    &&& info.dept_heads_count == crate::roles::count_role(
                        chars,
                        "DepartmentHead"@,
                    )
                    &&& info.executives_count == crate::roles::count_role(chars, "Executive"@)
                    &&& info.movies_count == movies_count_of(s)
                    &&& info.studios_count == 1
                    &&& info.budget as int == int_field_or(s, "budget"@, 0)
                    &&& info.cash as int == int_field_or(s, "cash"@, 0)
                    &&& info.reputation@ == reputation_repr(s)
                    &&& info.influence as int == int_field_or(s, "influence"@, 0)
                    &&& info.studio_logo_id as int == int_field_or(s, "studioLogoId"@, 0)
                }
            },
            Result::Err(e) => {
                &&& characters_of(doc@) is None
                &&& (e is MissingState <==> state_of(doc@) is None)
                &&& (e is MissingState || e is MissingCharacters)
            },
        },
{
    let state = match state_json(doc) {
        Result::Ok(s) => s,
        Result::Err(e) => {
            return Result::Err(e);
        },
    };
    let chars = match characters(doc) {
        Result::Ok(v) => v,
        Result::Err(e) => {
            return Result::Err(e);
        },
    };
    let time_passed = read_str_field(state, "timePassed", "0.00:00:00");
    let current_date = crate::date::calculate_current_date(time_passed.as_str());
    let player_studio_name = read_str_field(state, "studioName", "Player Studio");
    let movies_count = match state.get("movies") {
        Option::Some(m) => {
            if m.is_array() {
                m.arr_len()
            } else {
                0
            }
        },
        Option::None => 0,
    };
    let reputation = match state.get("reputation") {
        Option::Some(v) => match v {
            Json::Int(i) => crate::num::i64_to_string(*i),
            Json::Num(t) => t.clone(),
            Json::Str(t) => t.clone(),
            _ => "0".to_owned(),
        },
        Option::None => "0".to_owned(),
    };
    let info = SaveInfo {
        current_date,
        player_studio_name,
        actors_count: crate::roles::count_profession(chars.as_slice(), "Actor"),
        directors_count: crate::roles::count_profession(chars.as_slice(), "Director"),
        producers_count: crate::roles::count_profession(chars.as_slice(), "Producer"),
        writers_count: crate::roles::count_profession(chars.as_slice(), "Scriptwriter"),
        editors_count: crate::roles::count_profession(chars.as_slice(), "FilmEditor"),
        composers_count: crate::roles::count_profession(chars.as_slice(), "Composer"),
        cinematographers_count: crate::roles::count_profession(
            chars.as_slice(),
            "Cinematographer",
        ),
        agents_count: crate::roles::count_profession(chars.as_slice(), "Agent"),
        dept_heads_count: crate::roles::count_profession(chars.as_slice(), "DepartmentHead"),
        executives_count: crate::roles::count_profession(chars.as_slice(), "Executive"),
        movies_count,
        studios_count: 1,
        budget: read_int_field(state, "budget", 0),
        cash: read_int_field(state, "cash", 0),
        reputation,
        influence: read_int_field(state, "influence", 0),
        studio_logo_id: read_int_field(state, "studioLogoId", 0),
    };
    Result::Ok(info)
}

/// The current in-game date of a loaded document.
pub fn get_current_date(doc: &Json) -> (r: Result<String, DocError>)
    ensures
        match r {
            Result::Ok(s) => state_of(doc@) is Some && s@ == crate::date::spec_current_date(
                str_field_or(state_of(doc@)->Some_0, "timePassed"@, "0.00:00:00"@),
            ),
            Result::Err(e) => e is MissingState && state_of(doc@) is None,
        },
{
    let state = match state_json(doc) {
        Result::Ok(s) => s,
        Result::Err(e) => {
            return Result::Err(e);
        },
    };
    let time_passed = read_str_field(state, "timePassed", "0.00:00:00");
    Result::Ok(crate::date::calculate_current_date(time_passed.as_str()))
}

/// The localized strings of a parsed language document, when it carries an
/// array of strings under the expected key.
pub open spec fn loc_strings_of(d: JsonV) -> Option<Seq<JsonV>> {
    match jlookup(d, "locStrings"@) {
        Option::Some(JsonV::Arr(a)) => Option::Some(a),
        _ => Option::None,
    }
}

/// Why language-string extraction failed.
#[derive(Debug)]
pub enum LangError {
    /// The document carries no array under the expected key.
    MissingLocStrings,
    /// An entry of the array is not a string.
    InvalidEntry,
}

/// Extract the localized strings of a parsed language document.
#[verifier::loop_isolation(false)]
pub fn extract_language_strings(data: &Json) -> (r: Result<Vec<String>, LangError>)
    ensures
        match r {
            Result::Ok(v) => {
                &&& loc_strings_of(data@) is Some
                &&& {
                    let a = loc_strings_of(data@)->Some_0;
                    &&& v@.len() == a.len()
                    &&& forall|j: int|
                        0 <= j < a.len() ==> a[j] == JsonV::Str((#[trigger] v@[j])@)
                }
            },
            Result::Err(LangError::MissingLocStrings) => loc_strings_of(data@) is None,
            Result::Err(LangError::InvalidEntry) => {
                &&& loc_strings_of(data@) is Some
                &&& exists|j: int|
                    0 <= j < loc_strings_of(data@)->Some_0.len() && !(
                    #[trigger] loc_strings_of(data@)->Some_0[j] is Str)
            },
        },
{
    let arr = match data.get("locStrings") {
        Option::Some(a) => a,
        Option::None => {
            return Result::Err(LangError::MissingLocStrings);
        },
    };
    match arr {
        Json::Arr(v) => {
            let ghost a = view_list(v@);
            proof {
                crate::json::lemma_view_list_len(v@);
            }
            let n = v.len();
            let mut out: Vec<String> = Vec::new();
            let mut i: usize = 0;
            while i < n
                invariant
                    i <= n,
                    out@.len() == i,
                    forall|j: int| 0 <= j < i ==> a[j] == JsonV::Str((#[trigger] out@[j])@),
                decreases n - i,
            {
                proof {
                    crate::json::lemma_view_list_index(v@, i as int);
                }
                match v[i].as_str() {
                    Option::Some(t) => {
                        out.push(t.to_owned());
                    },
                    Option::None => {
                        proof {
                            assert(!(loc_strings_of(data@)->Some_0[i as int] is Str));
                        }
                        return Result::Err(LangError::InvalidEntry);
                    },
                }
                i += 1;
            }
            Result::Ok(out)
        },
        _ => Result::Err(LangError::MissingLocStrings),
    }
}

} // verus!
