use vstd::prelude::*;

use crate::json::Json;
use crate::json::JsonV;
use crate::json::jlookup;
use crate::json::obj_has_key;

verus! {

/// The role map of an entity, when it has one of the expected shape.
pub open spec fn professions_of(c: JsonV) -> Option<Seq<(Seq<char>, JsonV)>> {
    match jlookup(c, "professions"@) {
        Option::Some(JsonV::Obj(o)) => Option::Some(o),
        _ => Option::None,
    }
}

/// Whether the role map contains any of the captain roles that make up the
/// "Executive" logical role.
pub open spec fn has_captain_role(o: Seq<(Seq<char>, JsonV)>) -> bool {
    ||| obj_has_key(o, "CptHR"@)
    ||| obj_has_key(o, "CptLawyer"@)
    ||| obj_has_key(o, "CptFinancier"@)
    ||| obj_has_key(o, "CptPR"@)
}

/// The first captain role present, in the fixed resolution order.
pub open spec fn captain_role_of(o: Seq<(Seq<char>, JsonV)>) -> Option<Seq<char>> {
    if obj_has_key(o, "CptHR"@) {
        Option::Some("CptHR"@)
    } else if obj_has_key(o, "CptLawyer"@) {
        Option::Some("CptLawyer"@)
    } else if obj_has_key(o, "CptFinancier"@) {
        Option::Some("CptFinancier"@)
    } else if obj_has_key(o, "CptPR"@) {
        Option::Some("CptPR"@)
    } else {
        Option::None
    }
}

/// Whether the role map contains any of the lieutenant roles that make up the
/// "DepartmentHead" logical role.
pub open spec fn has_lieutenant_role(o: Seq<(Seq<char>, JsonV)>) -> bool {
    ||| obj_has_key(o, "LieutScript"@)
    ||| obj_has_key(o, "LieutPrep"@)
    ||| obj_has_key(o, "LieutProd"@)
    ||| obj_has_key(o, "LieutPost"@)
    ||| obj_has_key(o, "LieutRelease"@)
    ||| obj_has_key(o, "LieutSecurity"@)
    ||| obj_has_key(o, "LieutProducers"@)
    ||| obj_has_key(o, "LieutInfrastructure"@)
    ||| obj_has_key(o, "LieutTech"@)
    ||| obj_has_key(o, "LieutMuseum"@)
    ||| obj_has_key(o, "LieutEscort"@)
}

/// Whether an entity satisfies a logical role: "Executive" through the captain
/// alias set, "DepartmentHead" through the lieutenant alias set, and any other
/// name through direct key presence in the role map.
pub open spec fn spec_has_profession(c: JsonV, p: Seq<char>) -> bool {
    match professions_of(c) {
        Option::Some(o) => {
            if p == "Executive"@ {
                has_captain_role(o)
            } else if p == "DepartmentHead"@ {
                has_lieutenant_role(o)
            } else {
                obj_has_key(o, p)
            }
        },
        Option::None => false,
    }
}

/// Whether an entity's role map satisfies the given logical role.
pub fn has_profession(character: &Json, profession: &str) -> (r: bool)
    ensures
        r == spec_has_profession(character@, profession@),
{
    match character.get("professions") {
        Option::Some(profs) => {
            if !profs.is_object() {
                return false;
            }
            if crate::json::str_eq(profession, "Executive") {
                profs.has_key("CptHR") || profs.has_key("CptLawyer") || profs.has_key(
                    "CptFinancier",
                ) || profs.has_key("CptPR")
            } else if crate::json::str_eq(profession, "DepartmentHead") {
                profs.has_key("LieutScript") || profs.has_key("LieutPrep") || profs.has_key(
                    "LieutProd",
                ) || profs.has_key("LieutPost") || profs.has_key("LieutRelease") || profs.has_key(
                    "LieutSecurity",
                ) || profs.has_key("LieutProducers") || profs.has_key("LieutInfrastructure")
                    || profs.has_key("LieutTech") || profs.has_key("LieutMuseum") || profs.has_key(
                    "LieutEscort",
                )
            } else {
                profs.has_key(profession)
            }
        },
        Option::None => false,
    }
}

/// The concrete captain role to which the "Executive" logical role resolves on
/// this entity: the first alias present, in fixed table order.
pub fn get_captain_profession<'a>(character: &'a Json) -> (r: Option<&'static str>)
    ensures
        match r {
            Option::Some(t) => {
                &&& professions_of(character@) is Some
                &&& captain_role_of(professions_of(character@)->Some_0) == Option::Some(t@)
            },
            Option::None => match professions_of(character@) {
                Option::Some(o) => captain_role_of(o) is None,
                Option::None => true,
            },
        },
{
    match character.get("professions") {
        Option::Some(profs) => {
            if !profs.is_object() {
                return Option::None;
            }
            if profs.has_key("CptHR") {
                Option::Some("CptHR")
            } else if profs.has_key("CptLawyer") {
                Option::Some("CptLawyer")
            } else if profs.has_key("CptFinancier") {
                Option::Some("CptFinancier")
            } else if profs.has_key("CptPR") {
                Option::Some("CptPR")
            } else {
                Option::None
            }
        },
        Option::None => Option::None,
    }
}

/// How many entities of the collection satisfy the logical role.
pub open spec fn count_role(a: Seq<JsonV>, p: Seq<char>) -> nat
    decreases a.len(),
{
    if a.len() == 0 {
        0
    } else {
        count_role(a.drop_last(), p) + (if spec_has_profession(a.last(), p) {
            1nat
        } else {
            0nat
        })
    }
}

/// Count the entities satisfying a logical role.
#[verifier::loop_isolation(false)]
pub fn count_profession(characters: &[Json], profession: &str) -> (r: usize)
    ensures
        r == count_role(crate::json::view_list(characters@), profession@),
{
    let ghost a = crate::json::view_list(characters@);
    proof {
        crate::json::lemma_view_list_len(characters@);
    }
    let n = characters.len();
    let mut cnt: usize = 0;
    let mut i: usize = 0;
    while i < n
        invariant
            i <= n,
            cnt <= i,
            cnt == count_role(a.take(i as int), profession@),
        decreases n - i,
    {
        proof {
            crate::json::lemma_view_list_index(characters@, i as int);
            assert(a.take(i + 1).drop_last() =~= a.take(i as int));
            assert(a.take(i + 1).last() == a[i as int]);
        }
        let c = &characters[i];
        if has_profession(c, profession) {
            cnt += 1;
        }
        i += 1;
    }
    proof {
        assert(a.take(n as int) =~= a);
    }
    cnt
}

} // verus!
