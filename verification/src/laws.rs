use vstd::prelude::*;

use crate::json::JsonV;
use crate::json::jlookup;
use crate::json::jwith;
use crate::json::obj_lookup;
use crate::json::list_has_str;
use crate::json::lemma_jwith_same;
use crate::json::lemma_jwith_lookup;
use crate::ident::id_matches;
use crate::num::dec_digits;
use crate::num::dec_int;
use crate::num::digit_char;
use crate::num::is_digit;
use crate::roles::captain_role_of;
use crate::person::PersonUpdate;
use crate::person::spec_add_label;
use crate::person::spec_apply_updates;
use crate::person::spec_update_is_empty;
use crate::doc::characters_of;
use crate::doc::state_of;
use crate::doc::has_person;
use crate::doc::first_person_idx;
use crate::doc::lemma_first_person_idx;
use crate::doc::spec_update_person;

verus! {

proof fn lemma_dec_digits_shape(n: nat)
    ensures
        dec_digits(n).len() >= 1,
        n >= 10 ==> dec_digits(n).len() >= 2,
        is_digit(dec_digits(n)[0]),
    decreases n,
{
    if n >= 10 {
        lemma_dec_digits_shape(n / 10);
    }
}

proof fn lemma_dec_digits_injective(a: nat, b: nat)
    requires
        dec_digits(a) == dec_digits(b),
    ensures
        a == b,
    decreases a + b,
{
    lemma_dec_digits_shape(a);
    lemma_dec_digits_shape(b);
    if a < 10 && b < 10 {
        assert(dec_digits(a)[0] == digit_char(a));
        assert(dec_digits(b)[0] == digit_char(b));
    } else if a >= 10 && b >= 10 {
        assert(dec_digits(a).last() == digit_char(a % 10));
        assert(dec_digits(b).last() == digit_char(b % 10));
        assert(dec_digits(a).drop_last() =~= dec_digits(a / 10));
        assert(dec_digits(b).drop_last() =~= dec_digits(b / 10));
        lemma_dec_digits_injective(a / 10, b / 10);
        assert(a % 10 == b % 10);
        assert(a == 10 * (a / 10) + a % 10);
        assert(b == 10 * (b / 10) + b % 10);
    } else if a < 10 {
        assert(dec_digits(a).len() == 1);
        assert(false);
    } else {
        assert(dec_digits(b).len() == 1);
        assert(false);
    }
}

/// The canonical decimal rendering is injective: two integers with the same
/// rendering are equal.
pub proof fn lemma_dec_int_injective(a: int, b: int)
    requires
        dec_int(a) == dec_int(b),
    ensures
        a == b,
{
    lemma_dec_digits_shape(if a < 0 {
        (-a) as nat
    } else {
        a as nat
    });
    lemma_dec_digits_shape(if b < 0 {
        (-b) as nat
    } else {
        b as nat
    });
    if a < 0 && b < 0 {
        assert(dec_int(a).drop_first() =~= dec_digits((-a) as nat));
        assert(dec_int(b).drop_first() =~= dec_digits((-b) as nat));
        lemma_dec_digits_injective((-a) as nat, (-b) as nat);
    } else if a >= 0 && b >= 0 {
        lemma_dec_digits_injective(a as nat, b as nat);
    } else if a < 0 {
        assert(dec_int(a)[0] == '-');
        assert(dec_int(b)[0] == dec_digits(b as nat)[0]);
        assert(is_digit(dec_int(b)[0]));
        assert(false);
    } else {
        assert(dec_int(b)[0] == '-');
        assert(dec_int(a)[0] == dec_digits(a as nat)[0]);
        assert(is_digit(dec_int(a)[0]));
        assert(false);
    }
}

/// Identity matching pins a numeric identifier down: a query that matches two
/// numeric identifiers matches one number only.
pub proof fn lemma_identity_matching_unique(i1: int, i2: int, q: Seq<char>)
    requires
        id_matches(JsonV::Int(i1), q),
        id_matches(JsonV::Int(i2), q),
    ensures
        i1 == i2,
{
    lemma_dec_int_injective(i1, i2);
}

/// A stored identifier that is neither a number nor a string never matches
/// any query.
pub proof fn lemma_identity_matching_scalar_only(v: JsonV, q: Seq<char>)
    requires
        !(v is Int),
        !(v is Num),
        !(v is Str),
    ensures
        !id_matches(v, q),
{
}

/// Resolving the executive role depends on the entity's role map alone, and
/// follows the fixed alias order: a role map carrying "CptLawyer" and not the
/// earlier alias "CptHR" always resolves to "CptLawyer".
pub proof fn lemma_executive_resolution(o: Seq<(Seq<char>, JsonV)>)
    requires
        crate::json::obj_has_key(o, "CptLawyer"@),
        !crate::json::obj_has_key(o, "CptHR"@),
    ensures
        captain_role_of(o) == Option::Some("CptLawyer"@),
{
}

/// Adding a label is idempotent: adding the same label twice yields exactly
/// the entity that adding it once yields.
pub proof fn lemma_label_add_idempotent(p: JsonV, l: Seq<char>)
    ensures
        spec_add_label(spec_add_label(p, l), l) == spec_add_label(p, l),
{
    match jlookup(p, "labels"@) {
        Option::Some(JsonV::Arr(a)) => {
            if list_has_str(a, l) {
            } else {
                let a2 = a.insert(0, JsonV::Str(l));
                let p2 = jwith(p, "labels"@, JsonV::Arr(a2));
                lemma_jwith_lookup(p, "labels"@, JsonV::Arr(a2));
                assert(a2[0] == JsonV::Str(l));
                assert(list_has_str(a2, l));
            }
        },
        _ => {
            if p is Obj {
                let a3 = seq![JsonV::Str(l)];
                lemma_jwith_lookup(p, "labels"@, JsonV::Arr(a3));
                assert(a3[0] == JsonV::Str(l));
                assert(list_has_str(a3, l));
            } else {
                assert(spec_add_label(p, l) == p);
            }
        },
    }
}

/// How often the label occurs in the list.
pub open spec fn count_str(a: Seq<JsonV>, l: Seq<char>) -> nat
    decreases a.len(),
{
    if a.len() == 0 {
        0
    } else {
        count_str(a.drop_last(), l) + (if a.last() == JsonV::Str(l) {
            1nat
        } else {
            0nat
        })
    }
}

proof fn lemma_count_str_zero(a: Seq<JsonV>, l: Seq<char>)
    requires
        !list_has_str(a, l),
    ensures
        count_str(a, l) == 0,
    decreases a.len(),
{
    if a.len() > 0 {
        assert(!list_has_str(a.drop_last(), l)) by {
            if list_has_str(a.drop_last(), l) {
                let i = choose|i: int| 0 <= i < a.len() - 1 && a.drop_last()[i] == JsonV::Str(l);
                assert(a[i] == JsonV::Str(l));
            }
        }
        lemma_count_str_zero(a.drop_last(), l);
        assert(a.last() != JsonV::Str(l)) by {
            if a.last() == JsonV::Str(l) {
                assert(a[a.len() - 1] == JsonV::Str(l));
            }
        }
    }
}

proof fn lemma_count_str_insert_front(a: Seq<JsonV>, l: Seq<char>)
    ensures
        count_str(a.insert(0, JsonV::Str(l)), l) == count_str(a, l) + 1,
    decreases a.len(),
{
    reveal_with_fuel(count_str, 3);
    let b = a.insert(0, JsonV::Str(l));
    if a.len() == 0 {
        assert(b.len() == 1);
        assert(b.drop_last() =~= Seq::<JsonV>::empty());
        assert(b.last() == JsonV::Str(l));
    } else {
        assert(b.drop_last() =~= a.drop_last().insert(0, JsonV::Str(l)));
        assert(b.last() == a.last());
        lemma_count_str_insert_front(a.drop_last(), l);
    }
}

/// After adding a label to an entity whose label list holds it at most once,
/// the list holds it exactly once; when it was absent, the rest of the list
/// is kept unchanged behind the new front element.
pub proof fn lemma_label_add_single_occurrence(p: JsonV, l: Seq<char>)
    requires
        p is Obj,
        match jlookup(p, "labels"@) {
            Option::Some(JsonV::Arr(a)) => count_str(a, l) <= 1,
            _ => true,
        },
    ensures
        match jlookup(spec_add_label(p, l), "labels"@) {
            Option::Some(JsonV::Arr(a2)) => {
                &&& count_str(a2, l) == 1
                &&& match jlookup(p, "labels"@) {
                    Option::Some(JsonV::Arr(a)) => if list_has_str(a, l) {
                        a2 == a
                    } else {
                        a2 == a.insert(0, JsonV::Str(l))
                    },
                    _ => a2 == seq![JsonV::Str(l)],
                }
            },
            _ => false,
        },
{
    match jlookup(p, "labels"@) {
        Option::Some(JsonV::Arr(a)) => {
            if list_has_str(a, l) {
                assert(count_str(a, l) >= 1) by {
                    lemma_count_str_at_least_one(a, l);
                }
            } else {
                let a2 = a.insert(0, JsonV::Str(l));
                lemma_jwith_lookup(p, "labels"@, JsonV::Arr(a2));
                lemma_count_str_zero(a, l);
                lemma_count_str_insert_front(a, l);
            }
        },
        _ => {
            reveal_with_fuel(count_str, 3);
            let a3 = seq![JsonV::Str(l)];
            lemma_jwith_lookup(p, "labels"@, JsonV::Arr(a3));
            assert(a3.drop_last() =~= Seq::<JsonV>::empty());
            assert(a3.last() == JsonV::Str(l));
            assert(count_str(a3, l) == 1);
        },
    }
}

proof fn lemma_count_str_at_least_one(a: Seq<JsonV>, l: Seq<char>)
    requires
        list_has_str(a, l),
    ensures
        count_str(a, l) >= 1,
    decreases a.len(),
{
    let i = choose|i: int| 0 <= i < a.len() && a[i] == JsonV::Str(l);
    if i == a.len() - 1 {
        assert(a.last() == JsonV::Str(l));
    } else {
        assert(a.drop_last()[i] == a[i]);
        assert(list_has_str(a.drop_last(), l));
        lemma_count_str_at_least_one(a.drop_last(), l);
    }
}

/// An update that carries no change leaves the entity exactly as it was.
pub proof fn lemma_empty_update_identity(p: JsonV, prof: Seq<char>, u: PersonUpdate)
    requires
        spec_update_is_empty(u),
    ensures
        spec_apply_updates(p, prof, u) == p,
{
}

/// Patching an entity with an update that carries no change leaves the whole
/// document exactly as it was: nothing drifts from a locate-and-write-back
/// alone.
pub proof fn lemma_empty_update_document_identity(
    d: JsonV,
    p: Seq<char>,
    id: Seq<char>,
    u: PersonUpdate,
)
    requires
        spec_update_is_empty(u),
        characters_of(d) is Some,
        has_person(characters_of(d)->Some_0, p, id),
    ensures
        spec_update_person(d, p, id, u) == d,
{
    let s = state_of(d)->Some_0;
    let a = characters_of(d)->Some_0;
    lemma_first_person_idx(a, p, id);
    let i = first_person_idx(a, p, id);
    let c = a[i];
    lemma_empty_update_identity(c, crate::doc::resolved_role(c, p), u);
    assert(a.update(i, c) =~= a);
    lemma_jwith_same(s, "characters"@, JsonV::Arr(a));
    lemma_jwith_same(d, "stateJson"@, s);
}

proof fn lemma_remove_tag_preserves(p: JsonV, id: Seq<char>, k: Seq<char>)
    requires
        k != "whiteTagsNEW"@,
    ensures
        jlookup(crate::person::spec_remove_tag(p, id), k) == jlookup(p, k),
{
    match jlookup(p, "whiteTagsNEW"@) {
        Option::Some(JsonV::Obj(o)) => {
            crate::json::lemma_jwith_lookup_other(p, "whiteTagsNEW"@, k, crate::json::jwithout(JsonV::Obj(o), id));
        },
        _ => {},
    }
}

proof fn lemma_upsert_tag_preserves(p: JsonV, id: Seq<char>, v: JsonV, k: Seq<char>)
    requires
        k != "whiteTagsNEW"@,
    ensures
        jlookup(crate::person::spec_upsert_tag(p, id, v), k) == jlookup(p, k),
{
    let p1 = if jlookup(p, "whiteTagsNEW"@) is None {
        jwith(p, "whiteTagsNEW"@, JsonV::Obj(Seq::empty()))
    } else {
        p
    };
    if jlookup(p, "whiteTagsNEW"@) is None {
        crate::json::lemma_jwith_lookup_other(p, "whiteTagsNEW"@, k, JsonV::Obj(Seq::empty()));
    }
    match jlookup(p1, "whiteTagsNEW"@) {
        Option::Some(JsonV::Obj(o)) => {
            match obj_lookup(o, id) {
                Option::Some(tag) => {
                    if tag is Obj {
                        let t2 = crate::person::spec_sync_base(jwith(tag, "value"@, v), v);
                        crate::json::lemma_jwith_lookup_other(
                            p1,
                            "whiteTagsNEW"@,
                            k,
                            JsonV::Obj(crate::json::obj_with(o, id, t2)),
                        );
                    }
                },
                Option::None => {
                    crate::json::lemma_jwith_lookup_other(
                        p1,
                        "whiteTagsNEW"@,
                        k,
                        JsonV::Obj(
                            crate::json::obj_with(
                                o,
                                id,
                                crate::person::spec_new_tag_record(id, v),
                            ),
                        ),
                    );
                },
            }
        },
        _ => {},
    }
}

proof fn lemma_white_tag_preserves(p: JsonV, id: Seq<char>, v: JsonV, k: Seq<char>)
    requires
        k != "whiteTagsNEW"@,
    ensures
        jlookup(crate::person::spec_apply_white_tag(p, id, v), k) == jlookup(p, k),
{
    if v is Null {
        lemma_remove_tag_preserves(p, id, k);
    } else if v is Int || v is Num {
        lemma_upsert_tag_preserves(p, id, v, k);
    }
}

proof fn lemma_remove_label_preserves(p: JsonV, l: Seq<char>, k: Seq<char>)
    requires
        k != "labels"@,
    ensures
        jlookup(crate::person::spec_remove_label(p, l), k) == jlookup(p, k),
{
    match jlookup(p, "labels"@) {
        Option::Some(JsonV::Arr(a)) => {
            crate::json::lemma_jwith_lookup_other(
                p,
                "labels"@,
                k,
                JsonV::Arr(crate::json::list_without_str(a, l)),
            );
        },
        _ => {},
    }
}

proof fn lemma_add_label_preserves(p: JsonV, l: Seq<char>, k: Seq<char>)
    requires
        k != "labels"@,
    ensures
        jlookup(spec_add_label(p, l), k) == jlookup(p, k),
{
    match jlookup(p, "labels"@) {
        Option::Some(JsonV::Arr(a)) => {
            if !list_has_str(a, l) {
                crate::json::lemma_jwith_lookup_other(
                    p,
                    "labels"@,
                    k,
                    JsonV::Arr(a.insert(0, JsonV::Str(l))),
                );
            }
        },
        _ => {
            crate::json::lemma_jwith_lookup_other(
                p,
                "labels"@,
                k,
                JsonV::Arr(seq![JsonV::Str(l)]),
            );
        },
    }
}

proof fn lemma_birth_year_preserves(p: JsonV, y: int, k: Seq<char>)
    requires
        k != "birthDate"@,
    ensures
        jlookup(crate::person::spec_update_birth_year(p, y), k) == jlookup(p, k),
{
    match jlookup(p, "birthDate"@) {
        Option::Some(JsonV::Str(t)) => {
            match crate::person::split3_at(t) {
                Option::Some(j) => {
                    crate::json::lemma_jwith_lookup_other(
                        p,
                        "birthDate"@,
                        k,
                        JsonV::Str(t.take(j + 1) + dec_int(y)),
                    );
                },
                Option::None => {},
            }
        },
        _ => {},
    }
}

proof fn lemma_bonus_index_preserves(p: JsonV, idx: int, v: int, k: Seq<char>)
    requires
        k != "bonusCards"@,
    ensures
        jlookup(crate::person::spec_update_bonus_index(p, idx, v), k) == jlookup(p, k),
{
    match jlookup(p, "bonusCards"@) {
        Option::Some(JsonV::Arr(a)) => {
            if 0 <= idx < a.len() {
                crate::json::lemma_jwith_lookup_other(
                    p,
                    "bonusCards"@,
                    k,
                    JsonV::Arr(a.update(idx, JsonV::Int(v))),
                );
            }
        },
        _ => {},
    }
}

/// After any update that carries a limit, the two mirrored keys of the
/// patched entity carry exactly that value, whatever else the update does.
#[verifier::rlimit(100)]
pub proof fn lemma_limit_mirroring(p: JsonV, prof: Seq<char>, u: PersonUpdate)
    requires
        p is Obj,
        u.limit is Some,
    ensures
        jlookup(spec_apply_updates(p, prof, u), "limit"@) == Option::Some(u.limit->Some_0@),
        jlookup(spec_apply_updates(p, prof, u), "Limit"@) == Option::Some(u.limit->Some_0@),
{
    reveal_strlit("limit");
    reveal_strlit("Limit");
    reveal_strlit("whiteTagsNEW");
    reveal_strlit("labels");
    reveal_strlit("birthDate");
    reveal_strlit("portraitBaseId");
    reveal_strlit("isShady");
    reveal_strlit("BonusCardMoney");
    reveal_strlit("BonusCardInfluencePoints");
    reveal_strlit("bonusCards");
    let v = u.limit->Some_0@;
    let lo = "limit"@;
    let up = "Limit"@;
    assert(lo != up) by {
        assert(lo[0] == 'l' && up[0] == 'L');
    }
    assert(lo.len() == 5 && up.len() == 5);
    assert("whiteTagsNEW"@.len() == 12);
    assert("labels"@.len() == 6);
    assert("birthDate"@.len() == 9);
    assert("portraitBaseId"@.len() == 14);
    assert("isShady"@.len() == 7);
    assert("BonusCardMoney"@.len() == 14);
    assert("BonusCardInfluencePoints"@.len() == 24);
    assert("bonusCards"@.len() == 10);
    let p1 = crate::person::step_first_name(p, u);
    let p2 = crate::person::step_last_name(p1, u);
    let p3 = crate::person::step_custom_name(p2, u);
    let p4 = crate::person::step_gender(p3, u);
    let p5 = crate::person::step_studio_id(p4, u);
    let p6 = crate::person::step_mood(p5, u);
    let p7 = crate::person::step_attitude(p6, u);
    let p8 = crate::person::step_self_esteem(p7, u);
    let p9 = crate::person::step_readiness(p8, u);
    let p10 = crate::person::step_state(p9, u);
    let p11 = crate::person::step_skill(p10, prof, u);
    assert(p11 is Obj);
    let p12 = crate::person::step_limit(p11, u);
    assert(p12 == jwith(jwith(p11, lo, v), up, v));
    lemma_jwith_lookup(jwith(p11, lo, v), up, v);
    lemma_jwith_lookup(p11, lo, v);
    crate::json::lemma_jwith_lookup_other(jwith(p11, lo, v), up, lo, v);
    assert(jlookup(p12, lo) == Option::Some(v));
    assert(jlookup(p12, up) == Option::Some(v));
    let p13 = crate::person::step_art(p12, u);
    if u.art is Some {
        reveal_strlit("whiteTagsNEW");
        lemma_white_tag_preserves(p12, "ART"@, u.art->Some_0@, lo);
        lemma_white_tag_preserves(p12, "ART"@, u.art->Some_0@, up);
    }
    let p14 = crate::person::step_com(p13, u);
    if u.com is Some {
        reveal_strlit("whiteTagsNEW");
        lemma_white_tag_preserves(p13, "COM"@, u.com->Some_0@, lo);
        lemma_white_tag_preserves(p13, "COM"@, u.com->Some_0@, up);
    }
    let p15 = crate::person::step_remove_trait(p14, u);
    if u.remove_trait is Some {
        reveal_strlit("labels");
        lemma_remove_label_preserves(p14, u.remove_trait->Some_0@, lo);
        lemma_remove_label_preserves(p14, u.remove_trait->Some_0@, up);
    }
    let p16 = crate::person::step_add_trait(p15, u);
    if u.add_trait is Some {
        reveal_strlit("labels");
        lemma_add_label_preserves(p15, u.add_trait->Some_0@, lo);
        lemma_add_label_preserves(p15, u.add_trait->Some_0@, up);
    }
    let p17 = crate::person::step_remove_genre(p16, u);
    if u.remove_genre is Some {
        reveal_strlit("whiteTagsNEW");
        lemma_remove_tag_preserves(p16, u.remove_genre->Some_0@, lo);
        lemma_remove_tag_preserves(p16, u.remove_genre->Some_0@, up);
    }
    let p18 = crate::person::step_add_genre(p17, u);
    if u.add_genre is Some {
        reveal_strlit("whiteTagsNEW");
        lemma_upsert_tag_preserves(p17, u.add_genre->Some_0@, crate::person::genre_add_value(), lo);
        lemma_upsert_tag_preserves(p17, u.add_genre->Some_0@, crate::person::genre_add_value(), up);
    }
    let p19 = crate::person::step_portrait(p18, u);
    if u.portrait_base_id is Some {
        reveal_strlit("portraitBaseId");
        crate::json::lemma_jwith_lookup_other(
            p18,
            "portraitBaseId"@,
            lo,
            JsonV::Int(u.portrait_base_id->Some_0 as int),
        );
        crate::json::lemma_jwith_lookup_other(
            p18,
            "portraitBaseId"@,
            up,
            JsonV::Int(u.portrait_base_id->Some_0 as int),
        );
    }
    let p20 = crate::person::step_birth_year(p19, u);
    if u.birth_year is Some {
        reveal_strlit("birthDate");
        lemma_birth_year_preserves(p19, u.birth_year->Some_0 as int, lo);
        lemma_birth_year_preserves(p19, u.birth_year->Some_0 as int, up);
    }
    let p21 = crate::person::step_is_shady(p20, u);
    if u.is_shady is Some {
        reveal_strlit("isShady");
        crate::json::lemma_jwith_lookup_other(
            p20,
            "isShady"@,
            lo,
            JsonV::Bool(u.is_shady->Some_0),
        );
        crate::json::lemma_jwith_lookup_other(
            p20,
            "isShady"@,
            up,
            JsonV::Bool(u.is_shady->Some_0),
        );
    }
    let p22 = crate::person::step_bonus_money(p21, u);
    if u.bonus_card_money is Some {
        reveal_strlit("BonusCardMoney");
        reveal_strlit("bonusCards");
        let bv = JsonV::Int(u.bonus_card_money->Some_0 as int);
        crate::json::lemma_jwith_lookup_other(p21, "BonusCardMoney"@, lo, bv);
        crate::json::lemma_jwith_lookup_other(p21, "BonusCardMoney"@, up, bv);
        lemma_bonus_index_preserves(
            jwith(p21, "BonusCardMoney"@, bv),
            0,
            u.bonus_card_money->Some_0 as int,
            lo,
        );
        lemma_bonus_index_preserves(
            jwith(p21, "BonusCardMoney"@, bv),
            0,
            u.bonus_card_money->Some_0 as int,
            up,
        );
    }
    let p23 = crate::person::step_bonus_influence(p22, u);
    if u.bonus_card_influence_points is Some {
        reveal_strlit("BonusCardInfluencePoints");
        reveal_strlit("bonusCards");
        let bv = JsonV::Int(u.bonus_card_influence_points->Some_0 as int);
        crate::json::lemma_jwith_lookup_other(p22, "BonusCardInfluencePoints"@, lo, bv);
        crate::json::lemma_jwith_lookup_other(p22, "BonusCardInfluencePoints"@, up, bv);
        lemma_bonus_index_preserves(
            jwith(p22, "BonusCardInfluencePoints"@, bv),
            1,
            u.bonus_card_influence_points->Some_0 as int,
            lo,
        );
        lemma_bonus_index_preserves(
            jwith(p22, "BonusCardInfluencePoints"@, bv),
            1,
            u.bonus_card_influence_points->Some_0 as int,
            up,
        );
    }
    assert(spec_apply_updates(p, prof, u) == p23);
}

/// After any upsert, the upserted tag's top-level value equals the value of
/// the distinguished base entry of its historical-values array, whenever such
/// a base entry exists.
#[verifier::rlimit(100)]
pub proof fn lemma_tag_upsert_base_invariant(p: JsonV, id: Seq<char>, v: JsonV)
    requires
        p is Obj,
    ensures
        ({
            let p2 = crate::person::spec_upsert_tag(p, id, v);
            match jlookup(p2, "whiteTagsNEW"@) {
                Option::Some(JsonV::Obj(o2)) => match obj_lookup(o2, id) {
                    Option::Some(t2) => match jlookup(t2, "overallValues"@) {
                        Option::Some(JsonV::Arr(a2)) => crate::person::has_base_entry(a2)
                            ==> jlookup(
                            a2[crate::person::first_base_idx(a2)],
                            "value"@,
                        ) == jlookup(t2, "value"@),
                        _ => true,
                    },
                    Option::None => true,
                },
                _ => true,
            }
        }),
{
    reveal_strlit("whiteTagsNEW");
    reveal_strlit("id");
    reveal_strlit("value");
    reveal_strlit("dateAdded");
    reveal_strlit("movieId");
    reveal_strlit("IsOverall");
    reveal_strlit("overallValues");
    reveal_strlit("sourceType");
    assert("id"@.len() == 2);
    assert("value"@.len() == 5);
    assert("dateAdded"@.len() == 9);
    assert("movieId"@.len() == 7);
    assert("IsOverall"@.len() == 9);
    assert("overallValues"@.len() == 13);
    assert("sourceType"@.len() == 10);
    let p1 = if jlookup(p, "whiteTagsNEW"@) is None {
        jwith(p, "whiteTagsNEW"@, JsonV::Obj(Seq::empty()))
    } else {
        p
    };
    if jlookup(p, "whiteTagsNEW"@) is None {
        lemma_jwith_lookup(p, "whiteTagsNEW"@, JsonV::Obj(Seq::empty()));
    }
    match jlookup(p1, "whiteTagsNEW"@) {
        Option::Some(JsonV::Obj(o)) => {
            match obj_lookup(o, id) {
                Option::Some(tag) => {
                    if tag is Obj {
                        let t1 = jwith(tag, "value"@, v);
                        let t2 = crate::person::spec_sync_base(t1, v);
                        lemma_jwith_lookup(tag, "value"@, v);
                        crate::json::lemma_jwith_lookup_other(
                            tag,
                            "value"@,
                            "overallValues"@,
                            v,
                        );
                        lemma_jwith_lookup(p1, "whiteTagsNEW"@, JsonV::Obj(crate::json::obj_with(o, id, t2)));
                        lemma_jwith_lookup(JsonV::Obj(o), id, t2);
                        match jlookup(t1, "overallValues"@) {
                            Option::Some(JsonV::Arr(a)) => {
                                if crate::person::has_base_entry(a) {
                                    crate::person::lemma_first_base_idx(a);
                                    let k = crate::person::first_base_idx(a);
                                    let e2 = jwith(a[k], "value"@, v);
                                    let a2 = a.update(k, e2);
                                    crate::json::lemma_jwith_lookup_other(
                                        a[k],
                                        "value"@,
                                        "movieId"@,
                                        v,
                                    );
                                    crate::json::lemma_jwith_lookup_other(
                                        a[k],
                                        "value"@,
                                        "sourceType"@,
                                        v,
                                    );
                                    assert(crate::person::is_base_entry(e2));
                                    assert forall|j: int|
                                        0 <= j < k implies !crate::person::is_base_entry(
                                        a2[j],
                                    ) by {
                                        assert(a2[j] == a[j]);
                                    }
                                    crate::person::lemma_first_base_idx_at(a2, k);
                                    lemma_jwith_lookup(a[k], "value"@, v);
                                    lemma_jwith_lookup(t1, "overallValues"@, JsonV::Arr(a2));
                                    crate::json::lemma_jwith_lookup_other(
                                        t1,
                                        "overallValues"@,
                                        "value"@,
                                        JsonV::Arr(a2),
                                    );
                                }
                            },
                            _ => {},
                        }
                    }
                },
                Option::None => {
                    let rec = crate::person::spec_new_tag_record(id, v);
                    let ro = rec->Obj_0;
                    lemma_jwith_lookup(p1, "whiteTagsNEW"@, JsonV::Obj(crate::json::obj_with(o, id, rec)));
                    lemma_jwith_lookup(JsonV::Obj(o), id, rec);
                    assert(ro[1].0 == "value"@ && ro[0].0 == "id"@);
                    crate::json::lemma_obj_key_idx_at(ro, "value"@, 1);
                    assert(obj_lookup(ro, "value"@) == Option::Some(v));
                    crate::json::lemma_obj_key_idx_at(ro, "overallValues"@, 5);
                    let entry = ro[5].1->Arr_0[0];
                    let eo = entry->Obj_0;
                    crate::json::lemma_obj_key_idx_at(eo, "movieId"@, 0);
                    crate::json::lemma_obj_key_idx_at(eo, "sourceType"@, 1);
                    assert(crate::person::is_base_entry(entry));
                    let a2 = ro[5].1->Arr_0;
                    assert(a2[0] == entry);
                    crate::person::lemma_first_base_idx_at(a2, 0);
                    crate::json::lemma_obj_key_idx_at(eo, "value"@, 2);
                    assert(obj_lookup(eo, "value"@) == Option::Some(v));
                },
            }
        },
        _ => {},
    }
}

} // verus!
