use vstd::prelude::*;

use crate::json::Json;
use crate::json::JsonV;
use crate::json::jlookup;
use crate::json::jwith;
use crate::json::jwithout;
use crate::json::obj_lookup;
use crate::json::obj_with;
use crate::json::list_has_str;
use crate::json::list_without_str;
use crate::json::lemma_jwith_same;
use crate::json::view_list;
use crate::json::view_fields;

verus! {

/// The creation timestamp written into freshly created tag records.
pub open spec fn default_date_added() -> Seq<char> {
    "1929-01-01T00:00:00"@
}

/// A label added twice is only stored once; a fresh label goes to the front;
/// an absent or malformed label list is replaced by a one-element list.
pub open spec fn spec_add_label(p: JsonV, l: Seq<char>) -> JsonV {
    match jlookup(p, "labels"@) {
        Option::Some(JsonV::Arr(a)) => {
            if list_has_str(a, l) {
                p
            } else {
                jwith(p, "labels"@, JsonV::Arr(a.insert(0, JsonV::Str(l))))
            }
        },
        _ => jwith(p, "labels"@, JsonV::Arr(seq![JsonV::Str(l)])),
    }
}

/// Every occurrence of the label is removed; a missing or malformed label
/// list is left untouched.
pub open spec fn spec_remove_label(p: JsonV, l: Seq<char>) -> JsonV {
    match jlookup(p, "labels"@) {
        Option::Some(JsonV::Arr(a)) => jwith(p, "labels"@, JsonV::Arr(list_without_str(a, l))),
        _ => p,
    }
}

/// Add a label to the front of the entity's label list, if not yet present.
pub fn add_label(person: &mut Json, label: &str)
    requires
        old(person)@ is Obj,
    ensures
        final(person)@ == spec_add_label(old(person)@, label@),
{
    let needs_new = match person.get("labels") {
        Option::Some(v) => !v.is_array(),
        Option::None => true,
    };
    if needs_new {
        let item = Json::Str(label.to_owned());
        let mut arr: Vec<Json> = Vec::new();
        proof {
            assert(view_list(Seq::<Json>::empty()) =~= Seq::<JsonV>::empty());
            crate::json::lemma_view_list_push(Seq::<Json>::empty(), item);
        }
        arr.push(item);
        proof {
            assert(view_list(arr@) =~= seq![JsonV::Str(label@)]);
        }
        person.set("labels", Json::Arr(arr));
    } else {
        match person.get_mut("labels") {
            Option::Some(m) => {
                if m.arr_contains_str(label) {
                    proof {
                        lemma_jwith_same(old(person)@, "labels"@, (*m)@);
                    }
                } else {
                    m.arr_insert_front(Json::Str(label.to_owned()));
                }
            },
            Option::None => {
                proof {
                    assert(false);
                }
            },
        }
    }
}

/// Remove every occurrence of a label from the entity's label list.
pub fn remove_label(person: &mut Json, label: &str)
    requires
        old(person)@ is Obj,
    ensures
        final(person)@ == spec_remove_label(old(person)@, label@),
{
    match person.get_mut("labels") {
        Option::Some(m) => {
            if m.is_array() {
                m.arr_remove_str(label);
            } else {
                proof {
                    lemma_jwith_same(old(person)@, "labels"@, (*m)@);
                }
            }
        },
        Option::None => {},
    }
}

/// The keyed tag record is dropped wholesale; a missing or malformed tag map
/// is left untouched.
pub open spec fn spec_remove_tag(p: JsonV, id: Seq<char>) -> JsonV {
    match jlookup(p, "whiteTagsNEW"@) {
        Option::Some(JsonV::Obj(o)) => jwith(
            p,
            "whiteTagsNEW"@,
            jwithout(JsonV::Obj(o), id),
        ),
        _ => p,
    }
}

/// Remove a tag record from the entity's tag map, when present.
pub fn remove_white_tag(person: &mut Json, tag_id: &str)
    requires
        old(person)@ is Obj,
    ensures
        final(person)@ == spec_remove_tag(old(person)@, tag_id@),
{
    match person.get_mut("whiteTagsNEW") {
        Option::Some(m) => {
            if m.is_object() {
                m.remove_key(tag_id);
            } else {
                proof {
                    lemma_jwith_same(old(person)@, "whiteTagsNEW"@, (*m)@);
                }
            }
        },
        Option::None => {},
    }
}

/// Whether a historical-values entry is the distinguished base entry.
pub open spec fn is_base_entry(e: JsonV) -> bool {
    &&& jlookup(e, "movieId"@) == Option::Some(JsonV::Int(0))
    &&& jlookup(e, "sourceType"@) == Option::Some(JsonV::Int(0))
}

/// Index of the first base entry; meaningful only when one occurs.
pub open spec fn first_base_idx(a: Seq<JsonV>) -> int
    decreases a.len(),
{
    if a.len() == 0 {
        0
    } else if is_base_entry(a[0]) {
        0
    } else {
        1 + first_base_idx(a.drop_first())
    }
}

pub open spec fn has_base_entry(a: Seq<JsonV>) -> bool {
    exists|i: int| 0 <= i < a.len() && is_base_entry(a[i])
}

pub proof fn lemma_first_base_idx(a: Seq<JsonV>)
    requires
        has_base_entry(a),
    ensures
        0 <= first_base_idx(a) < a.len(),
        is_base_entry(a[first_base_idx(a)]),
        forall|j: int| 0 <= j < first_base_idx(a) ==> !is_base_entry(a[j]),
    decreases a.len(),
{
    if a.len() > 0 && !is_base_entry(a[0]) {
        assert(has_base_entry(a.drop_first())) by {
            let i = choose|i: int| 0 <= i < a.len() && is_base_entry(a[i]);
            assert(a.drop_first()[i - 1] == a[i]);
        }
        lemma_first_base_idx(a.drop_first());
        assert forall|j: int| 0 <= j < first_base_idx(a) implies !is_base_entry(a[j]) by {
            if j > 0 {
                assert(a[j] == a.drop_first()[j - 1]);
            }
        }
    }
}

pub proof fn lemma_first_base_idx_at(a: Seq<JsonV>, i: int)
    requires
        0 <= i < a.len(),
        is_base_entry(a[i]),
        forall|j: int| 0 <= j < i ==> !is_base_entry(a[j]),
    ensures
        has_base_entry(a),
        first_base_idx(a) == i,
    decreases a.len(),
{
    if i > 0 {
        assert forall|j: int| 0 <= j < i - 1 implies !is_base_entry(a.drop_first()[j]) by {
            assert(a.drop_first()[j] == a[j + 1]);
        }
        assert(a.drop_first()[i - 1] == a[i]);
        lemma_first_base_idx_at(a.drop_first(), i - 1);
    }
}

/// The base entry's value overwritten to `v`; entries at other contexts, a
/// missing array, and an array without a base entry are left untouched.
pub open spec fn spec_sync_base(tag: JsonV, v: JsonV) -> JsonV {
    match jlookup(tag, "overallValues"@) {
        Option::Some(JsonV::Arr(a)) => {
            if has_base_entry(a) {
                jwith(
                    tag,
                    "overallValues"@,
                    JsonV::Arr(
                        a.update(first_base_idx(a), jwith(a[first_base_idx(a)], "value"@, v)),
                    ),
                )
            } else {
                tag
            }
        },
        _ => tag,
    }
}

/// A freshly created tag record: the value, the default creation timestamp,
/// base context markers, and a one-element historical-values array whose base
/// entry mirrors the same value.
pub open spec fn spec_new_tag_record(id: Seq<char>, v: JsonV) -> JsonV {
    JsonV::Obj(
        seq![
            ("id"@, JsonV::Str(id)),
            ("value"@, v),
            ("dateAdded"@, JsonV::Str(default_date_added())),
            ("movieId"@, JsonV::Int(0)),
            ("IsOverall"@, JsonV::Bool(false)),
            (
                "overallValues"@,
                JsonV::Arr(
                    seq![
                        JsonV::Obj(
                            seq![
                                ("movieId"@, JsonV::Int(0)),
                                ("sourceType"@, JsonV::Int(0)),
                                ("value"@, v),
                                ("dateAdded"@, JsonV::Str(default_date_added())),
                            ],
                        ),
                    ],
                ),
            ),
        ],
    )
}

/// Idempotent insert-or-update of a tag record: a fresh record is created
/// wholesale; an existing record has its top-level value overwritten and its
/// base historical entry mirrored to the same value. A tag map or tag record
/// of an unexpected shape is left untouched.
pub open spec fn spec_upsert_tag(p: JsonV, id: Seq<char>, v: JsonV) -> JsonV {
    let p1 = if jlookup(p, "whiteTagsNEW"@) is None {
        jwith(p, "whiteTagsNEW"@, JsonV::Obj(Seq::empty()))
    } else {
        p
    };
    match jlookup(p1, "whiteTagsNEW"@) {
        Option::Some(JsonV::Obj(o)) => match obj_lookup(o, id) {
            Option::Some(tag) => {
                if tag is Obj {
                    let t2 = spec_sync_base(jwith(tag, "value"@, v), v);
                    jwith(p1, "whiteTagsNEW"@, JsonV::Obj(obj_with(o, id, t2)))
                } else {
                    p1
                }
            },
            Option::None => jwith(
                p1,
                "whiteTagsNEW"@,
                JsonV::Obj(obj_with(o, id, spec_new_tag_record(id, v))),
            ),
        },
        _ => p1,
    }
}

/// Whether a historical-values entry carries the base context markers.
fn entry_is_base(e: &Json) -> (r: bool)
    ensures
        r == is_base_entry(e@),
{
    let movie_ok = match e.get("movieId") {
        Option::Some(m) => match m.as_int() {
            Option::Some(x) => x == 0,
            Option::None => false,
        },
        Option::None => false,
    };
    if !movie_ok {
        return false;
    }
    match e.get("sourceType") {
        Option::Some(m) => match m.as_int() {
            Option::Some(x) => x == 0,
            Option::None => false,
        },
        Option::None => false,
    }
}

/// Index of the first base entry of the array, if any.
#[verifier::loop_isolation(false)]
fn find_base_entry(ov: &Json) -> (r: Option<usize>)
    requires
        ov@ is Arr,
    ensures
        match r {
            Option::Some(i) => {
                &&& has_base_entry(ov@->Arr_0)
                &&& first_base_idx(ov@->Arr_0) == i
                &&& i < ov@->Arr_0.len()
            },
            Option::None => !has_base_entry(ov@->Arr_0),
        },
{
    match ov {
        Json::Arr(v) => {
            let ghost a = view_list(v@);
            proof {
                crate::json::lemma_view_list_len(v@);
            }
            let n = v.len();
            let mut i: usize = 0;
            while i < n
                invariant
                    i <= n,
                    forall|j: int| 0 <= j < i ==> !is_base_entry(a[j]),
                decreases n - i,
            {
                proof {
                    crate::json::lemma_view_list_index(v@, i as int);
                }
                if entry_is_base(&v[i]) {
                    proof {
                        lemma_first_base_idx_at(a, i as int);
                    }
                    return Option::Some(i);
                }
                i += 1;
            }
            proof {
                assert(!has_base_entry(a)) by {
                    if has_base_entry(a) {
                        let w = choose|w: int| 0 <= w < a.len() && is_base_entry(a[w]);
                    }
                }
            }
            Option::None
        },
        _ => Option::None,
    }
}

/// Mirror the tag's base historical entry to the given value.
fn sync_base(tag: &mut Json, value: &Json)
    ensures
        final(tag)@ == spec_sync_base(old(tag)@, value@),
{
    match tag.get_mut("overallValues") {
        Option::Some(ov) => {
            if ov.is_array() {
                match find_base_entry(ov) {
                    Option::Some(i) => {
                        proof {
                            lemma_first_base_idx((*ov)@->Arr_0);
                        }
                        match ov.arr_get_mut(i) {
                            Option::Some(entry) => {
                                if entry.is_object() {
                                    entry.set("value", value.deep_copy());
                                } else {
                                    proof {
                                        assert(false);
                                    }
                                }
                            },
                            Option::None => {
                                proof {
                                    assert(false);
                                }
                            },
                        }
                    },
                    Option::None => {
                        proof {
                            lemma_jwith_same(old(tag)@, "overallValues"@, (*ov)@);
                        }
                    },
                }
            } else {
                proof {
                    lemma_jwith_same(old(tag)@, "overallValues"@, (*ov)@);
                }
            }
        },
        Option::None => {},
    }
}

/// Build a fresh tag record for `tag_id` carrying `value`.
fn build_tag_record(tag_id: &str, value: Json) -> (r: Json)
    ensures
        r@ == spec_new_tag_record(tag_id@, value@),
{
    let date = "1929-01-01T00:00:00";
    proof {
        reveal_strlit("1929-01-01T00:00:00");
    }
    let mut entry: Vec<(String, Json)> = Vec::new();
    entry.push(("movieId".to_owned(), Json::Int(0)));
    entry.push(("sourceType".to_owned(), Json::Int(0)));
    entry.push(("value".to_owned(), value.deep_copy()));
    entry.push(("dateAdded".to_owned(), Json::Str(date.to_owned())));
    proof {
        crate::json::lemma_view_fields_len(entry@);
        assert(view_fields(entry@) =~= seq![
            ("movieId"@, JsonV::Int(0)),
            ("sourceType"@, JsonV::Int(0)),
            ("value"@, value@),
            ("dateAdded"@, JsonV::Str(default_date_added())),
        ]) by {
            assert forall|j: int| 0 <= j < 4 implies view_fields(entry@)[j] == seq![
                ("movieId"@, JsonV::Int(0)),
                ("sourceType"@, JsonV::Int(0)),
                ("value"@, value@),
                ("dateAdded"@, JsonV::Str(default_date_added())),
            ][j] by {
                crate::json::lemma_view_fields_index(entry@, j);
            }
        }
    }
    let mut ovs: Vec<Json> = Vec::new();
    ovs.push(Json::Obj(entry));
    proof {
        crate::json::lemma_view_list_len(ovs@);
        assert forall|j: int| 0 <= j < 1 implies view_list(ovs@)[j] == seq![
            spec_new_tag_record(tag_id@, value@)->Obj_0[5].1->Arr_0[0],
        ][j] by {
            crate::json::lemma_view_list_index(ovs@, j);
        }
        assert(view_list(ovs@) =~= seq![spec_new_tag_record(tag_id@, value@)->Obj_0[5].1->Arr_0[0]]);
    }
    let mut rec: Vec<(String, Json)> = Vec::new();
    rec.push(("id".to_owned(), Json::Str(tag_id.to_owned())));
    rec.push(("value".to_owned(), value));
    rec.push(("dateAdded".to_owned(), Json::Str(date.to_owned())));
    rec.push(("movieId".to_owned(), Json::Int(0)));
    rec.push(("IsOverall".to_owned(), Json::Bool(false)));
    rec.push(("overallValues".to_owned(), Json::Arr(ovs)));
    proof {
        crate::json::lemma_view_fields_len(rec@);
        assert forall|j: int|
            0 <= j < 6 implies view_fields(rec@)[j] == spec_new_tag_record(tag_id@, value@)->Obj_0[j] by {
            crate::json::lemma_view_fields_index(rec@, j);
        }
        assert(view_fields(rec@) =~= spec_new_tag_record(tag_id@, value@)->Obj_0);
    }
    Json::Obj(rec)
}

/// Insert or update the tag record for `tag_id` with `value`, keeping the
/// base historical entry mirrored.
pub fn upsert_white_tag(person: &mut Json, tag_id: &str, value: Json)
    requires
        old(person)@ is Obj,
    ensures
        final(person)@ == spec_upsert_tag(old(person)@, tag_id@, value@),
{
    let missing = match person.get("whiteTagsNEW") {
        Option::Some(_) => false,
        Option::None => true,
    };
    if missing {
        let empty: Vec<(String, Json)> = Vec::new();
        proof {
            assert(view_fields(empty@) =~= Seq::<(Seq<char>, JsonV)>::empty());
            crate::json::lemma_jwith_lookup(
                old(person)@,
                "whiteTagsNEW"@,
                JsonV::Obj(Seq::empty()),
            );
        }
        person.set("whiteTagsNEW", Json::Obj(empty));
    }
    let ghost p1 = person@;
    match person.get_mut("whiteTagsNEW") {
        Option::Some(tags) => {
            let ghost tags0 = (*tags)@;
            if tags.is_object() {
                if tags.has_key(tag_id) {
                    match tags.get_mut(tag_id) {
                        Option::Some(tag) => {
                            if tag.is_object() {
                                tag.set("value", value.deep_copy());
                                sync_base(tag, &value);
                            } else {
                                proof {
                                    lemma_jwith_same(tags0, tag_id@, (*tag)@);
                                    lemma_jwith_same(p1, "whiteTagsNEW"@, tags0);
                                }
                            }
                        },
                        Option::None => {
                            proof {
                                assert(false);
                            }
                        },
                    }
                } else {
                    let rec = build_tag_record(tag_id, value);
                    tags.set(tag_id, rec);
                }
            } else {
                proof {
                    lemma_jwith_same(p1, "whiteTagsNEW"@, (*tags)@);
                }
            }
        },
        Option::None => {
            proof {
                assert(false);
            }
        },
    }
}

/// Tri-state tag update: an explicit null clears the tag, a numeric value
/// upserts it, and any other shape is ignored.
pub open spec fn spec_apply_white_tag(p: JsonV, id: Seq<char>, v: JsonV) -> JsonV {
    if v is Null {
        spec_remove_tag(p, id)
    } else if v is Int || v is Num {
        spec_upsert_tag(p, id, v)
    } else {
        p
    }
}

/// Apply a tri-state tag update for `tag_id`.
pub fn apply_white_tag_update(person: &mut Json, tag_id: &str, value: Json)
    requires
        old(person)@ is Obj,
    ensures
        final(person)@ == spec_apply_white_tag(old(person)@, tag_id@, value@),
{
    if value.is_null() {
        remove_white_tag(person, tag_id);
    } else if value.is_number() {
        upsert_white_tag(person, tag_id, value);
    }
}

/// The index of the second dash, when the string has exactly two dashes.
pub open spec fn split3_at(s: Seq<char>) -> Option<int> {
    let n = s.len() as int;
    let i = crate::num::first_at(s, '-');
    if i == n {
        Option::None
    } else {
        let j = i + 1 + crate::num::first_at(s.skip(i + 1), '-');
        if j == n {
            Option::None
        } else if crate::num::first_at(s.skip(j + 1), '-') == n - j - 1 {
            Option::Some(j)
        } else {
            Option::None
        }
    }
}

/// In a three-segment dash-separated birth date, only the trailing segment is
/// replaced by the new year; a missing or differently shaped date is left
/// untouched.
pub open spec fn spec_update_birth_year(p: JsonV, y: int) -> JsonV {
    match jlookup(p, "birthDate"@) {
        Option::Some(JsonV::Str(s)) => match split3_at(s) {
            Option::Some(j) => jwith(
                p,
                "birthDate"@,
                JsonV::Str(s.take(j + 1) + crate::num::dec_int(y)),
            ),
            Option::None => p,
        },
        _ => p,
    }
}

/// Replace the segment after the second dash of the entity's birth date.
pub fn update_birth_year(person: &mut Json, new_year: i32)
    requires
        old(person)@ is Obj,
    ensures
        final(person)@ == spec_update_birth_year(old(person)@, new_year as int),
{
    let bd: Option<String> = match person.get("birthDate") {
        Option::Some(v) => match v.as_str() {
            Option::Some(t) => Option::Some(t.to_owned()),
            Option::None => Option::None,
        },
        Option::None => Option::None,
    };
    match bd {
        Option::Some(ds) => {
            let s = ds.as_str();
            let n = s.unicode_len();
            proof {
                assert(s@.skip(0) =~= s@);
            }
            let i = crate::num::find_char_from(s, 0, '-');
            if i == n {
                return ;
            }
            let j = crate::num::find_char_from(s, i + 1, '-');
            if j == n {
                return ;
            }
            let k = crate::num::find_char_from(s, j + 1, '-');
            if k < n {
                return ;
            }
            let prefix = s.substring_char(0, j + 1);
            let mut out = prefix.to_owned();
            let year = crate::num::i64_to_string(new_year as i64);
            out.append(year.as_str());
            proof {
                assert(s@.take(j + 1) =~= s@.subrange(0, j + 1));
            }
            person.set("birthDate", Json::Str(out));
        },
        Option::None => {},
    }
}

/// Overwrite one positional slot of the bonus-card array, only when that slot
/// already exists; the array is never grown.
pub open spec fn spec_update_bonus_index(p: JsonV, idx: int, v: int) -> JsonV {
    match jlookup(p, "bonusCards"@) {
        Option::Some(JsonV::Arr(a)) => {
            if 0 <= idx < a.len() {
                jwith(p, "bonusCards"@, JsonV::Arr(a.update(idx, JsonV::Int(v))))
            } else {
                p
            }
        },
        _ => p,
    }
}

/// Overwrite one existing slot of the entity's bonus-card array.
pub fn update_bonus_cards_index(person: &mut Json, index: usize, value: i32)
    requires
        old(person)@ is Obj,
    ensures
        final(person)@ == spec_update_bonus_index(old(person)@, index as int, value as int),
{
    match person.get_mut("bonusCards") {
        Option::Some(m) => {
            if m.is_array() {
                if index < m.arr_len() {
                    m.arr_set(index, Json::Int(value as i64));
                } else {
                    proof {
                        lemma_jwith_same(old(person)@, "bonusCards"@, (*m)@);
                    }
                }
            } else {
                proof {
                    lemma_jwith_same(old(person)@, "bonusCards"@, (*m)@);
                }
            }
        },
        Option::None => {},
    }
}

/// The skill value is written under the resolved role key inside the role
/// map; a missing or malformed role map skips the write.
pub open spec fn spec_set_skill(p: JsonV, prof: Seq<char>, v: JsonV) -> JsonV {
    match jlookup(p, "professions"@) {
        Option::Some(JsonV::Obj(o)) => jwith(
            p,
            "professions"@,
            JsonV::Obj(obj_with(o, prof, v)),
        ),
        _ => p,
    }
}

/// Write the skill value under the resolved role key.
pub fn set_skill(person: &mut Json, profession: &str, value: Json)
    requires
        old(person)@ is Obj,
    ensures
        final(person)@ == spec_set_skill(old(person)@, profession@, value@),
{
    match person.get_mut("professions") {
        Option::Some(m) => {
            if m.is_object() {
                m.set(profession, value);
            } else {
                proof {
                    lemma_jwith_same(old(person)@, "professions"@, (*m)@);
                }
            }
        },
        Option::None => {},
    }
}

/// How a custom display name value is stored: an empty string and the null
/// marker both clear the override; anything else is stored verbatim.
pub open spec fn spec_custom_name_value(v: JsonV) -> JsonV {
    if v is Null {
        JsonV::Null
    } else if v is Str && v->Str_0.len() == 0 {
        JsonV::Null
    } else {
        v
    }
}

/// A sparse set of optional field changes for one entity: an absent field
/// means "leave unchanged". Numeric game values are carried as document
/// values, exactly as they will be stored.
pub struct PersonUpdate {
    pub first_name_id: Option<String>,
    pub last_name_id: Option<String>,
    pub custom_name: Option<Json>,
    pub gender: Option<i32>,
    pub studio_id: Option<Json>,
    pub mood: Option<Json>,
    pub attitude: Option<Json>,
    pub self_esteem: Option<Json>,
    pub readiness: Option<Json>,
    pub state: Option<i32>,
    pub skill: Option<Json>,
    pub limit: Option<Json>,
    pub art: Option<Json>,
    pub com: Option<Json>,
    pub add_trait: Option<String>,
    pub remove_trait: Option<String>,
    pub add_genre: Option<String>,
    pub remove_genre: Option<String>,
    pub portrait_base_id: Option<i32>,
    pub birth_year: Option<i32>,
    pub is_shady: Option<bool>,
    pub bonus_card_money: Option<i32>,
    pub bonus_card_influence_points: Option<i32>,
}

impl PersonUpdate {
    /// An update that changes nothing.
    pub fn empty() -> (r: PersonUpdate)
        ensures
            spec_update_is_empty(r),
    {
        PersonUpdate {
            first_name_id: Option::None,
            last_name_id: Option::None,
            custom_name: Option::None,
            gender: Option::None,
            studio_id: Option::None,
            mood: Option::None,
            attitude: Option::None,
            self_esteem: Option::None,
            readiness: Option::None,
            state: Option::None,
            skill: Option::None,
            limit: Option::None,
            art: Option::None,
            com: Option::None,
            add_trait: Option::None,
            remove_trait: Option::None,
            add_genre: Option::None,
            remove_genre: Option::None,
            portrait_base_id: Option::None,
            birth_year: Option::None,
            is_shady: Option::None,
            bonus_card_money: Option::None,
            bonus_card_influence_points: Option::None,
        }
    }
}

/// Whether the sparse update carries no change at all.
pub open spec fn spec_update_is_empty(u: PersonUpdate) -> bool {
    &&& u.first_name_id is None
    &&& u.last_name_id is None
    &&& u.custom_name is None
    &&& u.gender is None
    &&& u.studio_id is None
    &&& u.mood is None
    &&& u.attitude is None
    &&& u.self_esteem is None
    &&& u.readiness is None
    &&& u.state is None
    &&& u.skill is None
    &&& u.limit is None
    &&& u.art is None
    &&& u.com is None
    &&& u.add_trait is None
    &&& u.remove_trait is None
    &&& u.add_genre is None
    &&& u.remove_genre is None
    &&& u.portrait_base_id is None
    &&& u.birth_year is None
    &&& u.is_shady is None
    &&& u.bonus_card_money is None
    &&& u.bonus_card_influence_points is None
}

/// The value written by a genre addition.
pub open spec fn genre_add_value() -> JsonV {
    JsonV::Num("12.0"@)
}

/// One spec step per optional field, applied in the fixed order.
pub open spec fn step_first_name(p: JsonV, u: PersonUpdate) -> JsonV {
    match u.first_name_id {
        Option::Some(v) => jwith(p, "firstNameId"@, JsonV::Str(v@)),
        Option::None => p,
    }
}

pub open spec fn step_last_name(p: JsonV, u: PersonUpdate) -> JsonV {
    match u.last_name_id {
        Option::Some(v) => jwith(p, "lastNameId"@, JsonV::Str(v@)),
        Option::None => p,
    }
}

pub open spec fn step_custom_name(p: JsonV, u: PersonUpdate) -> JsonV {
    match u.custom_name {
        Option::Some(v) => jwith(p, "customName"@, spec_custom_name_value(v@)),
        Option::None => p,
    }
}

pub open spec fn step_gender(p: JsonV, u: PersonUpdate) -> JsonV {
    match u.gender {
        Option::Some(v) => jwith(p, "gender"@, JsonV::Int(v as int)),
        Option::None => p,
    }
}

pub open spec fn step_studio_id(p: JsonV, u: PersonUpdate) -> JsonV {
    match u.studio_id {
        Option::Some(v) => jwith(p, "studioId"@, v@),
        Option::None => p,
    }
}

pub open spec fn step_mood(p: JsonV, u: PersonUpdate) -> JsonV {
    match u.mood {
        Option::Some(v) => jwith(p, "mood"@, v@),
        Option::None => p,
    }
}

pub open spec fn step_attitude(p: JsonV, u: PersonUpdate) -> JsonV {
    match u.attitude {
        Option::Some(v) => jwith(p, "attitude"@, v@),
        Option::None => p,
    }
}

pub open spec fn step_self_esteem(p: JsonV, u: PersonUpdate) -> JsonV {
    match u.self_esteem {
        Option::Some(v) => jwith(p, "selfEsteem"@, v@),
        Option::None => p,
    }
}

pub open spec fn step_readiness(p: JsonV, u: PersonUpdate) -> JsonV {
    match u.readiness {
        Option::Some(v) => jwith(p, "readiness"@, v@),
        Option::None => p,
    }
}

pub open spec fn step_state(p: JsonV, u: PersonUpdate) -> JsonV {
    match u.state {
        Option::Some(v) => jwith(p, "state"@, JsonV::Int(v as int)),
        Option::None => p,
    }
}

pub open spec fn step_skill(p: JsonV, prof: Seq<char>, u: PersonUpdate) -> JsonV {
    match u.skill {
        Option::Some(v) => spec_set_skill(p, prof, v@),
        Option::None => p,
    }
}

pub open spec fn step_limit(p: JsonV, u: PersonUpdate) -> JsonV {
    match u.limit {
        Option::Some(v) => jwith(jwith(p, "limit"@, v@), "Limit"@, v@),
        Option::None => p,
    }
}

pub open spec fn step_art(p: JsonV, u: PersonUpdate) -> JsonV {
    match u.art {
        Option::Some(v) => spec_apply_white_tag(p, "ART"@, v@),
        Option::None => p,
    }
}

pub open spec fn step_com(p: JsonV, u: PersonUpdate) -> JsonV {
    match u.com {
        Option::Some(v) => spec_apply_white_tag(p, "COM"@, v@),
        Option::None => p,
    }
}

pub open spec fn step_remove_trait(p: JsonV, u: PersonUpdate) -> JsonV {
    match u.remove_trait {
        Option::Some(v) => spec_remove_label(p, v@),
        Option::None => p,
    }
}

pub open spec fn step_add_trait(p: JsonV, u: PersonUpdate) -> JsonV {
    match u.add_trait {
        Option::Some(v) => spec_add_label(p, v@),
        Option::None => p,
    }
}

pub open spec fn step_remove_genre(p: JsonV, u: PersonUpdate) -> JsonV {
    match u.remove_genre {
        Option::Some(v) => spec_remove_tag(p, v@),
        Option::None => p,
    }
}

pub open spec fn step_add_genre(p: JsonV, u: PersonUpdate) -> JsonV {
    match u.add_genre {
        Option::Some(v) => spec_upsert_tag(p, v@, genre_add_value()),
        Option::None => p,
    }
}

pub open spec fn step_portrait(p: JsonV, u: PersonUpdate) -> JsonV {
    match u.portrait_base_id {
        Option::Some(v) => jwith(p, "portraitBaseId"@, JsonV::Int(v as int)),
        Option::None => p,
    }
}

pub open spec fn step_birth_year(p: JsonV, u: PersonUpdate) -> JsonV {
    match u.birth_year {
        Option::Some(v) => spec_update_birth_year(p, v as int),
        Option::None => p,
    }
}

pub open spec fn step_is_shady(p: JsonV, u: PersonUpdate) -> JsonV {
    match u.is_shady {
        Option::Some(v) => jwith(p, "isShady"@, JsonV::Bool(v)),
        Option::None => p,
    }
}

pub open spec fn step_bonus_money(p: JsonV, u: PersonUpdate) -> JsonV {
    match u.bonus_card_money {
        Option::Some(v) => spec_update_bonus_index(jwith(p, "BonusCardMoney"@, JsonV::Int(v as int)), 0, v as int),
        Option::None => p,
    }
}

pub open spec fn step_bonus_influence(p: JsonV, u: PersonUpdate) -> JsonV {
    match u.bonus_card_influence_points {
        Option::Some(v) => spec_update_bonus_index(jwith(p, "BonusCardInfluencePoints"@, JsonV::Int(v as int)), 1, v as int),
        Option::None => p,
    }
}

/// What applying a sparse update to an entity yields, field by field, in the
/// fixed application order. `prof` is the already resolved role key for the
/// skill write.
pub open spec fn spec_apply_updates(p0: JsonV, prof: Seq<char>, u: PersonUpdate) -> JsonV {
    step_bonus_influence(step_bonus_money(step_is_shady(step_birth_year(step_portrait(step_add_genre(step_remove_genre(step_add_trait(step_remove_trait(step_com(step_art(step_limit(step_skill(step_state(step_readiness(step_self_esteem(step_attitude(step_mood(step_studio_id(step_gender(step_custom_name(step_last_name(step_first_name(p0, u), u), u), u), u), u), u), u), u), u), prof, u), u), u), u), u), u), u), u), u), u), u), u), u)
}

/// Apply the scalar and role-keyed fields of the sparse update.
#[verifier::rlimit(100)]
fn apply_scalar_updates(person: &mut Json, profession: &str, u: &PersonUpdate)
    requires
        old(person)@ is Obj,
    ensures
        final(person)@ == step_limit(step_skill(step_state(step_readiness(step_self_esteem(step_attitude(step_mood(step_studio_id(step_gender(step_custom_name(step_last_name(step_first_name(old(person)@, *u), *u), *u), *u), *u), *u), *u), *u), *u), *u), profession@, *u), *u),
{
    let ghost q0 = person@;
    if let Option::Some(s) = &u.first_name_id {
        person.set("firstNameId", Json::Str(s.clone()));
    }
    let ghost q1 = step_first_name(q0, *u);
    proof {
        assert(person@ == q1);
    }
    if let Option::Some(s) = &u.last_name_id {
        person.set("lastNameId", Json::Str(s.clone()));
    }
    let ghost q2 = step_last_name(q1, *u);
    proof {
        assert(person@ == q2);
    }
    if let Option::Some(v) = &u.custom_name {
        let empty_str = match v {
            Json::Str(t) => t.as_str().unicode_len() == 0,
            _ => false,
        };
        let norm = if empty_str || v.is_null() {
            Json::Null
        } else {
            v.deep_copy()
        };
        person.set("customName", norm);
    }
    let ghost q3 = step_custom_name(q2, *u);
    proof {
        assert(person@ == q3);
    }
    if let Option::Some(g) = u.gender {
        person.set("gender", Json::Int(g as i64));
    }
    let ghost q4 = step_gender(q3, *u);
    proof {
        assert(person@ == q4);
    }
    if let Option::Some(v) = &u.studio_id {
        person.set("studioId", v.deep_copy());
    }
    let ghost q5 = step_studio_id(q4, *u);
    proof {
        assert(person@ == q5);
    }
    if let Option::Some(v) = &u.mood {
        person.set("mood", v.deep_copy());
    }
    let ghost q6 = step_mood(q5, *u);
    proof {
        assert(person@ == q6);
    }
    if let Option::Some(v) = &u.attitude {
        person.set("attitude", v.deep_copy());
    }
    let ghost q7 = step_attitude(q6, *u);
    proof {
        assert(person@ == q7);
    }
    if let Option::Some(v) = &u.self_esteem {
        person.set("selfEsteem", v.deep_copy());
    }
    let ghost q8 = step_self_esteem(q7, *u);
    proof {
        assert(person@ == q8);
    }
    if let Option::Some(v) = &u.readiness {
        person.set("readiness", v.deep_copy());
    }
    let ghost q9 = step_readiness(q8, *u);
    proof {
        assert(person@ == q9);
    }
    if let Option::Some(v) = u.state {
        person.set("state", Json::Int(v as i64));
    }
    let ghost q10 = step_state(q9, *u);
    proof {
        assert(person@ == q10);
    }
    if let Option::Some(v) = &u.skill {
        set_skill(person, profession, v.deep_copy());
    }
    let ghost q11 = step_skill(q10, profession@, *u);
    proof {
        assert(person@ == q11);
    }
    if let Option::Some(v) = &u.limit {
        person.set("limit", v.deep_copy());
        person.set("Limit", v.deep_copy());
    }
    let ghost q12 = step_limit(q11, *u);
    proof {
        assert(person@ == q12);
    }
}

/// Apply the label, tag, date and bonus-card fields of the sparse update.
#[verifier::rlimit(100)]
fn apply_nested_updates(person: &mut Json, u: &PersonUpdate)
    requires
        old(person)@ is Obj,
    ensures
        final(person)@ == step_bonus_influence(step_bonus_money(step_is_shady(step_birth_year(step_portrait(step_add_genre(step_remove_genre(step_add_trait(step_remove_trait(step_com(step_art(old(person)@, *u), *u), *u), *u), *u), *u), *u), *u), *u), *u), *u),
{
    let ghost q0 = person@;
    if let Option::Some(v) = &u.art {
        apply_white_tag_update(person, "ART", v.deep_copy());
    }
    let ghost q1 = step_art(q0, *u);
    proof {
        assert(person@ == q1);
    }
    if let Option::Some(v) = &u.com {
        apply_white_tag_update(person, "COM", v.deep_copy());
    }
    let ghost q2 = step_com(q1, *u);
    proof {
        assert(person@ == q2);
    }
    if let Option::Some(l) = &u.remove_trait {
        remove_label(person, l.as_str());
    }
    let ghost q3 = step_remove_trait(q2, *u);
    proof {
        assert(person@ == q3);
    }
    if let Option::Some(l) = &u.add_trait {
        add_label(person, l.as_str());
    }
    let ghost q4 = step_add_trait(q3, *u);
    proof {
        assert(person@ == q4);
    }
    if let Option::Some(g) = &u.remove_genre {
        remove_white_tag(person, g.as_str());
    }
    let ghost q5 = step_remove_genre(q4, *u);
    proof {
        assert(person@ == q5);
    }
    if let Option::Some(g) = &u.add_genre {
        let val = Json::Num("12.0".to_owned());
        upsert_white_tag(person, g.as_str(), val);
    }
    let ghost q6 = step_add_genre(q5, *u);
    proof {
        assert(person@ == q6);
    }
    if let Option::Some(v) = u.portrait_base_id {
        person.set("portraitBaseId", Json::Int(v as i64));
    }
    let ghost q7 = step_portrait(q6, *u);
    proof {
        assert(person@ == q7);
    }
    if let Option::Some(y) = u.birth_year {
        update_birth_year(person, y);
    }
    let ghost q8 = step_birth_year(q7, *u);
    proof {
        assert(person@ == q8);
    }
    if let Option::Some(b) = u.is_shady {
        person.set("isShady", Json::Bool(b));
    }
    let ghost q9 = step_is_shady(q8, *u);
    proof {
        assert(person@ == q9);
    }
    if let Option::Some(v) = u.bonus_card_money {
        person.set("BonusCardMoney", Json::Int(v as i64));
        update_bonus_cards_index(person, 0, v);
    }
    let ghost q10 = step_bonus_money(q9, *u);
    proof {
        assert(person@ == q10);
    }
    if let Option::Some(v) = u.bonus_card_influence_points {
        person.set("BonusCardInfluencePoints", Json::Int(v as i64));
        update_bonus_cards_index(person, 1, v);
    }
    let ghost q11 = step_bonus_influence(q10, *u);
    proof {
        assert(person@ == q11);
    }
}

/// Apply every present field of the sparse update to the entity, in the fixed
/// application order. `profession` must already be the resolved role key.
pub fn apply_updates(person: &mut Json, profession: &str, update: &PersonUpdate)
    requires
        old(person)@ is Obj,
    ensures
        final(person)@ == spec_apply_updates(old(person)@, profession@, *update),
{
    apply_scalar_updates(person, profession, update);
    apply_nested_updates(person, update);
}

} // verus!
