use vstd::prelude::*;

verus! {

/// A loosely-typed document tree. Numbers outside the signed 64-bit range,
/// and numbers with a fractional part, are carried as their decimal rendering
/// in the `Num` variant so that the document round-trips unchanged.
#[derive(Debug, PartialEq, Eq)]
pub enum Json {
    Null,
    Bool(bool),
    Int(i64),
    Num(String),
    Str(String),
    Arr(Vec<Json>),
    Obj(Vec<(String, Json)>),
}

/// The mathematical model of a `Json` tree.
#[verifier::ext_equal]
pub enum JsonV {
    Null,
    Bool(bool),
    Int(int),
    Num(Seq<char>),
    Str(Seq<char>),
    Arr(Seq<JsonV>),
    Obj(Seq<(Seq<char>, JsonV)>),
}

pub open spec fn view_list(s: Seq<Json>) -> Seq<JsonV>
    decreases s,
{
    if s.len() == 0 {
        Seq::empty()
    } else {
        view_list(s.drop_last()).push(view_json(s.last()))
    }
}

pub open spec fn view_fields(s: Seq<(String, Json)>) -> Seq<(Seq<char>, JsonV)>
    decreases s,
{
    if s.len() == 0 {
        Seq::empty()
    } else {
        view_fields(s.drop_last()).push((s.last().0@, view_json(s.last().1)))
    }
}

pub open spec fn view_json(j: Json) -> JsonV
    decreases j,
{
    match j {
        Json::Null => JsonV::Null,
        Json::Bool(b) => JsonV::Bool(b),
        Json::Int(i) => JsonV::Int(i as int),
        Json::Num(s) => JsonV::Num(s@),
        Json::Str(s) => JsonV::Str(s@),
        Json::Arr(v) => JsonV::Arr(view_list(v@)),
        Json::Obj(v) => JsonV::Obj(view_fields(v@)),
    }
}

impl View for Json {
    type V = JsonV;

    open spec fn view(&self) -> JsonV {
        view_json(*self)
    }
}

pub broadcast proof fn lemma_view_list_len(s: Seq<Json>)
    ensures
        (#[trigger] view_list(s)).len() == s.len(),
    decreases s,
{
    if s.len() > 0 {
        lemma_view_list_len(s.drop_last());
    }
}

pub broadcast proof fn lemma_view_list_index(s: Seq<Json>, i: int)
    requires
        0 <= i < s.len(),
    ensures
        #[trigger] view_list(s)[i] == view_json(s[i]),
    decreases s,
{
    lemma_view_list_len(s);
    if i < s.len() - 1 {
        lemma_view_list_index(s.drop_last(), i);
    }
}

/// Whether some entry of the object carries the key `k`.
pub open spec fn obj_has_key(o: Seq<(Seq<char>, JsonV)>, k: Seq<char>) -> bool {
    exists|i: int| 0 <= i < o.len() && o[i].0 == k
}

/// Index of the first entry carrying key `k`; meaningful only when the key occurs.
pub open spec fn obj_key_idx(o: Seq<(Seq<char>, JsonV)>, k: Seq<char>) -> int
    decreases o.len(),
{
    if o.len() == 0 {
        0
    } else if o[0].0 == k {
        0
    } else {
        1 + obj_key_idx(o.drop_first(), k)
    }
}

pub proof fn lemma_obj_key_idx(o: Seq<(Seq<char>, JsonV)>, k: Seq<char>)
    requires
        obj_has_key(o, k),
    ensures
        0 <= obj_key_idx(o, k) < o.len(),
        o[obj_key_idx(o, k)].0 == k,
        forall|j: int| 0 <= j < obj_key_idx(o, k) ==> o[j].0 != k,
    decreases o.len(),
{
    if o.len() > 0 && o[0].0 != k {
        assert(obj_has_key(o.drop_first(), k)) by {
            let i = choose|i: int| 0 <= i < o.len() && o[i].0 == k;
            assert(o.drop_first()[i - 1] == o[i]);
        }
        lemma_obj_key_idx(o.drop_first(), k);
        assert forall|j: int| 0 <= j < obj_key_idx(o, k) implies o[j].0 != k by {
            if j > 0 {
                assert(o[j] == o.drop_first()[j - 1]);
            }
        }
    }
}

/// The index at which the first occurrence of `k` sits, characterized directly.
pub proof fn lemma_obj_key_idx_at(o: Seq<(Seq<char>, JsonV)>, k: Seq<char>, i: int)
    requires
        0 <= i < o.len(),
        o[i].0 == k,
        forall|j: int| 0 <= j < i ==> o[j].0 != k,
    ensures
        obj_has_key(o, k),
        obj_key_idx(o, k) == i,
    decreases o.len(),
{
    if i > 0 {
        assert forall|j: int| 0 <= j < i - 1 implies o.drop_first()[j].0 != k by {
            assert(o.drop_first()[j] == o[j + 1]);
        }
        assert(o.drop_first()[i - 1] == o[i]);
        lemma_obj_key_idx_at(o.drop_first(), k, i - 1);
    }
}

/// Value of the first entry with key `k`, if any.
pub open spec fn obj_lookup(o: Seq<(Seq<char>, JsonV)>, k: Seq<char>) -> Option<JsonV> {
    if obj_has_key(o, k) {
        Option::Some(o[obj_key_idx(o, k)].1)
    } else {
        Option::None
    }
}

/// The object with the first `k` entry's value replaced, or with `(k, v)`
/// appended when the key is absent.
pub open spec fn obj_with(o: Seq<(Seq<char>, JsonV)>, k: Seq<char>, v: JsonV) -> Seq<
    (Seq<char>, JsonV),
> {
    if obj_has_key(o, k) {
        o.update(obj_key_idx(o, k), (k, v))
    } else {
        o.push((k, v))
    }
}

/// The object with the first `k` entry removed, when the key occurs.
pub open spec fn obj_without(o: Seq<(Seq<char>, JsonV)>, k: Seq<char>) -> Seq<
    (Seq<char>, JsonV),
> {
    if obj_has_key(o, k) {
        o.remove(obj_key_idx(o, k))
    } else {
        o
    }
}

/// Field lookup on a document value: `None` on anything but an object.
pub open spec fn jlookup(j: JsonV, k: Seq<char>) -> Option<JsonV> {
    match j {
        JsonV::Obj(o) => obj_lookup(o, k),
        _ => Option::None,
    }
}

/// A document value with field `k` bound to `v`; identity on non-objects.
pub open spec fn jwith(j: JsonV, k: Seq<char>, v: JsonV) -> JsonV {
    match j {
        JsonV::Obj(o) => JsonV::Obj(obj_with(o, k, v)),
        _ => j,
    }
}

/// A document value with field `k` removed; identity on non-objects.
pub open spec fn jwithout(j: JsonV, k: Seq<char>) -> JsonV {
    match j {
        JsonV::Obj(o) => JsonV::Obj(obj_without(o, k)),
        _ => j,
    }
}

pub broadcast proof fn lemma_view_fields_len(s: Seq<(String, Json)>)
    ensures
        (#[trigger] view_fields(s)).len() == s.len(),
    decreases s,
{
    if s.len() > 0 {
        lemma_view_fields_len(s.drop_last());
    }
}

pub broadcast proof fn lemma_view_fields_index(s: Seq<(String, Json)>, i: int)
    requires
        0 <= i < s.len(),
    ensures
        #[trigger] view_fields(s)[i] == (s[i].0@, view_json(s[i].1)),
    decreases s,
{
    lemma_view_fields_len(s);
    if i < s.len() - 1 {
        lemma_view_fields_index(s.drop_last(), i);
    }
}

pub broadcast proof fn lemma_view_fields_update(s: Seq<(String, Json)>, i: int, p: (String, Json))
    requires
        0 <= i < s.len(),
    ensures
        #[trigger] view_fields(s.update(i, p)) == view_fields(s).update(i, (p.0@, view_json(p.1))),
{
    let a = view_fields(s.update(i, p));
    let b = view_fields(s).update(i, (p.0@, view_json(p.1)));
    lemma_view_fields_len(s);
    lemma_view_fields_len(s.update(i, p));
    assert forall|j: int| 0 <= j < s.len() implies a[j] == b[j] by {
        lemma_view_fields_index(s.update(i, p), j);
        if j != i {
            lemma_view_fields_index(s, j);
        }
    }
    assert(a =~= b);
}

pub broadcast proof fn lemma_view_fields_push(s: Seq<(String, Json)>, p: (String, Json))
    ensures
        #[trigger] view_fields(s.push(p)) == view_fields(s).push((p.0@, view_json(p.1))),
{
    assert(s.push(p).drop_last() =~= s);
    assert(s.push(p).last() == p);
}

pub broadcast proof fn lemma_view_fields_remove(s: Seq<(String, Json)>, i: int)
    requires
        0 <= i < s.len(),
    ensures
        #[trigger] view_fields(s.remove(i)) == view_fields(s).remove(i),
{
    let a = view_fields(s.remove(i));
    let b = view_fields(s).remove(i);
    lemma_view_fields_len(s);
    lemma_view_fields_len(s.remove(i));
    assert forall|j: int| 0 <= j < s.len() - 1 implies a[j] == b[j] by {
        lemma_view_fields_index(s.remove(i), j);
        if j < i {
            lemma_view_fields_index(s, j);
        } else {
            lemma_view_fields_index(s, j + 1);
        }
    }
    assert(a =~= b);
}

pub broadcast proof fn lemma_view_list_update(s: Seq<Json>, i: int, x: Json)
    requires
        0 <= i < s.len(),
    ensures
        #[trigger] view_list(s.update(i, x)) == view_list(s).update(i, view_json(x)),
{
    let a = view_list(s.update(i, x));
    let b = view_list(s).update(i, view_json(x));
    lemma_view_list_len(s);
    lemma_view_list_len(s.update(i, x));
    assert forall|j: int| 0 <= j < s.len() implies a[j] == b[j] by {
        lemma_view_list_index(s.update(i, x), j);
        if j != i {
            lemma_view_list_index(s, j);
        }
    }
    assert(a =~= b);
}

pub broadcast proof fn lemma_view_list_push(s: Seq<Json>, x: Json)
    ensures
        #[trigger] view_list(s.push(x)) == view_list(s).push(view_json(x)),
{
    assert(s.push(x).drop_last() =~= s);
    assert(s.push(x).last() == x);
}

pub broadcast proof fn lemma_view_list_insert(s: Seq<Json>, i: int, x: Json)
    requires
        0 <= i <= s.len(),
    ensures
        #[trigger] view_list(s.insert(i, x)) == view_list(s).insert(i, view_json(x)),
{
    let a = view_list(s.insert(i, x));
    let b = view_list(s).insert(i, view_json(x));
    lemma_view_list_len(s);
    lemma_view_list_len(s.insert(i, x));
    assert forall|j: int| 0 <= j < s.len() + 1 implies a[j] == b[j] by {
        lemma_view_list_index(s.insert(i, x), j);
        if j < i {
            lemma_view_list_index(s, j);
        } else if j > i {
            lemma_view_list_index(s, j - 1);
        }
    }
    assert(a =~= b);
}

/// After binding `k` to `v`, looking up `k` yields `v`.
pub proof fn lemma_jwith_lookup(j: JsonV, k: Seq<char>, v: JsonV)
    requires
        j is Obj,
    ensures
        jlookup(jwith(j, k, v), k) == Option::Some(v),
{
    let o = j->Obj_0;
    if obj_has_key(o, k) {
        lemma_obj_key_idx(o, k);
        let i = obj_key_idx(o, k);
        let o2 = o.update(i, (k, v));
        assert forall|m: int| 0 <= m < i implies o2[m].0 != k by {
            assert(o2[m] == o[m]);
        }
        lemma_obj_key_idx_at(o2, k, i);
    } else {
        let o2 = o.push((k, v));
        assert forall|m: int| 0 <= m < o.len() implies o2[m].0 != k by {
            assert(o2[m] == o[m]);
        }
        lemma_obj_key_idx_at(o2, k, o.len() as int);
    }
}

/// Binding one key leaves every other key's lookup unchanged.
pub proof fn lemma_jwith_lookup_other(j: JsonV, k: Seq<char>, k2: Seq<char>, v: JsonV)
    requires
        k2 != k,
    ensures
        jlookup(jwith(j, k, v), k2) == jlookup(j, k2),
{
    match j {
        JsonV::Obj(o) => {
            let o2 = obj_with(o, k, v);
            if obj_has_key(o, k) {
                lemma_obj_key_idx(o, k);
                let i = obj_key_idx(o, k);
                assert(forall|m: int| 0 <= m < o.len() && m != i ==> o2[m] == o[m]);
                if obj_has_key(o, k2) {
                    lemma_obj_key_idx(o, k2);
                    let i2 = obj_key_idx(o, k2);
                    assert(o2[i2] == o[i2]);
                    assert forall|m: int| 0 <= m < i2 implies o2[m].0 != k2 by {
                        if m != i {
                            assert(o2[m] == o[m]);
                        }
                    }
                    lemma_obj_key_idx_at(o2, k2, i2);
                } else {
                    assert(!obj_has_key(o2, k2)) by {
                        if obj_has_key(o2, k2) {
                            let w = choose|w: int|
                                0 <= w < o2.len() && o2[w].0 == k2;
                            if w != i {
                                assert(o2[w] == o[w]);
                            }
                        }
                    }
                }
            } else {
                if obj_has_key(o, k2) {
                    lemma_obj_key_idx(o, k2);
                    let i2 = obj_key_idx(o, k2);
                    assert(o2[i2] == o[i2]);
                    assert forall|m: int| 0 <= m < i2 implies o2[m].0 != k2 by {
                        assert(o2[m] == o[m]);
                    }
                    lemma_obj_key_idx_at(o2, k2, i2);
                } else {
                    assert(!obj_has_key(o2, k2)) by {
                        if obj_has_key(o2, k2) {
                            let w = choose|w: int|
                                0 <= w < o2.len() && o2[w].0 == k2;
                            if w < o.len() {
                                assert(o2[w] == o[w]);
                            }
                        }
                    }
                }
            }
        },
        _ => {},
    }
}

/// Writing back the value a key already holds leaves the object unchanged.
pub proof fn lemma_jwith_same(j: JsonV, k: Seq<char>, v: JsonV)
    requires
        jlookup(j, k) == Option::Some(v),
    ensures
        jwith(j, k, v) == j,
{
    match j {
        JsonV::Obj(o) => {
            lemma_obj_key_idx(o, k);
            let i = obj_key_idx(o, k);
            assert((k, v) == o[i]);
            assert(o.update(i, (k, v)) =~= o);
        },
        _ => {},
    }
}

/// Elements equal to `Str(k)` removed, in order.
pub open spec fn list_without_str(a: Seq<JsonV>, k: Seq<char>) -> Seq<JsonV>
    decreases a.len(),
{
    if a.len() == 0 {
        Seq::empty()
    } else if a.last() == JsonV::Str(k) {
        list_without_str(a.drop_last(), k)
    } else {
        list_without_str(a.drop_last(), k).push(a.last())
    }
}

/// Whether some element equals `Str(k)`.
pub open spec fn list_has_str(a: Seq<JsonV>, k: Seq<char>) -> bool {
    exists|i: int| 0 <= i < a.len() && a[i] == JsonV::Str(k)
}

/// Character-wise string comparison, so that equality is tied to the views.
pub fn str_eq(a: &str, b: &str) -> (r: bool)
    ensures
        r == (a@ == b@),
{
    let la = a.unicode_len();
    let lb = b.unicode_len();
    if la != lb {
        return false;
    }
    let mut i: usize = 0;
    while i < la
        invariant
            i <= la,
            la == a@.len(),
            lb == b@.len(),
            la == lb,
            forall|j: int| 0 <= j < i ==> a@[j] == b@[j],
        decreases la - i,
    {
        if a.get_char(i) != b.get_char(i) {
            return false;
        }
        i += 1;
    }
    proof {
        assert(a@ =~= b@);
    }
    true
}

/// Mutable access to element `i`, stated at the model level.
fn list_value_mut<'a>(v: &'a mut Vec<Json>, i: usize) -> (m: &'a mut Json)
    requires
        i < old(v)@.len(),
    ensures
        *m == old(v)@[i as int],
        view_list(final(v)@) == view_list(old(v)@).update(i as int, final(m)@),
{
    broadcast use lemma_view_list_update, lemma_view_list_len;

    &mut v[i]
}

/// Mutable access to the value half of a field entry.
fn pair_value_mut<'a>(e: &'a mut (String, Json)) -> (m: &'a mut Json)
    ensures
        *m == old(e).1,
        *final(e) == (old(e).0, *final(m)),
{
    &mut e.1
}

/// Mutable access to the value of entry `i`, stated at the model level.
fn field_value_mut<'a>(fields: &'a mut Vec<(String, Json)>, i: usize) -> (m: &'a mut Json)
    requires
        i < old(fields)@.len(),
    ensures
        *m == old(fields)@[i as int].1,
        view_fields(final(fields)@) == view_fields(old(fields)@).update(
            i as int,
            (old(fields)@[i as int].0@, final(m)@),
        ),
{
    broadcast use lemma_view_fields_update, lemma_view_fields_len;

    let e = &mut fields[i];
    pair_value_mut(e)
}

/// Index of the first entry whose key equals `key`, if any.
fn obj_find(fields: &Vec<(String, Json)>, key: &str) -> (r: Option<usize>)
    ensures
        match r {
            Option::Some(i) => {
                &&& i < fields@.len()
                &&& obj_has_key(view_fields(fields@), key@)
                &&& obj_key_idx(view_fields(fields@), key@) == i
            },
            Option::None => !obj_has_key(view_fields(fields@), key@),
        },
{
    let ghost o = view_fields(fields@);
    proof {
        lemma_view_fields_len(fields@);
    }
    let n = fields.len();
    let mut i: usize = 0;
    while i < n
        invariant
            i <= n,
            n == fields@.len(),
            o == view_fields(fields@),
            o.len() == fields@.len(),
            forall|j: int| 0 <= j < i ==> o[j].0 != key@,
        decreases n - i,
    {
        proof {
            lemma_view_fields_index(fields@, i as int);
        }
        if str_eq(fields[i].0.as_str(), key) {
            proof {
                lemma_obj_key_idx_at(o, key@, i as int);
            }
            return Option::Some(i);
        }
        i += 1;
    }
    proof {
        assert(!obj_has_key(o, key@)) by {
            if obj_has_key(o, key@) {
                let w = choose|w: int| 0 <= w < o.len() && o[w].0 == key@;
            }
        }
    }
    Option::None
}

impl Json {
    /// The value of field `key`, when this is an object that carries it.
    pub fn get<'a>(&'a self, key: &str) -> (r: Option<&'a Json>)
        ensures
            match r {
                Option::Some(v) => jlookup(self@, key@) == Option::Some(v@),
                Option::None => jlookup(self@, key@) is None,
            },
    {
        match self {
            Json::Obj(fields) => {
                match obj_find(fields, key) {
                    Option::Some(i) => {
                        proof {
                            lemma_view_fields_index(fields@, i as int);
                        }
                        Option::Some(&fields[i].1)
                    },
                    Option::None => Option::None,
                }
            },
            _ => Option::None,
        }
    }

    /// Bind field `key` to `val`: overwrite the first occurrence in place, or
    /// append the field when absent.
    pub fn set(&mut self, key: &str, val: Json)
        requires
            old(self)@ is Obj,
        ensures
            final(self)@ == jwith(old(self)@, key@, val@),
    {
        match self {
            Json::Obj(fields) => {
                match obj_find(fields, key) {
                    Option::Some(i) => {
                        proof {
                            lemma_view_fields_len(fields@);
                        }
                        let p = (key.to_owned(), val);
                        proof {
                            lemma_view_fields_update(fields@, i as int, p);
                        }
                        fields[i] = p;
                    },
                    Option::None => {
                        let p = (key.to_owned(), val);
                        proof {
                            lemma_view_fields_push(fields@, p);
                        }
                        fields.push(p);
                    },
                }
            },
            _ => {},
        }
    }

    /// Borrow the value of field `key` mutably, when this is an object that
    /// carries it. The object after the call is the old object with that
    /// field's value replaced by whatever the borrow is left holding.
    pub fn get_mut<'a>(&'a mut self, key: &str) -> (r: Option<&'a mut Json>)
        ensures
            match r {
                Option::Some(m) => {
                    &&& jlookup(old(self)@, key@) == Option::Some((*m)@)
                    &&& final(self)@ == jwith(old(self)@, key@, final(m)@)
                },
                Option::None => {
                    &&& jlookup(old(self)@, key@) is None
                    &&& final(self)@ == old(self)@
                },
            },
    {
        broadcast use lemma_view_fields_update;

        match self {
            Json::Obj(fields) => {
                match obj_find(fields, key) {
                    Option::Some(i) => {
                        proof {
                            lemma_view_fields_len(fields@);
                            lemma_view_fields_index(fields@, i as int);
                            lemma_obj_key_idx(view_fields(fields@), key@);
                        }
                        let m = field_value_mut(fields, i);
                        Option::Some(m)
                    },
                    Option::None => Option::None,
                }
            },
            _ => Option::None,
        }
    }

    /// Remove the first occurrence of field `key`, when present.
    pub fn remove_key(&mut self, key: &str)
        requires
            old(self)@ is Obj,
        ensures
            final(self)@ == jwithout(old(self)@, key@),
    {
        match self {
            Json::Obj(fields) => {
                match obj_find(fields, key) {
                    Option::Some(i) => {
                        proof {
                            lemma_view_fields_len(fields@);
                            lemma_view_fields_remove(fields@, i as int);
                        }
                        let _ = fields.remove(i);
                    },
                    Option::None => {},
                }
            },
            _ => {},
        }
    }

    /// Whether this is an object carrying field `key`.
    pub fn has_key(&self, key: &str) -> (r: bool)
        ensures
            r == (self@ is Obj && obj_has_key(self@->Obj_0, key@)),
    {
        match self {
            Json::Obj(fields) => {
                match obj_find(fields, key) {
                    Option::Some(_) => true,
                    Option::None => false,
                }
            },
            _ => false,
        }
    }

    /// Whether this value is an object.
    pub fn is_object(&self) -> (r: bool)
        ensures
            r == (self@ is Obj),
    {
        match self {
            Json::Obj(_) => true,
            _ => false,
        }
    }

    /// Whether this value is an array.
    pub fn is_array(&self) -> (r: bool)
        ensures
            r == (self@ is Arr),
    {
        match self {
            Json::Arr(_) => true,
            _ => false,
        }
    }

    /// Whether this value is the null marker.
    pub fn is_null(&self) -> (r: bool)
        ensures
            r == (self@ is Null),
    {
        match self {
            Json::Null => true,
            _ => false,
        }
    }

    /// Whether this value is a number: an integer, or a decimal rendering.
    pub fn is_number(&self) -> (r: bool)
        ensures
            r == (self@ is Int || self@ is Num),
    {
        match self {
            Json::Int(_) => true,
            Json::Num(_) => true,
            _ => false,
        }
    }

    /// The integer this value holds, when it is an `Int`.
    pub fn as_int(&self) -> (r: Option<i64>)
        ensures
            match r {
                Option::Some(i) => self@ == JsonV::Int(i as int),
                Option::None => !(self@ is Int),
            },
    {
        match self {
            Json::Int(i) => Option::Some(*i),
            _ => Option::None,
        }
    }

    /// The string this value holds, when it is a `Str`.
    pub fn as_str<'a>(&'a self) -> (r: Option<&'a str>)
        ensures
            match r {
                Option::Some(t) => self@ == JsonV::Str(t@),
                Option::None => !(self@ is Str),
            },
    {
        match self {
            Json::Str(t) => Option::Some(t.as_str()),
            _ => Option::None,
        }
    }

    /// Whether this value is the string `s`.
    pub fn is_str(&self, s: &str) -> (r: bool)
        ensures
            r == (self@ == JsonV::Str(s@)),
    {
        match self {
            Json::Str(t) => str_eq(t.as_str(), s),
            _ => false,
        }
    }

    /// A structurally equal copy.
    #[verifier::loop_isolation(false)]
    pub fn deep_copy(&self) -> (r: Json)
        ensures
            r@ == self@,
        decreases *self,
    {
        match self {
            Json::Null => Json::Null,
            Json::Bool(b) => Json::Bool(*b),
            Json::Int(i) => Json::Int(*i),
            Json::Num(s) => Json::Num(s.clone()),
            Json::Str(s) => Json::Str(s.clone()),
            Json::Arr(v) => {
                let n = v.len();
                let mut out: Vec<Json> = Vec::new();
                let mut i: usize = 0;
                while i < n
                    invariant
                        i <= n,
                        n == v@.len(),
                        out@.len() == i,
                        forall|j: int| 0 <= j < i ==> #[trigger] out@[j]@ == v@[j]@,
                    decreases n - i,
                {
                    proof {
                        assert(decreases_to!(*self => *v));
                        assert(decreases_to!(*v => v@));
                        assert(decreases_to!(v@ => v@[i as int]));
                    }
                    let c = v[i].deep_copy();
                    out.push(c);
                    i += 1;
                }
                proof {
                    lemma_view_list_len(out@);
                    lemma_view_list_len(v@);
                    assert forall|j: int|
                        0 <= j < v@.len() implies view_list(out@)[j] == view_list(v@)[j] by {
                        lemma_view_list_index(out@, j);
                        lemma_view_list_index(v@, j);
                        assert(out@[j]@ == v@[j]@);
                    }
                    assert(view_list(out@) =~= view_list(v@));
                }
                Json::Arr(out)
            },
            Json::Obj(v) => {
                let n = v.len();
                let mut out: Vec<(String, Json)> = Vec::new();
                let mut i: usize = 0;
                while i < n
                    invariant
                        i <= n,
                        n == v@.len(),
                        out@.len() == i,
                        forall|j: int|
                            0 <= j < i ==> (#[trigger] out@[j]).0@ == v@[j].0@ && out@[j].1@
                                == v@[j].1@,
                    decreases n - i,
                {
                    proof {
                        assert(decreases_to!(*self => *v));
                        assert(decreases_to!(*v => v@));
                        assert(decreases_to!(v@ => v@[i as int]));
                        assert(decreases_to!(v@[i as int] => v@[i as int].1));
                    }
                    let e = &v[i];
                    let k = e.0.clone();
                    let c = e.1.deep_copy();
                    out.push((k, c));
                    i += 1;
                }
                proof {
                    lemma_view_fields_len(out@);
                    lemma_view_fields_len(v@);
                    assert forall|j: int|
                        0 <= j < v@.len() implies view_fields(out@)[j] == view_fields(v@)[j] by {
                        lemma_view_fields_index(out@, j);
                        lemma_view_fields_index(v@, j);
                        assert(out@[j].0@ == v@[j].0@ && out@[j].1@ == v@[j].1@);
                    }
                    assert(view_fields(out@) =~= view_fields(v@));
                }
                Json::Obj(out)
            },
        }
    }

    /// Insert `x` at the front of this array.
    pub fn arr_insert_front(&mut self, x: Json)
        requires
            old(self)@ is Arr,
        ensures
            final(self)@ == JsonV::Arr(old(self)@->Arr_0.insert(0, x@)),
    {
        match self {
            Json::Arr(v) => {
                proof {
                    lemma_view_list_len(v@);
                    lemma_view_list_insert(v@, 0, x);
                }
                v.insert(0, x);
            },
            _ => {},
        }
    }

    /// Overwrite element `i` of this array.
    pub fn arr_set(&mut self, i: usize, x: Json)
        requires
            old(self)@ is Arr,
            i < old(self)@->Arr_0.len(),
        ensures
            final(self)@ == JsonV::Arr(old(self)@->Arr_0.update(i as int, x@)),
    {
        match self {
            Json::Arr(v) => {
                proof {
                    lemma_view_list_len(v@);
                    lemma_view_list_update(v@, i as int, x);
                }
                let slot = &mut v[i];
                *slot = x;
            },
            _ => {},
        }
    }

    /// The length of this array.
    pub fn arr_len(&self) -> (r: usize)
        requires
            self@ is Arr,
        ensures
            r == self@->Arr_0.len(),
    {
        match self {
            Json::Arr(v) => {
                proof {
                    lemma_view_list_len(v@);
                }
                v.len()
            },
            _ => 0,
        }
    }

    /// Element `i` of this array.
    pub fn arr_get<'a>(&'a self, i: usize) -> (r: Option<&'a Json>)
        ensures
            match r {
                Option::Some(v) => {
                    &&& self@ is Arr
                    &&& i < self@->Arr_0.len()
                    &&& v@ == self@->Arr_0[i as int]
                },
                Option::None => !(self@ is Arr) || i >= self@->Arr_0.len(),
            },
    {
        match self {
            Json::Arr(v) => {
                proof {
                    lemma_view_list_len(v@);
                }
                if i < v.len() {
                    proof {
                        lemma_view_list_index(v@, i as int);
                    }
                    Option::Some(&v[i])
                } else {
                    Option::None
                }
            },
            _ => Option::None,
        }
    }

    /// Borrow element `i` of this array mutably. The array after the call is
    /// the old array with that element replaced by whatever the borrow is left
    /// holding.
    pub fn arr_get_mut<'a>(&'a mut self, i: usize) -> (r: Option<&'a mut Json>)
        ensures
            match r {
                Option::Some(m) => {
                    &&& old(self)@ is Arr
                    &&& i < old(self)@->Arr_0.len()
                    &&& (*m)@ == old(self)@->Arr_0[i as int]
                    &&& final(self)@ == JsonV::Arr(
                        old(self)@->Arr_0.update(i as int, final(m)@),
                    )
                },
                Option::None => {
                    &&& (!(old(self)@ is Arr) || i >= old(self)@->Arr_0.len())
                    &&& final(self)@ == old(self)@
                },
            },
    {
        match self {
            Json::Arr(v) => {
                proof {
                    lemma_view_list_len(v@);
                }
                if i < v.len() {
                    proof {
                        lemma_view_list_index(v@, i as int);
                    }
                    let m = list_value_mut(v, i);
                    Option::Some(m)
                } else {
                    Option::None
                }
            },
            _ => Option::None,
        }
    }

    /// Whether this array holds the string `s` as an element.
    #[verifier::loop_isolation(false)]
    pub fn arr_contains_str(&self, s: &str) -> (r: bool)
        ensures
            r == (self@ is Arr && list_has_str(self@->Arr_0, s@)),
    {
        match self {
            Json::Arr(v) => {
                let ghost a = view_list(v@);
                proof {
                    lemma_view_list_len(v@);
                }
                let n = v.len();
                let mut i: usize = 0;
                while i < n
                    invariant
                        i <= n,
                        n == v@.len(),
                        a == view_list(v@),
                        a.len() == n,
                        forall|j: int| 0 <= j < i ==> a[j] != JsonV::Str(s@),
                    decreases n - i,
                {
                    proof {
                        lemma_view_list_index(v@, i as int);
                    }
                    if v[i].is_str(s) {
                        proof {
                            assert(a[i as int] == JsonV::Str(s@));
                            assert(list_has_str(a, s@));
                        }
                        return true;
                    }
                    i += 1;
                }
                proof {
                    assert(!list_has_str(a, s@)) by {
                        if list_has_str(a, s@) {
                            let w = choose|w: int| 0 <= w < a.len() && a[w] == JsonV::Str(s@);
                        }
                    }
                }
                false
            },
            _ => false,
        }
    }

    /// Remove every element equal to the string `s` from this array.
    pub fn arr_remove_str(&mut self, s: &str)
        requires
            old(self)@ is Arr,
        ensures
            final(self)@ == JsonV::Arr(list_without_str(old(self)@->Arr_0, s@)),
    {
        broadcast use lemma_view_list_push;

        match self {
            Json::Arr(v) => {
                let ghost a = view_list(v@);
                proof {
                    lemma_view_list_len(v@);
                }
                let n = v.len();
                let mut out: Vec<Json> = Vec::new();
                let mut i: usize = 0;
                while i < n
                    invariant
                        i <= n,
                        n == v@.len(),
                        a == view_list(v@),
                        a.len() == n,
                        view_list(out@) == list_without_str(a.take(i as int), s@),
                    decreases n - i,
                {
                    proof {
                        lemma_view_list_index(v@, i as int);
                        assert(a.take(i + 1).drop_last() =~= a.take(i as int));
                        assert(a.take(i + 1).last() == a[i as int]);
                    }
                    let e = &v[i];
                    if !e.is_str(s) {
                        let c = e.deep_copy();
                        proof {
                            lemma_view_list_push(out@, c);
                        }
                        out.push(c);
                    }
                    i += 1;
                }
                proof {
                    assert(a.take(n as int) =~= a);
                }
                *self = Json::Arr(out);
            },
            _ => {},
        }
    }
}

} // verus!
