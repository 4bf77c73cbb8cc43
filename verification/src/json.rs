//! A native JSON document model. The executable type `JsonValue` keeps
//! object fields as an ordered list of key/value pairs; its ghost model
//! `JsonModel` is what every contract speaks of. Lookup follows the
//! usual dynamic-JSON convention: reading a missing key, or reading
//! through a non-object, yields `Null` rather than failing.

use vstd::prelude::*;

verus! {

/// Ghost model of a JSON document.
pub enum JsonModel {
    Null,
    Bool(bool),
    Int(int),
    Str(Seq<char>),
    Arr(Seq<JsonModel>),
    Obj(Seq<(Seq<char>, JsonModel)>),
}

/// A JSON document. Numbers are integers: the configuration documents
/// this library serves hold only versions (strings), addresses
/// (strings) and ports (integers).
#[derive(Debug, PartialEq, Eq)]
pub enum JsonValue {
    Null,
    Bool(bool),
    Int(i64),
    Str(Vec<char>),
    Arr(Vec<JsonValue>),
    Obj(Vec<(Vec<char>, JsonValue)>),
}

/// The models of a list of elements.
pub open spec fn arr_model(xs: Seq<JsonValue>) -> Seq<JsonModel>
    decreases xs,
{
    Seq::new(
        xs.len(),
        |i: int|
            if 0 <= i < xs.len() {
                xs[i].model()
            } else {
                JsonModel::Null
            },
    )
}

/// The models of a list of fields.
pub open spec fn fields_model(fs: Seq<(Vec<char>, JsonValue)>) -> Seq<(Seq<char>, JsonModel)>
    decreases fs,
{
    Seq::new(
        fs.len(),
        |i: int|
            if 0 <= i < fs.len() {
                (fs[i].0@, fs[i].1.model())
            } else {
                (Seq::empty(), JsonModel::Null)
            },
    )
}

pub broadcast proof fn lemma_arr_model_len(xs: Seq<JsonValue>)
    ensures
        (#[trigger] arr_model(xs)).len() == xs.len(),
{
}

pub broadcast proof fn lemma_arr_model_index(xs: Seq<JsonValue>, i: int)
    requires
        0 <= i < xs.len(),
    ensures
        #[trigger] arr_model(xs)[i] == xs[i].model(),
{
}

pub broadcast proof fn lemma_fields_model_len(fs: Seq<(Vec<char>, JsonValue)>)
    ensures
        (#[trigger] fields_model(fs)).len() == fs.len(),
{
}

pub broadcast proof fn lemma_fields_model_index(fs: Seq<(Vec<char>, JsonValue)>, i: int)
    requires
        0 <= i < fs.len(),
    ensures
        #[trigger] fields_model(fs)[i] == (fs[i].0@, fs[i].1.model()),
{
}

pub broadcast group group_json_model_axioms {
    lemma_arr_model_len,
    lemma_arr_model_index,
    lemma_fields_model_len,
    lemma_fields_model_index,
}

impl JsonValue {
    /// The ghost model of this document.
    pub open spec fn model(&self) -> JsonModel
        decreases self,
    {
        match self {
            JsonValue::Null => JsonModel::Null,
            JsonValue::Bool(b) => JsonModel::Bool(*b),
            JsonValue::Int(n) => JsonModel::Int(*n as int),
            JsonValue::Str(s) => JsonModel::Str(s@),
            JsonValue::Arr(xs) => JsonModel::Arr(arr_model(xs@)),
            JsonValue::Obj(fs) => JsonModel::Obj(fields_model(fs@)),
        }
    }
}

/// First value bound to `k`, if any.
pub open spec fn obj_lookup(fs: Seq<(Seq<char>, JsonModel)>, k: Seq<char>) -> Option<JsonModel>
    decreases fs.len(),
{
    if fs.len() == 0 {
        None
    } else if fs[0].0 == k {
        Some(fs[0].1)
    } else {
        obj_lookup(fs.drop_first(), k)
    }
}

/// Reading key `k` from `m`: the bound value if `m` is an object that
/// has the key, `Null` otherwise.
pub open spec fn jm_get(m: JsonModel, k: Seq<char>) -> JsonModel {
    match m {
        JsonModel::Obj(fs) => match obj_lookup(fs, k) {
            Some(v) => v,
            None => JsonModel::Null,
        },
        _ => JsonModel::Null,
    }
}

/// Reading a two-step path.
pub open spec fn jm_get2(m: JsonModel, k1: Seq<char>, k2: Seq<char>) -> JsonModel {
    jm_get(jm_get(m, k1), k2)
}

pub proof fn lemma_obj_lookup_hit(fs: Seq<(Seq<char>, JsonModel)>, k: Seq<char>, i: int)
    requires
        0 <= i < fs.len(),
        fs[i].0 == k,
        forall|j: int| 0 <= j < i ==> fs[j].0 != k,
    ensures
        obj_lookup(fs, k) == Some(fs[i].1),
    decreases i,
{
    if i > 0 {
        lemma_obj_lookup_hit(fs.drop_first(), k, i - 1);
    }
}

pub proof fn lemma_obj_lookup_miss(fs: Seq<(Seq<char>, JsonModel)>, k: Seq<char>)
    requires
        forall|j: int| 0 <= j < fs.len() ==> fs[j].0 != k,
    ensures
        obj_lookup(fs, k) is None,
    decreases fs.len(),
{
    if fs.len() > 0 {
        lemma_obj_lookup_miss(fs.drop_first(), k);
    }
}

impl JsonValue {
    /// Reads key `key`. `None` means `self` is not an object or has no
    /// such entry.
    pub fn obj_get<'a>(&'a self, key: &Vec<char>) -> (r: Option<&'a JsonValue>)
        ensures
            match r {
                Some(x) => self.model() matches JsonModel::Obj(fs) && obj_lookup(fs, key@) == Some(
                    x.model(),
                ),
                None => jm_get(self.model(), key@) == JsonModel::Null && match self.model() {
                    JsonModel::Obj(fs) => obj_lookup(fs, key@) is None,
                    _ => true,
                },
            },
    {
        broadcast use group_json_model_axioms;

        match self {
            JsonValue::Obj(fs) => {
                let n = fs.len();
                let mut i: usize = 0;
                while i < n
                    invariant
                        n == fs@.len(),
                        self == JsonValue::Obj(*fs),
                        i <= n,
                        forall|j: int| 0 <= j < i ==> fields_model(fs@)[j].0 != key@,
                    decreases n - i,
                {
                    if crate::text::chars_eq(&fs[i].0, key) {
                        proof {
                            assert(self.model() == JsonModel::Obj(fields_model(fs@)));
                            assert(fields_model(fs@)[i as int] == (fs@[i as int].0@,
                            fs@[i as int].1.model()));
                            lemma_obj_lookup_hit(fields_model(fs@), key@, i as int);
                            assert(obj_lookup(fields_model(fs@), key@) == Some(
                                fs@[i as int].1.model(),
                            ));
                        }
                        return Some(&fs[i].1);
                    }
                    i = i + 1;
                }
                proof {
                    lemma_obj_lookup_miss(fields_model(fs@), key@);
                }
                None
            },
            _ => None,
        }
    }

    /// Reads key `key` as dynamic indexing does: `Null` when the key is
    /// missing or `self` is not an object.
    pub fn index_or_null<'a>(&'a self, key: &Vec<char>) -> (r: &'a JsonValue)
        ensures
            r.model() == jm_get(self.model(), key@),
    {
        match self.obj_get(key) {
            Some(v) => v,
            None => &JsonValue::Null,
        }
    }

    /// The string content, if `self` is a string.
    pub fn as_str<'a>(&'a self) -> (r: Option<&'a Vec<char>>)
        ensures
            match r {
                Some(s) => self.model() == JsonModel::Str(s@),
                None => !(self.model() matches JsonModel::Str(_)),
            },
    {
        match self {
            JsonValue::Str(s) => Some(s),
            _ => None,
        }
    }

    /// The integer content, if `self` is a number.
    pub fn as_int(&self) -> (r: Option<i64>)
        ensures
            match r {
                Some(n) => self.model() == JsonModel::Int(n as int),
                None => !(self.model() matches JsonModel::Int(_)),
            },
    {
        match self {
            JsonValue::Int(n) => Some(*n),
            _ => None,
        }
    }

    /// The boolean content of `self`, with `or` for anything that is
    /// not a boolean.
    pub fn as_bool_or(&self, or: bool) -> (r: bool)
        ensures
            r == (match self.model() {
                JsonModel::Bool(b) => b,
                _ => or,
            }),
    {
        match self {
            JsonValue::Bool(b) => *b,
            _ => or,
        }
    }
}

/// A structural copy: the result has the same model as `v`.
pub fn deep_clone(v: &JsonValue) -> (r: JsonValue)
    ensures
        r.model() == v.model(),
    decreases v,
{
    broadcast use group_json_model_axioms;

    match v {
        JsonValue::Null => JsonValue::Null,
        JsonValue::Bool(b) => JsonValue::Bool(*b),
        JsonValue::Int(n) => JsonValue::Int(*n),
        JsonValue::Str(s) => JsonValue::Str(clone_chars(s)),
        JsonValue::Arr(xs) => {
            let n = xs.len();
            let mut out: Vec<JsonValue> = Vec::new();
            let mut i: usize = 0;
            while i < n
                invariant
                    n == xs@.len(),
                    v == JsonValue::Arr(*xs),
                    i <= n,
                    out@.len() == i,
                    forall|j: int| 0 <= j < i ==> #[trigger] out@[j].model() == xs@[j].model(),
                decreases n - i,
            {
                proof {
                    assert(decreases_to!(*v => v->Arr_0));
                    assert(decreases_to!(*xs => xs@));
                    assert(decreases_to!(xs@ => xs@[i as int]));
                }
                out.push(deep_clone(&xs[i]));
                i = i + 1;
            }
            proof {
                assert(arr_model(out@) =~= arr_model(xs@));
            }
            JsonValue::Arr(out)
        },
        JsonValue::Obj(fs) => {
            let n = fs.len();
            let mut out: Vec<(Vec<char>, JsonValue)> = Vec::new();
            let mut i: usize = 0;
            while i < n
                invariant
                    n == fs@.len(),
                    v == JsonValue::Obj(*fs),
                    i <= n,
                    out@.len() == i,
                    forall|j: int| 0 <= j < i ==> #[trigger] out@[j].0@ == fs@[j].0@,
                    forall|j: int| 0 <= j < i ==> #[trigger] out@[j].1.model() == fs@[j].1.model(),
                decreases n - i,
            {
                proof {
                    assert(decreases_to!(*v => v->Obj_0));
                    assert(decreases_to!(*fs => fs@));
                    assert(decreases_to!(fs@ => fs@[i as int]));
                    assert(decreases_to!(fs@[i as int] => fs@[i as int].1));
                }
                let entry = (clone_chars(&fs[i].0), deep_clone(&fs[i].1));
                out.push(entry);
                i = i + 1;
            }
            proof {
                assert(fields_model(out@) =~= fields_model(fs@));
            }
            JsonValue::Obj(out)
        },
    }
}

impl Clone for JsonValue {
    /// A structural copy: the clone has the same model.
    fn clone(&self) -> (r: JsonValue)
        ensures
            r.model() == self.model(),
    {
        deep_clone(self)
    }
}

/// Copies a character vector.
pub fn clone_chars(s: &Vec<char>) -> (r: Vec<char>)
    ensures
        r@ == s@,
{
    let mut out: Vec<char> = Vec::new();
    let mut i: usize = 0;
    let n = s.len();
    while i < n
        invariant
            n == s@.len(),
            i <= n,
            out@ == s@.subrange(0, i as int),
        decreases n - i,
    {
        out.push(s[i]);
        i = i + 1;
        proof {
            assert(out@ =~= s@.subrange(0, i as int));
        }
    }
    proof {
        assert(out@ =~= s@);
    }
    out
}

/// Writing key `k` to `val` in `m`: replaces the first binding of `k`,
/// appends a new one when the key is absent, turns `Null` into a
/// one-entry object, and leaves every other non-object unchanged.
pub open spec fn jm_set(m: JsonModel, k: Seq<char>, val: JsonModel) -> JsonModel {
    match m {
        JsonModel::Obj(fs) => {
            if obj_lookup(fs, k) is Some {
                JsonModel::Obj(
            Seq::new(
                fs.len(),
                |i: int|
                    if fs[i].0 == k && (forall|j: int| 0 <= j < i ==> fs[j].0 != k) {
                        (k, val)
                    } else {
                        fs[i]
                    },
            ),
        )
            } else {
                JsonModel::Obj(fs.push((k, val)))
            }
        },
        JsonModel::Null => JsonModel::Obj(seq![(k, val)]),
        _ => m,
    }
}

/// The index of the first field named `key`, if any.
fn find_key(fs: &Vec<(Vec<char>, JsonValue)>, key: &Vec<char>) -> (r: Option<usize>)
    ensures
        match r {
            Some(k) => 0 <= k < fs@.len() && fields_model(fs@)[k as int].0 == key@ && forall|j: int|
                0 <= j < k ==> fields_model(fs@)[j].0 != key@,
            None => forall|j: int| 0 <= j < fs@.len() ==> fields_model(fs@)[j].0 != key@,
        },
{
    broadcast use group_json_model_axioms;

    let n = fs.len();
    let mut i: usize = 0;
    while i < n
        invariant
            n == fs@.len(),
            i <= n,
            forall|j: int| 0 <= j < i ==> fields_model(fs@)[j].0 != key@,
        decreases n - i,
    {
        if crate::text::chars_eq(&fs[i].0, key) {
            return Some(i);
        }
        i = i + 1;
    }
    None
}

impl JsonValue {
    /// Returns `self` with key `key` bound to `val`, as `jm_set` says.
    pub fn obj_set(&self, key: &Vec<char>, val: JsonValue) -> (r: JsonValue)
        ensures
            r.model() == jm_set(self.model(), key@, val.model()),
    {
        broadcast use group_json_model_axioms;

        match self {
            JsonValue::Obj(fs) => {
                let n = fs.len();
                let found = find_key(fs, key);
                let mut out: Vec<(Vec<char>, JsonValue)> = Vec::new();
                let mut i: usize = 0;
                while i < n
                    invariant
                        n == fs@.len(),
                        self == JsonValue::Obj(*fs),
                        i <= n,
                        out@.len() == i,
                        match found {
                            Some(k) => 0 <= k < fs@.len() && fields_model(fs@)[k as int].0 == key@
                                && forall|j: int|
                                0 <= j < k ==> fields_model(fs@)[j].0 != key@,
                            None => forall|j: int|
                                0 <= j < fs@.len() ==> fields_model(fs@)[j].0 != key@,
                        },
                        forall|j: int|
                            0 <= j < i ==> #[trigger] fields_model(out@)[j] == (
                            if found == Some(j as usize) {
                                (key@, val.model())
                            } else {
                                fields_model(fs@)[j]
                            }),
                    decreases n - i,
                {
                    let ghost out0 = out@;
                    let hit = match found {
                        Some(k) => k == i,
                        None => false,
                    };
                    if hit {
                        let entry = (clone_chars(key), val.clone());
                        out.push(entry);
                        proof {
                            assert(fields_model(out@)[i as int] == (key@, val.model()));
                        }
                    } else {
                        let entry = (clone_chars(&fs[i].0), fs[i].1.clone());
                        out.push(entry);
                        proof {
                            assert(fields_model(out@)[i as int] == (fs@[i as int].0@,
                            fs@[i as int].1.model()));
                            assert(fields_model(fs@)[i as int] == (fs@[i as int].0@,
                            fs@[i as int].1.model()));
                        }
                    }
                    proof {
                        assert(forall|j: int|
                            0 <= j < out0.len() ==> #[trigger] fields_model(out@)[j]
                                == fields_model(out0)[j]);
                    }
                    i = i + 1;
                }
                match found {
                    Some(k) => {
                        proof {
                            lemma_obj_lookup_hit(fields_model(fs@), key@, k as int);
                            let target = match jm_set(self.model(), key@, val.model()) {
                                JsonModel::Obj(g) => g,
                                _ => seq![],
                            };
                            assert forall|j: int| 0 <= j < n implies fields_model(out@)[j]
                                == target[j] by {
                                if j < k {
                                    assert(fields_model(fs@)[j].0 != key@);
                                } else if j > k {
                                    assert(fields_model(fs@)[k as int].0 == key@);
                                }
                            }
                            assert(fields_model(out@) =~= target);
                        }
                        JsonValue::Obj(out)
                    },
                    None => {
                        proof {
                            lemma_obj_lookup_miss(fields_model(fs@), key@);
                        }
                        let ghost out0 = out@;
                        let entry = (clone_chars(key), val);
                        out.push(entry);
                        proof {
                            assert(forall|j: int|
                                0 <= j < out0.len() ==> #[trigger] fields_model(out@)[j]
                                    == fields_model(out0)[j]);
                            assert(fields_model(out@)[n as int] == (key@, val.model()));
                            assert(fields_model(out@) =~= fields_model(fs@).push(
                                (key@, val.model()),
                            ));
                        }
                        JsonValue::Obj(out)
                    },
                }
            },
            JsonValue::Null => {
                let mut out: Vec<(Vec<char>, JsonValue)> = Vec::new();
                let entry = (clone_chars(key), val);
                out.push(entry);
                proof {
                    assert(fields_model(out@) =~= seq![(key@, val.model())]);
                }
                JsonValue::Obj(out)
            },
            _ => self.clone(),
        }
    }
}

/// The keys of an object model, in order; empty for anything else.
pub open spec fn jm_keys(m: JsonModel) -> Seq<Seq<char>> {
    match m {
        JsonModel::Obj(fs) => fs.map_values(|p: (Seq<char>, JsonModel)| p.0),
        _ => Seq::empty(),
    }
}

/// The values of an object model, in order; empty for anything else.
pub open spec fn jm_values(m: JsonModel) -> Seq<JsonModel> {
    match m {
        JsonModel::Obj(fs) => fs.map_values(|p: (Seq<char>, JsonModel)| p.1),
        _ => Seq::empty(),
    }
}

/// The length of an array model; `0` for anything else.
pub open spec fn jm_length(m: JsonModel) -> int {
    match m {
        JsonModel::Arr(xs) => xs.len() as int,
        _ => 0,
    }
}

/// The keys of an object, each rendered as a `String`; empty for any
/// other kind of value.
pub fn get_keys(value: &JsonValue) -> (r: Vec<String>)
    ensures
        r.deep_view() == jm_keys(value.model()),
{
    broadcast use group_json_model_axioms;

    let mut keys: Vec<String> = Vec::new();
    match value {
        JsonValue::Obj(fs) => {
            let n = fs.len();
            let mut i: usize = 0;
            while i < n
                invariant
                    n == fs@.len(),
                    i <= n,
                    keys@.len() == i,
                    forall|j: int| 0 <= j < i ==> #[trigger] keys@[j]@ == fs@[j].0@,
                decreases n - i,
            {
                keys.push(crate::text::string_from_chars(&fs[i].0));
                i = i + 1;
            }
            proof {
                assert(forall|j: int|
                    0 <= j < keys@.len() ==> #[trigger] keys.deep_view()[j] == keys@[j]@);
                assert(forall|j: int|
                    0 <= j < fs@.len() ==> #[trigger] jm_keys(value.model())[j] == fields_model(
                        fs@,
                    )[j].0);
                assert(keys.deep_view() =~= jm_keys(value.model()));
            }
        },
        _ => {
            proof {
                assert(keys.deep_view() =~= jm_keys(value.model()));
            }
        },
    }
    keys
}

/// The values of an object, cloned, in order; empty for any other kind
/// of value.
pub fn get_values(value: &JsonValue) -> (r: Vec<JsonValue>)
    ensures
        arr_model(r@) == jm_values(value.model()),
{
    broadcast use group_json_model_axioms;

    let mut values: Vec<JsonValue> = Vec::new();
    match value {
        JsonValue::Obj(fs) => {
            let n = fs.len();
            let mut i: usize = 0;
            while i < n
                invariant
                    n == fs@.len(),
                    i <= n,
                    values@.len() == i,
                    forall|j: int| 0 <= j < i ==> #[trigger] values@[j].model() == fs@[j].1.model(),
                decreases n - i,
            {
                values.push(fs[i].1.clone());
                i = i + 1;
            }
            proof {
                assert(forall|j: int|
                    0 <= j < fs@.len() ==> #[trigger] jm_values(value.model())[j] == fields_model(
                        fs@,
                    )[j].1);
                assert(arr_model(values@) =~= jm_values(value.model()));
            }
        },
        _ => {
            proof {
                assert(arr_model(values@) =~= jm_values(value.model()));
            }
        },
    }
    values
}

/// The key/value pairs of an object, keys rendered as `String`s; empty
/// for any other kind of value.
pub fn get_map(value: &JsonValue) -> (r: Vec<(String, JsonValue)>)
    ensures
        r@.len() == jm_keys(value.model()).len(),
        forall|i: int|
            0 <= i < r@.len() ==> r@[i].0@ == jm_keys(value.model())[i] && #[trigger] r@[i].1.model()
                == jm_values(value.model())[i],
{
    broadcast use group_json_model_axioms;

    let mut map: Vec<(String, JsonValue)> = Vec::new();
    match value {
        JsonValue::Obj(fs) => {
            let n = fs.len();
            let mut i: usize = 0;
            while i < n
                invariant
                    n == fs@.len(),
                    i <= n,
                    map@.len() == i,
                    forall|j: int|
                        0 <= j < i ==> map@[j].0@ == fields_model(fs@)[j].0
                            && #[trigger] map@[j].1.model() == fields_model(fs@)[j].1,
                decreases n - i,
            {
                let entry = (crate::text::string_from_chars(&fs[i].0), fs[i].1.clone());
                map.push(entry);
                i = i + 1;
            }
        },
        _ => {},
    }
    map
}

/// The number of elements of an array; `0` for any other kind of value.
pub fn get_length(value: &JsonValue) -> (r: usize)
    ensures
        r as int == jm_length(value.model()),
{
    match value {
        JsonValue::Arr(xs) => xs.len(),
        _ => 0,
    }
}

} // verus!
