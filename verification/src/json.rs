//! A JSON document as plain values: what the vault logic reads and writes.
use vstd::prelude::*;
use crate::text::{owned, same_text};

verus! {

/// A JSON value. Numbers keep their decimal text; object fields keep their
/// order (a lookup finds the first field with the key).
pub enum Json {
    Null,
    Bool(bool),
    Num(String),
    Str(String),
    Arr(Vec<Json>),
    Obj(Vec<(String, Json)>),
}

/// The mathematical form of a JSON value.
pub enum JsonV {
    Null,
    Bool(bool),
    Num(Seq<char>),
    Str(Seq<char>),
    Arr(Seq<JsonV>),
    Obj(Seq<(Seq<char>, JsonV)>),
}

impl Json {
    pub open spec fn view(&self) -> JsonV
        decreases self,
    {
        match self {
            Json::Null => JsonV::Null,
            Json::Bool(b) => JsonV::Bool(*b),
            Json::Num(n) => JsonV::Num(n@),
            Json::Str(s) => JsonV::Str(s@),
            Json::Arr(v) => JsonV::Arr(values_view(v@)),
            Json::Obj(f) => JsonV::Obj(fields_view(f@)),
        }
    }
}

/// The views of a sequence of values.
pub open spec fn values_view(s: Seq<Json>) -> Seq<JsonV>
    decreases s,
{
    if s.len() == 0 {
        Seq::empty()
    } else {
        seq![s[0].view()] + values_view(s.subrange(1, s.len() as int))
    }
}

/// The views of a sequence of object fields.
pub open spec fn fields_view(s: Seq<(String, Json)>) -> Seq<(Seq<char>, JsonV)>
    decreases s,
{
    if s.len() == 0 {
        Seq::empty()
    } else {
        seq![(s[0].0@, s[0].1.view())] + fields_view(s.subrange(1, s.len() as int))
    }
}


pub proof fn lemma_values_view(s: Seq<Json>)
    ensures
        values_view(s).len() == s.len(),
        forall|i: int| 0 <= i < s.len() ==> #[trigger] values_view(s)[i] == s[i].view(),
    decreases s.len(),
{
    if s.len() > 0 {
        let rest = s.subrange(1, s.len() as int);
        lemma_values_view(rest);
        assert forall|i: int| 0 <= i < s.len() implies #[trigger] values_view(s)[i] == s[i].view() by {
            if i > 0 {
                assert(rest[i - 1] == s[i]);
            }
        }
    }
}

pub proof fn lemma_fields_view(s: Seq<(String, Json)>)
    ensures
        fields_view(s).len() == s.len(),
        forall|i: int| 0 <= i < s.len() ==> #[trigger] fields_view(s)[i] == (s[i].0@, s[i].1.view()),
    decreases s.len(),
{
    if s.len() > 0 {
        let rest = s.subrange(1, s.len() as int);
        lemma_fields_view(rest);
        assert forall|i: int| 0 <= i < s.len() implies #[trigger] fields_view(s)[i] == (s[i].0@, s[i].1.view()) by {
            if i > 0 {
                assert(rest[i - 1] == s[i]);
            }
        }
    }
}

/// The views of a vector's values, element by element.
pub open spec fn elems_view(v: Seq<Json>) -> Seq<JsonV> {
    Seq::new(v.len(), |i: int| v[i].view())
}

/// The views of an object's fields, element by element.
pub open spec fn pairs_view(v: Seq<(String, Json)>) -> Seq<(Seq<char>, JsonV)> {
    Seq::new(v.len(), |i: int| (v[i].0@, v[i].1.view()))
}

pub proof fn lemma_arr_view(v: Seq<Json>)
    ensures
        values_view(v) == elems_view(v),
{
    lemma_values_view(v);
    assert(values_view(v) =~= elems_view(v));
}

pub proof fn lemma_obj_view(v: Seq<(String, Json)>)
    ensures
        fields_view(v) == pairs_view(v),
{
    lemma_fields_view(v);
    assert(fields_view(v) =~= pairs_view(v));
}

/// `i` is the position of the first field named `k`.
pub open spec fn key_first(fs: Seq<(Seq<char>, JsonV)>, k: Seq<char>, i: int) -> bool {
    &&& 0 <= i < fs.len()
    &&& fs[i].0 == k
    &&& forall|j: int| 0 <= j < i ==> #[trigger] fs[j].0 != k
}

/// The index of the first field named `k`.
pub open spec fn key_index(fs: Seq<(Seq<char>, JsonV)>, k: Seq<char>) -> Option<int> {
    if exists|i: int| key_first(fs, k, i) {
        Some(choose|i: int| key_first(fs, k, i))
    } else {
        None
    }
}

pub proof fn lemma_key_found(fs: Seq<(Seq<char>, JsonV)>, k: Seq<char>, i: int)
    requires
        key_first(fs, k, i),
    ensures
        key_index(fs, k) == Some(i),
{
    let c = choose|j: int| key_first(fs, k, j);
    assert(key_first(fs, k, c));
    if c < i {
        assert(fs[c].0 != k);
    } else if i < c {
        assert(fs[i].0 != k);
    }
}

pub proof fn lemma_key_absent(fs: Seq<(Seq<char>, JsonV)>, k: Seq<char>)
    requires
        forall|j: int| 0 <= j < fs.len() ==> #[trigger] fs[j].0 != k,
    ensures
        key_index(fs, k) is None,
{
    if exists|i: int| key_first(fs, k, i) {
        let c = choose|i: int| key_first(fs, k, i);
        assert(fs[c].0 == k);
    }
}

pub proof fn lemma_key_index(fs: Seq<(Seq<char>, JsonV)>, k: Seq<char>)
    ensures
        match key_index(fs, k) {
            Some(i) => key_first(fs, k, i),
            None => forall|j: int| 0 <= j < fs.len() ==> #[trigger] fs[j].0 != k,
        },
{
    if key_index(fs, k) is None {
        assert forall|j: int| 0 <= j < fs.len() implies #[trigger] fs[j].0 != k by {
            if fs[j].0 == k {
                lemma_key_exists_first(fs, k, j);
            }
        }
    }
}

proof fn lemma_key_exists_first(fs: Seq<(Seq<char>, JsonV)>, k: Seq<char>, i: int)
    requires
        0 <= i < fs.len(),
        fs[i].0 == k,
    ensures
        exists|f: int| key_first(fs, k, f),
    decreases i,
{
    if exists|j: int| 0 <= j < i && #[trigger] fs[j].0 == k {
        let j = choose|j: int| 0 <= j < i && #[trigger] fs[j].0 == k;
        lemma_key_exists_first(fs, k, j);
    } else {
        assert(key_first(fs, k, i));
    }
}

/// The value of the first field named `k`, if `v` is an object that has one.
pub open spec fn get(v: JsonV, k: Seq<char>) -> Option<JsonV> {
    match v {
        JsonV::Obj(fs) => match key_index(fs, k) {
            Some(i) => Some(fs[i].1),
            None => None,
        },
        _ => None,
    }
}

/// The text of a value that is a string.
pub open spec fn as_str(v: Option<JsonV>) -> Option<Seq<char>> {
    match v {
        Some(JsonV::Str(s)) => Some(s),
        _ => None,
    }
}

/// Replaces the first field named `k`, or appends one.
pub open spec fn set_field(fs: Seq<(Seq<char>, JsonV)>, k: Seq<char>, val: JsonV) -> Seq<(Seq<char>, JsonV)> {
    match key_index(fs, k) {
        Some(i) => fs.update(i, (k, val)),
        None => fs.push((k, val)),
    }
}

/// Writing `v[k] = val`: an object gets the field set, `null` becomes an
/// object with that one field; other values are not indexable by key.
pub open spec fn put(v: JsonV, k: Seq<char>, val: JsonV) -> JsonV {
    match v {
        JsonV::Obj(fs) => JsonV::Obj(set_field(fs, k, val)),
        JsonV::Null => JsonV::Obj(seq![(k, val)]),
        _ => v,
    }
}

/// Whether `v[k] = ..` can be written.
pub open spec fn keyed(v: JsonV) -> bool {
    v is Obj || v is Null
}

/// After a write, the key reads back the value written.
pub proof fn lemma_get_set_same(v: JsonV, k: Seq<char>, val: JsonV)
    requires
        keyed(v),
    ensures
        get(put(v, k, val), k) == Some(val),
{
    match v {
        JsonV::Obj(fs) => {
            let fs2 = set_field(fs, k, val);
            lemma_key_index(fs, k);
            match key_index(fs, k) {
                Some(i) => {
                    assert(key_first(fs2, k, i));
                    lemma_key_found(fs2, k, i);
                },
                None => {
                    assert(key_first(fs2, k, fs.len() as int));
                    lemma_key_found(fs2, k, fs.len() as int);
                },
            }
        },
        _ => {
            let fs2 = seq![(k, val)];
            assert(key_first(fs2, k, 0));
            lemma_key_found(fs2, k, 0);
        },
    }
}

/// A write to one key leaves every other key as it was.
pub proof fn lemma_get_set_other(v: JsonV, k: Seq<char>, val: JsonV, k2: Seq<char>)
    requires
        v is Obj,
        k2 != k,
    ensures
        get(put(v, k, val), k2) == get(v, k2),
{
    let fs = v->Obj_0;
    let fs2 = set_field(fs, k, val);
    lemma_key_index(fs, k);
    lemma_key_index(fs, k2);
    assert forall|j: int| 0 <= j < fs.len() implies (#[trigger] fs2[j]).0 == k2 <==> fs[j].0 == k2 by {
    }
    match key_index(fs, k2) {
        Some(i) => {
            assert(key_first(fs2, k2, i));
            lemma_key_found(fs2, k2, i);
        },
        None => {
            assert forall|j: int| 0 <= j < fs2.len() implies #[trigger] fs2[j].0 != k2 by {
                if j < fs.len() {
                    assert(fs[j].0 != k2);
                }
            }
            lemma_key_absent(fs2, k2);
        },
    }
}

/// The position of the first field named `k`.
pub fn find_key(fs: &Vec<(String, Json)>, k: &str) -> (r: Option<usize>)
    ensures
        match r {
            Some(i) => key_index(fields_view(fs@), k@) == Some(i as int),
            None => key_index(fields_view(fs@), k@) is None,
        },
{
    proof {
        lemma_fields_view(fs@);
    }
    let ghost fv = fields_view(fs@);
    let mut i: usize = 0;
    while i < fs.len()
        invariant
            i <= fs.len(),
            fv == fields_view(fs@),
            fv.len() == fs@.len(),
            forall|j: int| 0 <= j < fs.len() ==> #[trigger] fv[j] == (fs@[j].0@, fs@[j].1.view()),
            forall|j: int| 0 <= j < i ==> #[trigger] fv[j].0 != k@,
        decreases fs.len() - i,
    {
        if same_text(&fs[i].0, k) {
            proof {
                assert(fv[i as int].0 == k@);
                assert(key_first(fv, k@, i as int));
                lemma_key_found(fv, k@, i as int);
            }
            return Some(i);
        }
        assert(fv[i as int].0 != k@);
        i = i + 1;
    }
    proof {
        lemma_key_absent(fv, k@);
    }
    None
}

/// The value of the first field named `k` of `v`.
pub fn get_field<'a>(v: &'a Json, k: &str) -> (r: Option<&'a Json>)
    ensures
        match r {
            Some(x) => get(v@, k@) == Some(x@),
            None => get(v@, k@) is None,
        },
{
    match v {
        Json::Obj(fs) => {
            proof {
                lemma_fields_view(fs@);
            }
            match find_key(fs, k) {
                Some(i) => Some(&fs[i].1),
                None => None,
            }
        },
        _ => None,
    }
}

/// The text of the first field named `k` of `v`, if it is a string.
pub fn get_str<'a>(v: &'a Json, k: &str) -> (r: Option<&'a String>)
    ensures
        match r {
            Some(s) => as_str(get(v@, k@)) == Some(s@),
            None => as_str(get(v@, k@)) is None,
        },
{
    match get_field(v, k) {
        Some(Json::Str(s)) => Some(s),
        _ => None,
    }
}

/// `v` with `v[k] = val` written.
pub fn with_field(v: Json, k: &str, val: Json) -> (r: Json)
    requires
        keyed(v@),
    ensures
        r@ == put(v@, k@, val@),
{
    match v {
        Json::Obj(fs) => {
            let mut fs = fs;
            let ghost old_fs = fs@;
            let ghost vv = val@;
            proof {
                lemma_obj_view(old_fs);
            }
            match find_key(&fs, k) {
                Some(i) => {
                    fs.set(i, (owned(k), val));
                    proof {
                        lemma_obj_view(fs@);
                        assert(pairs_view(fs@) =~= pairs_view(old_fs).update(i as int, (k@, vv)));
                    }
                },
                None => {
                    fs.push((owned(k), val));
                    proof {
                        lemma_obj_view(fs@);
                        assert(pairs_view(fs@) =~= pairs_view(old_fs).push((k@, vv)));
                    }
                },
            }
            Json::Obj(fs)
        },
        _ => {
            let ghost vv = val@;
            let fs = vec![(owned(k), val)];
            proof {
                lemma_obj_view(fs@);
                assert(pairs_view(fs@) =~= seq![(k@, vv)]);
            }
            Json::Obj(fs)
        },
    }
}

/// Takes the value of field `i` out, leaving `null` in its place.
pub fn take_value(fs: &mut Vec<(String, Json)>, i: usize) -> (r: Json)
    requires
        i < old(fs).len(),
    ensures
        r == old(fs)@[i as int].1,
        final(fs)@ == old(fs)@.update(i as int, (old(fs)@[i as int].0, Json::Null)),
{
    let (k, v) = fs.remove(i);
    fs.insert(i, (k, Json::Null));
    proof {
        assert(fs@ =~= old(fs)@.update(i as int, (old(fs)@[i as int].0, Json::Null)));
    }
    v
}

/// Puts `v` as the value of field `i`, keeping its key.
pub fn put_value(fs: &mut Vec<(String, Json)>, i: usize, v: Json)
    requires
        i < old(fs).len(),
    ensures
        final(fs)@ == old(fs)@.update(i as int, (old(fs)@[i as int].0, v)),
{
    let (k, _old) = fs.remove(i);
    fs.insert(i, (k, v));
    proof {
        assert(fs@ =~= old(fs)@.update(i as int, (old(fs)@[i as int].0, v)));
    }
}

/// Takes element `i` out, leaving `null` in its place.
pub fn take_elem(v: &mut Vec<Json>, i: usize) -> (r: Json)
    requires
        i < old(v).len(),
    ensures
        r == old(v)@[i as int],
        final(v)@ == old(v)@.update(i as int, Json::Null),
{
    let x = v.remove(i);
    v.insert(i, Json::Null);
    proof {
        assert(v@ =~= old(v)@.update(i as int, Json::Null));
    }
    x
}

/// Puts `x` as element `i`.
pub fn put_elem(v: &mut Vec<Json>, i: usize, x: Json)
    requires
        i < old(v).len(),
    ensures
        final(v)@ == old(v)@.update(i as int, x),
{
    let _old = v.remove(i);
    v.insert(i, x);
    proof {
        assert(v@ =~= old(v)@.update(i as int, x));
    }
}

/// A copy of `j`.
pub fn clone_json(j: &Json) -> (r: Json)
    ensures
        r@ == j@,
    decreases j,
{
    match j {
        Json::Null => Json::Null,
        Json::Bool(b) => Json::Bool(*b),
        Json::Num(n) => Json::Num(n.clone()),
        Json::Str(s) => Json::Str(s.clone()),
        Json::Arr(v) => {
            let mut out: Vec<Json> = Vec::new();
            let mut i: usize = 0;
            while i < v.len()
                invariant
                    i <= v.len(),
                    *j == Json::Arr(*v),
                    out@.len() == i,
                    forall|k: int| 0 <= k < i ==> (#[trigger] out@[k]).view() == v@[k].view(),
                decreases v.len() - i,
            {
                proof {
                    assert(decreases_to!(*j => (*j)->Arr_0));
                    assert(decreases_to!(*v => v@));
                    assert(decreases_to!(v@ => v@[i as int]));
                    assert(decreases_to!(*j => v@[i as int]));
                }
                let c = clone_json(&v[i]);
                out.push(c);
                i = i + 1;
            }
            proof {
                lemma_arr_view(out@);
                lemma_arr_view(v@);
                assert(elems_view(out@) =~= elems_view(v@));
            }
            Json::Arr(out)
        },
        Json::Obj(fs) => {
            let mut out: Vec<(String, Json)> = Vec::new();
            let mut i: usize = 0;
            while i < fs.len()
                invariant
                    i <= fs.len(),
                    *j == Json::Obj(*fs),
                    out@.len() == i,
                    forall|k: int| 0 <= k < i ==> (#[trigger] out@[k]).0@ == fs@[k].0@ && out@[k].1.view() == fs@[k].1.view(),
                decreases fs.len() - i,
            {
                proof {
                    assert(decreases_to!(*j => (*j)->Obj_0));
                    assert(decreases_to!(*fs => fs@));
                    assert(decreases_to!(fs@ => fs@[i as int]));
                    assert(decreases_to!(fs@[i as int] => fs@[i as int].1));
                    assert(decreases_to!(*j => fs@[i as int].1));
                }
                let c = clone_json(&fs[i].1);
                out.push((fs[i].0.clone(), c));
                i = i + 1;
            }
            proof {
                lemma_obj_view(out@);
                lemma_obj_view(fs@);
                assert(pairs_view(out@) =~= pairs_view(fs@));
            }
            Json::Obj(out)
        },
    }
}

} // verus!
