//! The vault document (the JSON inside the encrypted blob). Writes are
//! conservative: only the fields of the login being written change; folders,
//! attachments, custom fields and items of other kinds pass through intact.
use vstd::prelude::*;
use crate::clock::now_ms;
use crate::crypto::os_random_fill;
use crate::json::{
    Json, JsonV, get, as_str, put, keyed, get_field, get_str, with_field, find_key,
    fields_view, values_view, pairs_view, elems_view, lemma_obj_view, lemma_arr_view,
    lemma_values_view, lemma_get_set_same, lemma_get_set_other, key_index, key_first,
    lemma_key_index, take_value, lemma_key_found, put_value, take_elem, put_elem, clone_json, lemma_fields_view,
};
use crate::text::{owned, same_text, i64_text, int_text, hex_fixed, hex_text, hits, passes_search, needle, needle_of, trim, trim_start, trim_end};

verus! {

/// A freshly created vault document.
pub const EMPTY_VAULT: &'static str = "{\"version\":1,\"folders\":[],\"items\":[]}";

/// The items array of the document, if it has one.
pub open spec fn items_of(raw: JsonV) -> Option<Seq<JsonV>> {
    match get(raw, "items"@) {
        Some(JsonV::Arr(s)) => Some(s),
        _ => None,
    }
}

/// The item's `id` is the string `id`.
pub open spec fn has_id(it: JsonV, id: Seq<char>) -> bool {
    as_str(get(it, "id"@)) == Some(id)
}

/// `i` is the first position at which `b` holds.
pub open spec fn first_at(b: Seq<bool>, i: int) -> bool {
    &&& 0 <= i < b.len()
    &&& b[i]
    &&& forall|j: int| 0 <= j < i ==> !#[trigger] b[j]
}

/// The first position at which `b` holds.
pub open spec fn first_true(b: Seq<bool>) -> Option<int> {
    if exists|i: int| first_at(b, i) {
        Some(choose|i: int| first_at(b, i))
    } else {
        None
    }
}

pub proof fn lemma_first_true_found(b: Seq<bool>, i: int)
    requires
        first_at(b, i),
    ensures
        first_true(b) == Some(i),
{
    let c = choose|j: int| first_at(b, j);
    assert(first_at(b, c));
    if c < i {
        assert(!b[c]);
    } else if i < c {
        assert(!b[i]);
    }
}

pub proof fn lemma_first_true_none(b: Seq<bool>)
    requires
        forall|j: int| 0 <= j < b.len() ==> !#[trigger] b[j],
    ensures
        first_true(b) is None,
{
    if exists|i: int| first_at(b, i) {
        let c = choose|i: int| first_at(b, i);
        assert(b[c]);
    }
}

pub proof fn lemma_first_true(b: Seq<bool>)
    ensures
        match first_true(b) {
            Some(i) => first_at(b, i),
            None => forall|j: int| 0 <= j < b.len() ==> !#[trigger] b[j],
        },
{
    if first_true(b) is None {
        assert forall|j: int| 0 <= j < b.len() implies !#[trigger] b[j] by {
            if b[j] {
                lemma_first_true_exists(b, j);
            }
        }
    }
}

proof fn lemma_first_true_exists(b: Seq<bool>, i: int)
    requires
        0 <= i < b.len(),
        b[i],
    ensures
        exists|f: int| first_at(b, f),
    decreases i,
{
    if exists|j: int| 0 <= j < i && #[trigger] b[j] {
        let j = choose|j: int| 0 <= j < i && #[trigger] b[j];
        lemma_first_true_exists(b, j);
    } else {
        assert(first_at(b, i));
    }
}

/// Which items carry the id `id`.
pub open spec fn id_marks(s: Seq<JsonV>, id: Seq<char>) -> Seq<bool> {
    Seq::new(s.len(), |j: int| has_id(s[j], id))
}

/// The position of the first item with the id `id`.
pub open spec fn id_index(s: Seq<JsonV>, id: Seq<char>) -> Option<int> {
    first_true(id_marks(s, id))
}

/// `(username, password, totp)` of an item with the id `id` whose login has a
/// string username and password; a totp that is missing or not a string
/// reads as empty.
pub open spec fn triple_of(it: JsonV, id: Seq<char>) -> Option<(Seq<char>, Seq<char>, Seq<char>)> {
    if has_id(it, id) {
        match get(it, "login"@) {
            Some(l) => match (as_str(get(l, "username"@)), as_str(get(l, "password"@))) {
                (Some(u), Some(p)) => Some((u, p, match as_str(get(l, "totp"@)) {
                    Some(t) => t,
                    None => Seq::empty(),
                })),
                _ => None,
            },
            None => None,
        }
    } else {
        None
    }
}

/// Which items yield a triple for `id`.
pub open spec fn triple_marks(s: Seq<JsonV>, id: Seq<char>) -> Seq<bool> {
    Seq::new(s.len(), |j: int| triple_of(s[j], id) is Some)
}

/// What `login_triple` returns: the triple of the first item that yields one.
pub open spec fn login_triple_spec(raw: JsonV, id: Seq<char>) -> Option<(Seq<char>, Seq<char>, Seq<char>)> {
    match items_of(raw) {
        Some(s) => match first_true(triple_marks(s, id)) {
            Some(j) => triple_of(s[j], id),
            None => None,
        },
        None => None,
    }
}

/// A string value.
pub open spec fn jstr(s: Seq<char>) -> JsonV {
    JsonV::Str(s)
}

/// A number written in decimal.
pub open spec fn jnum(n: int) -> JsonV {
    JsonV::Num(int_text(n))
}

/// The login of a new item, or of an item that had none.
pub open spec fn login_shape(username: Seq<char>, password: Seq<char>) -> JsonV {
    JsonV::Obj(seq![
        ("username"@, jstr(username)),
        ("password"@, jstr(password)),
        ("uris"@, JsonV::Arr(seq![jstr(Seq::empty())])),
        ("totp"@, jstr(Seq::empty())),
    ])
}

/// The login item that `add_login` appends.
pub open spec fn new_login_item(
    id: Seq<char>,
    name: Seq<char>,
    username: Seq<char>,
    password: Seq<char>,
    created: int,
    updated: int,
) -> JsonV {
    JsonV::Obj(seq![
        ("id"@, jstr(id)),
        ("kind"@, jstr("login"@)),
        ("name"@, jstr(name)),
        ("favorite"@, JsonV::Bool(false)),
        ("folderId"@, JsonV::Null),
        ("notes"@, jstr(Seq::empty())),
        ("createdAt"@, jnum(created)),
        ("updatedAt"@, jnum(updated)),
        ("deletedAt"@, JsonV::Null),
        ("login"@, login_shape(username, password)),
    ])
}

/// The document with `item` appended to its items; an `items` field that is
/// missing or not an array is replaced by an empty array first.
pub open spec fn add_spec(raw: JsonV, item: JsonV) -> JsonV {
    put(raw, "items"@, JsonV::Arr(items_or_empty(raw).push(item)))
}

/// The items of the document, or none when it has no items array.
pub open spec fn items_or_empty(raw: JsonV) -> Seq<JsonV> {
    match items_of(raw) {
        Some(s) => s,
        None => Seq::empty(),
    }
}

/// Whether the item's `login` is an object.
pub open spec fn login_is_obj(it: JsonV) -> bool {
    match get(it, "login"@) {
        Some(JsonV::Obj(_)) => true,
        _ => false,
    }
}

/// The item after an edit at time `now`: new name and `updatedAt`, a login
/// (created with the full shape when missing) with new username, password
/// and totp; every other field as it was.
pub open spec fn edited_item(
    it: JsonV,
    name: Seq<char>,
    username: Seq<char>,
    password: Seq<char>,
    totp: Seq<char>,
    now: int,
) -> JsonV {
    let a = put(put(it, "name"@, jstr(name)), "updatedAt"@, jnum(now));
    let b = if login_is_obj(a) { a } else { put(a, "login"@, login_shape(Seq::empty(), Seq::empty())) };
    let l = get(b, "login"@)->0;
    put(b, "login"@, put(put(put(l, "username"@, jstr(username)), "password"@, jstr(password)), "totp"@, jstr(totp)))
}

/// The item after a deletion at times `t1` (`deletedAt`) and `t2` (`updatedAt`).
pub open spec fn deleted_item(it: JsonV, t1: int, t2: int) -> JsonV {
    put(put(it, "deletedAt"@, jnum(t1)), "updatedAt"@, jnum(t2))
}

/// The document with the first item of id `id` replaced by `f` of it, and
/// whether there was one.
pub open spec fn rewrite_spec(raw: JsonV, id: Seq<char>, f: spec_fn(JsonV) -> JsonV) -> (JsonV, bool) {
    match items_of(raw) {
        Some(s) => match id_index(s, id) {
            Some(j) => (put(raw, "items"@, JsonV::Arr(s.update(j, f(s[j])))), true),
            None => (raw, false),
        },
        None => (raw, false),
    }
}

/// What `edit_login_at` makes of the document, and what it returns.
pub open spec fn edit_spec(
    raw: JsonV,
    id: Seq<char>,
    name: Seq<char>,
    username: Seq<char>,
    password: Seq<char>,
    totp: Seq<char>,
    now: int,
) -> (JsonV, bool) {
    rewrite_spec(raw, id, |it: JsonV| edited_item(it, name, username, password, totp, now))
}

/// What `delete_login_at` makes of the document, and what it returns.
pub open spec fn delete_spec(raw: JsonV, id: Seq<char>, t1: int, t2: int) -> (JsonV, bool) {
    rewrite_spec(raw, id, |it: JsonV| deleted_item(it, t1, t2))
}

/// The position of the first item of `items` with the id `id`.
fn find_id(items: &Vec<Json>, id: &str) -> (r: Option<usize>)
    ensures
        match r {
            Some(j) => id_index(values_view(items@), id@) == Some(j as int),
            None => id_index(values_view(items@), id@) is None,
        },
{
    proof {
        lemma_values_view(items@);
    }
    let ghost marks = id_marks(values_view(items@), id@);
    let mut i: usize = 0;
    while i < items.len()
        invariant
            i <= items.len(),
            marks == id_marks(values_view(items@), id@),
            marks.len() == items.len(),
            forall|k: int| 0 <= k < items.len() ==> #[trigger] marks[k] == has_id(items@[k]@, id@),
            forall|k: int| 0 <= k < i ==> !#[trigger] marks[k],
        decreases items.len() - i,
    {
        let same = match get_str(&items[i], "id") {
            Some(s) => same_text(s, id),
            None => false,
        };
        if same {
            proof {
                assert(marks[i as int]);
                assert(first_at(marks, i as int));
                lemma_first_true_found(marks, i as int);
            }
            return Some(i);
        }
        assert(!marks[i as int]);
        i = i + 1;
    }
    proof {
        lemma_first_true_none(marks);
    }
    None
}

/// Where the first item with the id `id` sits: the position of the `items`
/// field and the position of the item in the array.
fn locate(raw: &Json, id: &str) -> (r: Option<(usize, usize)>)
    ensures
        match r {
            Some((ki, j)) => {
                &&& raw@ is Obj
                &&& key_index(raw@->Obj_0, "items"@) == Some(ki as int)
                &&& items_of(raw@) is Some
                &&& id_index(items_of(raw@)->0, id@) == Some(j as int)
            },
            None => items_of(raw@) is None || id_index(items_of(raw@)->0, id@) is None,
        },
{
    match raw {
        Json::Obj(fs) => {
            proof {
                lemma_obj_view(fs@);
                lemma_fields_view(fs@);
            }
            match find_key(fs, "items") {
                Some(ki) => match &fs[ki].1 {
                    Json::Arr(items) => match find_id(items, id) {
                        Some(j) => Some((ki, j)),
                        None => None,
                    },
                    _ => None,
                },
                None => None,
            }
        },
        _ => None,
    }
}

/// The view of `Obj(fs)` after field `ki` got the value `v`.
proof fn lemma_put_view(fs: Seq<(String, Json)>, ki: int, v: Json)
    requires
        0 <= ki < fs.len(),
    ensures
        fields_view(fs.update(ki, (fs[ki].0, v))) == fields_view(fs).update(ki, (fs[ki].0@, v@)),
{
    lemma_obj_view(fs);
    lemma_obj_view(fs.update(ki, (fs[ki].0, v)));
    assert(pairs_view(fs.update(ki, (fs[ki].0, v))) =~= pairs_view(fs).update(ki, (fs[ki].0@, v@)));
}

/// The view of `Arr(v)` after element `j` became `x`.
proof fn lemma_elem_view(v: Seq<Json>, j: int, x: Json)
    requires
        0 <= j < v.len(),
    ensures
        values_view(v.update(j, x)) == values_view(v).update(j, x@),
{
    lemma_arr_view(v);
    lemma_arr_view(v.update(j, x));
    assert(elems_view(v.update(j, x)) =~= elems_view(v).update(j, x@));
}

/// A string value holding `s`.
fn str_value(s: &str) -> (r: Json)
    ensures
        r@ == jstr(s@),
{
    Json::Str(owned(s))
}

/// The login of a new item, or of an item that had none.
fn login_value(username: &str, password: &str) -> (r: Json)
    ensures
        r@ == login_shape(username@, password@),
{
    let uris = vec![Json::Str(String::new())];
    proof {
        lemma_arr_view(uris@);
        assert(elems_view(uris@) =~= seq![jstr(Seq::empty())]);
    }
    let fs = vec![
        (owned("username"), str_value(username)),
        (owned("password"), str_value(password)),
        (owned("uris"), Json::Arr(uris)),
        (owned("totp"), Json::Str(String::new())),
    ];
    proof {
        lemma_obj_view(fs@);
        assert(pairs_view(fs@) =~= login_shape(username@, password@)->Obj_0);
    }
    Json::Obj(fs)
}

/// The login item that `add_login_with` appends.
fn new_item_value(id: &str, name: &str, username: &str, password: &str, created: i64, updated: i64) -> (r: Json)
    ensures
        r@ == new_login_item(id@, name@, username@, password@, created as int, updated as int),
{
    let fs = vec![
        (owned("id"), str_value(id)),
        (owned("kind"), str_value("login")),
        (owned("name"), str_value(name)),
        (owned("favorite"), Json::Bool(false)),
        (owned("folderId"), Json::Null),
        (owned("notes"), Json::Str(String::new())),
        (owned("createdAt"), Json::Num(i64_text(created))),
        (owned("updatedAt"), Json::Num(i64_text(updated))),
        (owned("deletedAt"), Json::Null),
        (owned("login"), login_value(username, password)),
    ];
    proof {
        lemma_obj_view(fs@);
        assert(pairs_view(fs@) =~= new_login_item(id@, name@, username@, password@, created as int, updated as int)->Obj_0);
    }
    Json::Obj(fs)
}

/// Appends a login item with the given id and timestamps. An `items` field
/// that is missing or not an array becomes an array first; everything else in
/// the document is left as it was.
pub fn add_login_with(
    raw: &mut Json,
    name: &str,
    username: &str,
    password: &str,
    id: &str,
    created: i64,
    updated: i64,
)
    requires
        keyed(old(raw)@),
    ensures
        final(raw)@ == add_spec(old(raw)@, new_login_item(id@, name@, username@, password@, created as int, updated as int)),
        items_of(final(raw)@) == Some(
            items_or_empty(old(raw)@).push(new_login_item(id@, name@, username@, password@, created as int, updated as int)),
        ),
        old(raw)@ is Obj ==> forall|k: Seq<char>| k != "items"@ ==> get(final(raw)@, k) == get(old(raw)@, k),
{
    proof {
        lemma_add_conservative(old(raw)@, new_login_item(id@, name@, username@, password@, created as int, updated as int));
    }
    let item = new_item_value(id, name, username, password, created, updated);
    let ghost iv = item@;
    let ghost r0 = raw@;
    let mut taken = Json::Null;
    std::mem::swap(raw, &mut taken);
    let mut fs: Vec<(String, Json)> = match taken {
        Json::Obj(fs) => fs,
        _ => Vec::new(),
    };
    let ghost f0 = fs@;
    proof {
        lemma_obj_view(f0);
        if r0 is Null {
            assert(fields_view(f0) =~= Seq::empty());
        }
    }
    match find_key(&fs, "items") {
        Some(ki) => {
            proof {
                lemma_key_index(fields_view(f0), "items"@);
                lemma_fields_view(f0);
            }
            let v = take_value(&mut fs, ki);
            let mut arr: Vec<Json> = match v {
                Json::Arr(a) => a,
                _ => Vec::new(),
            };
            let ghost a0 = arr@;
            arr.push(item);
            proof {
                lemma_arr_view(a0);
                lemma_arr_view(arr@);
                assert(elems_view(arr@) =~= elems_view(a0).push(iv));
                if !(v is Arr) {
                    assert(elems_view(a0) =~= Seq::empty());
                }
            }
            let ghost newv = Json::Arr(arr);
            put_value(&mut fs, ki, Json::Arr(arr));
            proof {
                assert(fs@ =~= f0.update(ki as int, (f0[ki as int].0, newv)));
                lemma_put_view(f0, ki as int, newv);
                assert(r0 == JsonV::Obj(fields_view(f0)));
                assert(fields_view(f0)[ki as int] == (f0[ki as int].0@, f0[ki as int].1@));
                assert(get(r0, "items"@) == Some(v@));
                lemma_values_view(a0);
                assert(values_view(arr@) == (match items_of(r0) {
                    Some(s) => s,
                    None => Seq::empty(),
                }).push(iv));
                assert(fields_view(fs@) == fields_view(f0).update(ki as int, ("items"@, newv@)));
            }
        },
        None => {
            let ghost a1 = seq![item];
            let arr = vec![item];
            proof {
                lemma_arr_view(arr@);
                assert(elems_view(arr@) =~= seq![iv]);
            }
            fs.push((owned("items"), Json::Arr(arr)));
            proof {
                lemma_obj_view(fs@);
                assert(pairs_view(fs@) =~= pairs_view(f0).push(("items"@, JsonV::Arr(seq![iv]))));
                assert(items_of(r0) is None);
                if r0 is Null {
                    assert(fields_view(f0).push(("items"@, JsonV::Arr(seq![iv]))) =~= seq![("items"@, JsonV::Arr(seq![iv]))]);
                }
            }
        },
    }
    *raw = Json::Obj(fs);
}

/// The message of the error that `add_login` gives when the operating
/// system's random source fails.
pub const RANDOM_SOURCE_ERROR: &'static str = "fonte aleatória do sistema indisponível";

/// A fresh item id: 128 bits from the operating system's random source, as 32
/// lowercase hexadecimal digits; `None` when the source fails.
fn gen_id() -> (r: Option<String>)
    ensures
        r matches Some(id) ==> exists|n: u128| id@ == hex_text(n as nat, 32),
{
    let mut buf: Vec<u8> = vec![0u8; 16];
    if os_random_fill(&mut buf).is_err() {
        return None;
    }
    let mut n: u128 = 0;
    let mut i: usize = 0;
    while i < buf.len()
        invariant
            i <= buf@.len(),
        decreases buf@.len() - i,
    {
        n = (n << 8u32) | (buf[i] as u128);
        i = i + 1;
    }
    Some(hex_fixed(n, 32))
}

/// Appends a login item with a fresh random id, stamped with the current time.
/// When the random source fails the document is left as it was and the error
/// is `RANDOM_SOURCE_ERROR`.
pub fn add_login(raw: &mut Json, name: &str, username: &str, password: &str) -> (r: Result<(), String>)
    requires
        keyed(old(raw)@),
    ensures
        r is Err ==> final(raw)@ == old(raw)@,
        r matches Err(e) ==> e@ == RANDOM_SOURCE_ERROR@,
        r is Ok ==> exists|n: u128, created: i64, updated: i64| {
            &&& final(raw)@ == add_spec(
                old(raw)@,
                new_login_item(hex_text(n as nat, 32), name@, username@, password@, created as int, updated as int),
            )
            &&& items_of(final(raw)@) == Some(
                items_or_empty(old(raw)@).push(
                    new_login_item(hex_text(n as nat, 32), name@, username@, password@, created as int, updated as int),
                ),
            )
        },
        r is Ok && old(raw)@ is Obj ==> forall|k: Seq<char>| k != "items"@ ==> get(final(raw)@, k) == get(old(raw)@, k),
{
    let id = match gen_id() {
        Some(id) => id,
        None => {
            return Err(owned(RANDOM_SOURCE_ERROR));
        },
    };
    let created = now_ms();
    let updated = now_ms();
    add_login_with(raw, name, username, password, id.as_str(), created, updated);
    proof {
        let n = choose|n: u128| id@ == hex_text(n as nat, 32);
        let item = new_login_item(hex_text(n as nat, 32), name@, username@, password@, created as int, updated as int);
        assert(items_of(raw@) == Some(items_or_empty(old(raw)@).push(item)));
    }
    Ok(())
}

/// `v` with its field `k` (which holds an object) rewritten: the username,
/// password and totp of a login.
fn with_login_fields(v: Json, username: &str, password: &str, totp: &str) -> (r: Json)
    requires
        v@ is Obj,
        login_is_obj(v@),
    ensures
        r@ == put(v@, "login"@, put(put(put(get(v@, "login"@)->0, "username"@, jstr(username@)), "password"@, jstr(password@)), "totp"@, jstr(totp@))),
{
    let ghost v0 = v@;
    let mut fs: Vec<(String, Json)> = match v {
        Json::Obj(fs) => fs,
        _ => Vec::new(),
    };
    let ghost f0 = fs@;
    proof {
        lemma_obj_view(f0);
        lemma_fields_view(f0);
    }
    match find_key(&fs, "login") {
        Some(li) => {
            proof {
                lemma_key_index(fields_view(f0), "login"@);
            }
            let l = take_value(&mut fs, li);
            let l = with_field(l, "username", str_value(username));
            let l = with_field(l, "password", str_value(password));
            let l = with_field(l, "totp", str_value(totp));
            let ghost lv = l;
            put_value(&mut fs, li, l);
            proof {
                assert(fs@ =~= f0.update(li as int, (f0[li as int].0, lv)));
                lemma_put_view(f0, li as int, lv);
                assert(fields_view(f0)[li as int] == (f0[li as int].0@, f0[li as int].1@));
            }
            Json::Obj(fs)
        },
        None => {
            proof {
                assert(false);
            }
            Json::Obj(fs)
        },
    }
}

/// The item after an edit at time `now`.
fn edit_item(it: Json, name: &str, username: &str, password: &str, totp: &str, now: i64) -> (r: Json)
    requires
        it@ is Obj,
    ensures
        r@ == edited_item(it@, name@, username@, password@, totp@, now as int),
{
    let a = with_field(it, "name", str_value(name));
    let a = with_field(a, "updatedAt", Json::Num(i64_text(now)));
    let is_obj = match get_field(&a, "login") {
        Some(Json::Obj(_)) => true,
        _ => false,
    };
    let b = if is_obj {
        a
    } else {
        let b = with_field(a, "login", login_value("", ""));
        proof {
            reveal_strlit("");
            lemma_get_set_same(a@, "login"@, login_shape(""@, ""@));
            assert(""@ =~= Seq::<char>::empty());
        }
        b
    };
    with_login_fields(b, username, password, totp)
}

/// The item after a deletion at times `t1` and `t2`.
fn delete_item(it: Json, t1: i64, t2: i64) -> (r: Json)
    requires
        it@ is Obj,
    ensures
        r@ == deleted_item(it@, t1 as int, t2 as int),
{
    let a = with_field(it, "deletedAt", Json::Num(i64_text(t1)));
    with_field(a, "updatedAt", Json::Num(i64_text(t2)))
}

/// Edits the first item with the id `id` as of time `now`: its name and
/// `updatedAt`, and its login's username, password and totp (a login is created
/// with the full shape when the item has none). Every other field and item is
/// left as it was. `false`, with nothing changed, when no item has the id.
pub fn edit_login_at(raw: &mut Json, id: &str, name: &str, username: &str, password: &str, totp: &str, now: i64) -> (r: bool)
    ensures
        (final(raw)@, r) == edit_spec(old(raw)@, id@, name@, username@, password@, totp@, now as int),
{
    let ghost r0 = raw@;
    match locate(raw, id) {
        None => false,
        Some((ki, j)) => {
            let mut taken = Json::Null;
            std::mem::swap(raw, &mut taken);
            let mut fs: Vec<(String, Json)> = match taken {
                Json::Obj(fs) => fs,
                _ => Vec::new(),
            };
            let ghost f0 = fs@;
            proof {
                lemma_obj_view(f0);
                lemma_fields_view(f0);
                lemma_key_index(fields_view(f0), "items"@);
            }
            let v = take_value(&mut fs, ki);
            let mut items: Vec<Json> = match v {
                Json::Arr(a) => a,
                _ => Vec::new(),
            };
            let ghost a0 = items@;
            proof {
                assert(fields_view(f0)[ki as int] == (f0[ki as int].0@, f0[ki as int].1@));
                assert(get(r0, "items"@) == Some(v@));
                lemma_values_view(a0);
                lemma_first_true(id_marks(values_view(a0), id@));
                assert(has_id(values_view(a0)[j as int], id@));
            }
            let it = take_elem(&mut items, j);
            let it2 = edit_item(it, name, username, password, totp, now);
            let ghost itv = it2;
            put_elem(&mut items, j, it2);
            proof {
                assert(items@ =~= a0.update(j as int, itv));
                lemma_elem_view(a0, j as int, itv);
            }
            let ghost newv = Json::Arr(items);
            put_value(&mut fs, ki, Json::Arr(items));
            proof {
                assert(fs@ =~= f0.update(ki as int, (f0[ki as int].0, newv)));
                lemma_put_view(f0, ki as int, newv);
            }
            *raw = Json::Obj(fs);
            true
        },
    }
}

/// Marks the first item with the id `id` as deleted: `deletedAt` at `t1`,
/// `updatedAt` at `t2`. The item stays in the document (the trash); nothing
/// else changes. `false`, with nothing changed, when no item has the id.
pub fn delete_login_at(raw: &mut Json, id: &str, t1: i64, t2: i64) -> (r: bool)
    ensures
        (final(raw)@, r) == delete_spec(old(raw)@, id@, t1 as int, t2 as int),
{
    let ghost r0 = raw@;
    match locate(raw, id) {
        None => false,
        Some((ki, j)) => {
            let mut taken = Json::Null;
            std::mem::swap(raw, &mut taken);
            let mut fs: Vec<(String, Json)> = match taken {
                Json::Obj(fs) => fs,
                _ => Vec::new(),
            };
            let ghost f0 = fs@;
            proof {
                lemma_obj_view(f0);
                lemma_fields_view(f0);
                lemma_key_index(fields_view(f0), "items"@);
            }
            let v = take_value(&mut fs, ki);
            let mut items: Vec<Json> = match v {
                Json::Arr(a) => a,
                _ => Vec::new(),
            };
            let ghost a0 = items@;
            proof {
                assert(fields_view(f0)[ki as int] == (f0[ki as int].0@, f0[ki as int].1@));
                assert(get(r0, "items"@) == Some(v@));
                lemma_values_view(a0);
                lemma_first_true(id_marks(values_view(a0), id@));
                assert(has_id(values_view(a0)[j as int], id@));
            }
            let it = take_elem(&mut items, j);
            let it2 = delete_item(it, t1, t2);
            let ghost itv = it2;
            put_elem(&mut items, j, it2);
            proof {
                assert(items@ =~= a0.update(j as int, itv));
                lemma_elem_view(a0, j as int, itv);
            }
            let ghost newv = Json::Arr(items);
            put_value(&mut fs, ki, Json::Arr(items));
            proof {
                assert(fs@ =~= f0.update(ki as int, (f0[ki as int].0, newv)));
                lemma_put_view(f0, ki as int, newv);
            }
            *raw = Json::Obj(fs);
            true
        },
    }
}

/// Edits the login of the item with the id `id`, stamped with the current
/// time (see `edit_login_at`).
pub fn edit_login(raw: &mut Json, id: &str, name: &str, username: &str, password: &str, totp: &str) -> (r: bool)
    ensures
        exists|now: i64| (final(raw)@, r) == edit_spec(old(raw)@, id@, name@, username@, password@, totp@, now as int),
{
    let now = now_ms();
    edit_login_at(raw, id, name, username, password, totp, now)
}

/// Moves the item with the id `id` to the trash, stamped with the current
/// time (see `delete_login_at`).
pub fn delete_login(raw: &mut Json, id: &str) -> (r: bool)
    ensures
        exists|t1: i64, t2: i64| (final(raw)@, r) == delete_spec(old(raw)@, id@, t1 as int, t2 as int),
{
    let t1 = now_ms();
    let t2 = now_ms();
    delete_login_at(raw, id, t1, t2)
}

/// The triple of one item, as `triple_of` states it.
fn triple_at(it: &Json, id: &str) -> (r: Option<(String, String, String)>)
    ensures
        match r {
            Some(t) => triple_of(it@, id@) == Some((t.0@, t.1@, t.2@)),
            None => triple_of(it@, id@) is None,
        },
{
    let same = match get_str(it, "id") {
        Some(s) => same_text(s, id),
        None => false,
    };
    if !same {
        return None;
    }
    let login = match get_field(it, "login") {
        Some(l) => l,
        None => return None,
    };
    let u = match get_str(login, "username") {
        Some(u) => u.clone(),
        None => return None,
    };
    let p = match get_str(login, "password") {
        Some(p) => p.clone(),
        None => return None,
    };
    let t = match get_str(login, "totp") {
        Some(t) => t.clone(),
        None => String::new(),
    };
    Some((u, p, t))
}

/// `(username, password, totp)` of the login with the id `id`, read only: the
/// first item with that id whose login has a string username and password.
pub fn login_triple(raw: &Json, id: &str) -> (r: Option<(String, String, String)>)
    ensures
        match r {
            Some(t) => login_triple_spec(raw@, id@) == Some((t.0@, t.1@, t.2@)),
            None => login_triple_spec(raw@, id@) is None,
        },
{
    let items = match get_field(raw, "items") {
        Some(Json::Arr(v)) => v,
        _ => return None,
    };
    proof {
        lemma_values_view(items@);
    }
    let ghost marks = triple_marks(values_view(items@), id@);
    let mut i: usize = 0;
    while i < items.len()
        invariant
            i <= items.len(),
            items_of(raw@) == Some(values_view(items@)),
            marks == triple_marks(values_view(items@), id@),
            marks.len() == items.len(),
            forall|k: int| 0 <= k < items.len() ==> #[trigger] values_view(items@)[k] == items@[k]@,
            forall|k: int| 0 <= k < i ==> !#[trigger] marks[k],
        decreases items.len() - i,
    {
        match triple_at(&items[i], id) {
            Some(t) => {
                proof {
                    assert(marks[i as int]);
                    assert(first_at(marks, i as int));
                    lemma_first_true_found(marks, i as int);
                }
                return Some(t);
            },
            None => {
                assert(!marks[i as int]);
            },
        }
        i = i + 1;
    }
    proof {
        lemma_first_true_none(marks);
    }
    None
}

/// `(username, password)` of the login with the id `id`, read only.
pub fn login_pair(raw: &Json, id: &str) -> (r: Option<(String, String)>)
    ensures
        match r {
            Some(p) => match login_triple_spec(raw@, id@) {
                Some(t) => t.0 == p.0@ && t.1 == p.1@,
                None => false,
            },
            None => login_triple_spec(raw@, id@) is None,
        },
{
    match login_triple(raw, id) {
        Some((u, p, _t)) => Some((u, p)),
        None => None,
    }
}

/// Copies of the document's items (none when it has no items array).
pub fn item_values(raw: &Json) -> (r: Vec<Json>)
    ensures
        values_view(r@) == match items_of(raw@) {
            Some(s) => s,
            None => Seq::empty(),
        },
{
    let mut out: Vec<Json> = Vec::new();
    match get_field(raw, "items") {
        Some(Json::Arr(v)) => {
            let mut i: usize = 0;
            while i < v.len()
                invariant
                    i <= v.len(),
                    out@.len() == i,
                    forall|k: int| 0 <= k < i ==> (#[trigger] out@[k])@ == v@[k]@,
                decreases v.len() - i,
            {
                out.push(clone_json(&v[i]));
                i = i + 1;
            }
            proof {
                lemma_arr_view(out@);
                lemma_arr_view(v@);
                assert(elems_view(out@) =~= elems_view(v@));
            }
        },
        _ => {
            proof {
                lemma_arr_view(out@);
                assert(elems_view(out@) =~= Seq::empty());
            }
        },
    }
    out
}

/// The login fields a list row shows, as decoded from an item.
pub struct RawLogin {
    pub username: String,
    pub totp: String,
}

/// The fields a list row shows, as decoded from an item (missing fields take
/// their defaults).
pub struct RawItem {
    pub id: String,
    pub name: String,
    pub favorite: bool,
    pub deleted_at: Option<i64>,
    pub login: Option<RawLogin>,
}

/// One row of the item list: only what the interface shows.
pub struct ItemView {
    pub id: String,
    pub name: String,
    pub username: Option<String>,
    /// The TOTP secret (base32), when the item has one.
    pub totp: Option<String>,
    pub favorite: bool,
}

/// A row as plain values: id, name, username, totp secret, favorite.
pub type RowV = (Seq<char>, Seq<char>, Option<Seq<char>>, Option<Seq<char>>, bool);

pub open spec fn row_v(v: ItemView) -> RowV {
    (v.id@, v.name@, match v.username { Some(u) => Some(u@), None => None }, match v.totp {
        Some(t) => Some(t@),
        None => None,
    }, v.favorite)
}

/// The row of a decoded item: none for an item in the trash (`deletedAt`
/// set); an empty totp secret counts as none.
pub open spec fn row_of(ri: RawItem) -> Option<RowV> {
    if ri.deleted_at is Some {
        None
    } else {
        Some((ri.id@, ri.name@, match ri.login {
            Some(l) => Some(l.username@),
            None => None,
        }, match ri.login {
            Some(l) => if l.totp@.len() == 0 { None } else { Some(l.totp@) },
            None => None,
        }, ri.favorite))
    }
}

/// The rows of the items that decoded, in order.
pub open spec fn rows_spec(s: Seq<Option<RawItem>>) -> Seq<RowV>
    decreases s.len(),
{
    if s.len() == 0 {
        Seq::empty()
    } else {
        let rest = rows_spec(s.drop_last());
        match s.last() {
            Some(ri) => match row_of(ri) {
                Some(r) => rest.push(r),
                None => rest,
            },
            None => rest,
        }
    }
}

/// An item that decoded and is not in the trash.
pub open spec fn listed(x: Option<RawItem>) -> bool {
    x matches Some(ri) && ri.deleted_at is None
}

/// Each row shows its own item: the rows stand for the items that decoded
/// and are not in the trash, each such item once, in document order (`f[k]`
/// is the item of row `k`), and row `k` carries that item's id, name and
/// favorite flag, its login's username, and its TOTP secret (none when
/// empty or when there is no login).
pub proof fn lemma_rows_show_their_items(s: Seq<Option<RawItem>>) -> (f: Seq<int>)
    ensures
        f.len() == rows_spec(s).len(),
        forall|k: int| 0 <= k < f.len() ==> 0 <= #[trigger] f[k] < s.len() && listed(s[f[k]]),
        forall|k: int, l: int| 0 <= k < l < f.len() ==> #[trigger] f[k] < #[trigger] f[l],
        forall|j: int| 0 <= j < s.len() && listed(#[trigger] s[j]) ==> exists|k: int| 0 <= k < f.len() && f[k] == j,
        forall|k: int| 0 <= k < f.len() ==> {
            let ri = s[#[trigger] f[k]]->Some_0;
            let row = rows_spec(s)[k];
            &&& row.0 == ri.id@
            &&& row.1 == ri.name@
            &&& row.4 == ri.favorite
            &&& row.2 == match ri.login {
                Some(l) => Some(l.username@),
                None => None::<Seq<char>>,
            }
            &&& row.3 == match ri.login {
                Some(l) => if l.totp@.len() == 0 { None::<Seq<char>> } else { Some(l.totp@) },
                None => None::<Seq<char>>,
            }
        },
    decreases s.len(),
{
    if s.len() == 0 {
        Seq::empty()
    } else {
        let p = s.drop_last();
        let g = lemma_rows_show_their_items(p);
        let rest = rows_spec(p);
        let n = p.len() as int;
        if listed(s.last()) {
            let f = g.push(n);
            assert(rows_spec(s) == rest.push(row_of(s.last()->Some_0)->Some_0));
            assert forall|k: int| 0 <= k < f.len() implies 0 <= #[trigger] f[k] < s.len() && listed(s[f[k]]) by {
                if k < g.len() {
                    assert(f[k] == g[k]);
                    assert(s[g[k]] == p[g[k]]);
                }
            }
            assert forall|k: int, l: int| 0 <= k < l < f.len() implies #[trigger] f[k] < #[trigger] f[l] by {
                assert(f[k] == g[k]);
                if l < g.len() {
                    assert(f[l] == g[l]);
                }
            }
            assert forall|j: int| 0 <= j < s.len() && listed(#[trigger] s[j]) implies exists|k: int| 0 <= k < f.len() && f[k] == j by {
                if j < n {
                    assert(p[j] == s[j]);
                    let k = choose|k: int| 0 <= k < g.len() && g[k] == j;
                    assert(f[k] == g[k]);
                } else {
                    assert(f[g.len() as int] == n);
                }
            }
            assert forall|k: int| 0 <= k < f.len() implies {
                let ri = s[#[trigger] f[k]]->Some_0;
                let row = rows_spec(s)[k];
                &&& row.0 == ri.id@
                &&& row.1 == ri.name@
                &&& row.4 == ri.favorite
                &&& row.2 == match ri.login {
                    Some(l) => Some(l.username@),
                    None => None::<Seq<char>>,
                }
                &&& row.3 == match ri.login {
                    Some(l) => if l.totp@.len() == 0 { None::<Seq<char>> } else { Some(l.totp@) },
                    None => None::<Seq<char>>,
                }
            } by {
                if k < g.len() {
                    assert(f[k] == g[k]);
                    assert(s[g[k]] == p[g[k]]);
                    assert(rows_spec(s)[k] == rest[k]);
                } else {
                    assert(f[k] == n);
                    assert(s[n] == s.last());
                }
            }
            f
        } else {
            assert(rows_spec(s) == rest);
            assert forall|k: int| 0 <= k < g.len() implies 0 <= #[trigger] g[k] < s.len() && listed(s[g[k]]) by {
                assert(s[g[k]] == p[g[k]]);
            }
            assert forall|j: int| 0 <= j < s.len() && listed(#[trigger] s[j]) implies exists|k: int| 0 <= k < g.len() && g[k] == j by {
                assert(j < n);
                assert(p[j] == s[j]);
            }
            assert forall|k: int| 0 <= k < g.len() implies {
                let ri = s[#[trigger] g[k]]->Some_0;
                let row = rows_spec(s)[k];
                &&& row.0 == ri.id@
                &&& row.1 == ri.name@
                &&& row.4 == ri.favorite
                &&& row.2 == match ri.login {
                    Some(l) => Some(l.username@),
                    None => None::<Seq<char>>,
                }
                &&& row.3 == match ri.login {
                    Some(l) => if l.totp@.len() == 0 { None::<Seq<char>> } else { Some(l.totp@) },
                    None => None::<Seq<char>>,
                }
            } by {
                assert(s[g[k]] == p[g[k]]);
            }
            g
        }
    }
}

/// The list view of the vault: one row per item that decoded and is not in
/// the trash, in document order.
pub fn items_view(parsed: Vec<Option<RawItem>>) -> (r: Vec<ItemView>)
    ensures
        r@.map_values(|v: ItemView| row_v(v)) == rows_spec(parsed@),
{
    let ghost all = parsed@;
    let mut out: Vec<ItemView> = Vec::new();
    let mut rest = parsed;
    let mut taken: Vec<Option<RawItem>> = Vec::new();
    let mut i: usize = 0;
    let n = rest.len();
    while i < n
        invariant
            n == all.len(),
            i <= n,
            rest@.len() == n - i,
            forall|k: int| 0 <= k < rest@.len() ==> #[trigger] rest@[k] == all[k + i],
            out@.map_values(|v: ItemView| row_v(v)) == rows_spec(all.take(i as int)),
        decreases n - i,
    {
        let x = rest.remove(0);
        proof {
            assert(x == all[i as int]);
            assert(all.take(i as int + 1).drop_last() =~= all.take(i as int));
        }
        let ghost before = out@;
        match x {
            Some(ri) => {
                if ri.deleted_at.is_none() {
                    let username = match &ri.login {
                        Some(l) => Some(l.username.clone()),
                        None => None,
                    };
                    let totp = match &ri.login {
                        Some(l) => if l.totp.as_str().is_empty() { None } else { Some(l.totp.clone()) },
                        None => None,
                    };
                    let row = ItemView { id: ri.id, name: ri.name, username, totp, favorite: ri.favorite };
                    out.push(row);
                    proof {
                        assert(out@.map_values(|v: ItemView| row_v(v)) =~= before.map_values(|v: ItemView| row_v(v)).push(row_v(row)));
                    }
                }
            },
            None => {},
        }
        i = i + 1;
    }
    proof {
        assert(all.take(n as int) =~= all);
    }
    out
}

/// The field names of a login item are pairwise distinct.
proof fn lemma_names_distinct()
    ensures
        "id"@ != "name"@, "id"@ != "updatedAt"@, "id"@ != "login"@, "id"@ != "deletedAt"@,
        "id"@ != "kind"@, "id"@ != "favorite"@, "id"@ != "folderId"@, "id"@ != "notes"@,
        "id"@ != "createdAt"@,
        "name"@ != "updatedAt"@, "name"@ != "login"@, "updatedAt"@ != "login"@,
        "deletedAt"@ != "updatedAt"@, "deletedAt"@ != "login"@,
        "kind"@ != "login"@, "name"@ != "login"@, "favorite"@ != "login"@, "folderId"@ != "login"@,
        "notes"@ != "login"@, "createdAt"@ != "login"@,
        "username"@ != "password"@, "username"@ != "totp"@, "password"@ != "totp"@,
        "uris"@ != "totp"@, "items"@ != "login"@,
{
    reveal_strlit("id");
    reveal_strlit("name");
    reveal_strlit("updatedAt");
    reveal_strlit("login");
    reveal_strlit("deletedAt");
    reveal_strlit("kind");
    reveal_strlit("favorite");
    reveal_strlit("folderId");
    reveal_strlit("notes");
    reveal_strlit("createdAt");
    reveal_strlit("username");
    reveal_strlit("password");
    reveal_strlit("totp");
    reveal_strlit("uris");
    reveal_strlit("items");
    assert("id"@.len() != "createdAt"@.len());
    assert("name"@[0] != "updatedAt"@[0]);
    assert("updatedAt"@[0] != "deletedAt"@[0]);
    assert("kind"@[0] != "name"@[0]);
    assert("notes"@[0] != "login"@[0]);
    assert("favorite"@[1] != "folderId"@[1]);
    assert("username"@[0] != "password"@[0]);
    assert("uris"@[0] != "totp"@[0]);
    assert("items"@[0] != "login"@[0]);
}

/// A rewrite of the first item with a given id keeps every other top-level
/// field and every other item, and keeps the number of items; when no item
/// has the id, the document is unchanged.
pub proof fn lemma_rewrite_conservative(raw: JsonV, id: Seq<char>, f: spec_fn(JsonV) -> JsonV)
    ensures
        ({
            let (out, found) = rewrite_spec(raw, id, f);
            &&& found <==> (items_of(raw) is Some && id_index(items_of(raw)->0, id) is Some)
            &&& !found ==> out == raw
            &&& found ==> {
                let s = items_of(raw)->0;
                let j = id_index(s, id)->0;
                &&& items_of(out) == Some(s.update(j, f(s[j])))
                &&& has_id(s[j], id)
                &&& forall|k: int| 0 <= k < j ==> !has_id(#[trigger] s[k], id)
                &&& forall|k: Seq<char>| k != "items"@ ==> get(out, k) == get(raw, k)
            }
        }),
{
    let (out, found) = rewrite_spec(raw, id, f);
    if found {
        let s = items_of(raw)->0;
        let j = id_index(s, id)->0;
        lemma_first_true(id_marks(s, id));
        assert forall|k: int| 0 <= k < j implies !has_id(#[trigger] s[k], id) by {
            assert(!id_marks(s, id)[k]);
        }
        assert(id_marks(s, id)[j]);
        lemma_get_set_same(raw, "items"@, JsonV::Arr(s.update(j, f(s[j]))));
        assert forall|k: Seq<char>| k != "items"@ implies get(out, k) == get(raw, k) by {
            lemma_get_set_other(raw, "items"@, JsonV::Arr(s.update(j, f(s[j]))), k);
        }
    }
}

/// An edit changes the item's name, `updatedAt` and login only; in the login
/// only username, password and totp change; every other field reads as before.
pub proof fn lemma_edit_conservative(
    it: JsonV,
    name: Seq<char>,
    username: Seq<char>,
    password: Seq<char>,
    totp: Seq<char>,
    now: int,
)
    requires
        it is Obj,
    ensures
        ({
            let e = edited_item(it, name, username, password, totp, now);
            &&& get(e, "name"@) == Some(jstr(name))
            &&& get(e, "updatedAt"@) == Some(jnum(now))
            &&& forall|k: Seq<char>| k != "name"@ && k != "updatedAt"@ && k != "login"@ ==> get(e, k) == get(it, k)
            &&& get(e, "login"@) is Some
            &&& {
                let l = get(e, "login"@)->0;
                &&& l is Obj
                &&& as_str(get(l, "username"@)) == Some(username)
                &&& as_str(get(l, "password"@)) == Some(password)
                &&& as_str(get(l, "totp"@)) == Some(totp)
                &&& login_is_obj(it) ==> forall|k: Seq<char>| k != "username"@ && k != "password"@ && k != "totp"@
                    ==> get(l, k) == get(get(it, "login"@)->0, k)
            }
        }),
{
    lemma_names_distinct();
    let a1 = put(it, "name"@, jstr(name));
    let a = put(a1, "updatedAt"@, jnum(now));
    lemma_get_set_same(it, "name"@, jstr(name));
    lemma_get_set_same(a1, "updatedAt"@, jnum(now));
    lemma_get_set_other(a1, "updatedAt"@, jnum(now), "name"@);
    lemma_get_set_other(it, "name"@, jstr(name), "login"@);
    lemma_get_set_other(a1, "updatedAt"@, jnum(now), "login"@);
    let b = if login_is_obj(a) { a } else { put(a, "login"@, login_shape(Seq::empty(), Seq::empty())) };
    if !login_is_obj(a) {
        lemma_get_set_same(a, "login"@, login_shape(Seq::empty(), Seq::empty()));
        lemma_get_set_other(a, "login"@, login_shape(Seq::empty(), Seq::empty()), "name"@);
        lemma_get_set_other(a, "login"@, login_shape(Seq::empty(), Seq::empty()), "updatedAt"@);
    }
    let l = get(b, "login"@)->0;
    let l1 = put(l, "username"@, jstr(username));
    let l2 = put(l1, "password"@, jstr(password));
    let l3 = put(l2, "totp"@, jstr(totp));
    lemma_get_set_same(l, "username"@, jstr(username));
    lemma_get_set_same(l1, "password"@, jstr(password));
    lemma_get_set_same(l2, "totp"@, jstr(totp));
    lemma_get_set_other(l1, "password"@, jstr(password), "username"@);
    lemma_get_set_other(l2, "totp"@, jstr(totp), "username"@);
    lemma_get_set_other(l2, "totp"@, jstr(totp), "password"@);
    let e = put(b, "login"@, l3);
    lemma_get_set_same(b, "login"@, l3);
    lemma_get_set_other(b, "login"@, l3, "name"@);
    lemma_get_set_other(b, "login"@, l3, "updatedAt"@);
    assert forall|k: Seq<char>| k != "name"@ && k != "updatedAt"@ && k != "login"@ implies get(e, k) == get(it, k) by {
        lemma_get_set_other(it, "name"@, jstr(name), k);
        lemma_get_set_other(a1, "updatedAt"@, jstr(name), k);
        lemma_get_set_other(a1, "updatedAt"@, jnum(now), k);
        if !login_is_obj(a) {
            lemma_get_set_other(a, "login"@, login_shape(Seq::empty(), Seq::empty()), k);
        }
        lemma_get_set_other(b, "login"@, l3, k);
    }
    assert forall|k: Seq<char>| login_is_obj(it) && k != "username"@ && k != "password"@ && k != "totp"@ implies get(l3, k)
        == get(get(it, "login"@)->0, k) by {
        lemma_get_set_other(l, "username"@, jstr(username), k);
        lemma_get_set_other(l1, "password"@, jstr(password), k);
        lemma_get_set_other(l2, "totp"@, jstr(totp), k);
    }
}

/// A deletion only stamps `deletedAt` and `updatedAt`; the item keeps every
/// other field, its id among them.
pub proof fn lemma_delete_is_logical(it: JsonV, t1: int, t2: int)
    requires
        it is Obj,
    ensures
        ({
            let d = deleted_item(it, t1, t2);
            &&& get(d, "deletedAt"@) == Some(jnum(t1))
            &&& get(d, "updatedAt"@) == Some(jnum(t2))
            &&& forall|k: Seq<char>| k != "deletedAt"@ && k != "updatedAt"@ ==> get(d, k) == get(it, k)
        }),
{
    lemma_names_distinct();
    let a = put(it, "deletedAt"@, jnum(t1));
    lemma_get_set_same(it, "deletedAt"@, jnum(t1));
    lemma_get_set_same(a, "updatedAt"@, jnum(t2));
    lemma_get_set_other(a, "updatedAt"@, jnum(t2), "deletedAt"@);
    assert forall|k: Seq<char>| k != "deletedAt"@ && k != "updatedAt"@ implies get(deleted_item(it, t1, t2), k) == get(it, k) by {
        lemma_get_set_other(it, "deletedAt"@, jnum(t1), k);
        lemma_get_set_other(a, "updatedAt"@, jnum(t2), k);
    }
}

/// The items before position `j` yield no triple for `id` when none of them
/// has that id; so the first triple is that of item `j` when item `j` has one.
proof fn lemma_triple_at(s: Seq<JsonV>, id: Seq<char>, j: int)
    requires
        0 <= j < s.len(),
        forall|k: int| 0 <= k < j ==> !has_id(#[trigger] s[k], id),
        triple_of(s[j], id) is Some,
    ensures
        first_true(triple_marks(s, id)) == Some(j),
{
    let m = triple_marks(s, id);
    assert forall|k: int| 0 <= k < j implies !#[trigger] m[k] by {
        assert(!has_id(s[k], id));
    }
    assert(first_at(m, j));
    lemma_first_true_found(m, j);
}

/// An add keeps every other top-level field (folders, version, anything
/// unknown) and every existing item, in place, and appends the new item: the
/// items are the old ones followed by exactly the new one.
pub proof fn lemma_add_conservative(raw: JsonV, item: JsonV)
    requires
        keyed(raw),
    ensures
        raw is Obj ==> forall|k: Seq<char>| k != "items"@ ==> get(add_spec(raw, item), k) == get(raw, k),
        items_of(add_spec(raw, item)) == Some(items_or_empty(raw).push(item)),
{
    let base = items_or_empty(raw);
    lemma_get_set_same(raw, "items"@, JsonV::Arr(base.push(item)));
    if raw is Obj {
        assert forall|k: Seq<char>| k != "items"@ implies get(add_spec(raw, item), k) == get(raw, k) by {
            lemma_get_set_other(raw, "items"@, JsonV::Arr(base.push(item)), k);
        }
    }
}

/// A successful edit reads back: the login of that id then gives the
/// username, password and totp just written.
pub proof fn lemma_edit_then_read(
    raw: JsonV,
    id: Seq<char>,
    name: Seq<char>,
    username: Seq<char>,
    password: Seq<char>,
    totp: Seq<char>,
    now: int,
)
    requires
        edit_spec(raw, id, name, username, password, totp, now).1,
    ensures
        login_triple_spec(edit_spec(raw, id, name, username, password, totp, now).0, id) == Some((username, password, totp)),
{
    let f = |it: JsonV| edited_item(it, name, username, password, totp, now);
    lemma_rewrite_conservative(raw, id, f);
    let s = items_of(raw)->0;
    let j = id_index(s, id)->0;
    let it = s[j];
    assert(get(it, "id"@) is Some);
    assert(it is Obj);
    lemma_edit_conservative(it, name, username, password, totp, now);
    lemma_names_distinct();
    let e = edited_item(it, name, username, password, totp, now);
    assert(get(e, "id"@) == get(it, "id"@));
    let s2 = s.update(j, e);
    assert(s2[j] == f(s[j]));
    assert forall|k: int| 0 <= k < j implies !has_id(#[trigger] s2[k], id) by {
        assert(s2[k] == s[k]);
        assert(!has_id(s[k], id));
    }
    lemma_triple_at(s2, id, j);
}

/// A login added under an id no item had reads back: its username, password
/// and an empty totp.
pub proof fn lemma_add_then_read(
    raw: JsonV,
    id: Seq<char>,
    name: Seq<char>,
    username: Seq<char>,
    password: Seq<char>,
    created: int,
    updated: int,
)
    requires
        keyed(raw),
        forall|k: int| 0 <= k < items_of(raw)->0.len() ==> !has_id(#[trigger] items_of(raw)->0[k], id),
    ensures
        login_triple_spec(add_spec(raw, new_login_item(id, name, username, password, created, updated)), id)
            == Some((username, password, Seq::<char>::empty())),
{
    lemma_names_distinct();
    let item = new_login_item(id, name, username, password, created, updated);
    let base = match items_of(raw) {
        Some(s) => s,
        None => Seq::empty(),
    };
    let s2 = base.push(item);
    lemma_get_set_same(raw, "items"@, JsonV::Arr(s2));
    assert(items_of(add_spec(raw, item)) == Some(s2));
    let fs = item->Obj_0;
    assert(key_first(fs, "id"@, 0));
    lemma_key_found(fs, "id"@, 0);
    assert(key_first(fs, "login"@, 9));
    lemma_key_found(fs, "login"@, 9);
    let l = login_shape(username, password);
    let lf = l->Obj_0;
    assert(key_first(lf, "username"@, 0));
    lemma_key_found(lf, "username"@, 0);
    assert(key_first(lf, "password"@, 1));
    lemma_key_found(lf, "password"@, 1);
    assert(key_first(lf, "totp"@, 3));
    lemma_key_found(lf, "totp"@, 3);
    assert(triple_of(item, id) == Some((username, password, Seq::<char>::empty())));
    assert forall|k: int| 0 <= k < base.len() implies !has_id(#[trigger] s2[k], id) by {
        assert(s2[k] == base[k]);
    }
    lemma_triple_at(s2, id, base.len() as int);
}

/// The positions of the rows whose name passes the search box (trimmed,
/// lowercase; an empty search shows every row), in list order.
pub fn search_rows(rows: &Vec<ItemView>, query: &str) -> (r: Vec<usize>)
    ensures
        r@.map_values(|i: usize| i as int) == hits(rows@.map_values(|v: ItemView| v.name@), needle_of(query@)),
{
    let n = needle(query);
    let ghost names = rows@.map_values(|v: ItemView| v.name@);
    let mut out: Vec<usize> = Vec::new();
    let mut i: usize = 0;
    while i < rows.len()
        invariant
            i <= rows@.len(),
            names == rows@.map_values(|v: ItemView| v.name@),
            n@ == needle_of(query@),
            out@.map_values(|k: usize| k as int) == hits(names.subrange(0, i as int), n@),
        decreases rows@.len() - i,
    {
        proof {
            assert(names.subrange(0, i as int + 1).drop_last() =~= names.subrange(0, i as int));
        }
        let ghost before = out@;
        if passes_search(rows[i].name.as_str(), n.as_str()) {
            out.push(i);
            proof {
                assert(out@.map_values(|k: usize| k as int) =~= before.map_values(|k: usize| k as int).push(i as int));
            }
        }
        i = i + 1;
    }
    proof {
        assert(names.subrange(0, rows@.len() as int) =~= names);
    }
    out
}

/// Why a new vault was not created.
pub open spec fn new_master_spec(master: Seq<char>, confirm: Seq<char>) -> Result<(), Seq<char>> {
    if master.len() == 0 {
        Err("a senha mestra não pode ser vazia"@)
    } else if master != confirm {
        Err("as senhas não conferem"@)
    } else {
        Ok(())
    }
}

/// The master password of a new vault: not empty, and typed the same twice.
pub fn check_new_master(master: &str, confirm: &str) -> (r: Result<(), String>)
    ensures
        match r {
            Ok(()) => new_master_spec(master@, confirm@) is Ok,
            Err(e) => new_master_spec(master@, confirm@) == Err::<(), Seq<char>>(e@),
        },
{
    if master.is_empty() {
        return Err(owned("a senha mestra não pode ser vazia"));
    }
    let m = owned(master);
    if !same_text(&m, confirm) {
        return Err(owned("as senhas não conferem"));
    }
    Ok(())
}

/// What saving the login form did.
#[derive(Clone, Copy, PartialEq, Eq, Structural, Debug)]
pub enum SaveOutcome {
    /// The name was blank: nothing to save.
    Skipped,
    /// The document changed.
    Saved,
    /// The item being edited is gone.
    NotFound,
}

/// The document after the form added a login at times `created` and
/// `updated` with the id `id`, its totp set when one was given.
pub open spec fn added_with_totp(raw: JsonV, id: Seq<char>, name: Seq<char>, username: Seq<char>, password: Seq<char>, totp: Seq<char>, created: int, updated: int) -> JsonV {
    let d = add_spec(raw, new_login_item(id, name, username, password, created, updated));
    if totp.len() == 0 {
        d
    } else {
        let s = items_of(d)->0;
        let last = s.last();
        let l = get(last, "login"@)->0;
        put(d, "items"@, JsonV::Arr(s.update(s.len() - 1, put(last, "login"@, put(l, "totp"@, jstr(totp))))))
    }
}

/// Saves the login form at time `now` with a new item's id `id`: a blank
/// name (after trimming) saves nothing; editing rewrites the item with the
/// id `edit_id`; adding appends a login, with its totp when one was typed.
/// The name and totp are taken trimmed.
pub fn save_entry_at(
    raw: &mut Json,
    edit_id: Option<&str>,
    name: &str,
    username: &str,
    password: &str,
    totp: &str,
    id: &str,
    now: i64,
) -> (r: SaveOutcome)
    requires
        keyed(old(raw)@),
    ensures
        trim_end(trim_start(name@)).len() == 0 ==> r == SaveOutcome::Skipped && final(raw)@ == old(raw)@,
        trim_end(trim_start(name@)).len() > 0 ==> match edit_id {
            Some(e) => {
                let (d, found) = edit_spec(old(raw)@, e@, trim_end(trim_start(name@)), username@, password@, trim_end(trim_start(totp@)), now as int);
                &&& final(raw)@ == d
                &&& r == (if found { SaveOutcome::Saved } else { SaveOutcome::NotFound })
            },
            None => {
                &&& r == SaveOutcome::Saved
                &&& final(raw)@ == added_with_totp(old(raw)@, id@, trim_end(trim_start(name@)), username@, password@, trim_end(trim_start(totp@)), now as int, now as int)
            },
        },
{
    let name_t = trim(name);
    if name_t.as_str().is_empty() {
        return SaveOutcome::Skipped;
    }
    let totp_t = trim(totp);
    match edit_id {
        Some(e) => {
            if edit_login_at(raw, e, name_t.as_str(), username, password, totp_t.as_str(), now) {
                SaveOutcome::Saved
            } else {
                SaveOutcome::NotFound
            }
        },
        None => {
            let ghost r0 = raw@;
            add_login_with(raw, name_t.as_str(), username, password, id, now, now);
            proof {
                lemma_added_item_shape(r0, id@, name_t@, username@, password@, now as int, now as int);
            }
            if !totp_t.as_str().is_empty() {
                set_last_totp(raw, totp_t.as_str());
            }
            SaveOutcome::Saved
        },
    }
}

/// After an add, the items end with the new login item, whose login is an
/// object.
proof fn lemma_added_item_shape(
    raw: JsonV,
    id: Seq<char>,
    name: Seq<char>,
    username: Seq<char>,
    password: Seq<char>,
    created: int,
    updated: int,
)
    requires
        keyed(raw),
    ensures
        ({
            let item = new_login_item(id, name, username, password, created, updated);
            let base = match items_of(raw) {
                Some(s) => s,
                None => Seq::empty(),
            };
            &&& items_of(add_spec(raw, item)) == Some(base.push(item))
            &&& get(item, "login"@) == Some(login_shape(username, password))
        }),
{
    lemma_names_distinct();
    let item = new_login_item(id, name, username, password, created, updated);
    let base = match items_of(raw) {
        Some(s) => s,
        None => Seq::empty(),
    };
    lemma_get_set_same(raw, "items"@, JsonV::Arr(base.push(item)));
    let fs = item->Obj_0;
    assert(key_first(fs, "login"@, 9));
    lemma_key_found(fs, "login"@, 9);
}

/// Sets the totp of the last item's login, in a document whose last item is
/// a login item that `add_login_with` appended.
fn set_last_totp(raw: &mut Json, totp: &str)
    requires
        items_of(old(raw)@) is Some,
        items_of(old(raw)@)->0.len() > 0,
        items_of(old(raw)@)->0.last() is Obj,
        get(items_of(old(raw)@)->0.last(), "login"@) matches Some(JsonV::Obj(_)),
    ensures
        ({
            let s = items_of(old(raw)@)->0;
            let last = s.last();
            let l = get(last, "login"@)->0;
            final(raw)@ == put(old(raw)@, "items"@, JsonV::Arr(s.update(s.len() - 1, put(last, "login"@, put(l, "totp"@, jstr(totp@))))))
        }),
{
    let ghost r0 = raw@;
    let mut taken = Json::Null;
    std::mem::swap(raw, &mut taken);
    let mut fs: Vec<(String, Json)> = match taken {
        Json::Obj(fs) => fs,
        _ => Vec::new(),
    };
    let ghost f0 = fs@;
    proof {
        lemma_obj_view(f0);
        lemma_fields_view(f0);
        lemma_key_index(fields_view(f0), "items"@);
    }
    match find_key(&fs, "items") {
        Some(ki) => {
            let v = take_value(&mut fs, ki);
            let mut items: Vec<Json> = match v {
                Json::Arr(a) => a,
                _ => Vec::new(),
            };
            let ghost a0 = items@;
            proof {
                assert(fields_view(f0)[ki as int] == (f0[ki as int].0@, f0[ki as int].1@));
                assert(get(r0, "items"@) == Some(v@));
                lemma_values_view(a0);
            }
            let j = items.len() - 1;
            let it = take_elem(&mut items, j);
            let it2 = with_login_totp(it, totp);
            let ghost itv = it2;
            put_elem(&mut items, j, it2);
            proof {
                assert(items@ =~= a0.update(j as int, itv));
                lemma_elem_view(a0, j as int, itv);
            }
            let ghost newv = Json::Arr(items);
            put_value(&mut fs, ki, Json::Arr(items));
            proof {
                assert(fs@ =~= f0.update(ki as int, (f0[ki as int].0, newv)));
                lemma_put_view(f0, ki as int, newv);
            }
            *raw = Json::Obj(fs);
        },
        None => {
            proof {
                assert(false);
            }
            *raw = Json::Obj(fs);
        },
    }
}

/// `it` with its login's totp set.
fn with_login_totp(it: Json, totp: &str) -> (r: Json)
    requires
        it@ is Obj,
        get(it@, "login"@) matches Some(JsonV::Obj(_)),
    ensures
        r@ == put(it@, "login"@, put(get(it@, "login"@)->0, "totp"@, jstr(totp@))),
{
    let mut fs: Vec<(String, Json)> = match it {
        Json::Obj(fs) => fs,
        _ => Vec::new(),
    };
    let ghost f0 = fs@;
    proof {
        lemma_obj_view(f0);
        lemma_fields_view(f0);
        lemma_key_index(fields_view(f0), "login"@);
    }
    match find_key(&fs, "login") {
        Some(li) => {
            let l = take_value(&mut fs, li);
            let l = with_field(l, "totp", str_value(totp));
            let ghost lv = l;
            put_value(&mut fs, li, l);
            proof {
                assert(fs@ =~= f0.update(li as int, (f0[li as int].0, lv)));
                lemma_put_view(f0, li as int, lv);
                assert(fields_view(f0)[li as int] == (f0[li as int].0@, f0[li as int].1@));
            }
            Json::Obj(fs)
        },
        None => {
            proof {
                assert(false);
            }
            Json::Obj(fs)
        },
    }
}

} // verus!
