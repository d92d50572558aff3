//! Case-insensitive ordering of names, as the viewer and the player list a
//! folder: by the lowercase text, compared char by char (the order of
//! `String`), equal keys keeping their original order.
use vstd::prelude::*;
use crate::text::{lowercase, lower_text, str_chars, is_ascii_text, ascii_lower};

verus! {

/// `a` comes no later than `b`: lexicographic order by code point.
pub open spec fn lex_le(a: Seq<char>, b: Seq<char>) -> bool
    decreases a.len(),
{
    if a.len() == 0 {
        true
    } else if b.len() == 0 {
        false
    } else if a[0] != b[0] {
        a[0] < b[0]
    } else {
        lex_le(a.drop_first(), b.drop_first())
    }
}

pub proof fn lemma_lex_total(a: Seq<char>, b: Seq<char>)
    ensures
        lex_le(a, b) || lex_le(b, a),
    decreases a.len(),
{
    if a.len() > 0 && b.len() > 0 {
        if a[0] == b[0] {
            lemma_lex_total(a.drop_first(), b.drop_first());
        }
    }
}

pub proof fn lemma_lex_trans(a: Seq<char>, b: Seq<char>, c: Seq<char>)
    requires
        lex_le(a, b),
        lex_le(b, c),
    ensures
        lex_le(a, c),
    decreases a.len(),
{
    if a.len() > 0 && b.len() > 0 && c.len() > 0 && a[0] == b[0] && b[0] == c[0] {
        lemma_lex_trans(a.drop_first(), b.drop_first(), c.drop_first());
    }
}

/// Where a new index with key `k` goes in `order`: before the first entry
/// whose key comes after `k`, or at the end.
pub open spec fn insert_pos(keys: Seq<Seq<char>>, order: Seq<int>, k: Seq<char>) -> int
    decreases order.len(),
{
    if order.len() == 0 {
        0
    } else if !lex_le(keys[order[0]], k) {
        0
    } else {
        1 + insert_pos(keys, order.drop_first(), k)
    }
}

/// The first `n` indices ordered by key, equal keys in index order
/// (insertion, each index placed after every key that does not come after it).
pub open spec fn sorted_order(keys: Seq<Seq<char>>, n: nat) -> Seq<int>
    decreases n,
{
    if n == 0 {
        Seq::empty()
    } else {
        let o = sorted_order(keys, (n - 1) as nat);
        o.insert(insert_pos(keys, o, keys[n - 1]), n - 1)
    }
}

/// The keys of `order` come in order.
pub open spec fn ordered(keys: Seq<Seq<char>>, order: Seq<int>) -> bool {
    forall|i: int, j: int| 0 <= i < j < order.len() ==> lex_le(keys[order[i]], keys[order[j]])
}

/// `order` holds each index below `n` exactly once.
pub open spec fn permutes(order: Seq<int>, n: nat) -> bool {
    &&& order.len() == n
    &&& forall|i: int| 0 <= i < n ==> 0 <= #[trigger] order[i] < n
    &&& forall|i: int, j: int| 0 <= i < j < n ==> order[i] != order[j]
}

proof fn lemma_insert_pos_bounds(keys: Seq<Seq<char>>, order: Seq<int>, k: Seq<char>)
    ensures
        0 <= insert_pos(keys, order, k) <= order.len(),
        forall|i: int| 0 <= i < insert_pos(keys, order, k) ==> lex_le(keys[#[trigger] order[i]], k),
        insert_pos(keys, order, k) < order.len() ==> !lex_le(keys[order[insert_pos(keys, order, k)]], k),
    decreases order.len(),
{
    if order.len() > 0 && lex_le(keys[order[0]], k) {
        let rest = order.drop_first();
        lemma_insert_pos_bounds(keys, rest, k);
        assert forall|i: int| 0 <= i < insert_pos(keys, order, k) implies lex_le(keys[#[trigger] order[i]], k) by {
            if i > 0 {
                assert(order[i] == rest[i - 1]);
            }
        }
    }
}

/// Insertion order is a permutation of the indices, ordered by key.
pub proof fn lemma_sorted_order(keys: Seq<Seq<char>>, n: nat)
    requires
        n <= keys.len(),
    ensures
        permutes(sorted_order(keys, n), n),
        ordered(keys, sorted_order(keys, n)),
    decreases n,
{
    if n > 0 {
        let m = (n - 1) as nat;
        lemma_sorted_order(keys, m);
        let o = sorted_order(keys, m);
        let k = keys[n - 1];
        let p = insert_pos(keys, o, k);
        lemma_insert_pos_bounds(keys, o, k);
        let o2 = o.insert(p, n - 1);
        assert forall|i: int| 0 <= i < n implies 0 <= #[trigger] o2[i] < n by {
            if i < p {
                assert(o2[i] == o[i]);
            } else if i > p {
                assert(o2[i] == o[i - 1]);
            }
        }
        assert forall|i: int, j: int| 0 <= i < j < n implies o2[i] != o2[j] by {
            if i < p && j < p {
                assert(o2[i] == o[i] && o2[j] == o[j]);
            } else if i < p && j == p {
                assert(o2[i] == o[i]);
            } else if i < p && j > p {
                assert(o2[i] == o[i] && o2[j] == o[j - 1]);
            } else if i == p {
                assert(o2[j] == o[j - 1]);
            } else {
                assert(o2[i] == o[i - 1] && o2[j] == o[j - 1]);
            }
        }
        assert forall|i: int, j: int| 0 <= i < j < o2.len() implies lex_le(keys[o2[i]], keys[o2[j]]) by {
            if i < p && j < p {
                assert(o2[i] == o[i] && o2[j] == o[j]);
            } else if i < p && j == p {
                assert(o2[i] == o[i]);
            } else if i < p && j > p {
                assert(o2[i] == o[i] && o2[j] == o[j - 1]);
                lemma_lex_total(keys[o[p]], k);
                assert(lex_le(keys[o[i]], keys[o[j - 1]]));
            } else if i == p {
                assert(o2[j] == o[j - 1]);
                assert(!lex_le(keys[o[p]], k));
                lemma_lex_total(keys[o[p]], k);
                if j - 1 > p {
                    assert(lex_le(keys[o[p]], keys[o[j - 1]]));
                    lemma_lex_trans(k, keys[o[p]], keys[o[j - 1]]);
                }
            } else {
                assert(o2[i] == o[i - 1] && o2[j] == o[j - 1]);
            }
        }
    }
}

/// The order in which the names are listed: by their lowercase text, equal
/// keys in their original order; for ASCII names, by their ASCII lowercase
/// text, so names that differ only in case share a key. Returns the indices
/// of `names`.
pub fn order_by_lowercase(names: &Vec<String>) -> (r: Vec<usize>)
    ensures
        r@.map_values(|i: usize| i as int) == sorted_order(names@.map_values(|s: String| lower_text(s@)), names@.len()),
        (forall|k: int| 0 <= k < names@.len() ==> is_ascii_text(#[trigger] names@[k]@))
            ==> r@.map_values(|i: usize| i as int) == sorted_order(names@.map_values(|s: String| ascii_lower(s@)), names@.len()),
{
    let mut keys: Vec<Vec<char>> = Vec::new();
    let mut t: usize = 0;
    while t < names.len()
        invariant
            t <= names@.len(),
            keys@.len() == t,
            forall|k: int| 0 <= k < t ==> (#[trigger] keys@[k])@ == lower_text(names@[k]@),
        decreases names@.len() - t,
    {
        let l = lowercase(names[t].as_str());
        keys.push(str_chars(l.as_str()));
        t = t + 1;
    }
    let ghost kv = names@.map_values(|s: String| lower_text(s@));
    proof {
        assert(keys@.map_values(|v: Vec<char>| v@) =~= kv);
        if forall|k: int| 0 <= k < names@.len() ==> is_ascii_text(#[trigger] names@[k]@) {
            assert(kv =~= names@.map_values(|s: String| ascii_lower(s@)));
        }
    }
    sort_keys(&keys)
}

/// The order of the texts themselves, compared char by char (the order of
/// `String`), equal texts in their original order. Returns the indices of
/// `texts`.
pub fn order_by_text(texts: &Vec<String>) -> (r: Vec<usize>)
    ensures
        r@.map_values(|i: usize| i as int) == sorted_order(texts@.map_values(|s: String| s@), texts@.len()),
{
    let mut keys: Vec<Vec<char>> = Vec::new();
    let mut t: usize = 0;
    while t < texts.len()
        invariant
            t <= texts@.len(),
            keys@.len() == t,
            forall|k: int| 0 <= k < t ==> (#[trigger] keys@[k])@ == texts@[k]@,
        decreases texts@.len() - t,
    {
        keys.push(str_chars(texts[t].as_str()));
        t = t + 1;
    }
    proof {
        assert(keys@.map_values(|v: Vec<char>| v@) =~= texts@.map_values(|s: String| s@));
    }
    sort_keys(&keys)
}

/// Insertion of each index after every key that does not come after its own.
fn sort_keys(keys: &Vec<Vec<char>>) -> (r: Vec<usize>)
    ensures
        r@.map_values(|i: usize| i as int) == sorted_order(keys@.map_values(|v: Vec<char>| v@), keys@.len()),
{
    let ghost kv = keys@.map_values(|v: Vec<char>| v@);
    let mut order: Vec<usize> = Vec::new();
    let mut i: usize = 0;
    while i < keys.len()
        invariant
            i <= keys@.len(),
            kv == keys@.map_values(|v: Vec<char>| v@),
            order@.map_values(|x: usize| x as int) == sorted_order(kv, i as nat),
            forall|k: int| 0 <= k < order@.len() ==> #[trigger] order@[k] < i,
        decreases keys@.len() - i,
    {
        let ghost o = order@.map_values(|x: usize| x as int);
        let mut p: usize = 0;
        proof {
            assert(o.subrange(0, o.len() as int) =~= o);
        }
        while p < order.len() && lex_le_exec(&keys[order[p]], &keys[i])
            invariant
                p <= order@.len(),
                i < keys@.len(),
                kv == keys@.map_values(|v: Vec<char>| v@),
                forall|k: int| 0 <= k < order@.len() ==> #[trigger] order@[k] < i,
                o == order@.map_values(|x: usize| x as int),
                insert_pos(kv, o, kv[i as int]) == p + insert_pos(kv, o.subrange(p as int, o.len() as int), kv[i as int]),
            decreases order@.len() - p,
        {
            proof {
                let rest = o.subrange(p as int, o.len() as int);
                assert(rest.drop_first() =~= o.subrange(p as int + 1, o.len() as int));
                assert(rest[0] == order@[p as int] as int);
            }
            p = p + 1;
        }
        proof {
            let rest = o.subrange(p as int, o.len() as int);
            if p < order.len() {
                assert(rest[0] == order@[p as int] as int);
            }
            assert(insert_pos(kv, rest, kv[i as int]) == 0);
        }
        order.insert(p, i);
        proof {
            assert(order@.map_values(|x: usize| x as int) =~= o.insert(p as int, i as int));
        }
        i = i + 1;
    }
    order
}

fn lex_le_exec(a: &Vec<char>, b: &Vec<char>) -> (r: bool)
    ensures
        r == lex_le(a@, b@),
{
    let mut i: usize = 0;
    proof {
        assert(a@.subrange(0, a@.len() as int) =~= a@);
        assert(b@.subrange(0, b@.len() as int) =~= b@);
    }
    while i < a.len() && i < b.len() && a[i] == b[i]
        invariant
            i <= a@.len(),
            i <= b@.len(),
            lex_le(a@, b@) == lex_le(a@.subrange(i as int, a@.len() as int), b@.subrange(i as int, b@.len() as int)),
        decreases a@.len() - i,
    {
        proof {
            assert(a@.subrange(i as int, a@.len() as int).drop_first() =~= a@.subrange(i as int + 1, a@.len() as int));
            assert(b@.subrange(i as int, b@.len() as int).drop_first() =~= b@.subrange(i as int + 1, b@.len() as int));
        }
        i = i + 1;
    }
    if i == a.len() {
        true
    } else if i == b.len() {
        false
    } else {
        a[i] < b[i]
    }
}

/// Where a new index with number `k` goes in `order`: before the first entry
/// whose number is greater, or at the end.
pub open spec fn num_insert_pos(keys: Seq<int>, order: Seq<int>, k: int) -> int
    decreases order.len(),
{
    if order.len() == 0 {
        0
    } else if keys[order[0]] > k {
        0
    } else {
        1 + num_insert_pos(keys, order.drop_first(), k)
    }
}

/// The first `n` indices ordered by number, equal numbers in index order.
pub open spec fn num_sorted_order(keys: Seq<int>, n: nat) -> Seq<int>
    decreases n,
{
    if n == 0 {
        Seq::empty()
    } else {
        let o = num_sorted_order(keys, (n - 1) as nat);
        o.insert(num_insert_pos(keys, o, keys[n - 1]), n - 1)
    }
}

/// The numbers of `order` do not decrease, and equal numbers keep their
/// index order.
pub open spec fn num_ordered(keys: Seq<int>, order: Seq<int>) -> bool {
    forall|i: int, j: int| 0 <= i < j < order.len() ==> {
        ||| keys[order[i]] < keys[order[j]]
        ||| (keys[order[i]] == keys[order[j]] && order[i] < order[j])
    }
}

proof fn lemma_num_insert_pos_bounds(keys: Seq<int>, order: Seq<int>, k: int)
    ensures
        0 <= num_insert_pos(keys, order, k) <= order.len(),
        forall|i: int| 0 <= i < num_insert_pos(keys, order, k) ==> keys[#[trigger] order[i]] <= k,
        num_insert_pos(keys, order, k) < order.len() ==> keys[order[num_insert_pos(keys, order, k)]] > k,
    decreases order.len(),
{
    if order.len() > 0 && keys[order[0]] <= k {
        let rest = order.drop_first();
        lemma_num_insert_pos_bounds(keys, rest, k);
        assert forall|i: int| 0 <= i < num_insert_pos(keys, order, k) implies keys[#[trigger] order[i]] <= k by {
            if i > 0 {
                assert(order[i] == rest[i - 1]);
            }
        }
    }
}

/// Insertion order is a permutation of the indices, ordered by number, and
/// stable: equal numbers keep their index order.
pub proof fn lemma_num_sorted_order(keys: Seq<int>, n: nat)
    requires
        n <= keys.len(),
    ensures
        permutes(num_sorted_order(keys, n), n),
        num_ordered(keys, num_sorted_order(keys, n)),
    decreases n,
{
    if n > 0 {
        let m = (n - 1) as nat;
        lemma_num_sorted_order(keys, m);
        let o = num_sorted_order(keys, m);
        let k = keys[n - 1];
        let p = num_insert_pos(keys, o, k);
        lemma_num_insert_pos_bounds(keys, o, k);
        let o2 = o.insert(p, n - 1);
        assert forall|i: int| 0 <= i < n implies 0 <= #[trigger] o2[i] < n by {
            if i < p {
                assert(o2[i] == o[i]);
            } else if i > p {
                assert(o2[i] == o[i - 1]);
            }
        }
        assert forall|i: int, j: int| 0 <= i < j < n implies o2[i] != o2[j] by {
            if i < p && j < p {
                assert(o2[i] == o[i] && o2[j] == o[j]);
            } else if i < p && j == p {
                assert(o2[i] == o[i]);
            } else if i < p && j > p {
                assert(o2[i] == o[i] && o2[j] == o[j - 1]);
            } else if i == p {
                assert(o2[j] == o[j - 1]);
            } else {
                assert(o2[i] == o[i - 1] && o2[j] == o[j - 1]);
            }
        }
        assert forall|i: int, j: int| 0 <= i < j < o2.len() implies {
            ||| keys[o2[i]] < keys[o2[j]]
            ||| (keys[o2[i]] == keys[o2[j]] && o2[i] < o2[j])
        } by {
            if i < p && j < p {
                assert(o2[i] == o[i] && o2[j] == o[j]);
            } else if i < p && j == p {
                assert(o2[i] == o[i]);
            } else if i < p && j > p {
                assert(o2[i] == o[i] && o2[j] == o[j - 1]);
            } else if i == p {
                assert(o2[j] == o[j - 1]);
            } else {
                assert(o2[i] == o[i - 1] && o2[j] == o[j - 1]);
            }
        }
    }
}

/// The order of the numbers, smallest first, equal numbers in their original
/// order (a stable sort). Returns the indices of `keys`.
pub fn order_by_number(keys: &Vec<u64>) -> (r: Vec<usize>)
    ensures
        r@.map_values(|i: usize| i as int) == num_sorted_order(keys@.map_values(|x: u64| x as int), keys@.len()),
{
    let ghost kv = keys@.map_values(|x: u64| x as int);
    let mut order: Vec<usize> = Vec::new();
    let mut i: usize = 0;
    while i < keys.len()
        invariant
            i <= keys@.len(),
            kv == keys@.map_values(|x: u64| x as int),
            order@.map_values(|x: usize| x as int) == num_sorted_order(kv, i as nat),
            forall|k: int| 0 <= k < order@.len() ==> #[trigger] order@[k] < i,
        decreases keys@.len() - i,
    {
        let ghost o = order@.map_values(|x: usize| x as int);
        let mut p: usize = 0;
        proof {
            assert(o.subrange(0, o.len() as int) =~= o);
        }
        while p < order.len() && keys[order[p]] <= keys[i]
            invariant
                p <= order@.len(),
                i < keys@.len(),
                kv == keys@.map_values(|x: u64| x as int),
                forall|k: int| 0 <= k < order@.len() ==> #[trigger] order@[k] < i,
                o == order@.map_values(|x: usize| x as int),
                num_insert_pos(kv, o, kv[i as int]) == p + num_insert_pos(kv, o.subrange(p as int, o.len() as int), kv[i as int]),
            decreases order@.len() - p,
        {
            proof {
                let rest = o.subrange(p as int, o.len() as int);
                assert(rest.drop_first() =~= o.subrange(p as int + 1, o.len() as int));
                assert(rest[0] == order@[p as int] as int);
            }
            p = p + 1;
        }
        proof {
            let rest = o.subrange(p as int, o.len() as int);
            if p < order.len() {
                assert(rest[0] == order@[p as int] as int);
            }
            assert(num_insert_pos(kv, rest, kv[i as int]) == 0);
        }
        order.insert(p, i);
        proof {
            assert(order@.map_values(|x: usize| x as int) =~= o.insert(p as int, i as int));
        }
        i = i + 1;
    }
    order
}

/// The indices in the opposite order.
pub fn reversed(order: Vec<usize>) -> (r: Vec<usize>)
    ensures
        r@ == order@.reverse(),
{
    let mut out: Vec<usize> = Vec::new();
    let n = order.len();
    let mut i: usize = n;
    while i > 0
        invariant
            n == order@.len(),
            i <= n,
            out@.len() == n - i,
            forall|k: int| 0 <= k < n - i ==> #[trigger] out@[k] == order@[n - 1 - k],
        decreases i,
    {
        i = i - 1;
        out.push(order[i]);
    }
    proof {
        assert(out@ =~= order@.reverse());
    }
    out
}

} // verus!
