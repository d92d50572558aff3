//! Clipboard history: the newest item on top, re-copying moves an item up
//! without duplicating it, pinned items never expire and survive "clear".
use vstd::prelude::*;
use crate::text::{hits, passes_search, needle, needle_of};

verus! {

/// Loose (unpinned) items kept at most; pinned items do not count.
pub const MAX_ITEMS: usize = 500;

#[derive(Clone)]
pub struct ClipItem {
    pub text: String,
    pub pinned: bool,
}

/// An item as text and pin flag.
pub type ItemV = (Seq<char>, bool);

pub open spec fn item_v(it: ClipItem) -> ItemV {
    (it.text@, it.pinned)
}

/// The history as texts and pin flags.
pub open spec fn items_v(s: Seq<ClipItem>) -> Seq<ItemV>
    decreases s.len(),
{
    if s.len() == 0 {
        Seq::empty()
    } else {
        items_v(s.drop_last()).push(item_v(s.last()))
    }
}

/// Number of loose items.
pub open spec fn loose_count(s: Seq<ItemV>) -> nat
    decreases s.len(),
{
    if s.len() == 0 {
        0
    } else {
        loose_count(s.drop_last()) + if s.last().1 { 0nat } else { 1nat }
    }
}

/// The items whose text is not `t`, in order.
pub open spec fn without_text(s: Seq<ItemV>, t: Seq<char>) -> Seq<ItemV>
    decreases s.len(),
{
    if s.len() == 0 {
        Seq::empty()
    } else if s.last().0 == t {
        without_text(s.drop_last(), t)
    } else {
        without_text(s.drop_last(), t).push(s.last())
    }
}

/// The pinned items, in order.
pub open spec fn pinned_only(s: Seq<ItemV>) -> Seq<ItemV>
    decreases s.len(),
{
    if s.len() == 0 {
        Seq::empty()
    } else if s.last().1 {
        pinned_only(s.drop_last()).push(s.last())
    } else {
        pinned_only(s.drop_last())
    }
}

/// Keeps every pinned item and the first `cap` loose ones (the newest, since
/// the history runs newest first); later loose items are dropped.
pub open spec fn cap_loose(s: Seq<ItemV>, cap: nat) -> Seq<ItemV>
    decreases s.len(),
{
    if s.len() == 0 {
        Seq::empty()
    } else {
        let r = cap_loose(s.drop_last(), cap);
        if s.last().1 || loose_count(r) < cap {
            r.push(s.last())
        } else {
            r
        }
    }
}

/// Whether some item with text `t` is pinned.
pub open spec fn was_pinned(s: Seq<ItemV>, t: Seq<char>) -> bool {
    exists|i: int| 0 <= i < s.len() && s[i].0 == t && #[trigger] s[i].1
}

/// The history after copying `t`: `t` on top (keeping its pin if it was
/// pinned), the older copies of `t` gone, then the cap on loose items.
pub open spec fn insert_spec(s: Seq<ItemV>, t: Seq<char>) -> Seq<ItemV> {
    cap_loose(seq![(t, was_pinned(s, t))] + without_text(s, t), MAX_ITEMS as nat)
}

/// No text occurs twice.
pub open spec fn distinct_texts(s: Seq<ItemV>) -> bool {
    forall|i: int, j: int| 0 <= i < j < s.len() ==> #[trigger] s[i].0 != #[trigger] s[j].0
}

proof fn lemma_items_v_len(s: Seq<ClipItem>)
    ensures
        items_v(s).len() == s.len(),
        forall|i: int| 0 <= i < s.len() ==> #[trigger] items_v(s)[i] == item_v(s[i]),
    decreases s.len(),
{
    if s.len() > 0 {
        lemma_items_v_len(s.drop_last());
    }
}

/// Copies `text` into the history: it goes on top, the older copy leaves (its
/// pin is kept), and past `MAX_ITEMS` loose items the oldest loose ones go.
pub fn insert(items: &mut Vec<ClipItem>, text: String)
    ensures
        items_v(final(items)@) == insert_spec(items_v(old(items)@), text@),
{
    let ghost s = items_v(items@);
    proof {
        lemma_items_v_len(items@);
    }
    let n = items.len();
    let mut pinned = false;
    let mut i: usize = 0;
    while i < n
        invariant
            n == items@.len(),
            s == items_v(items@),
            s.len() == n,
            forall|j: int| 0 <= j < n ==> #[trigger] s[j] == item_v(items@[j]),
            i <= n,
            pinned == exists|j: int| 0 <= j < i && s[j].0 == text@ && #[trigger] s[j].1,
        decreases n - i,
    {
        proof {
            assert(s[i as int] == item_v(items@[i as int]));
        }
        let same = items[i].pinned && items[i].text == text;
        proof {
            assert(same == (s[i as int].0 == text@ && s[i as int].1));
        }
        if same {
            pinned = true;
        }
        i = i + 1;
        proof {
            if !same {
                assert forall|j: int| 0 <= j < i && s[j].0 == text@ && #[trigger] s[j].1 implies j < i - 1 by {}
            }
        }
    }
    assert(pinned == was_pinned(s, text@));
    let ghost head = seq![(text@, pinned)];
    let mut out: Vec<ClipItem> = Vec::new();
    out.push(ClipItem { text: text.clone(), pinned });
    let mut loose: usize = if pinned { 0 } else { 1 };
    proof {
        assert(out@.drop_last() =~= Seq::<ClipItem>::empty());
        reveal_with_fuel(items_v, 2);
        assert(items_v(out@) =~= seq![(text@, pinned)]);
        assert(head + without_text(s.take(0), text@) =~= head);
        reveal_with_fuel(cap_loose, 2);
        reveal_with_fuel(loose_count, 2);
        assert(head.drop_last() =~= Seq::<ItemV>::empty());
        assert(cap_loose(head, MAX_ITEMS as nat) =~= head);
    }
    i = 0;
    while i < n
        invariant
            n == items@.len(),
            s == items_v(items@),
            s.len() == n,
            forall|j: int| 0 <= j < n ==> #[trigger] s[j] == item_v(items@[j]),
            i <= n,
            items_v(out@) == cap_loose(head + without_text(s.take(i as int), text@), MAX_ITEMS as nat),
            loose as nat == loose_count(items_v(out@)),
            loose <= MAX_ITEMS,
            head == seq![(text@, pinned)],
        decreases n - i,
    {
        let ghost before = head + without_text(s.take(i as int), text@);
        proof {
            assert(s.take(i + 1).drop_last() =~= s.take(i as int));
            assert(s.take(i + 1).last() == s[i as int]);
            assert(s[i as int] == item_v(items@[i as int]));
        }
        if items[i].text != text {
            let ghost after = before.push(s[i as int]);
            proof {
                assert(without_text(s.take(i + 1), text@) == without_text(s.take(i as int), text@).push(s[i as int]));
                assert(head + without_text(s.take(i + 1), text@) =~= after);
                assert(after.drop_last() =~= before);
            }
            if items[i].pinned || loose < MAX_ITEMS {
                let it = ClipItem { text: items[i].text.clone(), pinned: items[i].pinned };
                let ghost prev = out@;
                out.push(it);
                if !items[i].pinned {
                    loose = loose + 1;
                }
                proof {
                    assert(out@.drop_last() =~= prev);
                    assert(items_v(out@) == items_v(prev).push(s[i as int]));
                    assert(items_v(out@).drop_last() =~= items_v(prev));
                }
            }
        } else {
            proof {
                assert(without_text(s.take(i + 1), text@) == without_text(s.take(i as int), text@));
            }
        }
        i = i + 1;
    }
    proof {
        assert(s.take(n as int) =~= s);
    }
    *items = out;
}

/// "Clear all" keeps the pinned items.
pub fn clear_unpinned(items: &mut Vec<ClipItem>)
    ensures
        items_v(final(items)@) == pinned_only(items_v(old(items)@)),
{
    let ghost s = items_v(items@);
    proof {
        lemma_items_v_len(items@);
    }
    let n = items.len();
    let mut out: Vec<ClipItem> = Vec::new();
    let mut i: usize = 0;
    while i < n
        invariant
            n == items@.len(),
            s == items_v(items@),
            s.len() == n,
            forall|j: int| 0 <= j < n ==> #[trigger] s[j] == item_v(items@[j]),
            i <= n,
            items_v(out@) == pinned_only(s.take(i as int)),
        decreases n - i,
    {
        proof {
            assert(s.take(i + 1).drop_last() =~= s.take(i as int));
            assert(s[i as int] == item_v(items@[i as int]));
        }
        if items[i].pinned {
            let ghost prev = out@;
            out.push(ClipItem { text: items[i].text.clone(), pinned: true });
            proof {
                assert(out@.drop_last() =~= prev);
            }
        }
        i = i + 1;
    }
    proof {
        assert(s.take(n as int) =~= s);
    }
    *items = out;
}


/// Pins or unpins the item at `i` and moves it to the top, as a favourite.
pub fn toggle_pin(items: &mut Vec<ClipItem>, i: usize)
    requires
        i < old(items)@.len(),
    ensures
        items_v(final(items)@) == seq![(items_v(old(items)@)[i as int].0, !items_v(old(items)@)[i as int].1)]
            + items_v(old(items)@).remove(i as int),
{
    let ghost s = items_v(items@);
    proof {
        lemma_items_v_len(items@);
    }
    let mut it = items.remove(i);
    it.pinned = !it.pinned;
    items.insert(0, it);
    proof {
        lemma_items_v_len(items@);
        let r = seq![(s[i as int].0, !s[i as int].1)] + s.remove(i as int);
        assert forall|j: int| 0 <= j < r.len() implies #[trigger] items_v(items@)[j] == r[j] by {
            if j > 0 {
                if j - 1 < i {
                    assert(items@[j] == old(items)@[j - 1]);
                } else {
                    assert(items@[j] == old(items)@[j]);
                }
            }
        }
        assert(items_v(items@) =~= r);
    }
}

// ---------------------------------------------------------------------------
// Laws of the history
// ---------------------------------------------------------------------------

proof fn lemma_loose_count_push(s: Seq<ItemV>, x: ItemV)
    ensures
        loose_count(s.push(x)) == loose_count(s) + if x.1 { 0nat } else { 1nat },
{
    assert(s.push(x).drop_last() =~= s);
}

proof fn lemma_cap_facts(s: Seq<ItemV>, c: nat)
    ensures
        loose_count(cap_loose(s, c)) <= c || loose_count(cap_loose(s, c)) == 0,
        loose_count(cap_loose(s, c)) <= c,
        forall|i: int| 0 <= i < cap_loose(s, c).len() ==> s.contains(#[trigger] cap_loose(s, c)[i]),
        forall|i: int| 0 <= i < s.len() && s[i].1 ==> cap_loose(s, c).contains(#[trigger] s[i]),
        cap_loose(s, c).len() <= s.len(),
    decreases s.len(),
{
    if s.len() > 0 {
        let p = s.drop_last();
        let x = s.last();
        let r = cap_loose(p, c);
        lemma_cap_facts(p, c);
        if x.1 || loose_count(r) < c {
            lemma_loose_count_push(r, x);
            assert forall|i: int| 0 <= i < cap_loose(s, c).len() implies s.contains(#[trigger] cap_loose(s, c)[i]) by {
                if i < r.len() {
                    let j = choose|j: int| 0 <= j < p.len() && p[j] == r[i];
                    assert(s[j] == p[j]);
                } else {
                    assert(s[s.len() - 1] == x);
                }
            }
            assert forall|i: int| 0 <= i < s.len() && s[i].1 implies cap_loose(s, c).contains(#[trigger] s[i]) by {
                if i < p.len() {
                    assert(p[i] == s[i]);
                    let j = choose|j: int| 0 <= j < r.len() && r[j] == p[i];
                    assert(cap_loose(s, c)[j] == r[j]);
                } else {
                    assert(cap_loose(s, c)[r.len() as int] == x);
                }
            }
        } else {
            assert forall|i: int| 0 <= i < cap_loose(s, c).len() implies s.contains(#[trigger] cap_loose(s, c)[i]) by {
                let j = choose|j: int| 0 <= j < p.len() && p[j] == r[i];
                assert(s[j] == p[j]);
            }
            assert forall|i: int| 0 <= i < s.len() && s[i].1 implies cap_loose(s, c).contains(#[trigger] s[i]) by {
                if i < p.len() {
                    assert(p[i] == s[i]);
                }
            }
        }
    }
}

proof fn lemma_cap_first(s: Seq<ItemV>, c: nat)
    requires
        s.len() >= 1,
        s[0].1 || c >= 1,
    ensures
        cap_loose(s, c).len() >= 1,
        cap_loose(s, c)[0] == s[0],
    decreases s.len(),
{
    let p = s.drop_last();
    let r = cap_loose(p, c);
    if s.len() == 1 {
        assert(p =~= Seq::<ItemV>::empty());
        assert(r == Seq::<ItemV>::empty());
        assert(loose_count(r) == 0);
        assert(cap_loose(s, c) == r.push(s.last()));
    } else {
        lemma_cap_first(p, c);
        assert(p[0] == s[0]);
        if s.last().1 || loose_count(r) < c {
            assert(r.push(s.last())[0] == r[0]);
        }
    }
}

proof fn lemma_cap_identity(s: Seq<ItemV>, c: nat)
    requires
        loose_count(s) <= c,
    ensures
        cap_loose(s, c) == s,
    decreases s.len(),
{
    if s.len() > 0 {
        lemma_cap_identity(s.drop_last(), c);
        assert(s.drop_last().push(s.last()) =~= s);
    }
}

proof fn lemma_cap_distinct(s: Seq<ItemV>, c: nat)
    requires
        distinct_texts(s),
    ensures
        distinct_texts(cap_loose(s, c)),
    decreases s.len(),
{
    if s.len() > 0 {
        let p = s.drop_last();
        let x = s.last();
        let r = cap_loose(p, c);
        assert(distinct_texts(p)) by {
            assert forall|i: int, j: int| 0 <= i < j < p.len() implies #[trigger] p[i].0 != #[trigger] p[j].0 by {
                assert(p[i] == s[i] && p[j] == s[j]);
            }
        }
        lemma_cap_distinct(p, c);
        lemma_cap_facts(p, c);
        if x.1 || loose_count(r) < c {
            let q = r.push(x);
            assert forall|i: int, j: int| 0 <= i < j < q.len() implies #[trigger] q[i].0 != #[trigger] q[j].0 by {
                if j == r.len() {
                    let k = choose|k: int| 0 <= k < p.len() && p[k] == r[i];
                    assert(s[k] == p[k]);
                    assert(s[s.len() - 1] == x);
                } else {
                    assert(q[i] == r[i] && q[j] == r[j]);
                }
            }
        }
    }
}

proof fn lemma_without_facts(s: Seq<ItemV>, t: Seq<char>)
    ensures
        forall|i: int| 0 <= i < without_text(s, t).len() ==> (#[trigger] without_text(s, t)[i]).0 != t,
        forall|i: int| 0 <= i < without_text(s, t).len() ==> s.contains(#[trigger] without_text(s, t)[i]),
        forall|i: int| 0 <= i < s.len() && s[i].0 != t ==> without_text(s, t).contains(#[trigger] s[i]),
        distinct_texts(s) ==> distinct_texts(without_text(s, t)),
        loose_count(without_text(s, t)) <= loose_count(s),
    decreases s.len(),
{
    if s.len() > 0 {
        let p = s.drop_last();
        let x = s.last();
        let w = without_text(p, t);
        lemma_without_facts(p, t);
        if distinct_texts(s) {
            assert forall|i: int, j: int| 0 <= i < j < p.len() implies #[trigger] p[i].0 != #[trigger] p[j].0 by {
                assert(p[i] == s[i] && p[j] == s[j]);
            }
        }
        if x.0 == t {
            assert forall|i: int| 0 <= i < without_text(s, t).len() implies s.contains(#[trigger] without_text(s, t)[i]) by {
                let j = choose|j: int| 0 <= j < p.len() && p[j] == w[i];
                assert(s[j] == p[j]);
            }
            assert forall|i: int| 0 <= i < s.len() && s[i].0 != t implies without_text(s, t).contains(#[trigger] s[i]) by {
                assert(p[i] == s[i]);
            }
        } else {
            let q = w.push(x);
            lemma_loose_count_push(w, x);
            assert forall|i: int| 0 <= i < q.len() implies s.contains(#[trigger] q[i]) by {
                if i < w.len() {
                    let j = choose|j: int| 0 <= j < p.len() && p[j] == w[i];
                    assert(s[j] == p[j]);
                } else {
                    assert(s[s.len() - 1] == x);
                }
            }
            assert forall|i: int| 0 <= i < s.len() && s[i].0 != t implies q.contains(#[trigger] s[i]) by {
                if i < p.len() {
                    assert(p[i] == s[i]);
                    let j = choose|j: int| 0 <= j < w.len() && w[j] == p[i];
                    assert(q[j] == w[j]);
                } else {
                    assert(q[w.len() as int] == x);
                }
            }
            if distinct_texts(s) {
                assert forall|i: int, j: int| 0 <= i < j < q.len() implies #[trigger] q[i].0 != #[trigger] q[j].0 by {
                    if j == w.len() {
                        let k = choose|k: int| 0 <= k < p.len() && p[k] == w[i];
                        assert(s[k] == p[k]);
                        assert(s[s.len() - 1] == x);
                    } else {
                        assert(q[i] == w[i] && q[j] == w[j]);
                    }
                }
            }
        }
    }
}

/// Copying `t` puts it on top, pinned exactly when some copy of it was pinned.
pub proof fn lemma_insert_on_top(s: Seq<ItemV>, t: Seq<char>)
    ensures
        insert_spec(s, t).len() >= 1,
        insert_spec(s, t)[0] == (t, was_pinned(s, t)),
{
    let h = seq![(t, was_pinned(s, t))] + without_text(s, t);
    assert(h[0] == (t, was_pinned(s, t)));
    lemma_cap_first(h, MAX_ITEMS as nat);
}

/// A history without repeated texts keeps none after a copy: the copied text
/// is on top and nowhere else (re-copying moves an item up, never duplicates it).
pub proof fn lemma_insert_no_duplicates(s: Seq<ItemV>, t: Seq<char>)
    requires
        distinct_texts(s),
    ensures
        distinct_texts(insert_spec(s, t)),
        forall|i: int| 1 <= i < insert_spec(s, t).len() ==> (#[trigger] insert_spec(s, t)[i]).0 != t,
{
    let w = without_text(s, t);
    let h = seq![(t, was_pinned(s, t))] + w;
    lemma_without_facts(s, t);
    assert forall|i: int, j: int| 0 <= i < j < h.len() implies #[trigger] h[i].0 != #[trigger] h[j].0 by {
        if i == 0 {
            assert(h[j] == w[j - 1]);
        } else {
            assert(h[i] == w[i - 1] && h[j] == w[j - 1]);
        }
    }
    lemma_cap_distinct(h, MAX_ITEMS as nat);
    lemma_insert_on_top(s, t);
    let r = insert_spec(s, t);
    assert forall|i: int| 1 <= i < r.len() implies (#[trigger] r[i]).0 != t by {
        assert(r[0].0 != r[i].0);
    }
}

/// Pinned items of other texts are never dropped by a copy.
pub proof fn lemma_insert_keeps_pinned(s: Seq<ItemV>, t: Seq<char>, i: int)
    requires
        0 <= i < s.len(),
        s[i].1,
        s[i].0 != t,
    ensures
        insert_spec(s, t).contains(s[i]),
{
    let w = without_text(s, t);
    let h = seq![(t, was_pinned(s, t))] + w;
    lemma_without_facts(s, t);
    let j = choose|j: int| 0 <= j < w.len() && w[j] == s[i];
    assert(h[j + 1] == s[i]);
    lemma_cap_facts(h, MAX_ITEMS as nat);
}

/// After a copy there are at most `MAX_ITEMS` loose items, and every item
/// was in the history or is the copied one.
pub proof fn lemma_insert_cap(s: Seq<ItemV>, t: Seq<char>)
    ensures
        loose_count(insert_spec(s, t)) <= MAX_ITEMS,
        forall|i: int| 0 <= i < insert_spec(s, t).len() ==>
            s.contains(#[trigger] insert_spec(s, t)[i]) || insert_spec(s, t)[i] == (t, was_pinned(s, t)),
{
    let w = without_text(s, t);
    let h = seq![(t, was_pinned(s, t))] + w;
    lemma_without_facts(s, t);
    lemma_cap_facts(h, MAX_ITEMS as nat);
    let r = insert_spec(s, t);
    assert forall|i: int| 0 <= i < r.len() implies s.contains(#[trigger] r[i]) || r[i] == (t, was_pinned(s, t)) by {
        let j = choose|j: int| 0 <= j < h.len() && h[j] == r[i];
        if j > 0 {
            assert(h[j] == w[j - 1]);
        }
    }
}

/// While the loose items fit under the cap nothing is evicted: the history is
/// the copied item followed by the others in their order.
pub proof fn lemma_insert_under_cap(s: Seq<ItemV>, t: Seq<char>)
    requires
        loose_count(s) < MAX_ITEMS,
    ensures
        insert_spec(s, t) == seq![(t, was_pinned(s, t))] + without_text(s, t),
{
    let w = without_text(s, t);
    let hd = seq![(t, was_pinned(s, t))];
    lemma_without_facts(s, t);
    lemma_loose_count_append(hd, w);
    reveal_with_fuel(loose_count, 2);
    assert(hd.drop_last() =~= Seq::<ItemV>::empty());
    lemma_cap_identity(hd + w, MAX_ITEMS as nat);
}

proof fn lemma_loose_count_append(a: Seq<ItemV>, b: Seq<ItemV>)
    ensures
        loose_count(a + b) == loose_count(a) + loose_count(b),
    decreases b.len(),
{
    if b.len() == 0 {
        assert(a + b =~= a);
    } else {
        lemma_loose_count_append(a, b.drop_last());
        assert((a + b).drop_last() =~= a + b.drop_last());
    }
}

/// "Clear" keeps exactly the pinned items.
pub proof fn lemma_clear_keeps_pinned(s: Seq<ItemV>)
    ensures
        forall|i: int| 0 <= i < pinned_only(s).len() ==> (#[trigger] pinned_only(s)[i]).1 && s.contains(pinned_only(s)[i]),
        forall|i: int| 0 <= i < s.len() && s[i].1 ==> pinned_only(s).contains(#[trigger] s[i]),
    decreases s.len(),
{
    if s.len() > 0 {
        let p = s.drop_last();
        let x = s.last();
        let r = pinned_only(p);
        lemma_clear_keeps_pinned(p);
        let q = pinned_only(s);
        assert forall|i: int| 0 <= i < q.len() implies (#[trigger] q[i]).1 && s.contains(q[i]) by {
            if i < r.len() {
                assert(q[i] == r[i]);
                let j = choose|j: int| 0 <= j < p.len() && p[j] == r[i];
                assert(s[j] == p[j]);
            } else {
                assert(s[s.len() - 1] == x);
            }
        }
        assert forall|i: int| 0 <= i < s.len() && s[i].1 implies q.contains(#[trigger] s[i]) by {
            if i < p.len() {
                assert(p[i] == s[i]);
                let j = choose|j: int| 0 <= j < r.len() && r[j] == p[i];
                assert(q[j] == r[j]);
            } else {
                assert(q[r.len() as int] == x);
            }
        }
    }
}

/// `f` places the items of `a` in `b`, in order: `a[i]` is `b[f[i]]`, and the
/// positions strictly increase.
pub open spec fn embeds(f: Seq<int>, a: Seq<ItemV>, b: Seq<ItemV>) -> bool {
    &&& f.len() == a.len()
    &&& forall|i: int| 0 <= i < f.len() ==> 0 <= #[trigger] f[i] < b.len() && a[i] == b[f[i]]
    &&& forall|i: int, j: int| 0 <= i < j < f.len() ==> #[trigger] f[i] < #[trigger] f[j]
}

/// `a` is `b` with some items left out: the items of `a` occur in `b` in the
/// same relative order.
pub open spec fn subsequence_of(a: Seq<ItemV>, b: Seq<ItemV>) -> bool {
    exists|f: Seq<int>| embeds(f, a, b)
}

/// The cap keeps a subsequence of the history, and keeps its first item at
/// the first place whenever it keeps that item.
proof fn lemma_cap_embeds(s: Seq<ItemV>, c: nat) -> (f: Seq<int>)
    ensures
        embeds(f, cap_loose(s, c), s),
        s.len() >= 1 && (s[0].1 || c >= 1) ==> f.len() >= 1 && f[0] == 0,
    decreases s.len(),
{
    if s.len() == 0 {
        Seq::empty()
    } else {
        let p = s.drop_last();
        let x = s.last();
        let r = cap_loose(p, c);
        let g = lemma_cap_embeds(p, c);
        if s.len() >= 1 && (s[0].1 || c >= 1) {
            lemma_cap_first(s, c);
            if p.len() >= 1 {
                assert(p[0] == s[0]);
            }
        }
        if x.1 || loose_count(r) < c {
            let f = g.push(p.len() as int);
            assert forall|i: int| 0 <= i < f.len() implies 0 <= #[trigger] f[i] < s.len() && cap_loose(s, c)[i] == s[f[i]] by {
                if i < g.len() {
                    assert(f[i] == g[i]);
                    assert(cap_loose(s, c)[i] == r[i]);
                    assert(s[g[i]] == p[g[i]]);
                }
            }
            assert forall|i: int, j: int| 0 <= i < j < f.len() implies #[trigger] f[i] < #[trigger] f[j] by {
                if j < g.len() {
                    assert(f[i] == g[i] && f[j] == g[j]);
                } else {
                    assert(f[i] == g[i]);
                }
            }
            if p.len() == 0 {
                assert(r == Seq::<ItemV>::empty());
                assert(g.len() == 0);
            }
            f
        } else {
            assert forall|i: int| 0 <= i < g.len() implies 0 <= #[trigger] g[i] < s.len() && cap_loose(s, c)[i] == s[g[i]] by {
                assert(s[g[i]] == p[g[i]]);
            }
            if s.len() >= 1 && (s[0].1 || c >= 1) && p.len() == 0 {
                assert(r == Seq::<ItemV>::empty());
                assert(loose_count(r) == 0);
            }
            g
        }
    }
}

/// Whatever the history held (repeated texts too), after copying `t` the
/// text `t` is on top and occurs nowhere else.
pub proof fn lemma_insert_once(s: Seq<ItemV>, t: Seq<char>)
    ensures
        insert_spec(s, t).len() >= 1,
        insert_spec(s, t)[0].0 == t,
        forall|i: int| 1 <= i < insert_spec(s, t).len() ==> (#[trigger] insert_spec(s, t)[i]).0 != t,
{
    lemma_insert_keeps_order(s, t);
    lemma_insert_on_top(s, t);
    let r = insert_spec(s, t);
    let w = without_text(s, t);
    lemma_without_facts(s, t);
    let f = choose|f: Seq<int>| embeds(f, r.drop_first(), w);
    assert forall|i: int| 1 <= i < r.len() implies (#[trigger] r[i]).0 != t by {
        assert(r[i] == r.drop_first()[i - 1]);
        assert(0 <= f[i - 1] < w.len());
    }
}

/// Below the top, a copy keeps the rest of the history in its relative order
/// and only drops items: what follows the top is a subsequence of the history
/// without `t`, and it holds every pinned item of another text (pinned items
/// never expire).
pub proof fn lemma_insert_keeps_order(s: Seq<ItemV>, t: Seq<char>)
    ensures
        insert_spec(s, t).len() >= 1,
        subsequence_of(insert_spec(s, t).drop_first(), without_text(s, t)),
        forall|i: int| 0 <= i < s.len() && s[i].1 && s[i].0 != t ==> insert_spec(s, t).drop_first().contains(#[trigger] s[i]),
{
    let w = without_text(s, t);
    let h = seq![(t, was_pinned(s, t))] + w;
    let r = insert_spec(s, t);
    lemma_insert_on_top(s, t);
    let f = lemma_cap_embeds(h, MAX_ITEMS as nat);
    let g = Seq::new((f.len() - 1) as nat, |i: int| f[i + 1] - 1);
    let d = r.drop_first();
    assert forall|i: int| 0 <= i < g.len() implies 0 <= #[trigger] g[i] < w.len() && d[i] == w[g[i]] by {
        assert(f[0] < f[i + 1]);
        assert(d[i] == r[i + 1]);
        assert(h[f[i + 1]] == w[f[i + 1] - 1]);
    }
    assert forall|i: int, j: int| 0 <= i < j < g.len() implies #[trigger] g[i] < #[trigger] g[j] by {
        assert(f[i + 1] < f[j + 1]);
    }
    assert(embeds(g, d, w));
    assert forall|i: int| 0 <= i < s.len() && s[i].1 && s[i].0 != t implies d.contains(#[trigger] s[i]) by {
        lemma_insert_keeps_pinned(s, t, i);
        let j = choose|j: int| 0 <= j < r.len() && r[j] == s[i];
        assert(j != 0);
        assert(d[j - 1] == r[j]);
    }
}

/// The positions of the items whose text passes the search box (trimmed,
/// lowercase; an empty search shows everything), in history order.
pub fn search(items: &Vec<ClipItem>, query: &str) -> (r: Vec<usize>)
    ensures
        r@.map_values(|i: usize| i as int) == hits(items@.map_values(|it: ClipItem| it.text@), needle_of(query@)),
{
    let n = needle(query);
    let ghost texts = items@.map_values(|it: ClipItem| it.text@);
    let mut out: Vec<usize> = Vec::new();
    let mut i: usize = 0;
    while i < items.len()
        invariant
            i <= items@.len(),
            texts == items@.map_values(|it: ClipItem| it.text@),
            n@ == needle_of(query@),
            out@.map_values(|k: usize| k as int) == hits(texts.subrange(0, i as int), n@),
        decreases items@.len() - i,
    {
        proof {
            assert(texts.subrange(0, i as int + 1).drop_last() =~= texts.subrange(0, i as int));
        }
        let ghost before = out@;
        if passes_search(items[i].text.as_str(), n.as_str()) {
            out.push(i);
            proof {
                assert(out@.map_values(|k: usize| k as int) =~= before.map_values(|k: usize| k as int).push(i as int));
            }
        }
        i = i + 1;
    }
    proof {
        assert(texts.subrange(0, items@.len() as int) =~= texts);
    }
    out
}

} // verus!
