//! The order of texts, and sorting by it.
use vstd::prelude::*;

use crate::text;

verus! {

/// Whether `a` comes before `b`: at the first place at which they differ its
/// character is smaller, or it is a shorter beginning of `b`.
pub open spec fn text_lt(a: Seq<char>, b: Seq<char>) -> bool
    decreases b.len(),
{
    if b.len() == 0 {
        false
    } else if a.len() == 0 {
        true
    } else if a[0] != b[0] {
        a[0] < b[0]
    } else {
        text_lt(a.drop_first(), b.drop_first())
    }
}

/// No text comes before itself.
pub proof fn lemma_lt_irreflexive(a: Seq<char>)
    ensures
        !text_lt(a, a),
    decreases a.len(),
{
    if a.len() > 0 {
        lemma_lt_irreflexive(a.drop_first());
    }
}

/// The order is transitive.
pub proof fn lemma_lt_transitive(a: Seq<char>, b: Seq<char>, c: Seq<char>)
    requires
        text_lt(a, b),
        text_lt(b, c),
    ensures
        text_lt(a, c),
    decreases b.len(),
{
    if a.len() > 0 && a[0] == b[0] && b[0] == c[0] {
        lemma_lt_transitive(a.drop_first(), b.drop_first(), c.drop_first());
    }
}

/// Of two different texts one comes before the other, and only one.
pub proof fn lemma_lt_total(a: Seq<char>, b: Seq<char>)
    ensures
        a != b ==> text_lt(a, b) || text_lt(b, a),
        !(text_lt(a, b) && text_lt(b, a)),
    decreases a.len(),
{
    if a.len() > 0 && b.len() > 0 {
        if a[0] == b[0] {
            lemma_lt_total(a.drop_first(), b.drop_first());
            if a.drop_first() == b.drop_first() {
                assert(a == seq![a[0]] + a.drop_first());
                assert(b == seq![b[0]] + b.drop_first());
            }
        }
    } else if a.len() == 0 && b.len() == 0 {
        assert(a == b);
    }
}

/// Tells whether `a` comes before `b`.
pub fn comes_before(a: &Vec<char>, b: &Vec<char>) -> (res: bool)
    ensures
        res == text_lt(a@, b@),
{
    let mut i: usize = 0;
    assert(a@.skip(0) == a@);
    assert(b@.skip(0) == b@);
    loop
        invariant
            i <= a@.len(),
            i <= b@.len(),
            text_lt(a@, b@) == text_lt(a@.skip(i as int), b@.skip(i as int)),
        decreases a@.len() - i,
    {
        if i == b.len() {
            return false;
        }
        if i == a.len() {
            return true;
        }
        assert(a@.skip(i as int)[0] == a@[i as int]);
        assert(b@.skip(i as int)[0] == b@[i as int]);
        if a[i] != b[i] {
            return a[i] < b[i];
        }
        assert(a@.skip(i as int).drop_first() == a@.skip(i + 1));
        assert(b@.skip(i as int).drop_first() == b@.skip(i + 1));
        i += 1;
    }
}

/// The keys as sequences.
pub open spec fn key_views(keys: Seq<Vec<char>>) -> Seq<Seq<char>> {
    keys.map_values(|k: Vec<char>| k@)
}

/// Whether the item `a` is ranked before the item `b`: by its key, and among
/// equal keys by its place.
pub open spec fn ranks_before(keys: Seq<Seq<char>>, descending: bool, a: int, b: int) -> bool {
    if keys[a] == keys[b] {
        a < b
    } else if descending {
        text_lt(keys[b], keys[a])
    } else {
        text_lt(keys[a], keys[b])
    }
}

/// Whether `order` lists items in rank order.
pub open spec fn ranked(keys: Seq<Seq<char>>, descending: bool, order: Seq<int>) -> bool {
    forall|i: int, j: int|
        0 <= i < j < order.len() ==> ranks_before(
            keys,
            descending,
            #[trigger] order[i],
            #[trigger] order[j],
        )
}

/// Whether `order` lists the items from `lo` up to `hi`, each once.
pub open spec fn lists_range(order: Seq<int>, lo: int, hi: int) -> bool {
    &&& order.len() == hi - lo
    &&& forall|i: int| 0 <= i < order.len() ==> lo <= #[trigger] order[i] < hi
    &&& forall|v: int| lo <= v < hi ==> #[trigger] order.contains(v)
}

/// Whether `order` is the ranking of the items: all of them, in rank order.
/// There is one such order, in which equal keys keep their places.
pub open spec fn is_ranking(keys: Seq<Seq<char>>, descending: bool, order: Seq<int>) -> bool {
    lists_range(order, 0, keys.len() as int) && ranked(keys, descending, order)
}

/// The ranking of the items.
pub open spec fn ranking(keys: Seq<Seq<char>>, descending: bool) -> Seq<int> {
    choose|order: Seq<int>| is_ranking(keys, descending, order)
}

pub open spec fn indexes(order: Seq<usize>) -> Seq<int> {
    order.map_values(|i: usize| i as int)
}

proof fn lemma_ranks_transitive(
    keys: Seq<Seq<char>>,
    descending: bool,
    a: int,
    b: int,
    c: int,
)
    requires
        ranks_before(keys, descending, a, b),
        ranks_before(keys, descending, b, c),
    ensures
        ranks_before(keys, descending, a, c),
{
    lemma_lt_irreflexive(keys[a]);
    lemma_lt_irreflexive(keys[b]);
    lemma_lt_total(keys[a], keys[b]);
    if keys[a] != keys[b] && keys[b] != keys[c] {
        if descending {
            lemma_lt_transitive(keys[c], keys[b], keys[a]);
        } else {
            lemma_lt_transitive(keys[a], keys[b], keys[c]);
        }
    }
}

fn rank_first(keys: &Vec<Vec<char>>, descending: bool, a: usize, b: usize) -> (res: bool)
    requires
        a < keys@.len(),
        b < keys@.len(),
        a != b,
    ensures
        res == ranks_before(key_views(keys@), descending, a as int, b as int),
        !res ==> ranks_before(key_views(keys@), descending, b as int, a as int),
{
    proof {
        lemma_lt_total(keys@[a as int]@, keys@[b as int]@);
        lemma_lt_irreflexive(keys@[a as int]@);
    }
    assert(key_views(keys@)[a as int] == keys@[a as int]@);
    assert(key_views(keys@)[b as int] == keys@[b as int]@);
    if descending {
        if comes_before(&keys[b], &keys[a]) {
            return true;
        }
        if comes_before(&keys[a], &keys[b]) {
            return false;
        }
    } else {
        if comes_before(&keys[a], &keys[b]) {
            return true;
        }
        if comes_before(&keys[b], &keys[a]) {
            return false;
        }
    }
    a < b
}

spec fn holds(list: Seq<usize>, v: int) -> bool {
    exists|m: int| 0 <= m < list.len() && #[trigger] list[m] == v
}

fn merge_ranked(
    keys: &Vec<Vec<char>>,
    descending: bool,
    left: &Vec<usize>,
    right: &Vec<usize>,
    range: Ghost<(int, int, int)>,
) -> (res: Vec<usize>)
    requires
        0 <= range@.0 <= range@.1 <= range@.2 <= keys@.len(),
        lists_range(indexes(left@), range@.0, range@.1),
        lists_range(indexes(right@), range@.1, range@.2),
        ranked(key_views(keys@), descending, indexes(left@)),
        ranked(key_views(keys@), descending, indexes(right@)),
    ensures
        lists_range(indexes(res@), range@.0, range@.2),
        ranked(key_views(keys@), descending, indexes(res@)),
{
    let ghost lo = range@.0;
    let ghost mid = range@.1;
    let ghost hi = range@.2;
    let ghost views = key_views(keys@);
    let ghost l = indexes(left@);
    let ghost r = indexes(right@);
    let mut res: Vec<usize> = Vec::new();
    let mut i: usize = 0;
    let mut j: usize = 0;
    while i < left.len() || j < right.len()
        invariant
            0 <= lo <= mid <= hi <= keys@.len(),
            views == key_views(keys@),
            l == indexes(left@),
            r == indexes(right@),
            l.len() == left@.len(),
            r.len() == right@.len(),
            lists_range(l, lo, mid),
            lists_range(r, mid, hi),
            ranked(views, descending, l),
            ranked(views, descending, r),
            i <= l.len(),
            j <= r.len(),
            res@.len() == i + j,
            forall|k: int| 0 <= k < res@.len() ==> lo <= #[trigger] res@[k] < hi,
            forall|k: int| 0 <= k < i ==> holds(res@, #[trigger] l[k]),
            forall|k: int| 0 <= k < j ==> holds(res@, #[trigger] r[k]),
            ranked(views, descending, indexes(res@)),
            forall|k: int, m: int|
                #![trigger res@[k], l[m]]
                0 <= k < res@.len() && i <= m < l.len() ==> ranks_before(
                    views,
                    descending,
                    res@[k] as int,
                    l[m],
                ),
            forall|k: int, m: int|
                #![trigger res@[k], r[m]]
                0 <= k < res@.len() && j <= m < r.len() ==> ranks_before(
                    views,
                    descending,
                    res@[k] as int,
                    r[m],
                ),
        decreases l.len() - i + r.len() - j,
    {
        let ghost before = res@;
        let take_left: bool = if i == left.len() {
            false
        } else if j == right.len() {
            true
        } else {
            assert(l[i as int] == left@[i as int] && r[j as int] == right@[j as int]);
            rank_first(keys, descending, left[i], right[j])
        };
        let ghost next: int = if take_left {
            l[i as int]
        } else {
            r[j as int]
        };
        if take_left {
            res.push(left[i]);
        } else {
            res.push(right[j]);
        }
        proof {
            assert(res@ == before.push(res@.last()));
            assert(res@.last() == next);
            // What was taken before still comes first.
            assert forall|a: int, b: int| 0 <= a < b < indexes(res@).len() implies ranks_before(
                views,
                descending,
                #[trigger] indexes(res@)[a],
                #[trigger] indexes(res@)[b],
            ) by {
                if b < before.len() {
                    assert(indexes(before)[a] == indexes(res@)[a] && indexes(before)[b] == indexes(
                        res@,
                    )[b]);
                } else {
                    assert(before[a] == res@[a]);
                    if take_left {
                        assert(ranks_before(views, descending, before[a] as int, l[i as int]));
                    } else {
                        assert(ranks_before(views, descending, before[a] as int, r[j as int]));
                    }
                }
            }
            // What was taken now comes before everything that is left.
            let i2: int = if take_left {
                i + 1
            } else {
                i as int
            };
            let j2: int = if take_left {
                j as int
            } else {
                j + 1
            };
            assert forall|m: int| i2 <= m < l.len() implies ranks_before(
                views,
                descending,
                next,
                #[trigger] l[m],
            ) by {
                if take_left {
                    assert(ranks_before(views, descending, l[i as int], l[m]));
                } else {
                    assert(ranks_before(views, descending, r[j as int], l[i as int]));
                    if m > i {
                        assert(ranks_before(views, descending, l[i as int], l[m]));
                        lemma_ranks_transitive(views, descending, r[j as int], l[i as int], l[m]);
                    }
                }
            }
            assert forall|m: int| j2 <= m < r.len() implies ranks_before(
                views,
                descending,
                next,
                #[trigger] r[m],
            ) by {
                if !take_left {
                    assert(ranks_before(views, descending, r[j as int], r[m]));
                } else {
                    assert(ranks_before(views, descending, l[i as int], r[j as int]));
                    if m > j {
                        assert(ranks_before(views, descending, r[j as int], r[m]));
                        lemma_ranks_transitive(views, descending, l[i as int], r[j as int], r[m]);
                    }
                }
            }
            assert forall|k: int, m: int|
                #![trigger res@[k], l[m]]
                0 <= k < res@.len() && i2 <= m < l.len() implies ranks_before(
                views,
                descending,
                res@[k] as int,
                l[m],
            ) by {
                if k < before.len() {
                    assert(before[k] == res@[k]);
                }
            }
            assert forall|k: int, m: int|
                #![trigger res@[k], r[m]]
                0 <= k < res@.len() && j2 <= m < r.len() implies ranks_before(
                views,
                descending,
                res@[k] as int,
                r[m],
            ) by {
                if k < before.len() {
                    assert(before[k] == res@[k]);
                }
            }
            assert forall|k: int| 0 <= k < i2 implies holds(res@, #[trigger] l[k]) by {
                if k < i {
                    assert(holds(before, l[k]));
                    let m = choose|m: int| 0 <= m < before.len() && #[trigger] before[m] == l[k];
                    assert(res@[m] == l[k]);
                } else {
                    assert(res@[res@.len() - 1] == l[k]);
                }
            }
            assert forall|k: int| 0 <= k < j2 implies holds(res@, #[trigger] r[k]) by {
                if k < j {
                    assert(holds(before, r[k]));
                    let m = choose|m: int| 0 <= m < before.len() && #[trigger] before[m] == r[k];
                    assert(res@[m] == r[k]);
                } else {
                    assert(res@[res@.len() - 1] == r[k]);
                }
            }
        }
        if take_left {
            i += 1;
        } else {
            j += 1;
        }
    }
    proof {
        let out = indexes(res@);
        assert forall|v: int| lo <= v < hi implies #[trigger] out.contains(v) by {
            if v < mid {
                assert(l.contains(v));
                let k = l.index_of(v);
                assert(holds(res@, l[k]));
                let m = choose|m: int| 0 <= m < res@.len() && #[trigger] res@[m] == l[k];
                assert(out[m] == v);
            } else {
                assert(r.contains(v));
                let k = r.index_of(v);
                assert(holds(res@, r[k]));
                let m = choose|m: int| 0 <= m < res@.len() && #[trigger] res@[m] == r[k];
                assert(out[m] == v);
            }
        }
        assert forall|k: int| 0 <= k < out.len() implies lo <= #[trigger] out[k] < hi by {
            assert(out[k] == res@[k]);
        }
    }
    res
}

fn rank_range(keys: &Vec<Vec<char>>, descending: bool, lo: usize, hi: usize) -> (res: Vec<usize>)
    requires
        lo <= hi <= keys@.len(),
    ensures
        lists_range(indexes(res@), lo as int, hi as int),
        ranked(key_views(keys@), descending, indexes(res@)),
    decreases hi - lo,
{
    if hi - lo == 0 {
        let res: Vec<usize> = Vec::new();
        return res;
    }
    if hi - lo == 1 {
        let mut res: Vec<usize> = Vec::new();
        res.push(lo);
        assert(indexes(res@)[0] == lo);
        assert forall|v: int| lo <= v < hi implies #[trigger] indexes(res@).contains(v) by {
            assert(indexes(res@)[0] == v);
        }
        return res;
    }
    let mid: usize = lo + (hi - lo) / 2;
    let left = rank_range(keys, descending, lo, mid);
    let right = rank_range(keys, descending, mid, hi);
    merge_ranked(keys, descending, &left, &right, Ghost((lo as int, mid as int, hi as int)))
}

/// Ranks items by their keys. Equal keys keep their places.
pub fn rank_by_keys(keys: &Vec<Vec<char>>, descending: bool) -> (res: Vec<usize>)
    ensures
        is_ranking(key_views(keys@), descending, indexes(res@)),
        indexes(res@) == ranking(key_views(keys@), descending),
        res@.len() == keys@.len(),
        forall|i: int| 0 <= i < res@.len() ==> #[trigger] res@[i] < keys@.len(),
{
    let res = rank_range(keys, descending, 0, keys.len());
    proof {
        assert(is_ranking(key_views(keys@), descending, indexes(res@)));
        law_ranking_is_unique(
            key_views(keys@),
            descending,
            indexes(res@),
            ranking(key_views(keys@), descending),
        );
    }
    assert forall|i: int| 0 <= i < res@.len() implies #[trigger] res@[i] < keys@.len() by {
        assert(indexes(res@)[i] == res@[i]);
    }
    res
}

/// Whether a list of texts goes up without repetition.
pub open spec fn strictly_ascending(list: Seq<Seq<char>>) -> bool {
    forall|i: int, j: int|
        0 <= i < j < list.len() ==> text_lt(#[trigger] list[i], #[trigger] list[j])
}

/// The texts of a list as keys.
pub fn keys_of(list: &Vec<String>) -> (res: Vec<Vec<char>>)
    ensures
        key_views(res@) == text::views(list@),
        res@.len() == list@.len(),
{
    let ghost all = text::views(list@);
    let mut keys: Vec<Vec<char>> = Vec::new();
    let mut i: usize = 0;
    while i < list.len()
        invariant
            i <= list@.len(),
            all == text::views(list@),
            keys@.len() == i,
            key_views(keys@) == all.take(i as int),
        decreases list@.len() - i,
    {
        let ghost before = keys@;
        keys.push(text::chars_of(list[i].as_str()));
        i += 1;
        assert(key_views(keys@) == key_views(before).push(all[i - 1]));
        assert(all.take(i as int) == all.take(i - 1).push(all[i - 1]));
    }
    assert(all.take(i as int) == all);
    keys
}

/// The texts of a list in the given order.
pub open spec fn in_order(list: Seq<Seq<char>>, order: Seq<int>) -> Seq<Seq<char>> {
    order.map_values(|i: int| list[i])
}

/// The texts of a list in order, each once.
pub fn sort_and_dedup(list: &Vec<String>) -> (res: Vec<String>)
    ensures
        strictly_ascending(text::views(res@)),
        forall|t: Seq<char>|
            text::views(res@).contains(t) <==> #[trigger] text::views(list@).contains(t),
{
    let ghost all = text::views(list@);
    let keys = keys_of(list);
    let order = rank_by_keys(&keys, false);
    let ghost ranks = indexes(order@);
    let mut res: Vec<String> = Vec::new();
    let mut k: usize = 0;
    while k < order.len()
        invariant
            k <= order@.len(),
            all == text::views(list@),
            ranks == indexes(order@),
            is_ranking(all, false, ranks),
            order@.len() == list@.len(),
            forall|m: int| 0 <= m < order@.len() ==> #[trigger] order@[m] < list@.len(),
            strictly_ascending(text::views(res@)),
            res@.len() > 0 <==> k > 0,
            res@.len() > 0 ==> text::views(res@).last() == all[ranks[k - 1]],
            forall|m: int|
                0 <= m < k ==> text::views(res@).contains(all[#[trigger] ranks[m]]),
            forall|m: int| 0 <= m < res@.len() ==> all.contains(#[trigger] text::views(res@)[m]),
        decreases order@.len() - k,
    {
        let ghost before = res@;
        let ghost shown = text::views(before);
        let at: usize = order[k];
        assert(ranks[k as int] == at);
        assert(all[at as int] == list@[at as int]@);
        let fresh = if k == 0 {
            true
        } else {
            let previous: usize = order[k - 1];
            assert(ranks[k - 1] == previous);
            assert(ranks_before(all, false, ranks[k - 1], ranks[k as int]));
            assert(all[previous as int] == list@[previous as int]@);
            list[previous] != list[at]
        };
        if fresh {
            res.push(list[at].clone());
            proof {
                let added = all[at as int];
                assert(text::views(res@) == shown.push(added));
                assert forall|a: int, b: int| 0 <= a < b < text::views(res@).len() implies text_lt(
                    #[trigger] text::views(res@)[a],
                    #[trigger] text::views(res@)[b],
                ) by {
                    if b < shown.len() {
                        assert(text_lt(shown[a], shown[b]));
                    } else {
                        assert(text_lt(shown.last(), added));
                        if a < shown.len() - 1 {
                            assert(text_lt(shown[a], shown.last()));
                            lemma_lt_transitive(shown[a], shown.last(), added);
                        }
                    }
                }
                assert forall|m: int| 0 <= m < k + 1 implies text::views(res@).contains(
                    all[#[trigger] ranks[m]],
                ) by {
                    if m < k {
                        let w = shown.index_of(all[ranks[m]]);
                        assert(shown.contains(all[ranks[m]]));
                        assert(text::views(res@)[w] == all[ranks[m]]);
                    } else {
                        assert(text::views(res@)[shown.len() as int] == added);
                    }
                }
                assert forall|m: int| 0 <= m < res@.len() implies all.contains(
                    #[trigger] text::views(res@)[m],
                ) by {
                    if m < shown.len() {
                        assert(all.contains(shown[m]));
                    } else {
                        assert(all[at as int] == added);
                    }
                }
            }
        } else {
            assert(all[ranks[k as int]] == all[ranks[k - 1]]);
        }
        k += 1;
    }
    proof {
        assert forall|t: Seq<char>|
            text::views(res@).contains(t) <==> #[trigger] all.contains(t) by {
            if all.contains(t) {
                let v = all.index_of(t);
                assert(ranks.contains(v));
                let m = ranks.index_of(v);
                assert(all[ranks[m]] == t);
            }
            if text::views(res@).contains(t) {
                let m = text::views(res@).index_of(t);
                assert(all.contains(text::views(res@)[m]));
            }
        }
    }
    res
}

/// There is one ranking of the items.
pub proof fn law_ranking_is_unique(
    keys: Seq<Seq<char>>,
    descending: bool,
    a: Seq<int>,
    b: Seq<int>,
)
    requires
        is_ranking(keys, descending, a),
        is_ranking(keys, descending, b),
    ensures
        a == b,
{
    assert forall|i: int| 0 <= i < a.len() implies a[i] == b[i] by {
        lemma_rankings_agree(keys, descending, a, b, i);
    }
}

/// The place at which an item belongs in a ranked list.
proof fn lemma_place(
    keys: Seq<Seq<char>>,
    descending: bool,
    order: Seq<int>,
    item: int,
) -> (place: int)
    requires
        ranked(keys, descending, order),
        !order.contains(item),
    ensures
        0 <= place <= order.len(),
        forall|i: int|
            0 <= i < place ==> ranks_before(keys, descending, #[trigger] order[i], item),
        forall|i: int|
            place <= i < order.len() ==> ranks_before(keys, descending, item, #[trigger] order[i]),
    decreases order.len(),
{
    if order.len() == 0 {
        0
    } else {
        let last = order.last();
        assert(order.contains(last));
        if ranks_before(keys, descending, last, item) {
            assert forall|i: int| 0 <= i < order.len() implies ranks_before(
                keys,
                descending,
                #[trigger] order[i],
                item,
            ) by {
                if i < order.len() - 1 {
                    assert(ranks_before(keys, descending, order[i], order[order.len() - 1]));
                    lemma_ranks_transitive(keys, descending, order[i], last, item);
                }
            }
            order.len() as int
        } else {
            lemma_lt_total(keys[last], keys[item]);
            let rest = order.drop_last();
            assert(ranked(keys, descending, rest)) by {
                assert forall|i: int, j: int| 0 <= i < j < rest.len() implies ranks_before(
                    keys,
                    descending,
                    #[trigger] rest[i],
                    #[trigger] rest[j],
                ) by {
                    assert(ranks_before(keys, descending, order[i], order[j]));
                }
            }
            assert(!rest.contains(item)) by {
                if rest.contains(item) {
                    let at = rest.index_of(item);
                    assert(order[at] == item);
                }
            }
            let place = lemma_place(keys, descending, rest, item);
            assert forall|i: int| 0 <= i < place implies ranks_before(
                keys,
                descending,
                #[trigger] order[i],
                item,
            ) by {
                assert(rest[i] == order[i]);
            }
            assert forall|i: int| place <= i < order.len() implies ranks_before(
                keys,
                descending,
                item,
                #[trigger] order[i],
            ) by {
                if i < rest.len() {
                    assert(rest[i] == order[i]);
                }
            }
            place
        }
    }
}

/// Every list of items has a ranking.
pub proof fn law_every_list_has_a_ranking(keys: Seq<Seq<char>>, descending: bool)
    ensures
        is_ranking(keys, descending, ranking(keys, descending)),
    decreases keys.len(),
{
    if keys.len() == 0 {
        assert(is_ranking(keys, descending, Seq::<int>::empty()));
    } else {
        let rest = keys.drop_last();
        let item = keys.len() - 1;
        law_every_list_has_a_ranking(rest, descending);
        let order = ranking(rest, descending);
        assert(ranked(keys, descending, order)) by {
            assert forall|i: int, j: int| 0 <= i < j < order.len() implies ranks_before(
                keys,
                descending,
                #[trigger] order[i],
                #[trigger] order[j],
            ) by {
                assert(ranks_before(rest, descending, order[i], order[j]));
            }
        }
        let place = lemma_place(keys, descending, order, item);
        let full = order.insert(place, item);
        assert(lists_range(full, 0, keys.len() as int)) by {
            assert forall|v: int| 0 <= v < keys.len() implies #[trigger] full.contains(v) by {
                if v == item {
                    assert(full[place] == v);
                } else {
                    assert(order.contains(v));
                    let at = order.index_of(v);
                    if at < place {
                        assert(full[at] == v);
                    } else {
                        assert(full[at + 1] == v);
                    }
                }
            }
        }
        assert(ranked(keys, descending, full)) by {
            assert forall|i: int, j: int| 0 <= i < j < full.len() implies ranks_before(
                keys,
                descending,
                #[trigger] full[i],
                #[trigger] full[j],
            ) by {
                let a = if i < place {
                    i
                } else {
                    i - 1
                };
                let b = if j < place {
                    j
                } else {
                    j - 1
                };
                if i == place {
                    assert(full[j] == order[b]);
                } else if j == place {
                    assert(full[i] == order[a]);
                } else {
                    assert(full[i] == order[a]);
                    assert(full[j] == order[b]);
                    assert(ranks_before(keys, descending, order[a], order[b]));
                }
            }
        }
        assert(is_ranking(keys, descending, full));
    }
}

proof fn lemma_rank_asymmetric(keys: Seq<Seq<char>>, descending: bool, x: int, y: int)
    requires
        ranks_before(keys, descending, x, y),
    ensures
        !ranks_before(keys, descending, y, x),
        x != y,
{
    lemma_lt_total(keys[x], keys[y]);
    lemma_lt_irreflexive(keys[x]);
}

proof fn lemma_rankings_agree(
    keys: Seq<Seq<char>>,
    descending: bool,
    a: Seq<int>,
    b: Seq<int>,
    i: int,
)
    requires
        is_ranking(keys, descending, a),
        is_ranking(keys, descending, b),
        0 <= i < a.len(),
    ensures
        a[i] == b[i],
    decreases i,
{
    assert forall|m: int| 0 <= m < i implies a[m] == b[m] by {
        lemma_rankings_agree(keys, descending, a, b, m);
    }
    assert(b.contains(a[i]));
    assert(a.contains(b[i]));
    let j = b.index_of(a[i]);
    let k = a.index_of(b[i]);
    if j < i {
        assert(a[j] == a[i]);
        lemma_rank_asymmetric(keys, descending, a[j], a[i]);
    }
    if k < i {
        assert(b[k] == b[i]);
        lemma_rank_asymmetric(keys, descending, b[k], b[i]);
    }
    if j > i && k > i {
        assert(ranks_before(keys, descending, b[i], b[j]));
        assert(ranks_before(keys, descending, a[i], a[k]));
        lemma_rank_asymmetric(keys, descending, a[i], b[i]);
    }
}

/// Whether `first` is the place of the first key that equals the one at `i`.
pub open spec fn is_first_equal(keys: Seq<Seq<char>>, i: int, first: int) -> bool {
    &&& 0 <= first <= i
    &&& keys[first] == keys[i]
    &&& forall|j: int| 0 <= j < first ==> #[trigger] keys[j] != keys[i]
}

/// For every key the place of the first one that equals it.
pub fn first_equal_places(keys: &Vec<Vec<char>>) -> (res: Vec<usize>)
    ensures
        res@.len() == keys@.len(),
        forall|i: int|
            0 <= i < res@.len() ==> is_first_equal(
                key_views(keys@),
                i,
                #[trigger] res@[i] as int,
            ),
{
    let order = rank_by_keys(keys, false);
    let ghost views = key_views(keys@);
    let ghost ranks = indexes(order@);
    let mut res: Vec<usize> = Vec::new();
    let mut n: usize = 0;
    while n < keys.len()
        invariant
            n <= keys@.len(),
            res@.len() == n,
        decreases keys@.len() - n,
    {
        res.push(0);
        n += 1;
    }
    let mut leader: usize = 0;
    let mut p: usize = 0;
    while p < order.len()
        invariant
            p <= order@.len(),
            views == key_views(keys@),
            ranks == indexes(order@),
            is_ranking(views, false, ranks),
            order@.len() == keys@.len(),
            res@.len() == keys@.len(),
            views.len() == keys@.len(),
            forall|m: int| 0 <= m < order@.len() ==> #[trigger] order@[m] < keys@.len(),
            p > 0 ==> is_first_equal(views, ranks[p - 1], leader as int),
            forall|q: int|
                0 <= q < p ==> is_first_equal(
                    views,
                    #[trigger] ranks[q],
                    res@[ranks[q]] as int,
                ),
        decreases order@.len() - p,
    {
        let at: usize = order[p];
        assert(ranks[p as int] == at);
        let mut same = false;
        if p > 0 {
            let previous: usize = order[p - 1];
            assert(ranks[p - 1] == previous);
            assert(ranks_before(views, false, ranks[p - 1], ranks[p as int]));
            proof {
                lemma_lt_total(views[previous as int], views[at as int]);
            }
            same = !comes_before(&keys[previous], &keys[at]);
            assert(views[previous as int] == keys@[previous as int]@);
            assert(views[at as int] == keys@[at as int]@);
            proof {
                lemma_lt_irreflexive(views[at as int]);
            }
        }
        if !same {
            leader = at;
            proof {
                assert forall|j: int| 0 <= j < at implies #[trigger] views[j] != views[at as int] by {
                    if views[j] == views[at as int] {
                        // An equal key at an earlier place is ranked before,
                        // so the one ranked just before is equal too.
                        assert(ranks.contains(j));
                        let q = ranks.index_of(j);
                        if q > p {
                            assert(ranks_before(views, false, ranks[p as int], ranks[q]));
                        }
                        assert(q < p);
                        lemma_lt_irreflexive(views[j]);
                        if q < p - 1 {
                            assert(ranks_before(views, false, ranks[q], ranks[p - 1]));
                            lemma_lt_total(views[j], views[ranks[p - 1]]);
                            if views[j] != views[ranks[p - 1]] {
                                lemma_lt_transitive(
                                    views[j],
                                    views[ranks[p - 1]],
                                    views[at as int],
                                );
                            }
                        }
                    }
                }
            }
        } else {
            assert(views[ranks[p - 1]] == views[at as int]);
            assert(leader <= ranks[p - 1] < at);
        }
        assert(is_first_equal(views, at as int, leader as int));
        let ghost before = res@;
        res.set(at, leader);
        proof {
            assert forall|q: int| 0 <= q < p + 1 implies is_first_equal(
                views,
                #[trigger] ranks[q],
                res@[ranks[q]] as int,
            ) by {
                if q < p {
                    lemma_rank_asymmetric(views, false, ranks[q], ranks[p as int]);
                    assert(res@[ranks[q]] == before[ranks[q]]);
                }
            }
        }
        p += 1;
    }
    proof {
        assert forall|i: int| 0 <= i < res@.len() implies is_first_equal(
            views,
            i,
            #[trigger] res@[i] as int,
        ) by {
            assert(ranks.contains(i));
            let q = ranks.index_of(i);
            assert(is_first_equal(views, ranks[q], res@[ranks[q]] as int));
        }
    }
    res
}

/// The places of the flags that are set, in order.
pub open spec fn places(flags: Seq<bool>) -> Seq<int>
    decreases flags.len(),
{
    if flags.len() == 0 {
        Seq::empty()
    } else if flags.last() {
        places(flags.drop_last()).push(flags.len() - 1)
    } else {
        places(flags.drop_last())
    }
}

/// The places are those of the set flags, each once, and they go up.
pub proof fn lemma_places(flags: Seq<bool>)
    ensures
        places(flags).len() <= flags.len(),
        forall|k: int|
            0 <= k < places(flags).len() ==> 0 <= #[trigger] places(flags)[k] < flags.len()
                && flags[places(flags)[k]],
        forall|i: int| 0 <= i < flags.len() && flags[i] ==> #[trigger] places(flags).contains(i),
        forall|j: int, k: int|
            0 <= j < k < places(flags).len() ==> #[trigger] places(flags)[j]
                < #[trigger] places(flags)[k],
    decreases flags.len(),
{
    if flags.len() > 0 {
        let rest = places(flags.drop_last());
        lemma_places(flags.drop_last());
        assert forall|i: int| 0 <= i < flags.len() && flags[i] implies #[trigger] places(
            flags,
        ).contains(i) by {
            if i < flags.len() - 1 {
                assert(flags.drop_last()[i]);
                assert(rest.contains(i));
                let k = rest.index_of(i);
                assert(places(flags)[k] == i);
            } else {
                assert(places(flags)[rest.len() as int] == i);
            }
        }
    }
}

/// Lists the places of the flags that are set.
pub fn set_places(flags: &Vec<bool>) -> (res: Vec<usize>)
    ensures
        indexes(res@) == places(flags@),
        forall|k: int| 0 <= k < res@.len() ==> #[trigger] res@[k] < flags@.len(),
{
    let mut res: Vec<usize> = Vec::new();
    let mut i: usize = 0;
    while i < flags.len()
        invariant
            i <= flags@.len(),
            indexes(res@) == places(flags@.take(i as int)),
            forall|k: int| 0 <= k < res@.len() ==> #[trigger] res@[k] < i,
        decreases flags@.len() - i,
    {
        let ghost before = res@;
        if flags[i] {
            res.push(i);
            assert(indexes(res@) == indexes(before).push(i as int));
        }
        i += 1;
        assert(flags@.take(i as int).drop_last() == flags@.take(i - 1));
        assert(flags@.take(i as int).last() == flags@[i - 1]);
    }
    assert(flags@.take(i as int) == flags@);
    res
}

/// The place where a text stands in a list for the first time.
pub open spec fn found_at(list: Seq<Seq<char>>, wanted: Seq<char>) -> Option<int> {
    if list.contains(wanted) {
        Some(
            choose|i: int|
                0 <= i < list.len() && list[i] == wanted && forall|j: int|
                    0 <= j < i ==> #[trigger] list[j] != wanted,
        )
    } else {
        None
    }
}

pub proof fn lemma_found_at(list: Seq<Seq<char>>, wanted: Seq<char>, at: int)
    requires
        0 <= at < list.len(),
        list[at] == wanted,
        forall|j: int| 0 <= j < at ==> #[trigger] list[j] != wanted,
    ensures
        found_at(list, wanted) == Some(at),
{
    let i = choose|i: int|
        0 <= i < list.len() && list[i] == wanted && forall|j: int|
            0 <= j < i ==> #[trigger] list[j] != wanted;
    assert(list[at] == wanted);
    assert(i == at);
}

/// The place where a text is found holds it, and no earlier one does.
pub proof fn lemma_found(list: Seq<Seq<char>>, wanted: Seq<char>)
    ensures
        match found_at(list, wanted) {
            Some(at) => 0 <= at < list.len() && list[at] == wanted && forall|j: int|
                0 <= j < at ==> #[trigger] list[j] != wanted,
            None => !list.contains(wanted),
        },
    decreases list.len(),
{
    if list.contains(wanted) {
        let rest = list.drop_last();
        lemma_found(rest, wanted);
        let first = if rest.contains(wanted) {
            found_at(rest, wanted)->0
        } else {
            list.len() - 1
        };
        assert forall|j: int| 0 <= j < first implies #[trigger] list[j] != wanted by {
            assert(rest[j] == list[j]);
        }
        if !rest.contains(wanted) {
            let k = choose|k: int| 0 <= k < list.len() && list[k] == wanted;
            if k < rest.len() {
                assert(rest[k] == wanted);
            }
        }
        assert(list[first] == wanted);
        lemma_found_at(list, wanted, first);
    }
}

/// For every text of `ids` the place where it stands in `others` for the first
/// time.
pub fn find_each(ids: &Vec<String>, others: &Vec<String>) -> (res: Vec<Option<usize>>)
    ensures
        res@.len() == ids@.len(),
        forall|i: int|
            0 <= i < ids@.len() ==> match #[trigger] res@[i] {
                Some(at) => at < others@.len() && found_at(text::views(others@), ids@[i]@) == Some(
                    at as int,
                ),
                None => found_at(text::views(others@), ids@[i]@) is None,
            },
{
    let ghost all = text::views(others@);
    let mut keys = keys_of(others);
    let mut own = keys_of(ids);
    let ghost own_keys = key_views(own@);
    let total: usize = others.len();
    keys.append(&mut own);
    assert(key_views(keys@) == all + own_keys);
    let first = first_equal_places(&keys);
    let count: usize = keys.len();
    let mut res: Vec<Option<usize>> = Vec::new();
    let mut i: usize = 0;
    while i < ids.len()
        invariant
            i <= ids@.len(),
            count == keys@.len(),
            all == text::views(others@),
            total == others@.len(),
            own_keys == text::views(ids@),
            key_views(keys@) == all + own_keys,
            keys@.len() == total + ids@.len(),
            first@.len() == keys@.len(),
            forall|k: int|
                0 <= k < first@.len() ==> is_first_equal(
                    key_views(keys@),
                    k,
                    #[trigger] first@[k] as int,
                ),
            res@.len() == i,
            forall|k: int|
                0 <= k < i ==> match #[trigger] res@[k] {
                    Some(at) => at < others@.len() && found_at(all, ids@[k]@) == Some(at as int),
                    None => found_at(all, ids@[k]@) is None,
                },
        decreases ids@.len() - i,
    {
        let place: usize = first[total + i];
        proof {
            let joint = key_views(keys@);
            let k = total + i;
            assert(is_first_equal(joint, k, first@[k] as int));
            assert(joint[k] == own_keys[i as int]);
            if place < total {
                assert(all[place as int] == joint[place as int]);
                assert forall|j: int| 0 <= j < place implies #[trigger] all[j]
                    != ids@[i as int]@ by {
                    assert(joint[j] == all[j]);
                }
                lemma_found_at(all, ids@[i as int]@, place as int);
            } else {
                assert forall|j: int| 0 <= j < all.len() implies all[j] != ids@[i as int]@ by {
                    assert(joint[j] == all[j]);
                }
            }
        }
        if place < total {
            res.push(Some(place));
        } else {
            res.push(None);
        }
        i += 1;
    }
    res
}

/// For every text of `ids`: whether it stands in `others`.
pub fn listed_in(ids: &Vec<String>, others: &Vec<String>) -> (res: Vec<bool>)
    ensures
        res@.len() == ids@.len(),
        forall|i: int|
            0 <= i < ids@.len() ==> #[trigger] res@[i] == text::views(others@).contains(ids@[i]@),
{
    let found = find_each(ids, others);
    let mut res: Vec<bool> = Vec::new();
    let mut i: usize = 0;
    while i < found.len()
        invariant
            i <= found@.len() == ids@.len(),
            forall|k: int|
                0 <= k < ids@.len() ==> match #[trigger] found@[k] {
                    Some(at) => at < others@.len() && found_at(text::views(others@), ids@[k]@)
                        == Some(at as int),
                    None => found_at(text::views(others@), ids@[k]@) is None,
                },
            res@.len() == i,
            forall|k: int|
                0 <= k < i ==> #[trigger] res@[k] == text::views(others@).contains(ids@[k]@),
        decreases found@.len() - i,
    {
        res.push(found[i].is_some());
        i += 1;
    }
    res
}

/// For every text of a list: whether it stands there for the first time.
pub fn first_occurrences(ids: &Vec<String>) -> (res: Vec<bool>)
    ensures
        res@.len() == ids@.len(),
        forall|i: int|
            0 <= i < ids@.len() ==> #[trigger] res@[i] == !text::views(ids@).take(i).contains(
                ids@[i]@,
            ),
{
    let ghost all = text::views(ids@);
    let keys = keys_of(ids);
    let first = first_equal_places(&keys);
    let mut res: Vec<bool> = Vec::new();
    let mut i: usize = 0;
    while i < ids.len()
        invariant
            i <= ids@.len(),
            all == text::views(ids@),
            key_views(keys@) == all,
            first@.len() == ids@.len(),
            forall|k: int|
                0 <= k < first@.len() ==> is_first_equal(all, k, #[trigger] first@[k] as int),
            res@.len() == i,
            forall|k: int| 0 <= k < i ==> #[trigger] res@[k] == !all.take(k).contains(ids@[k]@),
        decreases ids@.len() - i,
    {
        let place: usize = first[i];
        proof {
            assert(is_first_equal(all, i as int, place as int));
            if place < i {
                assert(all.take(i as int)[place as int] == all[i as int]);
            } else {
                assert forall|j: int| 0 <= j < i implies all.take(i as int)[j] != all[i as int] by {
                    assert(all[j] != all[i as int]);
                }
            }
        }
        res.push(place == i);
        i += 1;
    }
    res
}

/// Texts are ordered by their first difference, and a beginning comes before
/// what goes on from it.
pub proof fn law_the_first_difference_decides(a: Seq<char>, b: Seq<char>, k: int)
    requires
        0 <= k <= a.len(),
        k <= b.len(),
        a.take(k) == b.take(k),
    ensures
        k < a.len() && k < b.len() && a[k] < b[k] ==> text_lt(a, b) && !text_lt(b, a),
        k == a.len() && k < b.len() ==> text_lt(a, b) && !text_lt(b, a),
        k == a.len() && k == b.len() ==> !text_lt(a, b),
    decreases k,
{
    if k > 0 {
        assert(a[0] == a.take(k)[0] && b[0] == b.take(k)[0]);
        assert(a.drop_first().take(k - 1) == a.take(k).drop_first());
        assert(b.drop_first().take(k - 1) == b.take(k).drop_first());
        law_the_first_difference_decides(a.drop_first(), b.drop_first(), k - 1);
    }
}

/// A ranking lists every place once, the smallest key first or the greatest,
/// as is asked for; places with the same key keep their order.
pub proof fn law_rankings_sort(keys: Seq<Seq<char>>, descending: bool, i: int, j: int)
    requires
        0 <= i < j < keys.len(),
    ensures
        ({
            let order = ranking(keys, descending);
            &&& order.len() == keys.len()
            &&& 0 <= order[i] < keys.len()
            &&& order[i] != order[j]
            &&& order.contains(i)
            &&& descending ==> !text_lt(keys[order[i]], keys[order[j]])
            &&& !descending ==> !text_lt(keys[order[j]], keys[order[i]])
            &&& keys[order[i]] == keys[order[j]] ==> order[i] < order[j]
        }),
{
    law_every_list_has_a_ranking(keys, descending);
    let order = ranking(keys, descending);
    assert(ranks_before(keys, descending, order[i], order[j]));
    let x = keys[order[i]];
    let y = keys[order[j]];
    lemma_lt_irreflexive(x);
    lemma_lt_irreflexive(y);
    if text_lt(x, y) && text_lt(y, x) {
        lemma_lt_transitive(x, y, x);
    }
    if order[i] == order[j] {
        lemma_rank_asymmetric(keys, descending, order[i], order[j]);
    }
}

/// The places that are set are listed in their order, and no others.
pub proof fn law_set_places_are_listed(flags: Seq<bool>, i: int)
    requires
        0 <= i < flags.len(),
    ensures
        places(flags).contains(i) == flags[i],
        flags[i] ==> places(flags)[places(flags.take(i)).len() as int] == i,
        places(flags.push(true)) == places(flags).push(flags.len() as int),
        places(flags.push(false)) == places(flags),
{
    lemma_places(flags);
    assert(flags.push(true).drop_last() == flags);
    assert(flags.push(false).drop_last() == flags);
    if flags[i] {
        lemma_places_prefix(flags, i + 1);
        assert(flags.take(i + 1).drop_last() == flags.take(i));
        let n = places(flags.take(i)).len() as int;
        assert(places(flags.take(i + 1)).len() == n + 1);
        assert(places(flags).take(n + 1)[n] == i);
    }
}

proof fn lemma_places_prefix(flags: Seq<bool>, n: int)
    requires
        0 <= n <= flags.len(),
    ensures
        places(flags.take(n)).len() <= places(flags).len(),
        places(flags).take(places(flags.take(n)).len() as int) == places(flags.take(n)),
    decreases flags.len() - n,
{
    if n < flags.len() {
        lemma_places_prefix(flags, n + 1);
        assert(flags.take(n + 1).drop_last() == flags.take(n));
        let shorter = places(flags.take(n));
        let longer = places(flags.take(n + 1));
        assert(places(flags).take(shorter.len() as int) == longer.take(shorter.len() as int));
        assert(longer.take(shorter.len() as int) == shorter);
    } else {
        assert(flags.take(n) == flags);
        assert(places(flags).take(places(flags).len() as int) == places(flags));
    }
}

/// A text is found at the first place at which it stands.
pub proof fn law_the_first_place_is_found(list: Seq<Seq<char>>, wanted: Seq<char>, at: int)
    ensures
        0 <= at < list.len() && list[at] == wanted && (forall|j: int|
            0 <= j < at ==> #[trigger] list[j] != wanted) ==> found_at(list, wanted) == Some(at),
        (forall|j: int| 0 <= j < list.len() ==> #[trigger] list[j] != wanted) ==> found_at(
            list,
            wanted,
        ) is None,
{
    lemma_found(list, wanted);
    if 0 <= at < list.len() && list[at] == wanted && (forall|j: int|
        0 <= j < at ==> #[trigger] list[j] != wanted) {
        lemma_found_at(list, wanted, at);
    }
}

} // verus!
