//! Lexicographic ordering of text and a stable sort of keyed rows.

use vstd::prelude::*;

verus! {

/// `a < b` in the order of `str`'s `Ord` (code point by code point).
pub open spec fn lex_lt(a: Seq<char>, b: Seq<char>) -> bool
    decreases a.len(),
{
    if a.len() == 0 {
        b.len() > 0
    } else if b.len() == 0 {
        false
    } else if a[0] != b[0] {
        (a[0] as u32) < (b[0] as u32)
    } else {
        lex_lt(a.drop_first(), b.drop_first())
    }
}

/// The outcome of comparing two values.
#[derive(PartialEq, Eq, Structural, Clone, Copy, Debug)]
pub enum Order {
    Less,
    Equal,
    Greater,
}

pub open spec fn order_of(a: Seq<char>, b: Seq<char>) -> Order {
    if lex_lt(a, b) {
        Order::Less
    } else if a == b {
        Order::Equal
    } else {
        Order::Greater
    }
}

proof fn lemma_lex_skip(a: Seq<char>, b: Seq<char>, i: int)
    requires
        0 <= i <= a.len(),
        i <= b.len(),
        a.take(i) == b.take(i),
    ensures
        lex_lt(a, b) == lex_lt(a.skip(i), b.skip(i)),
        (a == b) == (a.skip(i) == b.skip(i)),
    decreases i,
{
    if i > 0 {
        assert(a[0] == a.take(i)[0]);
        assert(b[0] == b.take(i)[0]);
        assert(a.drop_first().take(i - 1) =~= a.take(i).drop_first());
        assert(b.drop_first().take(i - 1) =~= b.take(i).drop_first());
        lemma_lex_skip(a.drop_first(), b.drop_first(), i - 1);
        assert(a.drop_first().skip(i - 1) =~= a.skip(i));
        assert(b.drop_first().skip(i - 1) =~= b.skip(i));
        if a.drop_first() == b.drop_first() {
            assert(a.len() == b.len());
            assert forall|k: int| 0 <= k < a.len() implies a[k] == b[k] by {
                if k > 0 {
                    assert(a[k] == a.drop_first()[k - 1]);
                    assert(b[k] == b.drop_first()[k - 1]);
                }
            }
            assert(a =~= b);
        }
        if a == b {
            assert(a.drop_first() =~= b.drop_first());
        }
    } else {
        assert(a.skip(0) =~= a);
        assert(b.skip(0) =~= b);
    }
}

/// Three-way comparison of two texts in `str` order.
pub fn compare_text(a: &Vec<char>, b: &Vec<char>) -> (res: Order)
    ensures
        res == order_of(a@, b@),
{
    let mut i: usize = 0;
    while i < a.len() && i < b.len() && a[i] == b[i]
        invariant
            i <= a.len(),
            i <= b.len(),
            a@.take(i as int) =~= b@.take(i as int),
        decreases a.len() - i,
    {
        i = i + 1;
    }
    proof {
        lemma_lex_skip(a@, b@, i as int);
    }
    let ghost sa = a@.skip(i as int);
    let ghost sb = b@.skip(i as int);
    if i == a.len() && i == b.len() {
        assert(sa =~= sb);
        Order::Equal
    } else if i == a.len() {
        assert(sa.len() == 0);
        Order::Less
    } else if i == b.len() {
        assert(sb.len() == 0 && sa.len() > 0);
        Order::Greater
    } else {
        assert(sa[0] == a@[i as int] && sb[0] == b@[i as int]);
        if (a[i] as u32) < (b[i] as u32) {
            Order::Less
        } else {
            Order::Greater
        }
    }
}

/// A sort key made of a primary and a secondary text.
pub type Key = (Seq<char>, Seq<char>);

pub open spec fn key_lt(a: Key, b: Key) -> bool {
    lex_lt(a.0, b.0) || (a.0 == b.0 && lex_lt(a.1, b.1))
}

/// Places index `j` after every element of `order` whose key is not greater
/// than `keys[j]`, scanning from the back.
pub open spec fn insert_stable(order: Seq<int>, keys: Seq<Key>, j: int) -> Seq<int>
    decreases order.len(),
{
    if order.len() == 0 {
        seq![j]
    } else if key_lt(keys[j], keys[order.last()]) {
        insert_stable(order.drop_last(), keys, j).push(order.last())
    } else {
        order.push(j)
    }
}

/// The positions of `keys` in the order a stable sort puts them in.
pub open spec fn stable_order(keys: Seq<Key>) -> Seq<int>
    decreases keys.len(),
{
    if keys.len() == 0 {
        Seq::empty()
    } else {
        insert_stable(stable_order(keys.drop_last()), keys, keys.len() - 1)
    }
}

proof fn lemma_insert_stable_split(order: Seq<int>, keys: Seq<Key>, j: int, p: int)
    requires
        0 <= p <= order.len(),
        forall|k: int| p <= k < order.len() ==> key_lt(keys[j], keys[#[trigger] order[k]]),
        p == 0 || !key_lt(keys[j], keys[order[p - 1]]),
    ensures
        insert_stable(order, keys, j) == order.take(p).push(j) + order.skip(p),
    decreases order.len(),
{
    if order.len() == 0 {
        assert(order.take(p).push(j) + order.skip(p) =~= seq![j]);
    } else if p == order.len() {
        assert(order.take(p) =~= order);
        assert(order.take(p).push(j) + order.skip(p) =~= order.push(j));
    } else {
        assert(key_lt(keys[j], keys[order[order.len() - 1]]));
        let d = order.drop_last();
        assert forall|k: int| p <= k < d.len() implies key_lt(keys[j], keys[#[trigger] d[k]]) by {
            assert(d[k] == order[k]);
        }
        if p > 0 {
            assert(d[p - 1] == order[p - 1]);
        }
        lemma_insert_stable_split(d, keys, j, p);
        assert(d.take(p) =~= order.take(p));
        assert((d.take(p).push(j) + d.skip(p)).push(order.last()) =~= order.take(p).push(j)
            + order.skip(p));
    }
}

pub proof fn lemma_insert_stable_len(order: Seq<int>, keys: Seq<Key>, j: int)
    ensures
        insert_stable(order, keys, j).len() == order.len() + 1,
    decreases order.len(),
{
    if order.len() > 0 {
        lemma_insert_stable_len(order.drop_last(), keys, j);
    }
}

pub proof fn lemma_stable_order_len(keys: Seq<Key>)
    ensures
        stable_order(keys).len() == keys.len(),
    decreases keys.len(),
{
    if keys.len() > 0 {
        lemma_stable_order_len(keys.drop_last());
        lemma_insert_stable_len(stable_order(keys.drop_last()), keys, keys.len() - 1);
    }
}

pub proof fn lemma_insert_stable_bounds(order: Seq<int>, keys: Seq<Key>, j: int, n: int)
    requires
        0 <= j < n,
        forall|k: int| 0 <= k < order.len() ==> 0 <= #[trigger] order[k] < n,
    ensures
        forall|k: int|
            0 <= k < insert_stable(order, keys, j).len() ==> 0 <= #[trigger] insert_stable(
                order,
                keys,
                j,
            )[k] < n,
    decreases order.len(),
{
    if order.len() > 0 && key_lt(keys[j], keys[order.last()]) {
        let d = order.drop_last();
        assert forall|k: int| 0 <= k < d.len() implies 0 <= #[trigger] d[k] < n by {
            assert(d[k] == order[k]);
        }
        lemma_insert_stable_bounds(d, keys, j, n);
        let r = insert_stable(d, keys, j);
        assert(insert_stable(order, keys, j) == r.push(order.last()));
        assert forall|k: int|
            0 <= k < r.push(order.last()).len() implies 0 <= #[trigger] r.push(
            order.last(),
        )[k] < n by {
            if k < r.len() {
                assert(r.push(order.last())[k] == r[k]);
            }
        }
    } else if order.len() > 0 {
        assert forall|k: int| 0 <= k < order.push(j).len() implies 0 <= #[trigger] order.push(
            j,
        )[k] < n by {
            if k < order.len() {
                assert(order.push(j)[k] == order[k]);
            }
        }
    }
}

pub proof fn lemma_stable_order_bounds(keys: Seq<Key>)
    ensures
        forall|k: int|
            0 <= k < stable_order(keys).len() ==> 0 <= #[trigger] stable_order(keys)[k]
                < keys.len(),
    decreases keys.len(),
{
    if keys.len() > 0 {
        lemma_stable_order_bounds(keys.drop_last());
        let prev = stable_order(keys.drop_last());
        lemma_insert_stable_bounds(prev, keys, keys.len() - 1, keys.len() as int);
    }
}

/// Keys are compared only by position, so a longer key list with the same
/// prefix orders a prefix the same way.
proof fn lemma_stable_order_prefix(keys: Seq<Key>, i: int)
    requires
        0 <= i <= keys.len(),
    ensures
        stable_order(keys.take(i)) == stable_order_within(keys, i),
    decreases i,
{
    if i > 0 {
        lemma_stable_order_prefix(keys, i - 1);
        assert(keys.take(i).drop_last() =~= keys.take(i - 1));
        lemma_stable_order_bounds(keys.take(i - 1));
        lemma_insert_same_keys(stable_order(keys.take(i - 1)), keys.take(i), keys, i - 1);
    }
}

/// `stable_order` of the first `i` keys, read from the full key list.
pub open spec fn stable_order_within(keys: Seq<Key>, i: int) -> Seq<int>
    decreases i,
{
    if i <= 0 {
        Seq::empty()
    } else {
        insert_stable(stable_order_within(keys, i - 1), keys, i - 1)
    }
}

proof fn lemma_insert_same_keys(order: Seq<int>, k1: Seq<Key>, k2: Seq<Key>, j: int)
    requires
        0 <= j < k1.len(),
        k1.len() <= k2.len(),
        forall|k: int| 0 <= k < k1.len() ==> k1[k] == k2[k],
        forall|k: int| 0 <= k < order.len() ==> 0 <= #[trigger] order[k] < k1.len(),
    ensures
        insert_stable(order, k1, j) == insert_stable(order, k2, j),
    decreases order.len(),
{
    if order.len() > 0 {
        let d = order.drop_last();
        assert forall|k: int| 0 <= k < d.len() implies 0 <= #[trigger] d[k] < k1.len() by {
            assert(d[k] == order[k]);
        }
        lemma_insert_same_keys(d, k1, k2, j);
    }
}

/// Stable insertion sort: the positions of `keys` in sorted order.
pub fn stable_sort_positions(keys: &Vec<(Vec<char>, Vec<char>)>) -> (res: Vec<usize>)
    ensures
        res@.map_values(|i: usize| i as int) == stable_order(keys.deep_view()),
        res.len() == keys.len(),
        forall|k: int| 0 <= k < res.len() ==> #[trigger] res@[k] < keys.len(),
{
    broadcast use crate::text::lemma_char_vec_deep_view;

    let ghost kv = keys.deep_view();
    let mut order: Vec<usize> = Vec::new();
    let mut j: usize = 0;
    while j < keys.len()
        invariant
            kv == keys.deep_view(),
            j <= keys.len(),
            order@.map_values(|i: usize| i as int) == stable_order_within(kv, j as int),
            order.len() == j,
            forall|k: int| 0 <= k < order.len() ==> #[trigger] order@[k] < j,
        decreases keys.len() - j,
    {
        let ghost ov = order@.map_values(|i: usize| i as int);
        let mut p = order.len();
        while p > 0 && compare_text(&keys[j].0, &keys[order[p - 1]].0) == Order::Less || (p > 0
            && compare_text(&keys[j].0, &keys[order[p - 1]].0) == Order::Equal && compare_text(
            &keys[j].1,
            &keys[order[p - 1]].1,
        ) == Order::Less)
            invariant
                kv == keys.deep_view(),
                j < keys.len(),
                p <= order.len(),
                order.len() == j,
                ov == order@.map_values(|i: usize| i as int),
                forall|k: int| 0 <= k < order.len() ==> #[trigger] order@[k] < j,
                forall|k: int|
                    p <= k < order.len() ==> key_lt(kv[j as int], kv[#[trigger] ov[k]]),
            decreases p,
        {
            proof {
                assert(kv[j as int] == (keys@[j as int].0@, keys@[j as int].1@));
                assert(kv[ov[p - 1]] == (keys@[order@[p - 1] as int].0@, keys@[order@[p
                    - 1] as int].1@));
            }
            p = p - 1;
        }
        proof {
            if p > 0 {
                assert(kv[j as int] == (keys@[j as int].0@, keys@[j as int].1@));
                assert(kv[ov[p - 1]] == (keys@[order@[p - 1] as int].0@, keys@[order@[p
                    - 1] as int].1@));
            }
            lemma_insert_stable_split(ov, kv, j as int, p as int);
        }
        order.insert(p, j);
        proof {
            assert(order@.map_values(|i: usize| i as int) =~= ov.take(p as int).push(j as int)
                + ov.skip(p as int));
        }
        j = j + 1;
    }
    proof {
        lemma_stable_order_prefix(kv, kv.len() as int);
        assert(kv.take(kv.len() as int) =~= kv);
    }
    order
}


/// Position of the first element satisfying `p`.
pub open spec fn first_where<T>(s: Seq<T>, p: spec_fn(T) -> bool) -> Option<int>
    decreases s.len(),
{
    if s.len() == 0 {
        None
    } else if p(s[0]) {
        Some(0)
    } else {
        match first_where(s.drop_first(), p) {
            Some(i) => Some(i + 1),
            None => None,
        }
    }
}

pub proof fn lemma_first_where<T>(s: Seq<T>, p: spec_fn(T) -> bool, i: int)
    requires
        0 <= i <= s.len(),
        forall|j: int| 0 <= j < i ==> !p(#[trigger] s[j]),
    ensures
        i < s.len() && p(s[i]) ==> first_where(s, p) == Some(i),
        i == s.len() ==> first_where(s, p) is None,
    decreases i,
{
    if i > 0 {
        assert forall|j: int| 0 <= j < i - 1 implies !p(#[trigger] s.drop_first()[j]) by {
            assert(s.drop_first()[j] == s[j + 1]);
        }
        lemma_first_where(s.drop_first(), p, i - 1);
        if i < s.len() {
            assert(s.drop_first()[i - 1] == s[i]);
        }
    }
}

pub proof fn lemma_first_where_some<T>(s: Seq<T>, p: spec_fn(T) -> bool)
    ensures
        first_where(s, p) matches Some(i) ==> 0 <= i < s.len() && p(s[i]) && forall|j: int|
            0 <= j < i ==> !p(#[trigger] s[j]),
    decreases s.len(),
{
    if s.len() > 0 && !p(s[0]) {
        lemma_first_where_some(s.drop_first(), p);
        if let Some(i) = first_where(s, p) {
            assert forall|j: int| 0 <= j < i implies !p(#[trigger] s[j]) by {
                if j > 0 {
                    assert(s[j] == s.drop_first()[j - 1]);
                }
            }
        }
    }
}

/// Items reordered by a stable sort on their keys.
pub open spec fn sorted_by_keys<T>(keys: Seq<Key>, items: Seq<T>) -> Seq<T> {
    stable_order(keys).map_values(|i: int| items[i])
}

/// Strings sorted in `str` order (`Vec<String>::sort`).
pub fn sort_strings(v: &Vec<String>) -> (res: Vec<String>)
    ensures
        res.deep_view() == sorted_by_keys(
            v.deep_view().map_values(|s: Seq<char>| (s, Seq::<char>::empty())),
            v.deep_view(),
        ),
{
    broadcast use crate::text::lemma_char_vec_deep_view;

    let mut keys: Vec<(Vec<char>, Vec<char>)> = Vec::new();
    let mut i: usize = 0;
    while i < v.len()
        invariant
            i <= v.len(),
            keys.deep_view() =~= v.deep_view().map_values(
                |s: Seq<char>| (s, Seq::<char>::empty()),
            ).take(i as int),
        decreases v.len() - i,
    {
        let k = crate::text::chars_of(v[i].as_str());
        let ghost old_keys = keys.deep_view();
        let e: Vec<char> = Vec::new();
        assert(k.deep_view() == k@ && e.deep_view() == e@);
        keys.push((k, e));
        assert(keys.deep_view() =~= old_keys.push((v@[i as int]@, Seq::<char>::empty())));
        i = i + 1;
    }
    assert(keys.deep_view() =~= v.deep_view().map_values(|s: Seq<char>| (s, Seq::<char>::empty())));
    let order = stable_sort_positions(&keys);
    let ghost kv = keys.deep_view();
    proof {
        lemma_stable_order_len(kv);
        lemma_stable_order_bounds(kv);
    }
    let mut res: Vec<String> = Vec::new();
    let mut j: usize = 0;
    while j < order.len()
        invariant
            kv == keys.deep_view(),
            order@.map_values(|i: usize| i as int) == stable_order(kv),
            order.len() == v.len(),
            forall|k: int| 0 <= k < order.len() ==> #[trigger] order@[k] < v.len(),
            j <= order.len(),
            res.deep_view() =~= sorted_by_keys(kv, v.deep_view()).take(j as int),
        decreases order.len() - j,
    {
        let ghost old_res = res.deep_view();
        assert(stable_order(kv)[j as int] == order@[j as int] as int);
        res.push(v[order[j]].clone());
        assert(res.deep_view() =~= old_res.push(sorted_by_keys(kv, v.deep_view())[j as int]));
        j = j + 1;
    }
    assert(res.deep_view() =~= sorted_by_keys(kv, v.deep_view()));
    res
}


proof fn lemma_lex_irreflexive(a: Seq<char>)
    ensures
        !lex_lt(a, a),
    decreases a.len(),
{
    if a.len() > 0 {
        lemma_lex_irreflexive(a.drop_first());
    }
}

proof fn lemma_lex_transitive(a: Seq<char>, b: Seq<char>, c: Seq<char>)
    requires
        lex_lt(a, b),
        lex_lt(b, c),
    ensures
        lex_lt(a, c),
    decreases a.len(),
{
    if a.len() > 0 && b.len() > 0 && c.len() > 0 && a[0] == b[0] && b[0] == c[0] {
        lemma_lex_transitive(a.drop_first(), b.drop_first(), c.drop_first());
    }
}

proof fn lemma_lex_total(a: Seq<char>, b: Seq<char>)
    ensures
        a == b || lex_lt(a, b) || lex_lt(b, a),
    decreases a.len(),
{
    if a.len() > 0 && b.len() > 0 && a[0] == b[0] {
        lemma_lex_total(a.drop_first(), b.drop_first());
        if a.drop_first() == b.drop_first() {
            assert(a =~= seq![a[0]] + a.drop_first());
            assert(b =~= seq![b[0]] + b.drop_first());
        }
    } else if a.len() == 0 && b.len() == 0 {
        assert(a =~= b);
    } else if a.len() > 0 && b.len() > 0 {
        let x = a[0];
        let y = b[0];
        if (x as u32) == (y as u32) {
            vstd::utf8::char_u32_cast(x, x as u32);
            vstd::utf8::char_u32_cast(y, y as u32);
        }
        assert((x as u32) != (y as u32));
    }
}

proof fn lemma_key_order(x: Key, y: Key, z: Key)
    ensures
        !key_lt(x, x),
        key_lt(x, y) && key_lt(y, z) ==> key_lt(x, z),
        x == y || key_lt(x, y) || key_lt(y, x),
{
    lemma_lex_irreflexive(x.0);
    lemma_lex_irreflexive(x.1);
    if key_lt(x, y) && key_lt(y, z) {
        if lex_lt(x.0, y.0) && lex_lt(y.0, z.0) {
            lemma_lex_transitive(x.0, y.0, z.0);
        }
        if lex_lt(x.1, y.1) && lex_lt(y.1, z.1) {
            lemma_lex_transitive(x.1, y.1, z.1);
        }
    }
    lemma_lex_total(x.0, y.0);
    lemma_lex_total(x.1, y.1);
}

/// `x` comes no later than `y`: `y` is not smaller.
pub open spec fn key_le(x: Key, y: Key) -> bool {
    !key_lt(y, x)
}

proof fn lemma_key_le_transitive(x: Key, y: Key, z: Key)
    requires
        key_le(x, y),
        key_le(y, z),
    ensures
        key_le(x, z),
{
    lemma_key_order(x, y, z);
    lemma_key_order(z, x, y);
    lemma_key_order(x, z, y);
    lemma_key_order(y, x, z);
}

/// Positions whose keys never decrease.
pub open spec fn ordered_positions(order: Seq<int>, keys: Seq<Key>) -> bool {
    forall|a: int, b: int|
        0 <= a < b < order.len() ==> key_le(keys[#[trigger] order[a]], keys[#[trigger] order[b]])
}

proof fn lemma_insert_stable_members(order: Seq<int>, keys: Seq<Key>, j: int, a: int)
    requires
        0 <= a < insert_stable(order, keys, j).len(),
    ensures
        insert_stable(order, keys, j)[a] == j || exists|b: int|
            0 <= b < order.len() && order[b] == insert_stable(order, keys, j)[a],
    decreases order.len(),
{
    lemma_insert_stable_len(order, keys, j);
    if order.len() > 0 && key_lt(keys[j], keys[order.last()]) {
        let d = order.drop_last();
        let r = insert_stable(d, keys, j);
        lemma_insert_stable_len(d, keys, j);
        if a < r.len() {
            lemma_insert_stable_members(d, keys, j, a);
            if r[a] != j {
                let b = choose|b: int| 0 <= b < d.len() && d[b] == r[a];
                assert(order[b] == d[b]);
            }
        } else {
            assert(insert_stable(order, keys, j)[a] == order[order.len() - 1]);
        }
    } else if order.len() > 0 {
        if a < order.len() {
            assert(order.push(j)[a] == order[a]);
        }
    }
}

proof fn lemma_insert_stable_ordered(order: Seq<int>, keys: Seq<Key>, j: int)
    requires
        ordered_positions(order, keys),
    ensures
        ordered_positions(insert_stable(order, keys, j), keys),
    decreases order.len(),
{
    lemma_insert_stable_len(order, keys, j);
    if order.len() == 0 {
    } else if key_lt(keys[j], keys[order.last()]) {
        let d = order.drop_last();
        let last = order.last();
        assert(ordered_positions(d, keys)) by {
            assert forall|a: int, b: int| 0 <= a < b < d.len() implies key_le(
                keys[#[trigger] d[a]],
                keys[#[trigger] d[b]],
            ) by {
                assert(d[a] == order[a] && d[b] == order[b]);
            }
        }
        lemma_insert_stable_ordered(d, keys, j);
        let r = insert_stable(d, keys, j);
        lemma_insert_stable_len(d, keys, j);
        let out = r.push(last);
        assert forall|a: int, b: int| 0 <= a < b < out.len() implies key_le(
            keys[#[trigger] out[a]],
            keys[#[trigger] out[b]],
        ) by {
            if b == out.len() - 1 {
                assert(out[b] == last);
                assert(out[a] == r[a]);
                lemma_insert_stable_members(d, keys, j, a);
                if r[a] == j {
                    lemma_key_order(keys[j], keys[last], keys[j]);
                } else {
                    let c = choose|c: int| 0 <= c < d.len() && d[c] == r[a];
                    assert(order[c] == r[a]);
                    assert(key_le(keys[order[c]], keys[order[order.len() - 1]]));
                }
            } else {
                assert(out[a] == r[a] && out[b] == r[b]);
            }
        }
    } else {
        let out = order.push(j);
        assert forall|a: int, b: int| 0 <= a < b < out.len() implies key_le(
            keys[#[trigger] out[a]],
            keys[#[trigger] out[b]],
        ) by {
            if b == out.len() - 1 {
                assert(out[a] == order[a]);
                if a < order.len() - 1 {
                    assert(key_le(keys[order[a]], keys[order[order.len() - 1]]));
                    lemma_key_le_transitive(keys[order[a]], keys[order.last()], keys[j]);
                }
            } else {
                assert(out[a] == order[a] && out[b] == order[b]);
            }
        }
    }
}

/// A stable sort puts keys in order: none comes after a smaller one.
pub proof fn law_stable_order_is_ordered(keys: Seq<Key>)
    ensures
        ordered_positions(stable_order(keys), keys),
    decreases keys.len(),
{
    if keys.len() > 0 {
        let d = keys.drop_last();
        law_stable_order_is_ordered(d);
        lemma_stable_order_bounds(d);
        let prev = stable_order(d);
        assert(ordered_positions(prev, keys)) by {
            assert forall|a: int, b: int| 0 <= a < b < prev.len() implies key_le(
                keys[#[trigger] prev[a]],
                keys[#[trigger] prev[b]],
            ) by {
                lemma_stable_order_len(d);
                assert(keys[prev[a]] == d[prev[a]]);
                assert(keys[prev[b]] == d[prev[b]]);
            }
        }
        lemma_insert_stable_ordered(prev, keys, keys.len() - 1);
    }
}


/// `order` lists each of the positions `0..n` exactly once.
pub open spec fn is_permutation(order: Seq<int>, n: int) -> bool {
    &&& order.len() == n
    &&& forall|k: int| 0 <= k < order.len() ==> 0 <= #[trigger] order[k] < n
    &&& forall|a: int, b: int| 0 <= a < b < order.len() ==> #[trigger] order[a] != #[trigger] order[b]
}

proof fn lemma_insert_stable_distinct(order: Seq<int>, keys: Seq<Key>, j: int)
    requires
        forall|a: int, b: int| 0 <= a < b < order.len() ==> #[trigger] order[a] != #[trigger] order[b],
        forall|k: int| 0 <= k < order.len() ==> #[trigger] order[k] != j,
    ensures
        ({
            let out = insert_stable(order, keys, j);
            forall|a: int, b: int| 0 <= a < b < out.len() ==> #[trigger] out[a] != #[trigger] out[b]
        }),
    decreases order.len(),
{
    lemma_insert_stable_len(order, keys, j);
    if order.len() > 0 && key_lt(keys[j], keys[order.last()]) {
        let d = order.drop_last();
        let last = order.last();
        assert forall|a: int, b: int| 0 <= a < b < d.len() implies #[trigger] d[a] != #[trigger] d[b] by {
            assert(d[a] == order[a] && d[b] == order[b]);
        }
        assert forall|k: int| 0 <= k < d.len() implies #[trigger] d[k] != j by {
            assert(d[k] == order[k]);
        }
        lemma_insert_stable_distinct(d, keys, j);
        let r = insert_stable(d, keys, j);
        lemma_insert_stable_len(d, keys, j);
        let out = r.push(last);
        assert forall|a: int, b: int| 0 <= a < b < out.len() implies #[trigger] out[a] != #[trigger] out[b] by {
            if b == out.len() - 1 {
                assert(out[a] == r[a]);
                lemma_insert_stable_members(d, keys, j, a);
                if r[a] != j {
                    let c = choose|c: int| 0 <= c < d.len() && d[c] == r[a];
                    assert(order[c] == r[a]);
                    assert(order[c] != order[order.len() - 1]);
                } else {
                    assert(order[order.len() - 1] != j);
                }
            } else {
                assert(out[a] == r[a] && out[b] == r[b]);
            }
        }
    } else if order.len() > 0 {
        let out = order.push(j);
        assert forall|a: int, b: int| 0 <= a < b < out.len() implies #[trigger] out[a] != #[trigger] out[b] by {
            assert(out[a] == order[a]);
            if b < order.len() {
                assert(out[b] == order[b]);
            }
        }
    }
}

/// A stable sort neither drops nor repeats a position: it lists each once.
pub proof fn law_stable_order_is_permutation(keys: Seq<Key>)
    ensures
        is_permutation(stable_order(keys), keys.len() as int),
    decreases keys.len(),
{
    lemma_stable_order_len(keys);
    lemma_stable_order_bounds(keys);
    if keys.len() > 0 {
        let d = keys.drop_last();
        law_stable_order_is_permutation(d);
        let prev = stable_order(d);
        let j = keys.len() - 1;
        assert forall|k: int| 0 <= k < prev.len() implies #[trigger] prev[k] != j by {
        }
        lemma_insert_stable_distinct(prev, keys, j);
    }
}

} // verus!
