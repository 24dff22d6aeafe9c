//! The native image builder: how Dockerfile instructions change an image
//! configuration.

use vstd::prelude::*;
use dockerfile_parser::Dockerfile;
use crate::dockerfile::{dockerfile_contents, instr_views, read_instructions, CommandExpr, CommandExprView, Instr, InstrView};
use crate::model::{RuntimeConfig, RuntimeConfigView};
use crate::numfmt::{dec, usize_to_chars};
use crate::order::first_where;
use crate::runtime::{shell_single_quote, single_quoted};
use crate::docker_cli::{strip_leading_slashes, strip_slashes};
use crate::text::{chars_of, clone_strings, clone_opt_string, str_starts_with, str_ends_with, concat_str, contains_seq, find_char_index, join, occurs_at, join_strings, lemma_char_vec_deep_view, split_once, split_once_chars, str_eq, string_of, tokens, tokens_chars, trim, trim_str, Sep};

verus! {

/// How `{:?}` renders a string: quoted, with escapes.
pub uninterp spec fn debug_str(s: Seq<char>) -> Seq<char>;

/// `<str as Debug>::fmt` through `format!("{:?}", ..)`. Claims only that the
/// result depends on the text alone.
#[verifier::external_body]
fn debug_quoted(s: &str) -> (res: String)
    ensures
        res@ == debug_str(s@),
{
    format!("{:?}", s)
}

/// `key=value`.
pub open spec fn entry(k: Seq<char>, v: Seq<char>) -> Seq<char> {
    k + seq!['='] + v
}

pub fn entry_string(k: &str, v: &str) -> (res: String)
    ensures
        res@ == entry(k@, v@),
{
    let mut s = String::from_str(k);
    s.append("=");
    proof {
        reveal_strlit("=");
    }
    s.append(v);
    s
}

/// The `key=value` pairs of environment entries; entries without `=` are skipped.
pub open spec fn env_pairs(entries: Seq<Seq<char>>) -> Seq<(Seq<char>, Seq<char>)>
    decreases entries.len(),
{
    if entries.len() == 0 {
        Seq::empty()
    } else {
        let r = env_pairs(entries.drop_last());
        match split_once(entries.last(), '=') {
            Some(p) => r.push(p),
            None => r,
        }
    }
}

/// The value last given to `k`.
pub open spec fn last_value(pairs: Seq<(Seq<char>, Seq<char>)>, k: Seq<char>) -> Option<Seq<char>>
    decreases pairs.len(),
{
    if pairs.len() == 0 {
        None
    } else if pairs.last().0 == k {
        Some(pairs.last().1)
    } else {
        last_value(pairs.drop_last(), k)
    }
}

/// `order` followed by each key of `keys` not seen before.
pub open spec fn add_new_keys(order: Seq<Seq<char>>, keys: Seq<Seq<char>>) -> Seq<Seq<char>>
    decreases keys.len(),
{
    if keys.len() == 0 {
        order
    } else {
        let o = add_new_keys(order, keys.drop_last());
        if o.contains(keys.last()) {
            o
        } else {
            o.push(keys.last())
        }
    }
}

pub open spec fn keys_of(pairs: Seq<(Seq<char>, Seq<char>)>) -> Seq<Seq<char>> {
    pairs.map_values(|p: (Seq<char>, Seq<char>)| p.0)
}

/// The environment after an `ENV`: existing keys keep their places, new keys
/// follow in the order they are set, and each key has the value set last.
pub open spec fn apply_env_spec(
    env: Option<Seq<Seq<char>>>,
    vars: Seq<(Seq<char>, Seq<char>)>,
) -> Seq<Seq<char>> {
    let existing = match env {
        Some(e) => env_pairs(e),
        None => Seq::empty(),
    };
    let all = existing + vars;
    let order = add_new_keys(keys_of(existing), keys_of(vars));
    order.map_values(|k: Seq<char>| entry(k, last_value(all, k).unwrap()))
}

proof fn lemma_last_value_some(pairs: Seq<(Seq<char>, Seq<char>)>, k: Seq<char>)
    ensures
        keys_of(pairs).contains(k) ==> last_value(pairs, k) is Some,
    decreases pairs.len(),
{
    if pairs.len() > 0 {
        lemma_last_value_some(pairs.drop_last(), k);
        if keys_of(pairs).contains(k) && pairs.last().0 != k {
            let i = choose|i: int| 0 <= i < keys_of(pairs).len() && keys_of(pairs)[i] == k;
            assert(keys_of(pairs.drop_last())[i] == k);
        }
    }
}

proof fn lemma_add_new_keys_contains(order: Seq<Seq<char>>, keys: Seq<Seq<char>>, k: Seq<char>)
    ensures
        add_new_keys(order, keys).contains(k) ==> order.contains(k) || keys.contains(k),
    decreases keys.len(),
{
    if keys.len() > 0 {
        lemma_add_new_keys_contains(order, keys.drop_last(), k);
        let o = add_new_keys(order, keys.drop_last());
        if add_new_keys(order, keys).contains(k) && !o.contains(k) {
            assert(keys[keys.len() - 1] == k);
        }
        if keys.drop_last().contains(k) {
            let i = choose|i: int| 0 <= i < keys.drop_last().len() && keys.drop_last()[i] == k;
            assert(keys[i] == k);
        }
    }
}

fn seq_contains_text(v: &Vec<Vec<char>>, k: &Vec<char>) -> (res: bool)
    ensures
        res == v.deep_view().contains(k@),
{
    broadcast use lemma_char_vec_deep_view;

    let mut i: usize = 0;
    while i < v.len()
        invariant
            i <= v.len(),
            forall|j: int| 0 <= j < i ==> v.deep_view()[j] != k@,
        decreases v.len() - i,
    {
        let a = string_of(&v[i]);
        let b = string_of(k);
        assert(v@[i as int].deep_view() == v@[i as int]@);
        if str_eq(a.as_str(), b.as_str()) {
            assert(v.deep_view()[i as int] == k@);
            return true;
        }
        i = i + 1;
    }
    false
}

fn lookup_last(pairs: &Vec<(Vec<char>, Vec<char>)>, k: &Vec<char>) -> (res: Option<Vec<char>>)
    ensures
        res.deep_view() == last_value(pairs.deep_view(), k@),
{
    broadcast use lemma_char_vec_deep_view;

    let mut i: usize = pairs.len();
    assert(pairs.deep_view().take(i as int) =~= pairs.deep_view());
    while i > 0
        invariant
            i <= pairs.len(),
            last_value(pairs.deep_view(), k@) == last_value(pairs.deep_view().take(i as int), k@),
        decreases i,
    {
        let a = string_of(&pairs[i - 1].0);
        let b = string_of(k);
        assert(pairs.deep_view().take(i as int).last() == pairs.deep_view()[i - 1]);
        assert(pairs@[i - 1].0.deep_view() == pairs@[i - 1].0@);
        assert(pairs@[i - 1].1.deep_view() == pairs@[i - 1].1@);
        if str_eq(a.as_str(), b.as_str()) {
            let v = crate::text::slice_chars(&pairs[i - 1].1, 0, pairs[i - 1].1.len());
            assert(v@ =~= pairs@[i - 1].1@);
            assert(v.deep_view() == v@);
            return Some(v);
        }
        assert(pairs.deep_view().take(i as int).drop_last() =~= pairs.deep_view().take(i - 1));
        i = i - 1;
    }
    None
}

/// The environment entries after an `ENV` instruction (`apply_env`).
pub fn apply_env(env: &Option<Vec<String>>, vars: &Vec<(String, String)>) -> (res: Vec<String>)
    ensures
        res.deep_view() == apply_env_spec(env.deep_view(), vars.deep_view()),
{
    broadcast use lemma_char_vec_deep_view;

    let ghost existing_spec = match env.deep_view() {
        Some(e) => env_pairs(e),
        None => Seq::empty(),
    };
    let mut all: Vec<(Vec<char>, Vec<char>)> = Vec::new();
    let mut order: Vec<Vec<char>> = Vec::new();
    match env {
        Some(entries) => {
            let mut i: usize = 0;
            while i < entries.len()
                invariant
                    i <= entries.len(),
                    all.deep_view() == env_pairs(entries.deep_view().take(i as int)),
                    order.deep_view() == keys_of(all.deep_view()),
                decreases entries.len() - i,
            {
                let e = chars_of(entries[i].as_str());
                assert(entries.deep_view().take(i + 1).drop_last() =~= entries.deep_view().take(
                    i as int,
                ));
                assert(entries.deep_view().take(i + 1).last() == e@);
                let ghost before = all.deep_view();
                let ghost before_keys = order.deep_view();
                match split_once_chars(&e, '=') {
                    Some((k, v)) => {
                        let k2 = crate::text::slice_chars(&k, 0, k.len());
                        assert(k2@ =~= k@);
                        assert(k2.deep_view() == k2@ && k.deep_view() == k@ && v.deep_view() == v@);
                        order.push(k2);
                        all.push((k, v));
                        assert(order.deep_view() =~= before_keys.push(k2@));
                        assert(all.deep_view() =~= before.push(split_once(e@, '=').unwrap()));
                        assert(order.deep_view() =~= keys_of(all.deep_view()));
                    },
                    None => {},
                }
                i = i + 1;
            }
            assert(entries.deep_view().take(entries.len() as int) =~= entries.deep_view());
        },
        None => {
            assert(all.deep_view() =~= Seq::<(Seq<char>, Seq<char>)>::empty());
            assert(order.deep_view() =~= keys_of(all.deep_view()));
        },
    }
    assert(all.deep_view() == existing_spec);
    let ghost existing_keys = order.deep_view();
    let mut j: usize = 0;
    while j < vars.len()
        invariant
            j <= vars.len(),
            all.deep_view() =~= existing_spec + vars.deep_view().take(j as int),
            order.deep_view() == add_new_keys(existing_keys, keys_of(vars.deep_view().take(j as int))),
            existing_keys == keys_of(existing_spec),
        decreases vars.len() - j,
    {
        let k = chars_of(vars[j].0.as_str());
        let v = chars_of(vars[j].1.as_str());
        assert(keys_of(vars.deep_view().take(j + 1)).drop_last() =~= keys_of(vars.deep_view().take(j as int)));
        assert(keys_of(vars.deep_view().take(j + 1)).last() == k@);
        let present = seq_contains_text(&order, &k);
        let ghost before_order = order.deep_view();
        if !present {
            let k2 = crate::text::slice_chars(&k, 0, k.len());
            assert(k2@ =~= k@);
            assert(k2.deep_view() == k2@);
            order.push(k2);
            assert(order.deep_view() =~= before_order.push(k@));
        }
        let ghost before_all = all.deep_view();
        assert(k.deep_view() == k@ && v.deep_view() == v@);
        all.push((k, v));
        assert(all.deep_view() =~= before_all.push(vars.deep_view()[j as int]));
        j = j + 1;
    }
    assert(vars.deep_view().take(vars.len() as int) =~= vars.deep_view());
    let ghost allv = all.deep_view();
    let ghost ord = order.deep_view();
    let mut res: Vec<String> = Vec::new();
    let mut m: usize = 0;
    while m < order.len()
        invariant
            allv == all.deep_view(),
            ord == order.deep_view(),
            allv == existing_spec + vars.deep_view(),
            ord == add_new_keys(keys_of(existing_spec), keys_of(vars.deep_view())),
            m <= order.len(),
            res.deep_view() =~= ord.take(m as int).map_values(
                |k: Seq<char>| entry(k, last_value(allv, k).unwrap()),
            ),
        decreases order.len() - m,
    {
        proof {
            lemma_add_new_keys_contains(keys_of(existing_spec), keys_of(vars.deep_view()), ord[m as int]);
            assert(ord.contains(ord[m as int]));
            if keys_of(existing_spec).contains(ord[m as int]) {
                let i = choose|i: int| 0 <= i < keys_of(existing_spec).len() && keys_of(existing_spec)[i] == ord[m as int];
                assert(keys_of(allv)[i] == ord[m as int]);
                assert(keys_of(allv).contains(ord[m as int]));
            } else {
                let i = choose|i: int| 0 <= i < keys_of(vars.deep_view()).len() && keys_of(vars.deep_view())[i] == ord[m as int];
                assert(keys_of(allv)[existing_spec.len() + i] == ord[m as int]);
                assert(keys_of(allv).contains(ord[m as int]));
            }
            lemma_last_value_some(allv, ord[m as int]);
        }
        assert(order@[m as int].deep_view() == order@[m as int]@);
        let value = lookup_last(&all, &order[m]);
        let ghost want = last_value(allv, ord[m as int]).unwrap();
        let ghost vd = value.deep_view();
        assert(vd is Some);
        let v = match value {
            Some(v) => {
                assert(v.deep_view() == v@);
                assert(vd == Some(v@));
                v
            },
            None => Vec::new(),
        };
        assert(v@ == want);
        let ks = string_of(&order[m]);
        let vs = string_of(&v);
        let e = entry_string(ks.as_str(), vs.as_str());
        let ghost before = res.deep_view();
        res.push(e);
        assert(ks@ == ord[m as int]);
        assert(res.deep_view() =~= before.push(entry(ord[m as int], want)));
        m = m + 1;
    }
    res
}


/// Sets `k` to `v` in a label map held as pairs: an existing key keeps its place.
/// Whether a label has the name `k`.
pub open spec fn name_is(k: Seq<char>) -> spec_fn((Seq<char>, Seq<char>)) -> bool {
    |p: (Seq<char>, Seq<char>)| p.0 == k
}

pub open spec fn label_insert(
    labels: Seq<(Seq<char>, Seq<char>)>,
    k: Seq<char>,
    v: Seq<char>,
) -> Seq<(Seq<char>, Seq<char>)> {
    match first_where(labels, name_is(k)) {
        Some(i) => labels.update(i, (k, v)),
        None => labels.push((k, v)),
    }
}

/// The labels after a `LABEL`: each name set to its value, in order.
pub open spec fn apply_labels_spec(
    labels: Seq<(Seq<char>, Seq<char>)>,
    items: Seq<(Seq<char>, Seq<char>)>,
) -> Seq<(Seq<char>, Seq<char>)>
    decreases items.len(),
{
    if items.len() == 0 {
        labels
    } else {
        let l = apply_labels_spec(labels, items.drop_last());
        label_insert(l, items.last().0, items.last().1)
    }
}

/// No two entries share a name.
pub open spec fn names_distinct(s: Seq<(Seq<char>, Seq<char>)>) -> bool {
    forall|i: int, j: int| 0 <= i < j < s.len() ==> (#[trigger] s[i]).0 != (#[trigger] s[j]).0
}

proof fn lemma_last_value_at(s: Seq<(Seq<char>, Seq<char>)>, k: Seq<char>, i: int)
    requires
        names_distinct(s),
        0 <= i < s.len(),
        s[i].0 == k,
    ensures
        last_value(s, k) == Some(s[i].1),
    decreases s.len(),
{
    if i < s.len() - 1 {
        assert(s.last().0 != k) by {
            assert(s[i].0 != s[s.len() - 1].0);
        }
        let d = s.drop_last();
        assert(names_distinct(d)) by {
            assert forall|a: int, b: int| 0 <= a < b < d.len() implies (#[trigger] d[a]).0 != (#[trigger] d[b]).0 by {
                assert(d[a] == s[a] && d[b] == s[b]);
            }
        }
        assert(d[i] == s[i]);
        lemma_last_value_at(d, k, i);
    }
}

proof fn lemma_last_value_absent(s: Seq<(Seq<char>, Seq<char>)>, k: Seq<char>)
    requires
        forall|i: int| 0 <= i < s.len() ==> (#[trigger] s[i]).0 != k,
    ensures
        last_value(s, k) is None,
    decreases s.len(),
{
    if s.len() > 0 {
        let d = s.drop_last();
        assert forall|i: int| 0 <= i < d.len() implies (#[trigger] d[i]).0 != k by {
            assert(d[i] == s[i]);
        }
        lemma_last_value_absent(d, k);
        assert(s[s.len() - 1] == s.last());
    }
}

proof fn lemma_first_where_none<T>(s: Seq<T>, p: spec_fn(T) -> bool)
    requires
        first_where(s, p) is None,
    ensures
        forall|i: int| 0 <= i < s.len() ==> !p(#[trigger] s[i]),
    decreases s.len(),
{
    if s.len() > 0 {
        lemma_first_where_none(s.drop_first(), p);
        assert forall|i: int| 0 <= i < s.len() implies !p(#[trigger] s[i]) by {
            if i > 0 {
                assert(s[i] == s.drop_first()[i - 1]);
            }
        }
    }
}

/// Setting one label keeps names distinct, gives that name its new value, and
/// leaves every other name as it was.
proof fn lemma_label_insert(s: Seq<(Seq<char>, Seq<char>)>, kk: Seq<char>, vv: Seq<char>, k: Seq<char>)
    requires
        names_distinct(s),
    ensures
        names_distinct(label_insert(s, kk, vv)),
        last_value(label_insert(s, kk, vv), k) == if k == kk {
            Some(vv)
        } else {
            last_value(s, k)
        },
{
    let p = name_is(kk);
    let r = label_insert(s, kk, vv);
    match first_where(s, p) {
        Some(i) => {
            crate::order::lemma_first_where_some(s, p);
            assert(r == s.update(i, (kk, vv)));
            assert(names_distinct(r)) by {
                assert forall|a: int, b: int| 0 <= a < b < r.len() implies (#[trigger] r[a]).0 != (#[trigger] r[b]).0 by {
                    assert(s[a].0 != s[b].0);
                }
            }
            if k == kk {
                lemma_last_value_at(r, k, i);
            } else if exists|j: int| 0 <= j < s.len() && (#[trigger] s[j]).0 == k {
                let j = choose|j: int| 0 <= j < s.len() && (#[trigger] s[j]).0 == k;
                lemma_last_value_at(s, k, j);
                assert(r[j] == s[j]);
                lemma_last_value_at(r, k, j);
            } else {
                lemma_last_value_absent(s, k);
                assert forall|j: int| 0 <= j < r.len() implies (#[trigger] r[j]).0 != k by {
                    if j != i {
                        assert(r[j] == s[j]);
                    }
                }
                lemma_last_value_absent(r, k);
            }
        },
        None => {
            lemma_first_where_none(s, p);
            assert(r == s.push((kk, vv)));
            assert(r.drop_last() =~= s);
            assert(names_distinct(r)) by {
                assert forall|a: int, b: int| 0 <= a < b < r.len() implies (#[trigger] r[a]).0 != (#[trigger] r[b]).0 by {
                    assert(r[a] == s[a]);
                    if b < s.len() {
                        assert(r[b] == s[b]);
                    } else {
                        assert(!p(s[a]));
                    }
                }
            }
        },
    }
}

/// `LABEL` works like setting entries of a map: on labels whose names are
/// distinct, the result has distinct names, and each name holds the value
/// given to it last, by the instruction if it names it (so an inherited value
/// is overridden), else the inherited one.
pub proof fn law_label_last_value_wins(
    labels: Seq<(Seq<char>, Seq<char>)>,
    items: Seq<(Seq<char>, Seq<char>)>,
    k: Seq<char>,
)
    requires
        names_distinct(labels),
    ensures
        names_distinct(apply_labels_spec(labels, items)),
        last_value(apply_labels_spec(labels, items), k) == last_value(labels + items, k),
        (exists|i: int| 0 <= i < items.len() && (#[trigger] items[i]).0 == k) ==> exists|j: int|
            0 <= j < apply_labels_spec(labels, items).len() && #[trigger] apply_labels_spec(labels, items)[j]
                == (k, last_value(items, k).unwrap()),
    decreases items.len(),
{
    let r = apply_labels_spec(labels, items);
    if items.len() == 0 {
        assert(labels + items =~= labels);
    } else {
        let d = items.drop_last();
        law_label_last_value_wins(labels, d, k);
        let prev = apply_labels_spec(labels, d);
        lemma_label_insert(prev, items.last().0, items.last().1, k);
        assert((labels + items).drop_last() =~= labels + d);
        assert((labels + items).last() == items.last());
    }
    assert(names_distinct(r));
    if exists|i: int| 0 <= i < items.len() && (#[trigger] items[i]).0 == k {
        let i = choose|i: int| 0 <= i < items.len() && (#[trigger] items[i]).0 == k;
        assert(keys_of(items)[i] == k);
        lemma_last_value_some(items, k);
        lemma_last_value_concat(labels, items, k);
        let v = last_value(items, k).unwrap();
        assert(last_value(r, k) == Some(v));
        lemma_last_value_found(r, k);
    }
}

proof fn lemma_last_value_concat(a: Seq<(Seq<char>, Seq<char>)>, b: Seq<(Seq<char>, Seq<char>)>, k: Seq<char>)
    requires
        last_value(b, k) is Some,
    ensures
        last_value(a + b, k) == last_value(b, k),
    decreases b.len(),
{
    if b.len() > 0 {
        assert((a + b).drop_last() =~= a + b.drop_last());
        assert((a + b).last() == b.last());
        if b.last().0 != k {
            lemma_last_value_concat(a, b.drop_last(), k);
        }
    }
}

proof fn lemma_last_value_found(s: Seq<(Seq<char>, Seq<char>)>, k: Seq<char>)
    requires
        last_value(s, k) is Some,
    ensures
        exists|j: int| 0 <= j < s.len() && #[trigger] s[j] == (k, last_value(s, k).unwrap()),
    decreases s.len(),
{
    if s.last().0 == k {
        assert(s[s.len() - 1] == (k, last_value(s, k).unwrap()));
    } else {
        lemma_last_value_found(s.drop_last(), k);
        let j = choose|j: int| 0 <= j < s.drop_last().len() && #[trigger] s.drop_last()[j] == (k, last_value(s.drop_last(), k).unwrap());
        assert(s[j] == s.drop_last()[j]);
    }
}

/// The labels after a `LABEL` instruction (`apply_labels`).
pub fn apply_labels(labels: &Option<Vec<(String, String)>>, items: &Vec<(String, String)>) -> (res:
    Vec<(String, String)>)
    ensures
        res.deep_view() == apply_labels_spec(
            match labels.deep_view() {
                Some(l) => l,
                None => Seq::empty(),
            },
            items.deep_view(),
        ),
{
    let ghost start = match labels.deep_view() {
        Some(l) => l,
        None => Seq::empty(),
    };
    let mut out: Vec<(String, String)> = match labels {
        Some(l) => crate::text::clone_pairs(l),
        None => Vec::new(),
    };
    assert(out.deep_view() =~= start);
    let mut j: usize = 0;
    while j < items.len()
        invariant
            j <= items.len(),
            out.deep_view() == apply_labels_spec(start, items.deep_view().take(j as int)),
        decreases items.len() - j,
    {
        assert(items.deep_view().take(j + 1).drop_last() =~= items.deep_view().take(j as int));
        let ghost before = out.deep_view();
        let ghost pred = name_is(items@[j as int].0@);
        let mut i: usize = 0;
        while i < out.len() && !str_eq(out[i].0.as_str(), items[j].0.as_str())
            invariant
                i <= out.len(),
                before == out.deep_view(),
                pred == name_is(items@[j as int].0@),
                forall|k: int| 0 <= k < i ==> !pred(#[trigger] before[k]),
                j < items.len(),
            decreases out.len() - i,
        {
            i = i + 1;
        }
        let found = i < out.len();
        proof {
            crate::order::lemma_first_where(before, pred, i as int);
        }
        let k = items[j].0.clone();
        let v = items[j].1.clone();
        if found {
            out.set(i, (k, v));
            assert(out.deep_view() =~= before.update(i as int, (items@[j as int].0@, items@[j as int].1@)));
        } else {
            out.push((k, v));
            assert(out.deep_view() =~= before.push((items@[j as int].0@, items@[j as int].1@)));
        }
        assert(items.deep_view().take(j + 1).last() == (items@[j as int].0@, items@[j as int].1@));
        j = j + 1;
    }
    assert(items.deep_view().take(items.len() as int) =~= items.deep_view());
    out
}

/// The command a `CMD` or `ENTRYPOINT` sets: the exec array, or the shell text
/// run by `/bin/sh -c`.
pub open spec fn command_value_spec(c: CommandExprView) -> Seq<Seq<char>> {
    match c {
        CommandExprView::Exec(items) => items,
        CommandExprView::Shell(text) => seq!["/bin/sh"@, "-c"@, text],
    }
}

pub fn command_value(c: &CommandExpr) -> (res: Vec<String>)
    ensures
        res.deep_view() == command_value_spec(c@),
{
    match c {
        CommandExpr::Exec(items) => clone_strings(items),
        CommandExpr::Shell(text) => {
            let mut v: Vec<String> = Vec::new();
            v.push(String::from_str("/bin/sh"));
            v.push(String::from_str("-c"));
            v.push(text.clone());
            assert(v.deep_view() =~= seq!["/bin/sh"@, "-c"@, text@]);
            v
        },
    }
}

/// How a command is written in the image history: exec items quoted as `{:?}`
/// and joined with `", "`, or the shell text.
pub open spec fn command_text_spec(c: CommandExprView) -> Seq<char> {
    match c {
        CommandExprView::Exec(items) => join(
            items.map_values(|s: Seq<char>| debug_str(s)),
            ", "@,
        ),
        CommandExprView::Shell(text) => text,
    }
}

pub fn command_text(c: &CommandExpr) -> (res: String)
    ensures
        res@ == command_text_spec(c@),
{
    match c {
        CommandExpr::Exec(items) => {
            let mut quoted: Vec<String> = Vec::new();
            let mut i: usize = 0;
            while i < items.len()
                invariant
                    i <= items.len(),
                    quoted.deep_view() =~= items.deep_view().take(i as int).map_values(
                        |s: Seq<char>| debug_str(s),
                    ),
                decreases items.len() - i,
            {
                let ghost before = quoted.deep_view();
                quoted.push(debug_quoted(items[i].as_str()));
                assert(quoted.deep_view() =~= before.push(debug_str(items@[i as int]@)));
                i = i + 1;
            }
            assert(items.deep_view().take(items.len() as int) =~= items.deep_view());
            join_strings(&quoted, ", ")
        },
        CommandExpr::Shell(text) => text.clone(),
    }
}

/// Pairs written as `key=value` and joined with spaces.
pub open spec fn pairs_text(pairs: Seq<(Seq<char>, Seq<char>)>) -> Seq<char> {
    join(pairs.map_values(|p: (Seq<char>, Seq<char>)| entry(p.0, p.1)), " "@)
}

pub fn pairs_string(pairs: &Vec<(String, String)>) -> (res: String)
    ensures
        res@ == pairs_text(pairs.deep_view()),
{
    let mut parts: Vec<String> = Vec::new();
    let mut i: usize = 0;
    while i < pairs.len()
        invariant
            i <= pairs.len(),
            parts.deep_view() =~= pairs.deep_view().take(i as int).map_values(
                |p: (Seq<char>, Seq<char>)| entry(p.0, p.1),
            ),
        decreases pairs.len() - i,
    {
        let ghost before = parts.deep_view();
        parts.push(entry_string(pairs[i].0.as_str(), pairs[i].1.as_str()));
        assert(parts.deep_view() =~= before.push(entry(pairs@[i as int].0@, pairs@[i as int].1@)));
        i = i + 1;
    }
    assert(pairs.deep_view().take(pairs.len() as int) =~= pairs.deep_view());
    join_strings(&parts, " ")
}

/// ASCII upper-casing of one character.
pub open spec fn upper(c: char) -> char {
    if 'a' <= c && c <= 'z' {
        ((c as u32) - 32) as char
    } else {
        c
    }
}

pub fn upper_string(s: &str) -> (res: String)
    ensures
        res@ == s@.map_values(|c: char| upper(c)),
{
    let v = chars_of(s);
    let mut out: Vec<char> = Vec::new();
    let mut i: usize = 0;
    while i < v.len()
        invariant
            i <= v.len(),
            out@ =~= v@.take(i as int).map_values(|c: char| upper(c)),
        decreases v.len() - i,
    {
        let c = v[i];
        if 'a' <= c && c <= 'z' {
            let b = (c as u8) - 32;
            assert(b == (c as u32) - 32);
            out.push(b as char);
        } else {
            out.push(c);
        }
        i = i + 1;
    }
    assert(v@.take(v.len() as int) =~= v@);
    string_of(&out)
}

/// The ports an `EXPOSE` sets: each word, with `/tcp` added when it names no protocol.
pub open spec fn expose_ports_spec(args: Seq<char>) -> Seq<Seq<char>> {
    tokens(args, Sep::Whitespace).map_values(
        |v: Seq<char>|
            if v.contains('/') {
                v
            } else {
                v + "/tcp"@
            },
    )
}

pub fn expose_ports(args: &str) -> (res: Vec<String>)
    ensures
        res.deep_view() == expose_ports_spec(args@),
{
    broadcast use lemma_char_vec_deep_view;

    let v = chars_of(args);
    let words = tokens_chars(&v, Sep::Whitespace);
    let mut out: Vec<String> = Vec::new();
    let mut i: usize = 0;
    while i < words.len()
        invariant
            i <= words.len(),
            words.deep_view() == tokens(args@, Sep::Whitespace),
            out.deep_view() =~= expose_ports_spec(args@).take(i as int),
        decreases words.len() - i,
    {
        let w = &words[i];
        assert(w.deep_view() == w@);
        let has_slash = match find_char_index(w, '/') {
            Some(_) => true,
            None => false,
        };
        proof {
            crate::text::lemma_find_char_some(w@, '/');
            if !has_slash && w@.contains('/') {
                let k = choose|k: int| 0 <= k < w@.len() && w@[k] == '/';
                crate::text::lemma_find_char_first(w@, '/', k);
            }
        }
        let s = string_of(w);
        let item = if has_slash {
            s
        } else {
            proof {
                reveal_strlit("/tcp");
            }
            concat_str(s.as_str(), "/tcp")
        };
        let ghost before = out.deep_view();
        out.push(item);
        assert(out.deep_view() =~= before.push(expose_ports_spec(args@)[i as int]));
        i = i + 1;
    }
    out
}


/// A layer that a `COPY` adds: what it copies from the build context, the
/// directory it copies into, the owner and mode it gives the files, and the
/// position of its line in the image history.
#[derive(Debug)]
pub struct CopyLayer {
    pub sources: Vec<String>,
    pub destination: String,
    pub chown: Option<String>,
    pub chmod: Option<String>,
    pub history_index: usize,
}

pub struct CopyLayerView {
    pub sources: Seq<Seq<char>>,
    pub destination: Seq<char>,
    pub chown: Option<Seq<char>>,
    pub chmod: Option<Seq<char>>,
    pub history_index: int,
}

impl View for CopyLayer {
    type V = CopyLayerView;

    open spec fn view(&self) -> CopyLayerView {
        CopyLayerView {
            sources: self.sources.deep_view(),
            destination: self.destination@,
            chown: self.chown.deep_view(),
            chmod: self.chmod.deep_view(),
            history_index: self.history_index as int,
        }
    }
}

pub open spec fn layer_views(s: Seq<CopyLayer>) -> Seq<CopyLayerView> {
    s.map_values(|l: CopyLayer| l@)
}

fn clone_layer(l: &CopyLayer) -> (res: CopyLayer)
    ensures
        res@ == l@,
{
    CopyLayer {
        sources: clone_strings(&l.sources),
        destination: l.destination.clone(),
        chown: clone_opt_string(&l.chown),
        chmod: clone_opt_string(&l.chmod),
        history_index: l.history_index,
    }
}

fn clone_layers(v: &Vec<CopyLayer>) -> (res: Vec<CopyLayer>)
    ensures
        layer_views(res@) == layer_views(v@),
{
    let mut res: Vec<CopyLayer> = Vec::new();
    let mut i: usize = 0;
    while i < v.len()
        invariant
            i <= v.len(),
            layer_views(res@) =~= layer_views(v@).take(i as int),
        decreases v.len() - i,
    {
        let ghost before = layer_views(res@);
        res.push(clone_layer(&v[i]));
        assert(layer_views(res@) =~= before.push(v@[i as int]@));
        i = i + 1;
    }
    assert(layer_views(v@).take(v.len() as int) =~= layer_views(v@));
    res
}

pub open spec fn is_dec_digit(c: char) -> bool {
    '0' <= c && c <= '9'
}

pub open spec fn is_oct_digit(c: char) -> bool {
    '0' <= c && c <= '7'
}

/// A nonempty run of decimal digits.
pub open spec fn all_decimal(s: Seq<char>) -> bool {
    s.len() > 0 && forall|j: int| 0 <= j < s.len() ==> is_dec_digit(#[trigger] s[j])
}

/// `--chown=<uid>:<gid>`: two decimal numbers around a colon.
pub open spec fn valid_chown(v: Seq<char>) -> bool {
    match split_once(v, ':') {
        Some((u, g)) => all_decimal(u) && all_decimal(g),
        None => false,
    }
}

/// `--chmod=<octal>`: one to four octal digits.
pub open spec fn valid_chmod(v: Seq<char>) -> bool {
    1 <= v.len() <= 4 && forall|j: int| 0 <= j < v.len() ==> is_oct_digit(#[trigger] v[j])
}

/// A `COPY` flag as written: `--name=value`.
pub open spec fn flag_text(f: (Seq<char>, Seq<char>)) -> Seq<char> {
    "--"@ + f.0 + "="@ + f.1
}

/// What the flags of a `COPY` ask for: the owner, the mode (the last one of
/// each counts), and the refusals for any other flag.
pub struct CopyFlagsView {
    pub chown: Option<Seq<char>>,
    pub chmod: Option<Seq<char>>,
    pub bad: Seq<Seq<char>>,
}

pub open spec fn copy_flags_spec(flags: Seq<(Seq<char>, Seq<char>)>) -> CopyFlagsView
    decreases flags.len(),
{
    if flags.len() == 0 {
        CopyFlagsView { chown: None, chmod: None, bad: Seq::empty() }
    } else {
        let r = copy_flags_spec(flags.drop_last());
        let f = flags.last();
        if f.0 == "chown"@ && valid_chown(f.1) {
            CopyFlagsView { chown: Some(f.1), ..r }
        } else if f.0 == "chmod"@ && valid_chmod(f.1) {
            CopyFlagsView { chmod: Some(f.1), ..r }
        } else {
            CopyFlagsView { bad: r.bad.push("COPY "@ + flag_text(f)), ..r }
        }
    }
}

/// Where a `COPY` puts its files: an absolute destination as written, a
/// relative one under the working directory (`/` when none is set).
pub open spec fn copy_destination_spec(wd: Option<Seq<char>>, dest: Seq<char>) -> Seq<char> {
    if dest.len() > 0 && dest[0] == '/' {
        dest
    } else {
        let base = match wd {
            Some(w) => if w.len() > 0 { w } else { "/"@ },
            None => "/"@,
        };
        if base.last() == '/' {
            base + dest
        } else {
            base + "/"@ + dest
        }
    }
}

/// The history line of a `COPY`: its flags, sources and destination.
pub open spec fn copy_line(
    flags: Seq<(Seq<char>, Seq<char>)>,
    sources: Seq<Seq<char>>,
    dest: Seq<char>,
) -> Seq<char> {
    "COPY "@ + join(
        flags.map_values(|f: (Seq<char>, Seq<char>)| flag_text(f)) + sources.push(dest),
        " "@,
    )
}

/// The effect of a `COPY` after the first `FROM`: a new layer and its history
/// line, or the refusal of each flag it cannot honour.
pub open spec fn copy_step(
    p: ProgressView,
    flags: Seq<(Seq<char>, Seq<char>)>,
    sources: Seq<Seq<char>>,
    dest: Seq<char>,
) -> ProgressView {
    let f = copy_flags_spec(flags);
    if f.bad.len() > 0 {
        ProgressView { unsupported: p.unsupported + f.bad, ..p }
    } else {
        ProgressView {
            copies: p.copies.push(
                CopyLayerView {
                    sources,
                    destination: copy_destination_spec(p.config.working_dir, dest),
                    chown: f.chown,
                    chmod: f.chmod,
                    history_index: p.history.len() as int,
                },
            ),
            history: p.history.push(copy_line(flags, sources, dest)),
            ..p
        }
    }
}

fn all_decimal_chars(s: &Vec<char>) -> (res: bool)
    ensures
        res == all_decimal(s@),
{
    if s.len() == 0 {
        return false;
    }
    let mut i: usize = 0;
    while i < s.len()
        invariant
            i <= s.len(),
            forall|j: int| 0 <= j < i ==> is_dec_digit(#[trigger] s@[j]),
        decreases s.len() - i,
    {
        if !('0' <= s[i] && s[i] <= '9') {
            return false;
        }
        i = i + 1;
    }
    true
}

fn chown_is_valid(v: &str) -> (res: bool)
    ensures
        res == valid_chown(v@),
{
    broadcast use lemma_char_vec_deep_view;

    let chars = chars_of(v);
    match split_once_chars(&chars, ':') {
        Some((u, g)) => all_decimal_chars(&u) && all_decimal_chars(&g),
        None => false,
    }
}

fn chmod_is_valid(v: &str) -> (res: bool)
    ensures
        res == valid_chmod(v@),
{
    let s = chars_of(v);
    if s.len() < 1 || s.len() > 4 {
        return false;
    }
    let mut i: usize = 0;
    while i < s.len()
        invariant
            i <= s.len(),
            s@ == v@,
            forall|j: int| 0 <= j < i ==> is_oct_digit(#[trigger] s@[j]),
        decreases s.len() - i,
    {
        if !('0' <= s[i] && s[i] <= '7') {
            assert(!is_oct_digit(v@[i as int]));
            return false;
        }
        i = i + 1;
    }
    true
}

fn flag_string(name: &str, value: &str) -> (res: String)
    ensures
        res@ == flag_text((name@, value@)),
{
    let mut t = String::from_str("--");
    t.append(name);
    t.append("=");
    t.append(value);
    proof {
        reveal_strlit("--");
        reveal_strlit("=");
    }
    t
}

/// Reads the flags of a `COPY`: the owner, the mode, and the refused flags.
fn read_copy_flags(flags: &Vec<(String, String)>) -> (res: (Option<String>, Option<String>, Vec<String>))
    ensures
        res.0.deep_view() == copy_flags_spec(flags.deep_view()).chown,
        res.1.deep_view() == copy_flags_spec(flags.deep_view()).chmod,
        res.2.deep_view() == copy_flags_spec(flags.deep_view()).bad,
{
    let mut chown: Option<String> = None;
    let mut chmod: Option<String> = None;
    let mut bad: Vec<String> = Vec::new();
    let ghost fv = flags.deep_view();
    let mut i: usize = 0;
    proof {
        reveal_strlit("chown");
        reveal_strlit("chmod");
    }
    assert(bad.deep_view() =~= Seq::<Seq<char>>::empty());
    assert(fv.take(0) =~= Seq::<(Seq<char>, Seq<char>)>::empty());
    while i < flags.len()
        invariant
            i <= flags.len(),
            fv == flags.deep_view(),
            chown.deep_view() == copy_flags_spec(fv.take(i as int)).chown,
            chmod.deep_view() == copy_flags_spec(fv.take(i as int)).chmod,
            bad.deep_view() == copy_flags_spec(fv.take(i as int)).bad,
        decreases flags.len() - i,
    {
        assert(fv.take(i + 1).drop_last() =~= fv.take(i as int));
        assert(fv.take(i + 1).last() == (flags@[i as int].0@, flags@[i as int].1@));
        let name = flags[i].0.as_str();
        let value = flags[i].1.as_str();
        if str_eq(name, "chown") && chown_is_valid(value) {
            chown = Some(flags[i].1.clone());
        } else if str_eq(name, "chmod") && chmod_is_valid(value) {
            chmod = Some(flags[i].1.clone());
        } else {
            let mut t = String::from_str("COPY ");
            proof {
                reveal_strlit("COPY ");
            }
            let f = flag_string(name, value);
            t.append(f.as_str());
            push_text(&mut bad, t);
        }
        i = i + 1;
    }
    assert(fv.take(flags.len() as int) =~= fv);
    (chown, chmod, bad)
}

/// Where a `COPY` puts its files (see [`copy_destination_spec`]).
pub fn copy_destination(wd: &Option<String>, dest: &str) -> (res: String)
    ensures
        res@ == copy_destination_spec(wd.deep_view(), dest@),
{
    proof {
        reveal_strlit("/");
    }
    if str_starts_with(dest, "/") {
        assert(dest@.take(1)[0] == dest@[0]);
        return String::from_str(dest);
    }
    assert(!(dest@.len() > 0 && dest@[0] == '/')) by {
        if dest@.len() > 0 && dest@[0] == '/' {
            assert(dest@.take(1) =~= "/"@);
        }
    }
    proof {
        reveal_strlit("");
    }
    let base = match wd {
        Some(w) => if str_eq(w.as_str(), "") {
            String::from_str("/")
        } else {
            assert(w@.len() > 0) by {
                if w@.len() == 0 {
                    assert(w@ =~= ""@);
                }
            }
            w.clone()
        },
        None => String::from_str("/"),
    };
    let ghost b = match wd.deep_view() {
        Some(w) => if w.len() > 0 { w } else { "/"@ },
        None => "/"@,
    };
    assert(base@ == b);
    assert(base@.len() > 0);
    let mut out = base.clone();
    if !str_ends_with(base.as_str(), "/") {
        assert(base@.last() != '/') by {
            if base@.last() == '/' {
                assert(base@.skip(base@.len() - 1) =~= "/"@);
            }
        }
        out.append("/");
    } else {
        assert(base@.skip(base@.len() - 1)[0] == base@.last());
    }
    out.append(dest);
    out
}

/// The history line of a `COPY` (see [`copy_line`]).
fn copy_history_line(flags: &Vec<(String, String)>, sources: &Vec<String>, dest: &str) -> (res: String)
    ensures
        res@ == copy_line(flags.deep_view(), sources.deep_view(), dest@),
{
    let ghost fv = flags.deep_view();
    let ghost ft = fv.map_values(|f: (Seq<char>, Seq<char>)| flag_text(f));
    let mut words: Vec<String> = Vec::new();
    let mut i: usize = 0;
    while i < flags.len()
        invariant
            i <= flags.len(),
            fv == flags.deep_view(),
            ft == fv.map_values(|f: (Seq<char>, Seq<char>)| flag_text(f)),
            words.deep_view() =~= ft.take(i as int),
        decreases flags.len() - i,
    {
        let ghost before = words.deep_view();
        words.push(flag_string(flags[i].0.as_str(), flags[i].1.as_str()));
        assert(words.deep_view() =~= before.push(ft[i as int]));
        i = i + 1;
    }
    let mut j: usize = 0;
    while j < sources.len()
        invariant
            j <= sources.len(),
            ft.len() == flags.len(),
            words.deep_view() =~= ft + sources.deep_view().take(j as int),
        decreases sources.len() - j,
    {
        let ghost before = words.deep_view();
        words.push(sources[j].clone());
        assert(words.deep_view() =~= before.push(sources.deep_view()[j as int]));
        j = j + 1;
    }
    assert(sources.deep_view().take(sources.len() as int) =~= sources.deep_view());
    let ghost before = words.deep_view();
    words.push(String::from_str(dest));
    assert(words.deep_view() =~= before.push(dest@));
    assert(words.deep_view() =~= ft + sources.deep_view().push(dest@));
    let joined = join_strings(&words, " ");
    prefixed("COPY ", joined.as_str())
}

/// The effect of a `COPY` after the first `FROM`.
pub fn apply_copy(p: &mut Progress, flags: &Vec<(String, String)>, sources: &Vec<String>, dest: &str)
    ensures
        final(p)@ == copy_step(old(p)@, flags.deep_view(), sources.deep_view(), dest@),
{
    let (chown, chmod, bad) = read_copy_flags(flags);
    if bad.len() > 0 {
        let ghost start = p.unsupported.deep_view();
        let ghost p0 = p@;
        let mut i: usize = 0;
        while i < bad.len()
            invariant
                i <= bad.len(),
                p.unsupported.deep_view() =~= start + bad.deep_view().take(i as int),
                p@ == (ProgressView { unsupported: p@.unsupported, ..p0 }),
            decreases bad.len() - i,
        {
            let ghost before = p.unsupported.deep_view();
            p.unsupported.push(bad[i].clone());
            assert(p.unsupported.deep_view() =~= before.push(bad.deep_view()[i as int]));
            i = i + 1;
        }
        assert(bad.deep_view().take(bad.len() as int) =~= bad.deep_view());
        assert(p@ == copy_step(old(p)@, flags.deep_view(), sources.deep_view(), dest@));
    } else {
        let layer = CopyLayer {
            sources: clone_strings(sources),
            destination: copy_destination(&p.config.working_dir, dest),
            chown,
            chmod,
            history_index: p.history.len(),
        };
        let ghost before = layer_views(p.copies@);
        p.copies.push(layer);
        assert(layer_views(p.copies@) =~= before.push(layer@));
        let line = copy_history_line(flags, sources, dest);
        push_text(&mut p.history, line);
        assert(layer@.destination == copy_destination_spec(old(p)@.config.working_dir, dest@));
        assert(layer_views(p.copies@) == old(p)@.copies.push(layer@));
        assert(p@.history == old(p)@.history.push(copy_line(flags.deep_view(), sources.deep_view(), dest@)));
    }
}

/// A shell word that stands for exactly `s`.
pub open spec fn shell_word(s: Seq<char>) -> Seq<char> {
    "'"@ + single_quoted(s) + "'"@
}

/// One character of a `COPY` source as the shell should see it: the glob
/// characters `*`, `?`, `[` and `]` as they are, a newline inside quotes, any
/// other character escaped with a backslash.
pub open spec fn glob_char(c: char) -> Seq<char> {
    if c == '*' || c == '?' || c == '[' || c == ']' {
        seq![c]
    } else if c == '\n' {
        seq!['\'', '\n', '\'']
    } else {
        seq!['\\', c]
    }
}

pub open spec fn glob_chars(s: Seq<char>) -> Seq<char>
    decreases s.len(),
{
    if s.len() == 0 {
        Seq::empty()
    } else {
        glob_chars(s.drop_last()) + glob_char(s.last())
    }
}

/// A `COPY` source as a shell glob, taken inside the build context: leading
/// slashes are dropped.
pub open spec fn glob_word(s: Seq<char>) -> Seq<char> {
    glob_chars(strip_slashes(s))
}

/// The `tar` options for the owner a `--chown` asked for.
pub open spec fn owner_args(chown: Option<Seq<char>>) -> Seq<char> {
    match chown {
        Some(v) => match split_once(v, ':') {
            Some((u, g)) => " --owner="@ + u + " --group="@ + g,
            None => Seq::empty(),
        },
        None => Seq::empty(),
    }
}

/// The `tar` option for the mode a `--chmod` asked for.
pub open spec fn mode_args(chmod: Option<Seq<char>>) -> Seq<char> {
    match chmod {
        Some(m) => " --mode="@ + m,
        None => Seq::empty(),
    }
}

/// The shell script that makes the uncompressed tar of a `COPY` layer: from
/// the build context, each source (a glob) is copied into the layer's
/// destination under an empty staging directory, a directory by its
/// contents; then the staging directory is archived with the owner and mode
/// the layer asks for. Any failure stops the script.
pub open spec fn copy_script_spec(
    l: CopyLayerView,
    context: Seq<char>,
    stage: Seq<char>,
    tar: Seq<char>,
) -> Seq<char> {
    let target = shell_word(stage + l.destination);
    "set -e\ncd "@ + shell_word(context) + "\nmkdir -p "@ + target + "\nfor f in "@ + join(
        l.sources.map_values(|x: Seq<char>| glob_word(x)),
        " "@,
    ) + "; do if [ -d \"$f\" ]; then cp -R -- \"$f\"/. "@ + target + "/; else cp -- \"$f\" "@
        + target + "/; fi; done\ntar -cf "@ + shell_word(tar) + owner_args(l.chown) + mode_args(
        l.chmod,
    ) + " --numeric-owner -C "@ + shell_word(stage) + " ."@
}

fn shell_word_of(s: &str) -> (res: String)
    ensures
        res@ == shell_word(s@),
{
    proof {
        reveal_strlit("'");
    }
    let q = shell_single_quote(s);
    let mut out = String::from_str("'");
    out.append(q.as_str());
    out.append("'");
    out
}

fn glob_word_of(s: &str) -> (res: String)
    ensures
        res@ == glob_word(s@),
{
    let stripped = strip_leading_slashes(s);
    let chars = chars_of(stripped.as_str());
    let mut out: Vec<char> = Vec::new();
    let mut i: usize = 0;
    while i < chars.len()
        invariant
            i <= chars.len(),
            out@ == glob_chars(chars@.take(i as int)),
        decreases chars.len() - i,
    {
        let c = chars[i];
        assert(chars@.take(i + 1).drop_last() =~= chars@.take(i as int));
        let ghost before = out@;
        if c == '*' || c == '?' || c == '[' || c == ']' {
            out.push(c);
        } else if c == '\n' {
            out.push('\'');
            out.push('\n');
            out.push('\'');
        } else {
            out.push('\\');
            out.push(c);
        }
        assert(out@ =~= before + glob_char(c));
        i = i + 1;
    }
    assert(chars@.take(chars.len() as int) =~= chars@);
    string_of(&out)
}

/// The script that makes the tar of a `COPY` layer (see [`copy_script_spec`]).
pub fn copy_layer_script(layer: &CopyLayer, context: &str, stage: &str, tar: &str) -> (res: String)
    ensures
        res@ == copy_script_spec(layer@, context@, stage@, tar@),
{
    let ghost globs = layer@.sources.map_values(|x: Seq<char>| glob_word(x));
    let mut words: Vec<String> = Vec::new();
    let mut i: usize = 0;
    while i < layer.sources.len()
        invariant
            i <= layer.sources.len(),
            globs == layer@.sources.map_values(|x: Seq<char>| glob_word(x)),
            words.deep_view() =~= globs.take(i as int),
        decreases layer.sources.len() - i,
    {
        let ghost before = words.deep_view();
        words.push(glob_word_of(layer.sources[i].as_str()));
        assert(words.deep_view() =~= before.push(globs[i as int]));
        i = i + 1;
    }
    assert(globs.take(layer.sources.len() as int) =~= globs);
    let globs_text = join_strings(&words, " ");
    let target_path = concat_str(stage, layer.destination.as_str());
    let target = shell_word_of(target_path.as_str());
    let owner = match &layer.chown {
        Some(v) => {
            let chars = chars_of(v.as_str());
            match split_once_chars(&chars, ':') {
                Some((u, g)) => {
                    proof {
                        broadcast use lemma_char_vec_deep_view;
                    }
                    let mut t = String::from_str(" --owner=");
                    t.append(string_of(&u).as_str());
                    t.append(" --group=");
                    t.append(string_of(&g).as_str());
                    t
                },
                None => String::new(),
            }
        },
        None => String::new(),
    };
    let mode = match &layer.chmod {
        Some(m) => concat_str(" --mode=", m.as_str()),
        None => String::new(),
    };
    proof {
        reveal_strlit(" --owner=");
        reveal_strlit(" --group=");
        reveal_strlit(" --mode=");
    }
    assert(owner@ == owner_args(layer@.chown));
    assert(mode@ == mode_args(layer@.chmod));
    let mut out = String::from_str("set -e\ncd ");
    out.append(shell_word_of(context).as_str());
    out.append("\nmkdir -p ");
    out.append(target.as_str());
    out.append("\nfor f in ");
    out.append(globs_text.as_str());
    out.append("; do if [ -d \"$f\" ]; then cp -R -- \"$f\"/. ");
    out.append(target.as_str());
    out.append("/; else cp -- \"$f\" ");
    out.append(target.as_str());
    out.append("/; fi; done\ntar -cf ");
    out.append(shell_word_of(tar).as_str());
    out.append(owner.as_str());
    out.append(mode.as_str());
    out.append(" --numeric-owner -C ");
    out.append(shell_word_of(stage).as_str());
    out.append(" .");
    out
}

/// A configuration with nothing set.
pub open spec fn empty_config() -> RuntimeConfigView {
    RuntimeConfigView {
        env: None,
        labels: None,
        exposed_ports: None,
        user: None,
        working_dir: None,
        cmd: None,
        entrypoint: None,
    }
}

pub fn new_runtime_config() -> (res: RuntimeConfig)
    ensures
        res@ == empty_config(),
{
    RuntimeConfig {
        env: None,
        labels: None,
        exposed_ports: None,
        user: None,
        working_dir: None,
        cmd: None,
        entrypoint: None,
    }
}

/// The parts of an image configuration that a metadata-only build changes: the
/// runtime configuration and the `created_by` lines of the history.
#[derive(Debug)]
pub struct ImageConfigModel {
    pub config: Option<RuntimeConfig>,
    pub history: Option<Vec<String>>,
    /// The layers the build adds with `COPY`, in order.
    pub copy_layers: Vec<CopyLayer>,
}

pub struct ImageConfigModelView {
    pub config: Option<RuntimeConfigView>,
    pub history: Option<Seq<Seq<char>>>,
    pub copy_layers: Seq<CopyLayerView>,
}

impl View for ImageConfigModel {
    type V = ImageConfigModelView;

    open spec fn view(&self) -> ImageConfigModelView {
        ImageConfigModelView {
            config: match self.config {
                Some(c) => Some(c@),
                None => None,
            },
            history: self.history.deep_view(),
            copy_layers: layer_views(self.copy_layers@),
        }
    }
}

/// What has been gathered while walking through the instructions.
#[derive(Debug)]
pub struct Progress {
    pub saw_from: bool,
    pub unsupported: Vec<String>,
    pub config: RuntimeConfig,
    pub history: Vec<String>,
    pub copies: Vec<CopyLayer>,
}

pub struct ProgressView {
    pub saw_from: bool,
    pub unsupported: Seq<Seq<char>>,
    pub config: RuntimeConfigView,
    pub history: Seq<Seq<char>>,
    pub copies: Seq<CopyLayerView>,
}

impl View for Progress {
    type V = ProgressView;

    open spec fn view(&self) -> ProgressView {
        ProgressView {
            saw_from: self.saw_from,
            unsupported: self.unsupported.deep_view(),
            config: self.config@,
            history: self.history.deep_view(),
            copies: layer_views(self.copies@),
        }
    }
}

pub open spec fn upper_all(s: Seq<char>) -> Seq<char> {
    s.map_values(|c: char| upper(c))
}

/// `EXPOSE`, `USER` and `WORKDIR` change the configuration; any other such
/// instruction is unsupported.
pub open spec fn misc_step(p: ProgressView, name: Seq<char>, args: Seq<char>) -> ProgressView {
    if name == "EXPOSE"@ {
        ProgressView {
            config: RuntimeConfigView { exposed_ports: Some(expose_ports_spec(args)), ..p.config },
            history: p.history.push("EXPOSE "@ + trim(args)),
            ..p
        }
    } else if name == "USER"@ {
        ProgressView {
            config: RuntimeConfigView { user: Some(trim(args)), ..p.config },
            history: p.history.push("USER "@ + trim(args)),
            ..p
        }
    } else if name == "WORKDIR"@ {
        ProgressView {
            config: RuntimeConfigView { working_dir: Some(trim(args)), ..p.config },
            history: p.history.push("WORKDIR "@ + trim(args)),
            ..p
        }
    } else {
        ProgressView { unsupported: p.unsupported.push(name + " "@ + trim(args)), ..p }
    }
}

/// The effect of one instruction. Only the first `FROM` is accepted; nothing
/// before it counts.
pub open spec fn step(p: ProgressView, ins: InstrView) -> ProgressView {
    match ins {
        InstrView::From(_) => if !p.saw_from {
            ProgressView { saw_from: true, ..p }
        } else {
            ProgressView { unsupported: p.unsupported.push("multi-stage FROM"@), ..p }
        },
        InstrView::Arg(name) => if p.saw_from {
            ProgressView { unsupported: p.unsupported.push("ARG "@ + name), ..p }
        } else {
            p
        },
        InstrView::Env(vars) => if p.saw_from {
            ProgressView {
                config: RuntimeConfigView {
                    env: Some(apply_env_spec(p.config.env, vars)),
                    ..p.config
                },
                history: p.history.push("ENV "@ + pairs_text(vars)),
                ..p
            }
        } else {
            p
        },
        InstrView::Label(items) => if p.saw_from {
            ProgressView {
                config: RuntimeConfigView {
                    labels: Some(
                        apply_labels_spec(
                            match p.config.labels {
                                Some(l) => l,
                                None => Seq::empty(),
                            },
                            items,
                        ),
                    ),
                    ..p.config
                },
                history: p.history.push("LABEL "@ + pairs_text(items)),
                ..p
            }
        } else {
            p
        },
        InstrView::Cmd(c) => if p.saw_from {
            ProgressView {
                config: RuntimeConfigView { cmd: Some(command_value_spec(c)), ..p.config },
                history: p.history.push("CMD "@ + command_text_spec(c)),
                ..p
            }
        } else {
            p
        },
        InstrView::Entrypoint(c) => if p.saw_from {
            ProgressView {
                config: RuntimeConfigView { entrypoint: Some(command_value_spec(c)), ..p.config },
                history: p.history.push("ENTRYPOINT "@ + command_text_spec(c)),
                ..p
            }
        } else {
            p
        },
        InstrView::Misc(name, args) => if p.saw_from {
            misc_step(p, upper_all(name), args)
        } else {
            p
        },
        InstrView::Run(c) => if p.saw_from {
            ProgressView { unsupported: p.unsupported.push("RUN "@ + command_text_spec(c)), ..p }
        } else {
            p
        },
        InstrView::Copy(flags, sources, dest) => if p.saw_from {
            copy_step(p, flags, sources, dest)
        } else {
            p
        },
    }
}

/// The effect of a list of instructions, in order.
pub open spec fn run_steps(instrs: Seq<InstrView>, p: ProgressView) -> ProgressView
    decreases instrs.len(),
{
    if instrs.len() == 0 {
        p
    } else {
        step(run_steps(instrs.drop_last(), p), instrs.last())
    }
}

pub open spec fn start_progress(m: ImageConfigModelView) -> ProgressView {
    ProgressView {
        saw_from: false,
        unsupported: Seq::empty(),
        config: match m.config {
            Some(c) => c,
            None => empty_config(),
        },
        history: match m.history {
            Some(h) => h,
            None => Seq::empty(),
        },
        copies: m.copy_layers,
    }
}

/// The error of a Dockerfile with unsupported instructions.
pub open spec fn unsupported_message(items: Seq<Seq<char>>) -> Seq<char> {
    "native builder currently supports only metadata-changing Dockerfiles. Unsupported instructions: "@
        + join(items, ", "@)
}

/// A metadata-only build: the new configuration, or the error naming every
/// unsupported instruction.
pub open spec fn apply_spec(instrs: Seq<InstrView>, m: ImageConfigModelView) -> Result<
    ImageConfigModelView,
    Seq<char>,
> {
    let p = run_steps(instrs, start_progress(m));
    if p.unsupported.len() > 0 {
        Err(unsupported_message(p.unsupported))
    } else {
        Ok(
            ImageConfigModelView {
                config: Some(p.config),
                history: Some(p.history),
                copy_layers: p.copies,
            },
        )
    }
}

fn push_text(v: &mut Vec<String>, s: String)
    ensures
        final(v).deep_view() == old(v).deep_view().push(s@),
{
    let ghost before = v.deep_view();
    v.push(s);
    assert(v.deep_view() =~= before.push(s@));
}

fn prefixed(prefix: &str, rest: &str) -> (res: String)
    ensures
        res@ == prefix@ + rest@,
{
    concat_str(prefix, rest)
}

/// Applies `EXPOSE`, `USER`, `WORKDIR`, or records another instruction as unsupported.
pub fn apply_misc(p: &mut Progress, name: &str, args: &str)
    ensures
        final(p)@ == misc_step(old(p)@, upper_all(name@), args@),
{
    let upper_name = upper_string(name);
    let trimmed = trim_str(args);
    proof {
        reveal_strlit("EXPOSE");
        reveal_strlit("USER");
        reveal_strlit("WORKDIR");
    }
    if str_eq(upper_name.as_str(), "EXPOSE") {
        p.config.exposed_ports = Some(expose_ports(args));
        push_text(&mut p.history, prefixed("EXPOSE ", trimmed.as_str()));
    } else if str_eq(upper_name.as_str(), "USER") {
        p.config.user = Some(trimmed.clone());
        push_text(&mut p.history, prefixed("USER ", trimmed.as_str()));
    } else if str_eq(upper_name.as_str(), "WORKDIR") {
        p.config.working_dir = Some(trimmed.clone());
        push_text(&mut p.history, prefixed("WORKDIR ", trimmed.as_str()));
    } else {
        let mut t = upper_name.clone();
        t.append(" ");
        t.append(trimmed.as_str());
        push_text(&mut p.unsupported, t);
    }
}

/// The effect of one instruction on what has been gathered.
pub fn apply_instruction(p: &mut Progress, ins: &Instr)
    ensures
        final(p)@ == step(old(p)@, ins@),
{
    match ins {
        Instr::From(_) => {
            if !p.saw_from {
                p.saw_from = true;
            } else {
                push_text(&mut p.unsupported, String::from_str("multi-stage FROM"));
            }
        },
        Instr::Arg(name) => {
            if p.saw_from {
                push_text(&mut p.unsupported, prefixed("ARG ", name.as_str()));
            }
        },
        Instr::Env(vars) => {
            if p.saw_from {
                p.config.env = Some(apply_env(&p.config.env, vars));
                let t = pairs_string(vars);
                push_text(&mut p.history, prefixed("ENV ", t.as_str()));
            }
        },
        Instr::Label(items) => {
            if p.saw_from {
                p.config.labels = Some(apply_labels(&p.config.labels, items));
                let t = pairs_string(items);
                push_text(&mut p.history, prefixed("LABEL ", t.as_str()));
            }
        },
        Instr::Cmd(c) => {
            if p.saw_from {
                p.config.cmd = Some(command_value(c));
                let t = command_text(c);
                push_text(&mut p.history, prefixed("CMD ", t.as_str()));
            }
        },
        Instr::Entrypoint(c) => {
            if p.saw_from {
                p.config.entrypoint = Some(command_value(c));
                let t = command_text(c);
                push_text(&mut p.history, prefixed("ENTRYPOINT ", t.as_str()));
            }
        },
        Instr::Misc(name, args) => {
            if p.saw_from {
                apply_misc(p, name.as_str(), args.as_str());
            }
        },
        Instr::Run(c) => {
            if p.saw_from {
                let t = command_text(c);
                push_text(&mut p.unsupported, prefixed("RUN ", t.as_str()));
            }
        },
        Instr::Copy(flags, sources, dest) => {
            if p.saw_from {
                apply_copy(p, flags, sources, dest.as_str());
            }
        },
    }
}

/// Applies the instructions of a Dockerfile to an image configuration
/// (`FROM`, `ENV`, `LABEL`, `EXPOSE`, `USER`, `WORKDIR`, `CMD`, `ENTRYPOINT`),
/// and records one layer with its history line per `COPY`. Any other
/// instruction after the first `FROM`, or a `COPY` flag other than a
/// well-formed `--chown=<uid>:<gid>` or `--chmod=<octal>`, is refused, and then
/// the configuration is left as it was.
pub fn apply_supported_instructions(dockerfile: &Dockerfile, image_config: &mut ImageConfigModel) -> (res:
    Result<(), String>)
    ensures
        match apply_spec(dockerfile_contents(*dockerfile), old(image_config)@) {
            Ok(m) => res is Ok && final(image_config)@ == m,
            Err(msg) => res matches Err(e) && e@ == msg && final(image_config)@ == old(
                image_config,
            )@,
        },
{
    let instrs = read_instructions(dockerfile);
    let ghost iv = instr_views(instrs@);
    let ghost sp = start_progress(image_config@);
    let config = match &image_config.config {
        Some(c) => c.clone(),
        None => new_runtime_config(),
    };
    assert(config@ == sp.config);
    let history = match &image_config.history {
        Some(h) => clone_strings(h),
        None => {
            let h: Vec<String> = Vec::new();
            assert(h.deep_view() =~= Seq::<Seq<char>>::empty());
            h
        },
    };
    assert(history.deep_view() == sp.history);
    let unsupported: Vec<String> = Vec::new();
    assert(unsupported.deep_view() =~= Seq::<Seq<char>>::empty());
    let copies = clone_layers(&image_config.copy_layers);
    let mut p = Progress { saw_from: false, unsupported, config, history, copies };
    assert(p@ =~= start_progress(image_config@));
    let mut i: usize = 0;
    while i < instrs.len()
        invariant
            i <= instrs.len(),
            iv == instr_views(instrs@),
            p@ == run_steps(iv.take(i as int), start_progress(image_config@)),
        decreases instrs.len() - i,
    {
        assert(iv.take(i + 1).drop_last() =~= iv.take(i as int));
        apply_instruction(&mut p, &instrs[i]);
        i = i + 1;
    }
    assert(iv.take(instrs.len() as int) =~= iv);
    if p.unsupported.len() > 0 {
        let list = join_strings(&p.unsupported, ", ");
        let msg = prefixed(
            "native builder currently supports only metadata-changing Dockerfiles. Unsupported instructions: ",
            list.as_str(),
        );
        return Err(msg);
    }
    image_config.config = Some(p.config);
    image_config.history = Some(p.history);
    image_config.copy_layers = p.copies;
    Ok(())
}


proof fn lemma_steps_split(instrs: Seq<InstrView>, p: ProgressView, k: int)
    requires
        0 <= k <= instrs.len(),
    ensures
        run_steps(instrs, p) == run_steps(instrs.skip(k), run_steps(instrs.take(k), p)),
    decreases instrs.len(),
{
    if k == instrs.len() {
        assert(instrs.take(k) =~= instrs);
        assert(instrs.skip(k) =~= Seq::<InstrView>::empty());
    } else {
        let dl = instrs.drop_last();
        lemma_steps_split(dl, p, k);
        assert(dl.take(k) =~= instrs.take(k));
        assert(instrs.skip(k).drop_last() =~= dl.skip(k));
        assert(instrs.skip(k).last() == instrs.last());
    }
}

/// Later instructions never clear `saw_from` nor take back an unsupported entry.
proof fn lemma_steps_keep(instrs: Seq<InstrView>, p: ProgressView)
    ensures
        p.saw_from ==> run_steps(instrs, p).saw_from,
        p.unsupported.len() <= run_steps(instrs, p).unsupported.len(),
        forall|i: int|
            0 <= i < p.unsupported.len() ==> #[trigger] run_steps(instrs, p).unsupported[i]
                == p.unsupported[i],
    decreases instrs.len(),
{
    if instrs.len() > 0 {
        lemma_steps_keep(instrs.drop_last(), p);
    }
}

proof fn lemma_join_contains(parts: Seq<Seq<char>>, sep: Seq<char>, j: int)
    requires
        0 <= j < parts.len(),
    ensures
        contains_seq(join(parts, sep), parts[j]),
    decreases parts.len(),
{
    if parts.len() == 1 {
        assert(occurs_at(join(parts, sep), parts[j], 0)) by {
            assert(join(parts, sep).subrange(0, parts[0].len() as int) =~= parts[0]);
        }
    } else {
        let dl = parts.drop_last();
        let head = join(dl, sep) + sep;
        if j == parts.len() - 1 {
            let off = head.len() as int;
            assert(join(parts, sep) == head + parts.last());
            assert((head + parts.last()).subrange(off, off + parts.last().len()) =~= parts.last());
            assert(occurs_at(join(parts, sep), parts[j], off));
        } else {
            lemma_join_contains(dl, sep, j);
            let off = choose|o: int| occurs_at(join(dl, sep), dl[j], o);
            assert(join(parts, sep) == join(dl, sep) + (sep + parts.last()));
            assert((join(dl, sep) + (sep + parts.last())).subrange(off, off + dl[j].len())
                =~= join(dl, sep).subrange(off, off + dl[j].len()));
            assert(occurs_at(join(parts, sep), parts[j], off));
        }
    }
}

proof fn lemma_contains_after_prefix(pre: Seq<char>, hay: Seq<char>, needle: Seq<char>)
    requires
        contains_seq(hay, needle),
    ensures
        contains_seq(pre + hay, needle),
{
    let off = choose|o: int| occurs_at(hay, needle, o);
    assert((pre + hay).subrange(pre.len() + off, pre.len() + off + needle.len()) =~= hay.subrange(
        off,
        off + needle.len(),
    ));
    assert(occurs_at(pre + hay, needle, pre.len() + off));
}

/// An instruction after the first `FROM` that the builder cannot run leaves
/// an entry in the refusal list: here, the entry `entry` pushed at step `r`.
proof fn lemma_refused_after_from(
    instrs: Seq<InstrView>,
    m: ImageConfigModelView,
    f: int,
    r: int,
    entry: Seq<char>,
)
    requires
        0 <= f < r < instrs.len(),
        instrs[f] is From,
        forall|q: ProgressView|
            q.saw_from ==> (#[trigger] step(q, instrs[r])).unsupported == q.unsupported.push(
                entry,
            ),
    ensures
        apply_spec(instrs, m) matches Err(msg) && contains_seq(msg, entry),
{
    let sp = start_progress(m);
    lemma_steps_split(instrs.take(f + 1), sp, f);
    assert(instrs.take(f + 1).take(f) =~= instrs.take(f));
    assert(instrs.take(f + 1).skip(f) =~= seq![instrs[f]]);
    let before = run_steps(instrs.take(f), sp);
    assert(run_steps(seq![instrs[f]], before) == step(run_steps(Seq::<InstrView>::empty(), before), instrs[f])) by {
        assert(seq![instrs[f]].drop_last() =~= Seq::<InstrView>::empty());
    }
    let q1 = run_steps(instrs.take(f + 1), sp);
    assert(q1.saw_from);
    lemma_steps_split(instrs.take(r), sp, f + 1);
    assert(instrs.take(r).take(f + 1) =~= instrs.take(f + 1));
    lemma_steps_keep(instrs.take(r).skip(f + 1), q1);
    let q2 = run_steps(instrs.take(r), sp);
    assert(q2.saw_from);
    assert(instrs.take(r + 1).drop_last() =~= instrs.take(r));
    let q3 = run_steps(instrs.take(r + 1), sp);
    assert(q3 == step(q2, instrs[r]));
    assert(q3.unsupported == q2.unsupported.push(entry));
    lemma_steps_split(instrs, sp, r + 1);
    lemma_steps_keep(instrs.skip(r + 1), q3);
    let fin = run_steps(instrs, sp);
    let idx = q2.unsupported.len() as int;
    assert(fin.unsupported[idx] == q3.unsupported[idx]);
    assert(fin.unsupported[idx] == entry);
    lemma_join_contains(fin.unsupported, ", "@, idx);
    lemma_contains_after_prefix(
        "native builder currently supports only metadata-changing Dockerfiles. Unsupported instructions: "@,
        join(fin.unsupported, ", "@),
        entry,
    );
}

/// A Dockerfile that runs a command after its `FROM` is refused, and the
/// refusal names that `RUN` instruction.
pub proof fn law_run_is_refused(
    instrs: Seq<InstrView>,
    m: ImageConfigModelView,
    f: int,
    r: int,
    c: CommandExprView,
)
    requires
        0 <= f < r < instrs.len(),
        instrs[f] is From,
        instrs[r] == InstrView::Run(c),
    ensures
        apply_spec(instrs, m) matches Err(msg) && contains_seq(msg, "RUN "@ + command_text_spec(c)),
{
    lemma_refused_after_from(instrs, m, f, r, "RUN "@ + command_text_spec(c));
}

/// A second `FROM` (a multi-stage build) is refused.
pub proof fn law_multi_stage_is_refused(
    instrs: Seq<InstrView>,
    m: ImageConfigModelView,
    f: int,
    r: int,
)
    requires
        0 <= f < r < instrs.len(),
        instrs[f] is From,
        instrs[r] is From,
    ensures
        apply_spec(instrs, m) matches Err(msg) && contains_seq(msg, "multi-stage FROM"@),
{
    lemma_refused_after_from(instrs, m, f, r, "multi-stage FROM"@);
}

/// Each flag of a `COPY` is a well-formed `--chown=<uid>:<gid>` or `--chmod=<octal>`.
pub open spec fn copy_flags_supported(flags: Seq<(Seq<char>, Seq<char>)>) -> bool {
    forall|j: int|
        0 <= j < flags.len() ==> ((#[trigger] flags[j]).0 == "chown"@ && valid_chown(flags[j].1))
            || (flags[j].0 == "chmod"@ && valid_chmod(flags[j].1))
}

/// The `COPY` instruction `ins` left layer `idx` of `p`, with its history line.
pub open spec fn copy_recorded(p: ProgressView, ins: InstrView, idx: int) -> bool {
    match ins {
        InstrView::Copy(f, s, d) => {
            &&& 0 <= idx < p.copies.len()
            &&& p.copies[idx].sources == s
            &&& 0 <= p.copies[idx].history_index < p.history.len()
            &&& p.history[p.copies[idx].history_index] == copy_line(f, s, d)
        },
        _ => false,
    }
}

proof fn lemma_supported_flags_pass(flags: Seq<(Seq<char>, Seq<char>)>)
    requires
        copy_flags_supported(flags),
    ensures
        copy_flags_spec(flags).bad.len() == 0,
    decreases flags.len(),
{
    if flags.len() > 0 {
        let d = flags.drop_last();
        assert(copy_flags_supported(d)) by {
            assert forall|j: int| 0 <= j < d.len() implies ((#[trigger] d[j]).0 == "chown"@
                && valid_chown(d[j].1)) || (d[j].0 == "chmod"@ && valid_chmod(d[j].1)) by {
                assert(d[j] == flags[j]);
            }
        }
        lemma_supported_flags_pass(d);
        assert(flags[flags.len() - 1] == flags.last());
    }
}

proof fn lemma_copies_prefix(instrs: Seq<InstrView>, m: ImageConfigModelView, n: int)
    requires
        1 <= n <= instrs.len(),
        instrs[0] is From,
        forall|k: int|
            1 <= k < instrs.len() ==> (#[trigger] instrs[k] matches InstrView::Copy(f, _, _)
                && copy_flags_supported(f)),
    ensures
        ({
            let p = run_steps(instrs.take(n), start_progress(m));
            &&& p.saw_from
            &&& p.unsupported.len() == 0
            &&& p.copies.len() == m.copy_layers.len() + n - 1
            &&& forall|k: int|
                1 <= k < n ==> copy_recorded(p, #[trigger] instrs[k], m.copy_layers.len() + k - 1)
        }),
    decreases n,
{
    let sp = start_progress(m);
    if n == 1 {
        assert(instrs.take(1).drop_last() =~= Seq::<InstrView>::empty());
        assert(instrs.take(1).last() == instrs[0]);
        assert(run_steps(Seq::<InstrView>::empty(), sp) == sp);
        assert(run_steps(instrs.take(1), sp) == step(sp, instrs[0]));
        assert(!sp.saw_from);
    } else {
        lemma_copies_prefix(instrs, m, n - 1);
        let p = run_steps(instrs.take(n - 1), sp);
        assert(instrs.take(n).drop_last() =~= instrs.take(n - 1));
        assert(instrs.take(n).last() == instrs[n - 1]);
        let q = run_steps(instrs.take(n), sp);
        assert(q == step(p, instrs[n - 1]));
        let ins = instrs[n - 1];
        assert(ins matches InstrView::Copy(f, _, _) && copy_flags_supported(f));
        if let InstrView::Copy(f, s, d) = ins {
            lemma_supported_flags_pass(f);
            assert(q == copy_step(p, f, s, d));
            assert forall|k: int| 1 <= k < n implies copy_recorded(
                q,
                #[trigger] instrs[k],
                m.copy_layers.len() + k - 1,
            ) by {
                if k == n - 1 {
                    let idx = m.copy_layers.len() + k - 1;
                    assert(idx == p.copies.len());
                    assert(q.copies[idx].history_index == p.history.len());
                    assert(q.history[p.history.len() as int] == copy_line(f, s, d));
                } else {
                    assert(copy_recorded(p, instrs[k], m.copy_layers.len() + k - 1));
                    let idx = m.copy_layers.len() + k - 1;
                    assert(q.copies[idx] == p.copies[idx]);
                    assert(q.history[p.copies[idx].history_index] == p.history[p.copies[idx].history_index]);
                }
            }
        }
    }
}

/// `COPY` works: a Dockerfile of a `FROM` followed by `COPY` instructions,
/// each with only well-formed `--chown`/`--chmod` flags, builds, adding one
/// layer per `COPY`, in order, each with its sources and its history line.
pub proof fn law_copy_adds_layers(instrs: Seq<InstrView>, m: ImageConfigModelView)
    requires
        instrs.len() >= 1,
        instrs[0] is From,
        forall|k: int|
            1 <= k < instrs.len() ==> (#[trigger] instrs[k] matches InstrView::Copy(f, _, _)
                && copy_flags_supported(f)),
    ensures
        apply_spec(instrs, m) matches Ok(out) && {
            &&& out.copy_layers.len() == m.copy_layers.len() + instrs.len() - 1
            &&& out.copy_layers.take(m.copy_layers.len() as int) == m.copy_layers
            &&& forall|k: int|
                1 <= k < instrs.len() ==> (#[trigger] instrs[k] matches InstrView::Copy(f, s, d) && {
                    let l = out.copy_layers[m.copy_layers.len() + k - 1];
                    &&& l.sources == s
                    &&& out.history matches Some(h) && 0 <= l.history_index < h.len()
                        && h[l.history_index] == copy_line(f, s, d)
                })
        },
{
    let n = instrs.len() as int;
    lemma_copies_prefix(instrs, m, n);
    assert(instrs.take(n) =~= instrs);
    let p = run_steps(instrs, start_progress(m));
    lemma_copies_keep(instrs, start_progress(m));
    assert forall|k: int| 1 <= k < instrs.len() implies (#[trigger] instrs[k] matches InstrView::Copy(
        f,
        s,
        d,
    ) && {
        let l = p.copies[m.copy_layers.len() + k - 1];
        &&& l.sources == s
        &&& 0 <= l.history_index < p.history.len()
        &&& p.history[l.history_index] == copy_line(f, s, d)
    }) by {
        assert(copy_recorded(p, instrs[k], m.copy_layers.len() + k - 1));
    }
}

/// Later instructions keep the layers recorded so far.
proof fn lemma_copies_keep(instrs: Seq<InstrView>, p: ProgressView)
    ensures
        run_steps(instrs, p).copies.len() >= p.copies.len(),
        run_steps(instrs, p).copies.take(p.copies.len() as int) == p.copies,
    decreases instrs.len(),
{
    if instrs.len() > 0 {
        lemma_copies_keep(instrs.drop_last(), p);
        let q = run_steps(instrs.drop_last(), p);
        let r = run_steps(instrs, p);
        assert(r.copies.take(p.copies.len() as int) =~= q.copies.take(p.copies.len() as int));
    } else {
        assert(p.copies.take(p.copies.len() as int) =~= p.copies);
    }
}

/// An instruction other than `EXPOSE`, `USER` and `WORKDIR` that the parser
/// leaves unrecognised (such as `ADD`) is refused after the first `FROM`, and
/// the refusal names it in upper case with its arguments.
pub proof fn law_other_instruction_is_refused(
    instrs: Seq<InstrView>,
    m: ImageConfigModelView,
    f: int,
    r: int,
    name: Seq<char>,
    args: Seq<char>,
)
    requires
        0 <= f < r < instrs.len(),
        instrs[f] is From,
        instrs[r] == InstrView::Misc(name, args),
        upper_all(name) != "EXPOSE"@,
        upper_all(name) != "USER"@,
        upper_all(name) != "WORKDIR"@,
    ensures
        apply_spec(instrs, m) matches Err(msg) && contains_seq(
            msg,
            upper_all(name) + " "@ + trim(args),
        ),
{
    lemma_refused_after_from(instrs, m, f, r, upper_all(name) + " "@ + trim(args));
}


proof fn lemma_entry_splits(k: Seq<char>, v: Seq<char>)
    requires
        !k.contains('='),
    ensures
        split_once(entry(k, v), '=') == Some((k, v)),
{
    let e = entry(k, v);
    assert forall|j: int| 0 <= j < k.len() implies e[j] != '=' by {
        assert(e[j] == k[j]);
        if e[j] == '=' {
            assert(k.contains('='));
        }
    }
    assert(e[k.len() as int] == '=');
    crate::text::lemma_find_char(e, '=', k.len() as int);
    assert(e.take(k.len() as int) =~= k);
    assert(e.skip(k.len() as int + 1) =~= v);
}

proof fn lemma_env_pairs_of_entries(pairs: Seq<(Seq<char>, Seq<char>)>)
    requires
        forall|i: int| 0 <= i < pairs.len() ==> !(#[trigger] pairs[i]).0.contains('='),
    ensures
        env_pairs(pairs.map_values(|p: (Seq<char>, Seq<char>)| entry(p.0, p.1))) == pairs,
    decreases pairs.len(),
{
    let es = pairs.map_values(|p: (Seq<char>, Seq<char>)| entry(p.0, p.1));
    if pairs.len() > 0 {
        let d = pairs.drop_last();
        assert(es.drop_last() =~= d.map_values(|p: (Seq<char>, Seq<char>)| entry(p.0, p.1)));
        assert forall|i: int| 0 <= i < d.len() implies !(#[trigger] d[i]).0.contains('=') by {
            assert(d[i] == pairs[i]);
        }
        lemma_env_pairs_of_entries(d);
        lemma_entry_splits(pairs.last().0, pairs.last().1);
        assert(es.last() == entry(pairs.last().0, pairs.last().1));
        assert(d.push(pairs.last()) =~= pairs);
    } else {
        assert(es =~= Seq::<Seq<char>>::empty());
    }
}

proof fn lemma_add_new_keys_prefix(order: Seq<Seq<char>>, keys: Seq<Seq<char>>)
    ensures
        add_new_keys(order, keys).len() >= order.len(),
        add_new_keys(order, keys).take(order.len() as int) == order,
    decreases keys.len(),
{
    if keys.len() > 0 {
        lemma_add_new_keys_prefix(order, keys.drop_last());
        let o = add_new_keys(order, keys.drop_last());
        if !o.contains(keys.last()) {
            assert(o.push(keys.last()).take(order.len() as int) =~= o.take(order.len() as int));
        }
    } else {
        assert(order.take(order.len() as int) =~= order);
    }
}

/// `ENV` keeps the variables an image already has where they are, each with
/// the value assigned to it last.
pub proof fn law_env_keeps_existing_places(
    pairs: Seq<(Seq<char>, Seq<char>)>,
    vars: Seq<(Seq<char>, Seq<char>)>,
)
    requires
        forall|i: int| 0 <= i < pairs.len() ==> !(#[trigger] pairs[i]).0.contains('='),
    ensures
        ({
            let out = apply_env_spec(
                Some(pairs.map_values(|p: (Seq<char>, Seq<char>)| entry(p.0, p.1))),
                vars,
            );
            &&& out.len() >= pairs.len()
            &&& forall|i: int|
                0 <= i < pairs.len() ==> #[trigger] out[i] == entry(
                    pairs[i].0,
                    last_value(pairs + vars, pairs[i].0).unwrap(),
                )
        }),
{
    lemma_env_pairs_of_entries(pairs);
    let order = add_new_keys(keys_of(pairs), keys_of(vars));
    lemma_add_new_keys_prefix(keys_of(pairs), keys_of(vars));
    assert forall|i: int| 0 <= i < pairs.len() implies order[i] == pairs[i].0 by {
        assert(order.take(pairs.len() as int)[i] == order[i]);
        assert(keys_of(pairs)[i] == pairs[i].0);
    }
}

} // verus!
