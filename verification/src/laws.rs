//! Proved laws of the merge engine.
//!
//! Each public proof function here states one property of `spec_merge` /
//! `spec_merge_all` that the rest of the crate's contracts rely on: identity
//! of a single source, precedence of the later source, preservation of key
//! order, and wholesale replacement of non-objects.

use vstd::prelude::*;

use crate::json::JsonModel;
use crate::json::key_seq;
use crate::json::keys_unique;
use crate::json::lemma_wf_entries_char;
use crate::json::lemma_wf_entries_keys_unique;
use crate::json::spec_find_key;
use crate::json::spec_has_key;
use crate::json::spec_lookup;
use crate::json::wf_entries;
use crate::json::wf_model;
use crate::merge::lemma_find_key_first;
use crate::merge::spec_merge;
use crate::merge::spec_merge_all;
use crate::merge::spec_merge_entries;

verus! {

/// `spec_find_key` only looks at keys: lists with the same keys in the same
/// order agree on it.
proof fn lemma_find_key_same_keys(
    x: Seq<(Seq<char>, JsonModel)>,
    z: Seq<(Seq<char>, JsonModel)>,
    k: Seq<char>,
)
    requires
        x.len() == z.len(),
        forall|t: int| 0 <= t < x.len() ==> #[trigger] x[t].0 == z[t].0,
    ensures
        spec_find_key(x, k) == spec_find_key(z, k),
    decreases x,
{
    if x.len() > 0 {
        assert(forall|t: int|
            0 <= t < x.drop_first().len() ==> #[trigger] x.drop_first()[t] == x[t + 1]);
        assert(forall|t: int|
            0 <= t < z.drop_first().len() ==> #[trigger] z.drop_first()[t] == z[t + 1]);
        lemma_find_key_same_keys(x.drop_first(), z.drop_first(), k);
    }
}

/// Where `spec_find_key` lands after a push: an existing key is still found
/// at its old place, a fresh matching key at the end.
proof fn lemma_find_key_push(
    x: Seq<(Seq<char>, JsonModel)>,
    e: (Seq<char>, JsonModel),
    k: Seq<char>,
)
    ensures
        spec_find_key(x.push(e), k) == {
            let i = spec_find_key(x, k);
            if i >= 0 {
                i
            } else if e.0 == k {
                x.len() as int
            } else {
                -1
            }
        },
    decreases x,
{
    if x.len() == 0 {
        assert(x.push(e).len() == 1);
        assert(x.push(e)[0] == e);
        assert(x.push(e).drop_first() =~= Seq::<(Seq<char>, JsonModel)>::empty());
        assert(spec_find_key(Seq::<(Seq<char>, JsonModel)>::empty(), k) == -1);
        assert(spec_find_key(x, k) == -1);
    } else {
        assert(x.push(e)[0] == x[0]);
        assert(x.push(e).drop_first() =~= x.drop_first().push(e));
        lemma_find_key_push(x.drop_first(), e, k);
        assert(spec_find_key(x.push(e).drop_first(), k) == spec_find_key(
            x.drop_first().push(e),
            k,
        ));
    }
}

/// Predicates that agree on the elements of a sequence filter it alike.
proof fn lemma_filter_agree<A>(s: Seq<A>, p: spec_fn(A) -> bool, q: spec_fn(A) -> bool)
    requires
        forall|t: int| 0 <= t < s.len() ==> p(#[trigger] s[t]) == q(s[t]),
    ensures
        s.filter(p) == s.filter(q),
    decreases s.len(),
{
    reveal(Seq::filter);
    if s.len() > 0 {
        assert(forall|t: int|
            0 <= t < s.drop_last().len() ==> #[trigger] s.drop_last()[t] == s[t]);
        lemma_filter_agree(s.drop_last(), p, q);
        assert(p(s.last()) == q(s.last()));
    }
}

/// Law: a non-object incoming value replaces the base wholesale — arrays and
/// scalars are never concatenated or element-merged.
pub proof fn lemma_merge_replaces(a: JsonModel, b: JsonModel)
    requires
        !(a is Object) || !(b is Object),
    ensures
        spec_merge(a, b) == b,
{
}

/// Folding entries whose keys are all new appends them verbatim.
proof fn lemma_merge_entries_disjoint(
    x: Seq<(Seq<char>, JsonModel)>,
    y: Seq<(Seq<char>, JsonModel)>,
)
    requires
        keys_unique(y),
        forall|t: int| 0 <= t < y.len() ==> !spec_has_key(x, #[trigger] y[t].0),
    ensures
        spec_merge_entries(x, y) == x + y,
    decreases y,
{
    if y.len() == 0 {
        assert(spec_merge_entries(x, y) =~= x + y);
    } else {
        let k0 = y[0].0;
        let v = y[0].1;
        let y1 = y.drop_first();
        assert(!spec_has_key(x, k0));
        let x1 = x.push((k0, v));
        assert(spec_merge_entries(x, y) == spec_merge_entries(x1, y1));
        assert(forall|t: int| 0 <= t < y1.len() ==> #[trigger] y1[t] == y[t + 1]);
        assert forall|t: int| 0 <= t < y1.len() implies !spec_has_key(x1, #[trigger] y1[t].0) by {
            lemma_find_key_push(x, (k0, v), y1[t].0);
            assert(!spec_has_key(x, y1[t].0));
            lemma_find_key_first(y1, k0);
            assert(y1[t].0 != k0);
        }
        lemma_merge_entries_disjoint(x1, y1);
        assert(x1 + y1 =~= x + y);
    }
}

/// Law: merging a single source onto the initial empty object returns that
/// source unchanged.
pub proof fn lemma_merge_single(v: JsonModel)
    requires
        wf_model(v),
    ensures
        spec_merge_all(seq![v]) == v,
{
    let sources = seq![v];
    assert(sources.drop_last() =~= Seq::<JsonModel>::empty());
    assert(sources.last() == v);
    assert(spec_merge_all(Seq::<JsonModel>::empty()) == JsonModel::Object(Seq::empty()));
    assert(spec_merge_all(sources) == spec_merge(JsonModel::Object(Seq::empty()), v));
    match v {
        JsonModel::Object(y) => {
            lemma_wf_entries_keys_unique(y);
            assert forall|t: int|
                0 <= t < y.len() implies !spec_has_key(
                Seq::<(Seq<char>, JsonModel)>::empty(),
                #[trigger] y[t].0,
            ) by {}
            lemma_merge_entries_disjoint(Seq::empty(), y);
            assert(Seq::<(Seq<char>, JsonModel)>::empty() + y =~= y);
        },
        _ => {},
    }
}

/// Law: merge preserves well-formedness — merging two values whose objects
/// never repeat a key yields such a value again.
pub proof fn lemma_merge_wf(a: JsonModel, b: JsonModel)
    requires
        wf_model(a),
        wf_model(b),
    ensures
        wf_model(spec_merge(a, b)),
    decreases b, 0nat,
{
    match (a, b) {
        (JsonModel::Object(x), JsonModel::Object(y)) => {
            assert(decreases_to!(b => b->Object_0));
            lemma_merge_entries_wf(x, y);
        },
        _ => {},
    }
}

proof fn lemma_merge_entries_wf(x: Seq<(Seq<char>, JsonModel)>, y: Seq<(Seq<char>, JsonModel)>)
    requires
        wf_entries(x),
        wf_entries(y),
    ensures
        wf_entries(spec_merge_entries(x, y)),
    decreases y, 1nat,
{
    if y.len() > 0 {
        assert(decreases_to!(y => y[0]));
        assert(decreases_to!(y[0] => y[0].1));
        let k = y[0].0;
        let v = y[0].1;
        let i = spec_find_key(x, k);
        let x1 = if i >= 0 {
            x.update(i, (k, spec_merge(x[i].1, v)))
        } else {
            x.push((k, v))
        };
        lemma_find_key_first(x, k);
        lemma_wf_entries_char(x);
        lemma_wf_entries_char(x1);
        if i >= 0 {
            assert(x[i].0 == k);
            lemma_merge_wf(x[i].1, v);
            assert(forall|t: int| 0 <= t < x1.len() ==> #[trigger] x1[t].0 == x[t].0);
            assert forall|t: int| 0 <= t < x1.len() implies wf_model(#[trigger] x1[t].1) by {
                if t != i {
                    assert(x1[t] == x[t]);
                }
            }
        } else {
            assert(forall|t: int| 0 <= t < x.len() ==> #[trigger] x1[t] == x[t]);
            assert(x1[x.len() as int] == (k, v));
            assert forall|t1: int, t2: int|
                0 <= t1 < t2 < x1.len() implies (#[trigger] x1[t1]).0 != (#[trigger] x1[t2]).0 by {
                if t2 == x.len() {
                    assert(x[t1].0 != k);
                }
            }
        }
        lemma_merge_entries_wf(x1, y.drop_first());
    }
}

/// Law: folding any list of well-formed sources yields a well-formed value.
pub proof fn lemma_merge_all_wf(models: Seq<JsonModel>)
    requires
        forall|i: int| 0 <= i < models.len() ==> wf_model(#[trigger] models[i]),
    ensures
        wf_model(spec_merge_all(models)),
    decreases models.len(),
{
    if models.len() == 0 {
        assert(wf_entries(Seq::<(Seq<char>, JsonModel)>::empty()));
    } else {
        let front = models.drop_last();
        assert(forall|t: int| 0 <= t < front.len() ==> #[trigger] front[t] == models[t]);
        lemma_merge_all_wf(front);
        lemma_merge_wf(spec_merge_all(front), models.last());
    }
}

/// Law: merging two sources is one binary merge — the initial empty object
/// leaves the first source untouched.
pub proof fn lemma_merge_all_pair(a: JsonModel, b: JsonModel)
    requires
        wf_model(a),
    ensures
        spec_merge_all(seq![a, b]) == spec_merge(a, b),
{
    let sources = seq![a, b];
    assert(sources.drop_last() =~= seq![a]);
    assert(sources.last() == b);
    lemma_merge_single(a);
    assert(spec_merge_all(seq![a]) == a);
}

/// What each key maps to after folding `y` into `x`: keys of `y` get the
/// recursively merged value (or the incoming one where `x` lacks the key),
/// all other keys keep their value from `x`.
pub proof fn lemma_merge_entries_lookup(
    x: Seq<(Seq<char>, JsonModel)>,
    y: Seq<(Seq<char>, JsonModel)>,
    k: Seq<char>,
)
    requires
        keys_unique(y),
    ensures
        spec_has_key(y, k) ==> spec_lookup(spec_merge_entries(x, y), k) == (match spec_lookup(
            x,
            k,
        ) {
            Some(w) => Some(spec_merge(w, y[spec_find_key(y, k)].1)),
            None => Some(y[spec_find_key(y, k)].1),
        }),
        !spec_has_key(y, k) ==> spec_lookup(spec_merge_entries(x, y), k) == spec_lookup(x, k),
    decreases y,
{
    if y.len() == 0 {
    } else {
        let k0 = y[0].0;
        let v = y[0].1;
        let y1 = y.drop_first();
        let i = spec_find_key(x, k0);
        let x1 = if i >= 0 {
            x.update(i, (k0, spec_merge(x[i].1, v)))
        } else {
            x.push((k0, v))
        };
        assert(spec_merge_entries(x, y) == spec_merge_entries(x1, y1));
        lemma_merge_entries_lookup(x1, y1, k);
        lemma_find_key_first(x, k0);
        if k == k0 {
            // keys_unique(y): the tail has no second entry for k0.
            assert(!spec_has_key(y1, k));
            assert(spec_find_key(y, k) == 0);
            assert(spec_lookup(spec_merge_entries(x1, y1), k) == spec_lookup(x1, k));
            if i >= 0 {
                assert(forall|t: int| 0 <= t < x.len() ==> #[trigger] x[t].0 == x1[t].0);
                lemma_find_key_same_keys(x, x1, k);
                assert(spec_lookup(x1, k) == Some(spec_merge(x[i].1, v)));
            } else {
                lemma_find_key_push(x, (k0, v), k);
                assert(spec_find_key(x1, k) == x.len());
                assert(x1[x.len() as int].1 == v);
            }
        } else {
            // The first incoming entry does not concern k at all.
            assert(forall|t: int| 0 <= t < y1.len() ==> #[trigger] y1[t] == y[t + 1]);
            if spec_has_key(y1, k) {
                lemma_find_key_first(y1, k);
                assert(spec_find_key(y, k) == spec_find_key(y1, k) + 1);
                assert(y[spec_find_key(y, k)] == y1[spec_find_key(y1, k)]);
            } else {
                assert(spec_find_key(y, k) == -1);
            }
            // Lookup of k in x1 equals lookup in x.
            if i >= 0 {
                assert(forall|t: int| 0 <= t < x.len() ==> #[trigger] x[t].0 == x1[t].0);
                lemma_find_key_same_keys(x, x1, k);
                let j = spec_find_key(x, k);
                if j >= 0 {
                    lemma_find_key_first(x, k);
                    assert(x[j].0 == k);
                    assert(j != i);
                    assert(x1[j].1 == x[j].1);
                }
                assert(spec_lookup(x1, k) == spec_lookup(x, k));
            } else {
                lemma_find_key_push(x, (k0, v), k);
                let j = spec_find_key(x, k);
                if j >= 0 {
                    lemma_find_key_first(x, k);
                    assert(x1[j] == x[j]);
                }
                assert(spec_lookup(x1, k) == spec_lookup(x, k));
            }
        }
    }
}

/// Law: merge precedence.  For objects `a` and `b` and any key of `b`, the
/// merged object holds the recursively merged value under that key; where the
/// incoming value is not itself an object (or `a` lacks the key), that is the
/// incoming value unchanged.
pub proof fn lemma_merge_precedence(a: JsonModel, b: JsonModel, k: Seq<char>)
    requires
        a is Object,
        b is Object,
        keys_unique(b->Object_0),
        spec_has_key(b->Object_0, k),
    ensures
        spec_merge(a, b) is Object,
        ({
            let r = spec_lookup(spec_merge(a, b)->Object_0, k);
            let v = b->Object_0[spec_find_key(b->Object_0, k)].1;
            &&& (match spec_lookup(a->Object_0, k) {
                Some(w) => r == Some(spec_merge(w, v)),
                None => r == Some(v),
            })
            &&& !(v is Object) ==> r == Some(v)
        }),
{
    lemma_merge_entries_lookup(a->Object_0, b->Object_0, k);
}

/// Law: keys of `a` keep their values where `b` does not mention them.
pub proof fn lemma_merge_untouched(a: JsonModel, b: JsonModel, k: Seq<char>)
    requires
        a is Object,
        b is Object,
        keys_unique(b->Object_0),
        !spec_has_key(b->Object_0, k),
    ensures
        spec_lookup(spec_merge(a, b)->Object_0, k) == spec_lookup(a->Object_0, k),
{
    lemma_merge_entries_lookup(a->Object_0, b->Object_0, k);
}

/// Folding `y` into `x` lists the keys of `x` first, in their old order, then
/// the new keys of `y` in `y`'s order.
pub proof fn lemma_merge_entries_key_order(
    x: Seq<(Seq<char>, JsonModel)>,
    y: Seq<(Seq<char>, JsonModel)>,
)
    requires
        keys_unique(y),
    ensures
        key_seq(spec_merge_entries(x, y)) == key_seq(x) + key_seq(y).filter(
            |kk: Seq<char>| !spec_has_key(x, kk),
        ),
    decreases y,
{
    let px = |kk: Seq<char>| !spec_has_key(x, kk);
    if y.len() == 0 {
        reveal(Seq::filter);
        assert(key_seq(y) =~= Seq::<Seq<char>>::empty());
        assert(key_seq(spec_merge_entries(x, y)) =~= key_seq(x) + key_seq(y).filter(px));
    } else {
        let k0 = y[0].0;
        let v = y[0].1;
        let y1 = y.drop_first();
        let i = spec_find_key(x, k0);
        let x1 = if i >= 0 {
            x.update(i, (k0, spec_merge(x[i].1, v)))
        } else {
            x.push((k0, v))
        };
        assert(spec_merge_entries(x, y) == spec_merge_entries(x1, y1));
        lemma_merge_entries_key_order(x1, y1);
        let px1 = |kk: Seq<char>| !spec_has_key(x1, kk);
        assert(key_seq(y) =~= seq![k0] + key_seq(y1));
        key_seq(y1).lemma_filter_prepend(k0, px);
        lemma_find_key_first(x, k0);
        if i >= 0 {
            // Same keys before and after the update: both filters agree.
            assert(forall|t: int| 0 <= t < x.len() ==> #[trigger] x[t].0 == x1[t].0);
            assert(key_seq(x1) =~= key_seq(x));
            assert forall|t: int|
                0 <= t < key_seq(y1).len() implies px1(#[trigger] key_seq(y1)[t]) == px(
                key_seq(y1)[t],
            ) by {
                lemma_find_key_same_keys(x, x1, key_seq(y1)[t]);
            }
            lemma_filter_agree(key_seq(y1), px1, px);
            assert(!px(k0));
            assert(key_seq(y).filter(px) == Seq::<Seq<char>>::empty() + key_seq(y1).filter(px));
            assert(key_seq(x) + (Seq::<Seq<char>>::empty() + key_seq(y1).filter(px)) =~= key_seq(
                x,
            ) + key_seq(y1).filter(px));
        } else {
            // A fresh key: it is appended, and later keys of y1 differ from it.
            assert(key_seq(x1) =~= key_seq(x) + seq![k0]);
            assert forall|t: int|
                0 <= t < key_seq(y1).len() implies px1(#[trigger] key_seq(y1)[t]) == px(
                key_seq(y1)[t],
            ) by {
                lemma_find_key_push(x, (k0, v), key_seq(y1)[t]);
                lemma_find_key_first(y1, k0);
                assert(key_seq(y1)[t] == y1[t].0);
                assert(y1[t].0 != k0);
            }
            lemma_filter_agree(key_seq(y1), px1, px);
            assert(px(k0));
            assert(key_seq(y).filter(px) == seq![k0] + key_seq(y1).filter(px));
            assert((key_seq(x) + seq![k0]) + key_seq(y1).filter(px) =~= key_seq(x) + (seq![k0]
                + key_seq(y1).filter(px)));
        }
    }
}

/// Law: merge preserves key order.  Existing keys of `a` retain their
/// positions; keys new to `a` are appended in the order `b` lists them.
pub proof fn lemma_merge_key_order(a: JsonModel, b: JsonModel)
    requires
        a is Object,
        b is Object,
        keys_unique(b->Object_0),
    ensures
        spec_merge(a, b) is Object,
        key_seq(spec_merge(a, b)->Object_0) == key_seq(a->Object_0) + key_seq(
            b->Object_0,
        ).filter(|kk: Seq<char>| !spec_has_key(a->Object_0, kk)),
{
    lemma_merge_entries_key_order(a->Object_0, b->Object_0);
}

} // verus!
