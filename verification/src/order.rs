//! A total order on violations, and the sort that pins the order in which
//! diagnostics are listed.
//!
//! valico walks hash sets while validating, so it may list the same
//! violations in a different order on every run.  Sorting them under the
//! lexicographic order below makes the diagnostic a function of the
//! collection alone: two sorted sequences with the same multiset of
//! violations are one and the same sequence.

use vstd::prelude::*;
use vstd::seq_lib::group_to_multiset_ensures;

use crate::error::Violation;
use crate::error::ViolationModel;
use crate::error::violations_model;

verus! {

/// Lexicographic order on texts, by code point; a proper prefix comes first.
pub open spec fn spec_str_le(a: Seq<char>, b: Seq<char>) -> bool
    decreases a.len(),
{
    if a.len() == 0 {
        true
    } else if b.len() == 0 {
        false
    } else if a[0] == b[0] {
        spec_str_le(a.drop_first(), b.drop_first())
    } else {
        (a[0] as int) < (b[0] as int)
    }
}

proof fn lemma_str_le_total(a: Seq<char>, b: Seq<char>)
    ensures
        spec_str_le(a, b) || spec_str_le(b, a),
    decreases a.len(),
{
    if a.len() > 0 && b.len() > 0 {
        if a[0] == b[0] {
            lemma_str_le_total(a.drop_first(), b.drop_first());
        } else {
            assert((a[0] as int) != (b[0] as int));
        }
    }
}

proof fn lemma_str_le_antisym(a: Seq<char>, b: Seq<char>)
    requires
        spec_str_le(a, b),
        spec_str_le(b, a),
    ensures
        a == b,
    decreases a.len(),
{
    if a.len() == 0 {
        assert(b.len() == 0);
        assert(a =~= b);
    } else {
        assert(b.len() > 0);
        assert(a[0] == b[0]);
        let at = a.drop_first();
        let bt = b.drop_first();
        lemma_str_le_antisym(at, bt);
        assert forall|t: int| 0 <= t < a.len() implies a[t] == b[t] by {
            if t > 0 {
                assert(at[t - 1] == bt[t - 1]);
            }
        }
        assert(a =~= b);
    }
}

proof fn lemma_str_le_trans(a: Seq<char>, b: Seq<char>, c: Seq<char>)
    requires
        spec_str_le(a, b),
        spec_str_le(b, c),
    ensures
        spec_str_le(a, c),
    decreases a.len(),
{
    if a.len() > 0 && b.len() > 0 && c.len() > 0 {
        if a[0] == b[0] && b[0] == c[0] {
            lemma_str_le_trans(a.drop_first(), b.drop_first(), c.drop_first());
        }
    }
}

/// The order on optional detail texts: absent before present.
pub open spec fn spec_detail_le(a: Option<Seq<char>>, b: Option<Seq<char>>) -> bool {
    match (a, b) {
        (Option::None, _) => true,
        (Option::Some(_), Option::None) => false,
        (Option::Some(x), Option::Some(y)) => spec_str_le(x, y),
    }
}

/// The total order violations are listed in: by code, then path, then title,
/// then detail.
pub open spec fn spec_viol_le(a: ViolationModel, b: ViolationModel) -> bool {
    if a.code != b.code {
        spec_str_le(a.code, b.code)
    } else if a.path != b.path {
        spec_str_le(a.path, b.path)
    } else if a.title != b.title {
        spec_str_le(a.title, b.title)
    } else {
        spec_detail_le(a.detail, b.detail)
    }
}

proof fn lemma_viol_le_refl(a: ViolationModel)
    ensures
        spec_viol_le(a, a),
{
    match a.detail {
        Some(d) => {
            lemma_str_le_total(d, d);
        },
        None => {},
    }
}

proof fn lemma_viol_le_total(a: ViolationModel, b: ViolationModel)
    ensures
        spec_viol_le(a, b) || spec_viol_le(b, a),
{
    lemma_str_le_total(a.code, b.code);
    lemma_str_le_total(a.path, b.path);
    lemma_str_le_total(a.title, b.title);
    match (a.detail, b.detail) {
        (Option::Some(x), Option::Some(y)) => {
            lemma_str_le_total(x, y);
        },
        _ => {},
    }
}

proof fn lemma_viol_le_antisym(a: ViolationModel, b: ViolationModel)
    requires
        spec_viol_le(a, b),
        spec_viol_le(b, a),
    ensures
        a == b,
{
    if a.code != b.code {
        lemma_str_le_antisym(a.code, b.code);
    }
    if a.path != b.path {
        lemma_str_le_antisym(a.path, b.path);
    }
    if a.title != b.title {
        lemma_str_le_antisym(a.title, b.title);
    }
    match (a.detail, b.detail) {
        (Option::Some(x), Option::Some(y)) => {
            lemma_str_le_antisym(x, y);
        },
        _ => {},
    }
    assert(a =~= b);
}

proof fn lemma_viol_le_trans(a: ViolationModel, b: ViolationModel, c: ViolationModel)
    requires
        spec_viol_le(a, b),
        spec_viol_le(b, c),
    ensures
        spec_viol_le(a, c),
{
    // Strictness carries over: equal endpoints would force equality all the
    // way through by antisymmetry.
    if a.code == c.code {
        if a.code != b.code {
            lemma_str_le_antisym(a.code, b.code);
        }
        if a.path == c.path {
            if a.path != b.path {
                lemma_str_le_antisym(a.path, b.path);
            }
            if a.title == c.title {
                if a.title != b.title {
                    lemma_str_le_antisym(a.title, b.title);
                }
                match (a.detail, b.detail, c.detail) {
                    (Option::Some(x), Option::Some(y), Option::Some(z)) => {
                        lemma_str_le_trans(x, y, z);
                    },
                    _ => {},
                }
            } else {
                if a.title != b.title && b.title != c.title {
                    lemma_str_le_trans(a.title, b.title, c.title);
                }
            }
        } else {
            if a.path != b.path && b.path != c.path {
                lemma_str_le_trans(a.path, b.path, c.path);
            }
        }
    } else {
        if a.code != b.code && b.code != c.code {
            lemma_str_le_trans(a.code, b.code, c.code);
        }
    }
}

/// The sequence lists its violations in order.
pub open spec fn spec_sorted_violations(vs: Seq<ViolationModel>) -> bool {
    forall|i: int, j: int|
        0 <= i < j < vs.len() ==> spec_viol_le(#[trigger] vs[i], #[trigger] vs[j])
}

/// Law: the sorted listing of a collection of violations is unique.  Two
/// sorted sequences with the same multiset of violations are equal, so any
/// text formatted from a sorted listing is a function of the collection
/// alone.
pub proof fn lemma_sorted_violations_unique(a: Seq<ViolationModel>, b: Seq<ViolationModel>)
    requires
        spec_sorted_violations(a),
        spec_sorted_violations(b),
        a.to_multiset() == b.to_multiset(),
    ensures
        a == b,
    decreases a.len(),
{
    broadcast use group_to_multiset_ensures;

    assert(a.len() == a.to_multiset().len());
    assert(b.len() == b.to_multiset().len());
    if a.len() == 0 {
        assert(a =~= b);
    } else {
        assert(a.contains(a[0]));
        assert(b.to_multiset().count(a[0]) > 0);
        assert(b.contains(a[0]));
        let j = choose|j: int| 0 <= j < b.len() && b[j] == a[0];
        if j == 0 {
            lemma_viol_le_refl(a[0]);
        }
        assert(spec_viol_le(b[0], a[0]));
        assert(b.contains(b[0]));
        assert(a.to_multiset().count(b[0]) > 0);
        assert(a.contains(b[0]));
        let i = choose|i: int| 0 <= i < a.len() && a[i] == b[0];
        if i == 0 {
            lemma_viol_le_refl(b[0]);
        }
        assert(spec_viol_le(a[0], b[0]));
        lemma_viol_le_antisym(a[0], b[0]);
        let at = a.remove(0);
        let bt = b.remove(0);
        assert(at.to_multiset() =~= a.to_multiset().remove(a[0]));
        assert(bt.to_multiset() =~= b.to_multiset().remove(b[0]));
        assert(forall|t: int| 0 <= t < at.len() ==> #[trigger] at[t] == a[t + 1]);
        assert(forall|t: int| 0 <= t < bt.len() ==> #[trigger] bt[t] == b[t + 1]);
        lemma_sorted_violations_unique(at, bt);
        assert forall|t: int| 0 <= t < a.len() implies a[t] == b[t] by {
            if t > 0 {
                assert(at[t - 1] == bt[t - 1]);
            }
        }
        assert(a =~= b);
    }
}

/// Lexicographic comparison of two texts, character by character.
#[verifier::loop_isolation(false)]
fn str_le_exec(a: &str, b: &str) -> (r: bool)
    ensures
        r == spec_str_le(a@, b@),
{
    let an = a.unicode_len();
    let bn = b.unicode_len();
    let mut i: usize = 0;
    proof {
        assert(a@.skip(0) =~= a@);
        assert(b@.skip(0) =~= b@);
    }
    while i < an && i < bn
        invariant
            0 <= i <= an,
            0 <= i <= bn,
            spec_str_le(a@, b@) == spec_str_le(a@.skip(i as int), b@.skip(i as int)),
        decreases an - i,
    {
        let ca = a.get_char(i);
        let cb = b.get_char(i);
        if ca != cb {
            proof {
                assert(a@.skip(i as int)[0] == ca);
                assert(b@.skip(i as int)[0] == cb);
            }
            return (ca as u32) < (cb as u32);
        }
        proof {
            assert(a@.skip(i as int)[0] == ca);
            assert(b@.skip(i as int)[0] == cb);
            assert(a@.skip(i as int).drop_first() =~= a@.skip(i + 1));
            assert(b@.skip(i as int).drop_first() =~= b@.skip(i + 1));
        }
        i = i + 1;
    }
    proof {
        assert(a@.skip(i as int).len() == an - i);
        assert(b@.skip(i as int).len() == bn - i);
    }
    an <= bn
}

/// Compare two violations under the listing order.
fn viol_le_exec(a: &Violation, b: &Violation) -> (r: bool)
    ensures
        r == spec_viol_le(a@, b@),
{
    if !(a.code == b.code) {
        str_le_exec(a.code.as_str(), b.code.as_str())
    } else if !(a.path == b.path) {
        str_le_exec(a.path.as_str(), b.path.as_str())
    } else if !(a.title == b.title) {
        str_le_exec(a.title.as_str(), b.title.as_str())
    } else {
        match (&a.detail, &b.detail) {
            (Option::None, _) => true,
            (Option::Some(_), Option::None) => false,
            (Option::Some(x), Option::Some(y)) => str_le_exec(x.as_str(), y.as_str()),
        }
    }
}

proof fn lemma_model_remove(s: Seq<Violation>, k: int)
    requires
        0 <= k < s.len(),
    ensures
        violations_model(s.remove(k)) =~= violations_model(s).remove(k),
{
}

proof fn lemma_model_insert(s: Seq<Violation>, k: int, x: Violation)
    requires
        0 <= k <= s.len(),
    ensures
        violations_model(s.insert(k, x)) =~= violations_model(s).insert(k, x@),
{
    assert forall|t: int|
        0 <= t < s.len() + 1 implies violations_model(s.insert(k, x))[t] == violations_model(
        s,
    ).insert(k, x@)[t] by {
        if t < k {
            assert(s.insert(k, x)[t] == s[t]);
        } else if t == k {
            assert(s.insert(k, x)[t] == x);
        } else {
            assert(s.insert(k, x)[t] == s[t - 1]);
        }
    }
}

/// Sort violations under the listing order.  The result holds the same
/// collection of violations, listed in the unique sorted order.
pub fn sort_violations(vs: Vec<Violation>) -> (r: Vec<Violation>)
    ensures
        violations_model(r@).to_multiset() == violations_model(vs@).to_multiset(),
        spec_sorted_violations(violations_model(r@)),
        r@.len() == vs@.len(),
{
    broadcast use group_to_multiset_ensures;

    let ghost orig = violations_model(vs@);
    let mut src = vs;
    let mut out: Vec<Violation> = Vec::new();
    proof {
        assert(violations_model(out@) =~= Seq::<ViolationModel>::empty());
        assert(violations_model(out@).to_multiset().add(violations_model(src@).to_multiset())
            =~= orig.to_multiset());
    }
    while src.len() > 0
        invariant
            spec_sorted_violations(violations_model(out@)),
            violations_model(out@).to_multiset().add(violations_model(src@).to_multiset())
                == orig.to_multiset(),
            out@.len() + src@.len() == orig.len(),
        decreases src.len(),
    {
        let ghost src_seq = src@;
        let ghost src_pre = violations_model(src@);
        let ghost out_pre = violations_model(out@);
        let x = src.remove(0);
        proof {
            lemma_model_remove(src_seq, 0);
        }
        let n = out.len();
        let mut k: usize = 0;
        while k < n && viol_le_exec(&out[k], &x)
            invariant
                0 <= k <= n,
                n == out@.len(),
                forall|t: int| 0 <= t < k ==> spec_viol_le(#[trigger] out_pre[t], x@),
                violations_model(out@) == out_pre,
            decreases n - k,
        {
            k = k + 1;
        }
        proof {
            if k < n {
                lemma_viol_le_total(out_pre[k as int], x@);
                assert(spec_viol_le(x@, out_pre[k as int]));
                assert forall|t: int| k <= t < n implies spec_viol_le(x@, #[trigger] out_pre[t]) by {
                    if t > k {
                        lemma_viol_le_trans(x@, out_pre[k as int], out_pre[t]);
                    }
                }
            }
            let inserted = out_pre.insert(k as int, x@);
            assert forall|i: int, j: int|
                0 <= i < j < inserted.len() implies spec_viol_le(
                #[trigger] inserted[i],
                #[trigger] inserted[j],
            ) by {
                if i < k && j < k {
                    assert(inserted[i] == out_pre[i] && inserted[j] == out_pre[j]);
                } else if i < k && j == k {
                    assert(inserted[i] == out_pre[i] && inserted[j] == x@);
                } else if i < k && j > k {
                    assert(inserted[i] == out_pre[i] && inserted[j] == out_pre[j - 1]);
                } else if i == k {
                    assert(inserted[i] == x@ && inserted[j] == out_pre[j - 1]);
                } else {
                    assert(inserted[i] == out_pre[i - 1] && inserted[j] == out_pre[j - 1]);
                }
            }
            lemma_model_insert(out@, k as int, x);
            vstd::seq_lib::to_multiset_insert(out_pre, k as int, x@);
            // The moved element crosses from the source multiset to the output.
            assert(src_pre[0] == x@);
            assert(src@ == src_seq.remove(0));
            assert(violations_model(src@) =~= src_pre.remove(0));
            vstd::seq_lib::to_multiset_remove(src_pre, 0);
            assert(violations_model(src@).to_multiset() =~= src_pre.to_multiset().remove(x@));
            assert(src_pre.contains(src_pre[0]));
            vstd::seq_lib::to_multiset_contains(src_pre, x@);
            assert(src_pre.to_multiset().count(x@) > 0);
            assert forall|y: ViolationModel|
                out_pre.to_multiset().insert(x@).add(src_pre.to_multiset().remove(x@)).count(y)
                    == #[trigger] out_pre.to_multiset().add(src_pre.to_multiset()).count(y) by {}
            assert(out_pre.to_multiset().insert(x@).add(src_pre.to_multiset().remove(x@))
                =~= out_pre.to_multiset().add(src_pre.to_multiset()));
        }
        out.insert(k, x);
    }
    proof {
        assert(violations_model(src@).to_multiset().len() == 0);
        assert(violations_model(out@).to_multiset().add(violations_model(src@).to_multiset())
            =~= violations_model(out@).to_multiset());
        assert(violations_model(out@).len() == violations_model(out@).to_multiset().len());
    }
    out
}

} // verus!
