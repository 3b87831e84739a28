//! The merge engine: deterministic deep merge of an ordered sequence of JSON
//! values into one value.
//!
//! Two objects merge key by key: keys already present keep their position and
//! receive the recursively merged value, keys new to the base are appended in
//! the order the incoming object lists them.  In every other pairing the
//! incoming value replaces the base wholesale; arrays and scalars are never
//! concatenated or element-merged.

use vstd::prelude::*;

use crate::codec::parse_json;
use crate::codec::spec_parse;
use crate::error::CardError;
use crate::error::strings_model;
use crate::json::JsonModel;
use crate::json::JsonValue;
use crate::json::lemma_model_entries;
use crate::json::lemma_size_of_entries_elem;
use crate::json::model;
use crate::json::model_entries;
use crate::json::wf_entries;
use crate::json::wf_model;
use crate::laws::lemma_merge_wf;
use crate::json::size_of;
use crate::json::size_of_entries;
use crate::json::spec_find_key;
use crate::source::SourceFile;
use crate::source::bodies_of;
use crate::source::first_unreadable;
use crate::source::lemma_first_unreadable;

verus! {

/// One binary merge step: the incoming value `b` wins everywhere except where
/// both sides are objects, which merge entry by entry.
pub open spec fn spec_merge(a: JsonModel, b: JsonModel) -> JsonModel
    decreases b, 0nat,
{
    match (a, b) {
        (JsonModel::Object(x), JsonModel::Object(y)) => {
            proof {
                assert(decreases_to!(b => b->Object_0));
            }
            JsonModel::Object(spec_merge_entries(x, y))
        },
        _ => b,
    }
}

/// Fold the entries of an incoming object into a base entry list, first entry
/// first.  An existing key keeps its position and gets the merged value; a new
/// key is appended with the incoming value.
pub open spec fn spec_merge_entries(
    x: Seq<(Seq<char>, JsonModel)>,
    y: Seq<(Seq<char>, JsonModel)>,
) -> Seq<(Seq<char>, JsonModel)>
    decreases y, 1nat,
{
    if y.len() == 0 {
        x
    } else {
        proof {
            assert(decreases_to!(y => y[0]));
            assert(decreases_to!(y[0] => y[0].1));
        }
        let k = y[0].0;
        let v = y[0].1;
        let i = spec_find_key(x, k);
        let x1 = if i >= 0 {
            x.update(i, (k, spec_merge(x[i].1, v)))
        } else {
            x.push((k, v))
        };
        spec_merge_entries(x1, y.drop_first())
    }
}

/// Merging a source list folds left-to-right, starting from an empty object.
pub open spec fn spec_merge_all(sources: Seq<JsonModel>) -> JsonModel
    decreases sources.len(),
{
    if sources.len() == 0 {
        JsonModel::Object(Seq::empty())
    } else {
        spec_merge(spec_merge_all(sources.drop_last()), sources.last())
    }
}

/// Merge `b` into `a` in place, as `spec_merge` describes.
pub fn merge(a: &mut JsonValue, b: JsonValue)
    ensures
        final(a)@ == spec_merge(old(a)@, b@),
{
    let mut tmp = JsonValue::Null;
    core::mem::swap(a, &mut tmp);
    let r = merge_owned(tmp, b);
    *a = r;
}

/// First index of `k` among the entries, if any.
fn find_entry(entries: &Vec<(String, JsonValue)>, k: &String) -> (r: Option<usize>)
    ensures
        match r {
            Some(i) => 0 <= i < entries@.len() && spec_find_key(model_entries(entries@), k@)
                == i as int,
            None => spec_find_key(model_entries(entries@), k@) == -1,
        },
{
    let ghost es = model_entries(entries@);
    proof {
        lemma_model_entries(entries@);
    }
    let n = entries.len();
    let mut i: usize = 0;
    while i < n
        invariant
            0 <= i <= n,
            n == entries@.len(),
            es == model_entries(entries@),
            es.len() == n,
            forall|t: int| 0 <= t < i ==> #[trigger] es[t].0 != k@,
        decreases n - i,
    {
        proof {
            lemma_model_entries(entries@);
        }
        if entries[i].0 == *k {
            proof {
                assert(es[i as int].0 == k@);
                lemma_find_key_first(es, k@);
                let r = spec_find_key(es, k@);
                assert(r != -1);
                assert(!(r < i)) by {
                    if 0 <= r < i {
                        assert(es[r].0 != k@);
                    }
                }
                assert(!(r > i)) by {
                    if r > i {
                        assert(es[i as int].0 != k@);
                    }
                }
            }
            return Some(i);
        }
        i = i + 1;
    }
    proof {
        lemma_find_key_first(es, k@);
    }
    None
}

/// `spec_find_key` returns the first match: -1 exactly when no entry has the
/// key, else the least index whose entry has it.
pub proof fn lemma_find_key_first(es: Seq<(Seq<char>, JsonModel)>, k: Seq<char>)
    ensures
        spec_find_key(es, k) == -1 <==> (forall|t: int| 0 <= t < es.len() ==> #[trigger] es[t].0
            != k),
        spec_find_key(es, k) >= 0 ==> {
            let r = spec_find_key(es, k);
            0 <= r < es.len() && es[r].0 == k && (forall|t: int|
                0 <= t < r ==> #[trigger] es[t].0 != k)
        },
    decreases es,
{
    if es.len() == 0 {
    } else if es[0].0 == k {
        assert(spec_find_key(es, k) == 0);
    } else {
        let es1 = es.drop_first();
        lemma_find_key_first(es1, k);
        assert(forall|t: int| 0 <= t < es1.len() ==> #[trigger] es1[t] == es[t + 1]);
        let r1 = spec_find_key(es1, k);
        if r1 < 0 {
            assert(spec_find_key(es, k) == -1);
            assert forall|t: int| 0 <= t < es.len() implies #[trigger] es[t].0 != k by {
                if t > 0 {
                    assert(es1[t - 1].0 != k);
                }
            }
        } else {
            let r = r1 + 1;
            assert(spec_find_key(es, k) == r);
            assert(es[r].0 == es1[r1].0);
            assert forall|t: int| 0 <= t < r implies #[trigger] es[t].0 != k by {
                if t > 0 {
                    assert(es1[t - 1].0 != k);
                }
            }
        }
    }
}

/// Merge two owned values, returning the merged value.
fn merge_owned(a: JsonValue, b: JsonValue) -> (r: JsonValue)
    ensures
        r@ == spec_merge(a@, b@),
    decreases size_of(b@), 0nat,
{
    let ghost a0 = a@;
    let ghost b0 = b@;
    match (a, b) {
        (JsonValue::Object(x), JsonValue::Object(y)) => {
            proof {
                assert(a0 == JsonModel::Object(model_entries(x@)));
                assert(b0 == JsonModel::Object(model_entries(y@)));
                assert(size_of(b0) == 1 + size_of_entries(model_entries(y@)));
            }
            let merged = merge_entries(x, y);
            JsonValue::Object(merged)
        },
        (_, other) => other,
    }
}

/// Fold the incoming entries `y` into the base entries `x`.
#[verifier::loop_isolation(false)]
fn merge_entries(x: Vec<(String, JsonValue)>, y: Vec<(String, JsonValue)>) -> (r: Vec<
    (String, JsonValue),
>)
    ensures
        model_entries(r@) == spec_merge_entries(model_entries(x@), model_entries(y@)),
    decreases size_of_entries(model_entries(y@)), 1nat,
{
    let mut x = x;
    let mut y = y;
    let ghost xm0 = model_entries(x@);
    let ghost y0 = y@;
    let ghost ym0 = model_entries(y0);
    let ghost mut j: int = 0;
    proof {
        lemma_model_entries(y0);
        assert(y@ =~= y0.subrange(0, y0.len() as int));
    }
    while y.len() > 0
        invariant
            0 <= j <= y0.len(),
            y@ == y0.subrange(j, y0.len() as int),
            ym0 == model_entries(y0),
            ym0.len() == y0.len(),
            spec_merge_entries(model_entries(x@), model_entries(y@)) == spec_merge_entries(
                xm0,
                ym0,
            ),
        decreases y@.len(),
    {
        let ghost x_pre = x@;
        let ghost xm_pre = model_entries(x_pre);
        let ghost y_pre = y@;
        let ghost ym_pre = model_entries(y_pre);
        let (k, v) = y.remove(0);
        proof {
            lemma_model_entries(y_pre);
            lemma_model_entries(y@);
            assert(y@ =~= y_pre.drop_first());
            assert(model_entries(y@) =~= ym_pre.drop_first());
            assert(ym_pre.len() > 0);
            assert(ym_pre[0] == (k@, model(v)));
            assert(y_pre[0] == y0[j]);
            lemma_model_entries(y0);
            assert(model(v) == ym0[j].1);
            lemma_size_of_entries_elem(ym0, j);
        }
        let found = find_entry(&x, &k);
        match found {
            Some(i) => {
                let (_k_old, w) = x.remove(i);
                proof {
                    lemma_model_entries(x_pre);
                    assert(w == x_pre[i as int].1);
                    assert(model(w) == xm_pre[i as int].1);
                }
                let merged = merge_owned(w, v);
                x.insert(i, (k, merged));
                proof {
                    lemma_model_entries(x_pre);
                    lemma_model_entries(x@);
                    assert(x@ =~= x_pre.update(i as int, (k, merged)));
                    assert(model_entries(x@) =~= xm_pre.update(
                        i as int,
                        (k@, spec_merge(xm_pre[i as int].1, model(v))),
                    ));
                    assert(spec_merge_entries(xm_pre, ym_pre) == spec_merge_entries(
                        model_entries(x@),
                        model_entries(y@),
                    ));
                }
            },
            None => {
                x.push((k, v));
                proof {
                    lemma_model_entries(x_pre);
                    lemma_model_entries(x@);
                    assert(x@ =~= x_pre.push((k, v)));
                    assert(model_entries(x@) =~= xm_pre.push((k@, model(v))));
                    assert(spec_merge_entries(xm_pre, ym_pre) == spec_merge_entries(
                        model_entries(x@),
                        model_entries(y@),
                    ));
                }
            },
        }
        proof {
            j = j + 1;
            assert(y@ =~= y0.subrange(j, y0.len() as int));
        }
    }
    proof {
        assert(model_entries(y@).len() == 0) by {
            lemma_model_entries(y@);
        }
        assert(spec_merge_entries(model_entries(x@), model_entries(y@)) == model_entries(x@));
    }
    x
}

/// Index of the first text that does not parse, or -1 when all parse.
pub open spec fn first_parse_failure(texts: Seq<Seq<char>>) -> int
    decreases texts,
{
    if texts.len() == 0 {
        -1
    } else if spec_parse(texts[0]) is Err {
        0
    } else {
        let r = first_parse_failure(texts.drop_first());
        if r < 0 {
            -1
        } else {
            r + 1
        }
    }
}

/// The parsed model of each text of a list that parses.
pub open spec fn parsed_models(texts: Seq<Seq<char>>) -> Seq<JsonModel> {
    texts.map_values(|t: Seq<char>| spec_parse(t)->Ok_0)
}

/// What merging a list of JSON texts returns: the fold of the parsed values
/// when every text parses, else the parse error of the first text that does
/// not.
pub open spec fn merged_texts_post(texts: Seq<Seq<char>>, r: Result<JsonValue, CardError>) -> bool {
    &&& (r is Ok <==> first_parse_failure(texts) == -1)
    &&& (r is Ok ==> r->Ok_0@ == spec_merge_all(parsed_models(texts)) && wf_model(r->Ok_0@))
    &&& (r is Err ==> ({
        let i = first_parse_failure(texts);
        &&& 0 <= i < texts.len()
        &&& spec_parse(texts[i]) is Err
        &&& (r matches Err(CardError::ParseError { raw_text, cause }) && raw_text@ == texts[i]
            && cause@ == spec_parse(texts[i])->Err_0)
    }))
}

/// `first_parse_failure` returns the first failure: -1 exactly when every
/// text parses, else the least index of one that does not.
pub proof fn lemma_first_parse_failure(texts: Seq<Seq<char>>)
    ensures
        first_parse_failure(texts) == -1 <==> (forall|t: int|
            0 <= t < texts.len() ==> spec_parse(#[trigger] texts[t]) is Ok),
        first_parse_failure(texts) >= 0 ==> {
            let r = first_parse_failure(texts);
            0 <= r < texts.len() && spec_parse(texts[r]) is Err && (forall|t: int|
                0 <= t < r ==> spec_parse(#[trigger] texts[t]) is Ok)
        },
    decreases texts,
{
    if texts.len() == 0 {
    } else if spec_parse(texts[0]) is Err {
    } else {
        let ts1 = texts.drop_first();
        lemma_first_parse_failure(ts1);
        assert(forall|t: int| 0 <= t < ts1.len() ==> #[trigger] ts1[t] == texts[t + 1]);
        let r1 = first_parse_failure(ts1);
        if r1 < 0 {
            assert forall|t: int| 0 <= t < texts.len() implies spec_parse(#[trigger] texts[t])
                is Ok by {
                if t > 0 {
                    assert(spec_parse(ts1[t - 1]) is Ok);
                }
            }
        } else {
            assert forall|t: int| 0 <= t < r1 + 1 implies spec_parse(#[trigger] texts[t])
                is Ok by {
                if t > 0 {
                    assert(spec_parse(ts1[t - 1]) is Ok);
                }
            }
        }
    }
}

/// Merge JSON texts into a single value: parse each in order, then fold them
/// into an empty object with `merge`.
#[verifier::loop_isolation(false)]
pub fn from_strings(strings: Vec<String>) -> (r: Result<JsonValue, CardError>)
    ensures
        merged_texts_post(strings_model(strings@), r),
{
    let ghost texts = strings_model(strings@);
    let mut result = JsonValue::Object(Vec::new());
    proof {
        assert(parsed_models(texts.subrange(0, 0)) =~= Seq::<JsonModel>::empty());
        assert(result@ == JsonModel::Object(model_entries(Seq::empty())));
        assert(result@ == spec_merge_all(parsed_models(texts.subrange(0, 0))));
        assert(wf_entries(Seq::<(Seq<char>, JsonModel)>::empty()));
    }
    let n = strings.len();
    let mut i: usize = 0;
    while i < n
        invariant
            0 <= i <= n,
            forall|t: int| 0 <= t < i ==> spec_parse(#[trigger] texts[t]) is Ok,
            result@ == spec_merge_all(parsed_models(texts.subrange(0, i as int))),
            wf_model(result@),
        decreases n - i,
    {
        let parsed = parse_json(strings[i].as_str());
        match parsed {
            Ok(v) => {
                let ghost pre = texts.subrange(0, i as int);
                let ghost result_pre = result@;
                merge(&mut result, v);
                proof {
                    lemma_merge_wf(result_pre, v@);
                    let post = texts.subrange(0, i + 1);
                    assert(post.drop_last() =~= pre);
                    assert(parsed_models(post).drop_last() =~= parsed_models(pre));
                    assert(parsed_models(post).last() == spec_parse(texts[i as int])->Ok_0);
                    assert(spec_merge_all(parsed_models(post)) == spec_merge(
                        spec_merge_all(parsed_models(pre)),
                        spec_parse(texts[i as int])->Ok_0,
                    ));
                }
                i = i + 1;
            },
            Err(e) => {
                let raw = strings[i].clone();
                proof {
                    lemma_first_parse_failure(texts);
                    let r = first_parse_failure(texts);
                    assert(spec_parse(texts[i as int]) is Err);
                    assert(r != -1);
                    assert(!(r < i)) by {
                        if 0 <= r < i {
                            assert(spec_parse(texts[r]) is Ok);
                        }
                    }
                    assert(!(r > i)) by {
                        if r > i {
                            assert(spec_parse(texts[i as int]) is Ok);
                        }
                    }
                }
                return Err(CardError::ParseError { raw_text: raw, cause: e });
            },
        }
    }
    proof {
        lemma_first_parse_failure(texts);
        assert(texts.subrange(0, n as int) =~= texts);
    }
    Ok(result)
}

/// Merge JSON files into a single value: every file must have been readable,
/// and its contents are then merged as `from_strings` describes.
#[verifier::loop_isolation(false)]
pub fn from_paths(sources: Vec<SourceFile>) -> (r: Result<JsonValue, CardError>)
    ensures
        first_unreadable(sources@) >= 0 ==> (r matches Err(CardError::ReadError { path })
            && path@ == sources@[first_unreadable(sources@)].path@),
        first_unreadable(sources@) == -1 ==> merged_texts_post(
            strings_model(bodies_of(sources@)),
            r,
        ),
{
    let n = sources.len();
    let mut texts: Vec<String> = Vec::new();
    let mut i: usize = 0;
    while i < n
        invariant
            0 <= i <= n,
            texts@.len() == i,
            forall|t: int| 0 <= t < i ==> #[trigger] sources@[t].body is Some,
            forall|t: int| 0 <= t < i ==> #[trigger] texts@[t] == sources@[t].body->Some_0,
        decreases n - i,
    {
        match &sources[i].body {
            Some(b) => {
                texts.push(b.clone());
            },
            None => {
                proof {
                    lemma_first_unreadable(sources@);
                    let r = first_unreadable(sources@);
                    assert(r != -1);
                    assert(!(r < i)) by {
                        if 0 <= r < i {
                            assert(sources@[r].body is Some);
                        }
                    }
                    assert(!(r > i)) by {
                        if r > i {
                            assert(sources@[i as int].body is Some);
                        }
                    }
                }
                return Err(CardError::ReadError { path: sources[i].path.clone() });
            },
        }
        i = i + 1;
    }
    proof {
        lemma_first_unreadable(sources@);
        assert(texts@ =~= bodies_of(sources@));
    }
    from_strings(texts)
}

} // verus!
