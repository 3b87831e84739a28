//! The JSON value tree that the pipeline works on.
//!
//! `JsonValue` is the universal in-memory representation for data documents,
//! schemas and template contexts.  Its mathematical model is `JsonModel`,
//! where strings become `Seq<char>` and vectors become `Seq`.  Numbers are
//! carried as `serde_json::Number` values; no stage of the pipeline inspects
//! a number, it only moves them around.

use vstd::prelude::*;

verus! {

#[verifier::external_type_specification]
#[verifier::external_body]
pub struct ExNumber(serde_json::Number);

/// Relies on serde_json::Number's derived Clone: the copy is the same number.
pub assume_specification[ <serde_json::Number as Clone>::clone ](n: &serde_json::Number) -> (r:
    serde_json::Number)
    ensures
        r == n,
;

/// A JSON document: the object variant keeps its entries in insertion order,
/// and a well-formed value (see `wf_model`) has no repeated keys.
#[derive(Debug, PartialEq)]
pub enum JsonValue {
    Null,
    Bool(bool),
    Number(serde_json::Number),
    Text(String),
    Array(Vec<JsonValue>),
    Object(Vec<(String, JsonValue)>),
}

/// The mathematical model of a `JsonValue`.
#[verifier::ext_equal]
pub enum JsonModel {
    Null,
    Bool(bool),
    Number(serde_json::Number),
    Text(Seq<char>),
    Array(Seq<JsonModel>),
    Object(Seq<(Seq<char>, JsonModel)>),
}

/// The model of a value: strings as character sequences, vectors as `Seq`.
pub open spec fn model(v: JsonValue) -> JsonModel
    decreases v,
{
    match v {
        JsonValue::Null => JsonModel::Null,
        JsonValue::Bool(b) => JsonModel::Bool(b),
        JsonValue::Number(n) => JsonModel::Number(n),
        JsonValue::Text(s) => JsonModel::Text(s@),
        JsonValue::Array(items) => {
            proof {
                assert(decreases_to!(v => items));
                assert(decreases_to!(items => items@));
            }
            JsonModel::Array(model_list(items@))
        },
        JsonValue::Object(entries) => {
            proof {
                assert(decreases_to!(v => entries));
                assert(decreases_to!(entries => entries@));
            }
            JsonModel::Object(model_entries(entries@))
        },
    }
}

pub open spec fn model_list(items: Seq<JsonValue>) -> Seq<JsonModel>
    decreases items,
{
    if items.len() == 0 {
        Seq::empty()
    } else {
        seq![model(items[0])] + model_list(items.drop_first())
    }
}

pub open spec fn model_entries(entries: Seq<(String, JsonValue)>) -> Seq<(Seq<char>, JsonModel)>
    decreases entries,
{
    if entries.len() == 0 {
        Seq::empty()
    } else {
        seq![(entries[0].0@, model(entries[0].1))] + model_entries(entries.drop_first())
    }
}

impl View for JsonValue {
    type V = JsonModel;

    open spec fn view(&self) -> JsonModel {
        model(*self)
    }
}

/// `model_list` maps each element to its model.
pub proof fn lemma_model_list(items: Seq<JsonValue>)
    ensures
        model_list(items).len() == items.len(),
        forall|i: int| 0 <= i < items.len() ==> #[trigger] model_list(items)[i] == model(items[i]),
    decreases items,
{
    if items.len() > 0 {
        lemma_model_list(items.drop_first());
        assert forall|i: int| 0 <= i < items.len() implies #[trigger] model_list(items)[i]
            == model(items[i]) by {
            if i > 0 {
                assert(items.drop_first()[i - 1] == items[i]);
            }
        }
    }
}

/// `model_entries` maps each entry to its key view and value model.
pub broadcast proof fn lemma_model_entries(entries: Seq<(String, JsonValue)>)
    ensures
        (#[trigger] model_entries(entries)).len() == entries.len(),
        forall|i: int|
            0 <= i < entries.len() ==> #[trigger] model_entries(entries)[i] == (
                entries[i].0@,
                model(entries[i].1),
            ),
    decreases entries,
{
    if entries.len() > 0 {
        lemma_model_entries(entries.drop_first());
        assert forall|i: int| 0 <= i < entries.len() implies model_entries(entries)[i] == (
            entries[i].0@,
            model(entries[i].1),
        ) by {
            if i > 0 {
                assert(entries.drop_first()[i - 1] == entries[i]);
            }
        }
    }
}

/// Index of the first entry with key `k`, or -1 when no entry has it.
pub open spec fn spec_find_key(entries: Seq<(Seq<char>, JsonModel)>, k: Seq<char>) -> int
    decreases entries,
{
    if entries.len() == 0 {
        -1
    } else if entries[0].0 == k {
        0
    } else {
        let r = spec_find_key(entries.drop_first(), k);
        if r < 0 {
            -1
        } else {
            r + 1
        }
    }
}

pub open spec fn spec_has_key(entries: Seq<(Seq<char>, JsonModel)>, k: Seq<char>) -> bool {
    spec_find_key(entries, k) >= 0
}

/// The value stored under key `k`, if any; the first entry wins when keys
/// repeat.
pub open spec fn spec_lookup(entries: Seq<(Seq<char>, JsonModel)>, k: Seq<char>) -> Option<
    JsonModel,
> {
    let i = spec_find_key(entries, k);
    if i >= 0 {
        Some(entries[i].1)
    } else {
        None
    }
}

/// The keys of an entry list, in order.
pub open spec fn key_seq(entries: Seq<(Seq<char>, JsonModel)>) -> Seq<Seq<char>> {
    entries.map_values(|e: (Seq<char>, JsonModel)| e.0)
}

/// Pairwise distinct keys, at this level only.
pub open spec fn keys_unique(entries: Seq<(Seq<char>, JsonModel)>) -> bool
    decreases entries,
{
    if entries.len() == 0 {
        true
    } else {
        !spec_has_key(entries.drop_first(), entries[0].0) && keys_unique(entries.drop_first())
    }
}

/// Well-formedness: every object in the tree has pairwise distinct keys.
pub open spec fn wf_model(m: JsonModel) -> bool
    decreases m,
{
    match m {
        JsonModel::Array(items) => wf_list(items),
        JsonModel::Object(entries) => wf_entries(entries),
        _ => true,
    }
}

pub open spec fn wf_list(items: Seq<JsonModel>) -> bool
    decreases items,
{
    if items.len() == 0 {
        true
    } else {
        wf_model(items[0]) && wf_list(items.drop_first())
    }
}

pub open spec fn wf_entries(entries: Seq<(Seq<char>, JsonModel)>) -> bool
    decreases entries,
{
    if entries.len() == 0 {
        true
    } else {
        !spec_has_key(entries.drop_first(), entries[0].0) && wf_model(entries[0].1)
            && wf_entries(entries.drop_first())
    }
}

/// Entry-list well-formedness, spelled out by index: every value is
/// well-formed and no two entries share a key.
pub proof fn lemma_wf_entries_char(es: Seq<(Seq<char>, JsonModel)>)
    ensures
        wf_entries(es) <==> ((forall|t: int| 0 <= t < es.len() ==> wf_model(#[trigger] es[t].1))
            && (forall|t1: int, t2: int|
            0 <= t1 < t2 < es.len() ==> (#[trigger] es[t1]).0 != (#[trigger] es[t2]).0)),
    decreases es,
{
    if es.len() > 0 {
        let tail = es.drop_first();
        lemma_wf_entries_char(tail);
        lemma_find_key_none_char(tail, es[0].0);
        assert(forall|t: int| 0 <= t < tail.len() ==> #[trigger] tail[t] == es[t + 1]);
        if wf_entries(es) {
            assert forall|t: int| 0 <= t < es.len() implies wf_model(#[trigger] es[t].1) by {
                if t > 0 {
                    assert(wf_model(tail[t - 1].1));
                }
            }
            assert forall|t1: int, t2: int|
                0 <= t1 < t2 < es.len() implies (#[trigger] es[t1]).0 != (#[trigger] es[t2]).0 by {
                if t1 == 0 {
                    assert(tail[t2 - 1].0 != es[0].0);
                } else {
                    assert(tail[t1 - 1].0 != tail[t2 - 1].0);
                }
            }
        }
        if (forall|t: int| 0 <= t < es.len() ==> wf_model(#[trigger] es[t].1)) && (forall|
            t1: int,
            t2: int,
        |
            0 <= t1 < t2 < es.len() ==> (#[trigger] es[t1]).0 != (#[trigger] es[t2]).0) {
            assert forall|t: int| 0 <= t < tail.len() implies wf_model(#[trigger] tail[t].1) by {
                assert(wf_model(es[t + 1].1));
            }
            assert forall|t1: int, t2: int|
                0 <= t1 < t2 < tail.len() implies (#[trigger] tail[t1]).0 != (
            #[trigger] tail[t2]).0 by {
                assert(es[t1 + 1].0 != es[t2 + 1].0);
            }
            assert forall|t: int| 0 <= t < tail.len() implies #[trigger] tail[t].0 != es[0].0 by {
                assert(es[0].0 != es[t + 1].0);
            }
            assert(!spec_has_key(tail, es[0].0));
            assert(wf_entries(es));
        }
    }
}

/// `spec_find_key` misses exactly when no entry has the key.
proof fn lemma_find_key_none_char(es: Seq<(Seq<char>, JsonModel)>, k: Seq<char>)
    ensures
        spec_find_key(es, k) == -1 <==> (forall|t: int| 0 <= t < es.len() ==> #[trigger] es[t].0
            != k),
    decreases es,
{
    if es.len() > 0 {
        let tail = es.drop_first();
        lemma_find_key_none_char(tail, k);
        assert(forall|t: int| 0 <= t < tail.len() ==> #[trigger] tail[t] == es[t + 1]);
        if es[0].0 != k && spec_find_key(tail, k) == -1 {
            assert forall|t: int| 0 <= t < es.len() implies #[trigger] es[t].0 != k by {
                if t > 0 {
                    assert(tail[t - 1].0 != k);
                }
            }
        }
        if forall|t: int| 0 <= t < es.len() ==> #[trigger] es[t].0 != k {
            assert forall|t: int| 0 <= t < tail.len() implies #[trigger] tail[t].0 != k by {
                assert(es[t + 1].0 != k);
            }
        }
    }
}

/// A well-formed object's entries have pairwise distinct keys.
pub proof fn lemma_wf_entries_keys_unique(entries: Seq<(Seq<char>, JsonModel)>)
    requires
        wf_entries(entries),
    ensures
        keys_unique(entries),
    decreases entries,
{
    if entries.len() > 0 {
        lemma_wf_entries_keys_unique(entries.drop_first());
    }
}

/// Number of nodes of a model tree; the termination measure of the merge
/// engine.
pub open spec fn size_of(m: JsonModel) -> nat
    decreases m,
{
    match m {
        JsonModel::Array(items) => 1 + size_of_list(items),
        JsonModel::Object(entries) => 1 + size_of_entries(entries),
        _ => 1,
    }
}

pub open spec fn size_of_list(items: Seq<JsonModel>) -> nat
    decreases items,
{
    if items.len() == 0 {
        0
    } else {
        size_of(items[0]) + size_of_list(items.drop_first())
    }
}

pub open spec fn size_of_entries(entries: Seq<(Seq<char>, JsonModel)>) -> nat
    decreases entries,
{
    if entries.len() == 0 {
        0
    } else {
        size_of(entries[0].1) + size_of_entries(entries.drop_first())
    }
}

/// An element's size is bounded by the size of its list.
pub proof fn lemma_size_of_list_elem(items: Seq<JsonModel>, j: int)
    requires
        0 <= j < items.len(),
    ensures
        size_of(items[j]) <= size_of_list(items),
    decreases items,
{
    if j > 0 {
        lemma_size_of_list_elem(items.drop_first(), j - 1);
        assert(items.drop_first()[j - 1] == items[j]);
    }
}

/// An entry value's size is bounded by the size of its entry list.
pub proof fn lemma_size_of_entries_elem(es: Seq<(Seq<char>, JsonModel)>, j: int)
    requires
        0 <= j < es.len(),
    ensures
        size_of(es[j].1) <= size_of_entries(es),
    decreases es,
{
    if j > 0 {
        lemma_size_of_entries_elem(es.drop_first(), j - 1);
        assert(es.drop_first()[j - 1] == es[j]);
    }
}

} // verus!
