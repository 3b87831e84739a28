//! The schema validator: compile a JSON Schema Draft-07 document with valico
//! and validate a JSON value against it, aggregating every violation.
//!
//! Two classes of schema are rejected before valico sees them: one that
//! declares `$id` below the top level (resolving through such a schema can
//! panic inside valico) and one that uses `$ref` anywhere (valico resolves
//! references with no cycle check, so a self-referential schema would
//! recurse without bound; see `valico_check`).  For the rest, whether the
//! schema compiles and which violations a document receives are functions
//! of schema and document alone.  The order in which valico lists the
//! violations is not (it walks hash sets internally), so the trusted
//! contract names the collection of violations, and `check_against_schema`
//! sorts them before anything is built from them.

use vstd::prelude::*;
use vstd::multiset::Multiset;
use vstd::seq_lib::group_to_multiset_ensures;

use crate::codec::to_serde;
use crate::error::CardError;
use crate::error::Violation;
use crate::error::strings_model;
use crate::error::ViolationModel;
use crate::error::violations_model;
use crate::json::JsonModel;
use crate::json::JsonValue;
use crate::json::lemma_model_entries;
use crate::json::lemma_model_list;
use crate::json::lemma_size_of_entries_elem;
use crate::json::lemma_size_of_list_elem;
use crate::json::model_entries;
use crate::json::model_list;
use crate::json::size_of;
use crate::order::sort_violations;
use crate::order::spec_sorted_violations;
use crate::order::lemma_sorted_violations_unique;

verus! {

/// Whether valico accepts a value as a Draft-07 schema document.  The
/// trusted contract applies this name to `$ref`-free schemas only: with
/// `$ref` present valico's own compile verdict varies from run to run (see
/// `valico_check`), and such schemas are rejected before valico is called.
pub uninterp spec fn spec_schema_ok(schema: JsonModel) -> bool;

/// The violations valico reports for a document under a schema that
/// compiles; the document is valid exactly when this collection is empty.
pub uninterp spec fn spec_violations(schema: JsonModel, doc: JsonModel) -> Multiset<ViolationModel>;

/// The document conforms to the schema.
pub open spec fn spec_valid(schema: JsonModel, doc: JsonModel) -> bool {
    spec_violations(schema, doc).len() == 0
}

/// No object anywhere in the tree uses the `$ref` keyword.
pub open spec fn spec_ref_free(m: JsonModel) -> bool
    decreases m,
{
    match m {
        JsonModel::Array(items) => ref_free_list(items),
        JsonModel::Object(entries) => ref_free_entries(entries),
        _ => true,
    }
}

pub open spec fn ref_free_list(items: Seq<JsonModel>) -> bool
    decreases items,
{
    if items.len() == 0 {
        true
    } else {
        spec_ref_free(items[0]) && ref_free_list(items.drop_first())
    }
}

pub open spec fn ref_free_entries(entries: Seq<(Seq<char>, JsonModel)>) -> bool
    decreases entries,
{
    if entries.len() == 0 {
        true
    } else {
        entries[0].0 != "$ref"@ && spec_ref_free(entries[0].1) && ref_free_entries(
            entries.drop_first(),
        )
    }
}

/// No object anywhere in the tree uses the `$id` keyword.
pub open spec fn spec_id_free(m: JsonModel) -> bool
    decreases m,
{
    match m {
        JsonModel::Array(items) => id_free_list(items),
        JsonModel::Object(entries) => id_free_entries(entries),
        _ => true,
    }
}

pub open spec fn id_free_list(items: Seq<JsonModel>) -> bool
    decreases items,
{
    if items.len() == 0 {
        true
    } else {
        spec_id_free(items[0]) && id_free_list(items.drop_first())
    }
}

pub open spec fn id_free_entries(entries: Seq<(Seq<char>, JsonModel)>) -> bool
    decreases entries,
{
    if entries.len() == 0 {
        true
    } else {
        entries[0].0 != "$id"@ && spec_id_free(entries[0].1) && id_free_entries(
            entries.drop_first(),
        )
    }
}

/// No `$id` below the top level: the document may carry its own `$id` at the
/// root, but no subschema declares one.
pub open spec fn spec_nested_id_free(m: JsonModel) -> bool {
    match m {
        JsonModel::Object(entries) => id_free_values(entries),
        _ => spec_id_free(m),
    }
}

pub open spec fn id_free_values(entries: Seq<(Seq<char>, JsonModel)>) -> bool
    decreases entries,
{
    if entries.len() == 0 {
        true
    } else {
        spec_id_free(entries[0].1) && id_free_values(entries.drop_first())
    }
}

proof fn lemma_id_free_list_char(items: Seq<JsonModel>)
    ensures
        id_free_list(items) <==> (forall|t: int|
            0 <= t < items.len() ==> spec_id_free(#[trigger] items[t])),
    decreases items,
{
    if items.len() > 0 {
        let tail = items.drop_first();
        lemma_id_free_list_char(tail);
        assert(forall|t: int| 0 <= t < tail.len() ==> #[trigger] tail[t] == items[t + 1]);
        if id_free_list(items) {
            assert forall|t: int| 0 <= t < items.len() implies spec_id_free(
                #[trigger] items[t],
            ) by {
                if t > 0 {
                    assert(spec_id_free(tail[t - 1]));
                }
            }
        }
        if forall|t: int| 0 <= t < items.len() ==> spec_id_free(#[trigger] items[t]) {
            assert forall|t: int| 0 <= t < tail.len() implies spec_id_free(#[trigger] tail[t]) by {
                assert(spec_id_free(items[t + 1]));
            }
        }
    }
}

proof fn lemma_id_free_entries_char(entries: Seq<(Seq<char>, JsonModel)>)
    ensures
        id_free_entries(entries) <==> (forall|t: int|
            0 <= t < entries.len() ==> ((#[trigger] entries[t]).0 != "$id"@ && spec_id_free(
                entries[t].1,
            ))),
    decreases entries,
{
    if entries.len() > 0 {
        let tail = entries.drop_first();
        lemma_id_free_entries_char(tail);
        assert(forall|t: int| 0 <= t < tail.len() ==> #[trigger] tail[t] == entries[t + 1]);
        if id_free_entries(entries) {
            assert forall|t: int|
                0 <= t < entries.len() implies ((#[trigger] entries[t]).0 != "$id"@
                && spec_id_free(entries[t].1)) by {
                if t > 0 {
                    assert(tail[t - 1].0 != "$id"@ && spec_id_free(tail[t - 1].1));
                }
            }
        }
        if forall|t: int|
            0 <= t < entries.len() ==> ((#[trigger] entries[t]).0 != "$id"@ && spec_id_free(
                entries[t].1,
            )) {
            assert forall|t: int|
                0 <= t < tail.len() implies ((#[trigger] tail[t]).0 != "$id"@ && spec_id_free(
                tail[t].1,
            )) by {
                assert(entries[t + 1].0 != "$id"@ && spec_id_free(entries[t + 1].1));
            }
        }
    }
}

proof fn lemma_id_free_values_char(entries: Seq<(Seq<char>, JsonModel)>)
    ensures
        id_free_values(entries) <==> (forall|t: int|
            0 <= t < entries.len() ==> spec_id_free((#[trigger] entries[t]).1)),
    decreases entries,
{
    if entries.len() > 0 {
        let tail = entries.drop_first();
        lemma_id_free_values_char(tail);
        assert(forall|t: int| 0 <= t < tail.len() ==> #[trigger] tail[t] == entries[t + 1]);
        if id_free_values(entries) {
            assert forall|t: int|
                0 <= t < entries.len() implies spec_id_free((#[trigger] entries[t]).1) by {
                if t > 0 {
                    assert(spec_id_free(tail[t - 1].1));
                }
            }
        }
        if forall|t: int| 0 <= t < entries.len() ==> spec_id_free((#[trigger] entries[t]).1) {
            assert forall|t: int|
                0 <= t < tail.len() implies spec_id_free((#[trigger] tail[t]).1) by {
                assert(spec_id_free(entries[t + 1].1));
            }
        }
    }
}

/// Whether a value's tree is free of the `$id` keyword.
#[verifier::loop_isolation(false)]
fn id_free_value(v: &JsonValue) -> (r: bool)
    ensures
        r == spec_id_free(v@),
    decreases size_of(v@),
{
    match v {
        JsonValue::Array(items) => {
            let ghost ms = model_list(items@);
            proof {
                lemma_model_list(items@);
                lemma_id_free_list_char(ms);
            }
            let n = items.len();
            let mut i: usize = 0;
            while i < n
                invariant
                    0 <= i <= n,
                    forall|t: int| 0 <= t < i ==> spec_id_free(#[trigger] ms[t]),
                decreases n - i,
            {
                proof {
                    lemma_model_list(items@);
                    lemma_size_of_list_elem(ms, i as int);
                }
                if !id_free_value(&items[i]) {
                    proof {
                        assert(!spec_id_free(ms[i as int]));
                    }
                    return false;
                }
                i = i + 1;
            }
            true
        },
        JsonValue::Object(entries) => {
            let ghost es = model_entries(entries@);
            proof {
                lemma_model_entries(entries@);
                lemma_id_free_entries_char(es);
            }
            let id_key = String::from_str("$id");
            let n = entries.len();
            let mut i: usize = 0;
            while i < n
                invariant
                    0 <= i <= n,
                    id_key@ == "$id"@,
                    forall|t: int|
                        0 <= t < i ==> ((#[trigger] es[t]).0 != "$id"@ && spec_id_free(es[t].1)),
                decreases n - i,
            {
                proof {
                    lemma_model_entries(entries@);
                    lemma_size_of_entries_elem(es, i as int);
                }
                if entries[i].0 == id_key {
                    proof {
                        assert(es[i as int].0 == "$id"@);
                    }
                    return false;
                }
                if !id_free_value(&entries[i].1) {
                    proof {
                        assert(!spec_id_free(es[i as int].1));
                    }
                    return false;
                }
                i = i + 1;
            }
            true
        },
        _ => true,
    }
}

/// Whether no subschema below the top level declares `$id`.
#[verifier::loop_isolation(false)]
fn nested_id_free(v: &JsonValue) -> (r: bool)
    ensures
        r == spec_nested_id_free(v@),
{
    match v {
        JsonValue::Object(entries) => {
            let ghost es = model_entries(entries@);
            proof {
                lemma_model_entries(entries@);
                lemma_id_free_values_char(es);
            }
            let n = entries.len();
            let mut i: usize = 0;
            while i < n
                invariant
                    0 <= i <= n,
                    forall|t: int| 0 <= t < i ==> spec_id_free((#[trigger] es[t]).1),
                decreases n - i,
            {
                proof {
                    lemma_model_entries(entries@);
                }
                if !id_free_value(&entries[i].1) {
                    proof {
                        assert(!spec_id_free(es[i as int].1));
                    }
                    return false;
                }
                i = i + 1;
            }
            true
        },
        _ => id_free_value(v),
    }
}

proof fn lemma_ref_free_list_char(items: Seq<JsonModel>)
    ensures
        ref_free_list(items) <==> (forall|t: int|
            0 <= t < items.len() ==> spec_ref_free(#[trigger] items[t])),
    decreases items,
{
    if items.len() > 0 {
        let tail = items.drop_first();
        lemma_ref_free_list_char(tail);
        assert(forall|t: int| 0 <= t < tail.len() ==> #[trigger] tail[t] == items[t + 1]);
        if ref_free_list(items) {
            assert forall|t: int| 0 <= t < items.len() implies spec_ref_free(
                #[trigger] items[t],
            ) by {
                if t > 0 {
                    assert(spec_ref_free(tail[t - 1]));
                }
            }
        }
        if forall|t: int| 0 <= t < items.len() ==> spec_ref_free(#[trigger] items[t]) {
            assert forall|t: int| 0 <= t < tail.len() implies spec_ref_free(#[trigger] tail[t]) by {
                assert(spec_ref_free(items[t + 1]));
            }
        }
    }
}

proof fn lemma_ref_free_entries_char(entries: Seq<(Seq<char>, JsonModel)>)
    ensures
        ref_free_entries(entries) <==> (forall|t: int|
            0 <= t < entries.len() ==> ((#[trigger] entries[t]).0 != "$ref"@ && spec_ref_free(
                entries[t].1,
            ))),
    decreases entries,
{
    if entries.len() > 0 {
        let tail = entries.drop_first();
        lemma_ref_free_entries_char(tail);
        assert(forall|t: int| 0 <= t < tail.len() ==> #[trigger] tail[t] == entries[t + 1]);
        if ref_free_entries(entries) {
            assert forall|t: int|
                0 <= t < entries.len() implies ((#[trigger] entries[t]).0 != "$ref"@
                && spec_ref_free(entries[t].1)) by {
                if t > 0 {
                    assert(tail[t - 1].0 != "$ref"@ && spec_ref_free(tail[t - 1].1));
                }
            }
        }
        if forall|t: int|
            0 <= t < entries.len() ==> ((#[trigger] entries[t]).0 != "$ref"@ && spec_ref_free(
                entries[t].1,
            )) {
            assert forall|t: int|
                0 <= t < tail.len() implies ((#[trigger] tail[t]).0 != "$ref"@ && spec_ref_free(
                tail[t].1,
            )) by {
                assert(entries[t + 1].0 != "$ref"@ && spec_ref_free(entries[t + 1].1));
            }
        }
    }
}

/// Whether a value's tree is free of the `$ref` keyword.
#[verifier::loop_isolation(false)]
fn ref_free_value(v: &JsonValue) -> (r: bool)
    ensures
        r == spec_ref_free(v@),
    decreases size_of(v@),
{
    match v {
        JsonValue::Array(items) => {
            let ghost ms = model_list(items@);
            proof {
                lemma_model_list(items@);
                lemma_ref_free_list_char(ms);
            }
            let n = items.len();
            let mut i: usize = 0;
            while i < n
                invariant
                    0 <= i <= n,
                    forall|t: int| 0 <= t < i ==> spec_ref_free(#[trigger] ms[t]),
                decreases n - i,
            {
                proof {
                    lemma_model_list(items@);
                    lemma_size_of_list_elem(ms, i as int);
                }
                if !ref_free_value(&items[i]) {
                    proof {
                        assert(!spec_ref_free(ms[i as int]));
                    }
                    return false;
                }
                i = i + 1;
            }
            true
        },
        JsonValue::Object(entries) => {
            let ghost es = model_entries(entries@);
            proof {
                lemma_model_entries(entries@);
                lemma_ref_free_entries_char(es);
            }
            let ref_key = String::from_str("$ref");
            let n = entries.len();
            let mut i: usize = 0;
            while i < n
                invariant
                    0 <= i <= n,
                    ref_key@ == "$ref"@,
                    forall|t: int|
                        0 <= t < i ==> ((#[trigger] es[t]).0 != "$ref"@ && spec_ref_free(es[t].1)),
                decreases n - i,
            {
                proof {
                    lemma_model_entries(entries@);
                    lemma_size_of_entries_elem(es, i as int);
                }
                if entries[i].0 == ref_key {
                    proof {
                        assert(es[i as int].0 == "$ref"@);
                    }
                    return false;
                }
                if !ref_free_value(&entries[i].1) {
                    proof {
                        assert(!spec_ref_free(es[i as int].1));
                    }
                    return false;
                }
                i = i + 1;
            }
            true
        },
        _ => true,
    }
}

/// What one validation run reports.
#[derive(Debug, PartialEq)]
enum SchemaReport {
    CompileFailed { cause: String },
    Checked { violations: Vec<Violation> },
}

/// Relies on valico's json_schema Scope::compile_and_return (Draft-07
/// semantics, unknown keywords banned) and Schema::validate.
///
/// Two classes of schema are excluded, and `check_against_schema` rejects
/// both before this is called.  Schemas that declare `$id` below the top
/// level: valico keys its compiled tree by percent-encoded property names
/// but stores the scope paths of nested `$id`s with the raw names, and
/// resolving through a name that encoding rewrites (a space, `#`, `%`, ...)
/// then indexes a missing key and panics.  And schemas that use `$ref`
/// anywhere: valico resolves references with no cycle check, so on a schema
/// that refers back to itself the reference validator re-validates the same
/// document against the same schema without consuming anything, and the
/// call never returns.  With `$ref` also goes the one source of a racy
/// compile verdict (valico walks keywords in hash order and stops at
/// `$ref`, so a malformed sibling keyword may or may not be seen).
///
/// For the schemas that remain, whether compilation succeeds is a function
/// of the schema alone, and the collection of violations a function of
/// schema and document; their order is the walk's hash order, so nothing is
/// promised of it.
#[verifier::external_body]
fn valico_check(schema: &JsonValue, doc: &JsonValue) -> (r: SchemaReport)
    requires
        spec_nested_id_free(schema@),
        spec_ref_free(schema@),
    ensures
        r is Checked <==> spec_schema_ok(schema@),
        r matches SchemaReport::Checked { violations } ==> violations_model(
            violations@,
        ).to_multiset() == spec_violations(schema@, doc@),
{
    let mut scope = valico::json_schema::scope::Scope::new();
    match scope.compile_and_return(to_serde(schema), true) {
        Err(e) => SchemaReport::CompileFailed { cause: format!("{:?}", e) },
        Ok(s) => {
            let state = s.validate(&to_serde(doc));
            let violations = state.errors.iter().map(|e| Violation {
                code: e.get_code().to_string(),
                path: e.get_path().to_string(),
                title: e.get_title().to_string(),
                detail: e.get_detail().map(|d| d.to_string()),
            }).collect();
            SchemaReport::Checked { violations }
        },
    }
}

/// The diagnostic a schema with a nested `$id` is rejected with.
pub const NESTED_ID_CAUSE: &'static str = "the schema declares \"$id\" below the top level, which this validator does not support";

/// The text of that diagnostic.
pub open spec fn nested_id_cause_text() -> Seq<char> {
    NESTED_ID_CAUSE@
}

/// The diagnostic a schema that uses `$ref` is rejected with.
pub const REF_CAUSE: &'static str = "the schema uses \"$ref\", which this validator does not support";

/// The text of that diagnostic.
pub open spec fn ref_cause_text() -> Seq<char> {
    REF_CAUSE@
}

/// The paths of the violations that report a required property as absent,
/// in the order the violations are listed.
pub open spec fn spec_required_paths(vs: Seq<ViolationModel>) -> Seq<Seq<char>>
    decreases vs.len(),
{
    if vs.len() == 0 {
        Seq::empty()
    } else {
        let rest = spec_required_paths(vs.drop_first());
        if vs[0].code == "required"@ {
            seq![vs[0].path] + rest
        } else {
            rest
        }
    }
}

proof fn lemma_required_paths_snoc(vs: Seq<ViolationModel>, v: ViolationModel)
    ensures
        spec_required_paths(vs.push(v)) == if v.code == "required"@ {
            spec_required_paths(vs).push(v.path)
        } else {
            spec_required_paths(vs)
        },
    decreases vs.len(),
{
    if vs.len() == 0 {
        assert(vs.push(v)[0] == v);
        assert(vs.push(v).drop_first() =~= Seq::<ViolationModel>::empty());
        assert(spec_required_paths(Seq::<ViolationModel>::empty()) == Seq::<Seq<char>>::empty());
        assert(spec_required_paths(vs) == Seq::<Seq<char>>::empty());
        if v.code == "required"@ {
            assert(seq![v.path] + Seq::<Seq<char>>::empty() =~= spec_required_paths(vs).push(
                v.path,
            ));
        }
    } else {
        assert(vs.push(v)[0] == vs[0]);
        assert(vs.push(v).drop_first() =~= vs.drop_first().push(v));
        lemma_required_paths_snoc(vs.drop_first(), v);
        if v.code == "required"@ {
            assert(seq![vs[0].path] + spec_required_paths(vs.drop_first()).push(v.path)
                =~= (seq![vs[0].path] + spec_required_paths(vs.drop_first())).push(v.path));
        }
    }
}

/// Collect the paths of the violations whose code is `required`: the
/// document's required-but-absent fields, as the validator reported them.
#[verifier::loop_isolation(false)]
fn required_paths(violations: &Vec<Violation>) -> (r: Vec<String>)
    ensures
        strings_model(r@) == spec_required_paths(violations_model(violations@)),
{
    let ghost vm = violations_model(violations@);
    let req_key = String::from_str("required");
    let mut r: Vec<String> = Vec::new();
    let n = violations.len();
    let mut i: usize = 0;
    proof {
        assert(strings_model(r@) =~= Seq::<Seq<char>>::empty());
        assert(vm.subrange(0, 0) =~= Seq::<ViolationModel>::empty());
        assert(spec_required_paths(vm.subrange(0, 0)) =~= Seq::<Seq<char>>::empty());
    }
    while i < n
        invariant
            0 <= i <= n,
            req_key@ == "required"@,
            strings_model(r@) == spec_required_paths(vm.subrange(0, i as int)),
        decreases n - i,
    {
        let ghost r_pre = strings_model(r@);
        if violations[i].code == req_key {
            r.push(violations[i].path.clone());
            proof {
                assert(strings_model(r@) =~= r_pre.push(vm[i as int].path));
            }
        }
        proof {
            let pre = vm.subrange(0, i as int);
            assert(vm.subrange(0, i + 1) =~= pre.push(vm[i as int]));
            lemma_required_paths_snoc(pre, vm[i as int]);
        }
        i = i + 1;
    }
    proof {
        assert(vm.subrange(0, n as int) =~= vm);
    }
    r
}

/// The full verdict of `check_against_schema` on a schema and a document.
/// A schema with a nested `$id`, or one that uses `$ref`, is rejected
/// outright with its fixed diagnostic; every clause on the rest is exact:
/// the verdict, the collection of violations, their sorted order and the
/// missing-field paths are all functions of schema and document alone.
pub open spec fn check_post(schema: JsonModel, doc: JsonModel, r: Result<bool, CardError>) -> bool {
    if !spec_nested_id_free(schema) {
        r matches Err(CardError::SchemaCompileError { cause }) && cause@ == nested_id_cause_text()
    } else if !spec_ref_free(schema) {
        r matches Err(CardError::SchemaCompileError { cause }) && cause@ == ref_cause_text()
    } else {
        &&& (r is Ok <==> spec_schema_ok(schema) && spec_valid(schema, doc))
        &&& (r is Ok ==> r->Ok_0 == true)
        &&& ((r matches Err(CardError::SchemaCompileError { .. })) <==> !spec_schema_ok(schema))
        &&& (r matches Err(CardError::ValidationFailed { violations, missing }) ==> ({
            &&& !spec_valid(schema, doc)
            &&& violations_model(violations@).to_multiset() == spec_violations(schema, doc)
            &&& violations@.len() > 0
            &&& spec_sorted_violations(violations_model(violations@))
            &&& strings_model(missing@) == spec_required_paths(violations_model(violations@))
        }))
        &&& (spec_schema_ok(schema) && !spec_valid(schema, doc) ==> r matches Err(
            CardError::ValidationFailed { .. },
        ))
        &&& (r is Err ==> (r matches Err(CardError::SchemaCompileError { .. }) || r matches Err(
            CardError::ValidationFailed { .. },
        )))
    }
}

/// Validate a document against a schema: `Ok(true)` when it conforms, the
/// compile failure when the schema itself is malformed (or declares a
/// nested `$id` or uses `$ref`, neither of which valico can be trusted
/// with), and the aggregated violations otherwise, sorted, with the
/// required-but-absent field paths collected beside them.
pub fn check_against_schema(schema: &JsonValue, card: &JsonValue) -> (r: Result<bool, CardError>)
    ensures
        check_post(schema@, card@, r),
{
    broadcast use group_to_multiset_ensures;

    if !nested_id_free(schema) {
        return Err(CardError::SchemaCompileError { cause: NESTED_ID_CAUSE.to_owned() });
    }
    if !ref_free_value(schema) {
        return Err(CardError::SchemaCompileError { cause: REF_CAUSE.to_owned() });
    }
    match valico_check(schema, card) {
        SchemaReport::CompileFailed { cause } => Err(CardError::SchemaCompileError { cause }),
        SchemaReport::Checked { violations } => {
            let sorted = sort_violations(violations);
            if sorted.len() == 0 {
                proof {
                    assert(violations_model(sorted@).len() == 0);
                    assert(spec_violations(schema@, card@).len() == 0);
                }
                Ok(true)
            } else {
                let missing = required_paths(&sorted);
                proof {
                    assert(violations_model(sorted@).len() == sorted@.len());
                    assert(spec_violations(schema@, card@).len() > 0);
                }
                Err(CardError::ValidationFailed { violations: sorted, missing })
            }
        },
    }
}

/// The parts joined into one text, with the separator between each two.
pub open spec fn spec_join(parts: Seq<Seq<char>>, sep: Seq<char>) -> Seq<char>
    decreases parts.len(),
{
    if parts.len() == 0 {
        Seq::empty()
    } else if parts.len() == 1 {
        parts[0]
    } else {
        parts[0] + sep + spec_join(parts.drop_first(), sep)
    }
}

proof fn lemma_join_snoc(parts: Seq<Seq<char>>, sep: Seq<char>, e: Seq<char>)
    ensures
        spec_join(parts.push(e), sep) == if parts.len() == 0 {
            e
        } else {
            spec_join(parts, sep) + sep + e
        },
    decreases parts.len(),
{
    if parts.len() == 0 {
        assert(parts.push(e)[0] == e);
    } else {
        assert(parts.push(e)[0] == parts[0]);
        assert(parts.push(e).drop_first() =~= parts.drop_first().push(e));
        lemma_join_snoc(parts.drop_first(), sep, e);
        if parts.len() == 1 {
            assert(parts.drop_first().len() == 0);
        } else {
            assert((parts[0] + sep + (spec_join(parts.drop_first(), sep) + sep + e)) =~= ((
            parts[0] + sep + spec_join(parts.drop_first(), sep)) + sep + e));
        }
    }
}

/// Join parts with a separator between them.
#[verifier::loop_isolation(false)]
fn join_with(parts: &Vec<String>, sep: &str) -> (r: String)
    ensures
        r@ == spec_join(strings_model(parts@), sep@),
{
    let ghost ps = strings_model(parts@);
    let mut r = String::new();
    let n = parts.len();
    let mut i: usize = 0;
    proof {
        assert(ps.subrange(0, 0) =~= Seq::<Seq<char>>::empty());
    }
    while i < n
        invariant
            0 <= i <= n,
            r@ == spec_join(ps.subrange(0, i as int), sep@),
        decreases n - i,
    {
        if i > 0 {
            r.append(sep);
        }
        r.append(parts[i].as_str());
        proof {
            let pre = ps.subrange(0, i as int);
            assert(ps.subrange(0, i + 1) =~= pre.push(ps[i as int]));
            lemma_join_snoc(pre, sep@, ps[i as int]);
        }
        i = i + 1;
    }
    proof {
        assert(ps.subrange(0, n as int) =~= ps);
    }
    r
}

/// The diagnostic lines of one violation: `[code] path: title`, then the
/// detail indented on its own line when present.
pub open spec fn spec_lines_of(v: ViolationModel) -> Seq<Seq<char>> {
    let head = "["@ + v.code + "] "@ + v.path + ": "@ + v.title;
    match v.detail {
        Some(d) => seq![head, "    "@ + d],
        None => seq![head],
    }
}

/// The diagnostic lines of a violation list, in order.
pub open spec fn spec_violation_lines(vs: Seq<ViolationModel>) -> Seq<Seq<char>>
    decreases vs.len(),
{
    if vs.len() == 0 {
        Seq::empty()
    } else {
        spec_lines_of(vs[0]) + spec_violation_lines(vs.drop_first())
    }
}

proof fn lemma_violation_lines_snoc(vs: Seq<ViolationModel>, v: ViolationModel)
    ensures
        spec_violation_lines(vs.push(v)) == spec_violation_lines(vs) + spec_lines_of(v),
    decreases vs.len(),
{
    if vs.len() == 0 {
        assert(vs.push(v)[0] == v);
        assert(vs.push(v).drop_first() =~= Seq::<ViolationModel>::empty());
        assert(spec_violation_lines(Seq::<ViolationModel>::empty()) =~= Seq::<Seq<char>>::empty());
        assert(spec_lines_of(v) + Seq::<Seq<char>>::empty() =~= spec_lines_of(v));
        assert(Seq::<Seq<char>>::empty() + spec_lines_of(v) =~= spec_lines_of(v));
    } else {
        assert(vs.push(v)[0] == vs[0]);
        assert(vs.push(v).drop_first() =~= vs.drop_first().push(v));
        lemma_violation_lines_snoc(vs.drop_first(), v);
        assert((spec_lines_of(vs[0]) + (spec_violation_lines(vs.drop_first()) + spec_lines_of(v)))
            =~= ((spec_lines_of(vs[0]) + spec_violation_lines(vs.drop_first())) + spec_lines_of(
            v,
        )));
    }
}

/// The trailing block listing missing fields, when there are any.
pub open spec fn spec_missing_block(missing: Seq<Seq<char>>) -> Seq<Seq<char>> {
    if missing.len() == 0 {
        Seq::empty()
    } else {
        seq!["Missing fields:\n - "@ + spec_join(missing, "\n - "@)]
    }
}

/// The whole human-readable validation diagnostic: one line per violation in
/// the shape `[code] path: title`, an indented detail line where present,
/// then the missing-fields block, all joined by newlines.
pub open spec fn spec_validation_message(
    vs: Seq<ViolationModel>,
    missing: Seq<Seq<char>>,
) -> Seq<char> {
    "Validation failed:\n"@ + spec_join(
        spec_violation_lines(vs) + spec_missing_block(missing),
        "\n"@,
    )
}

/// The diagnostic lines of each violation in order.
#[verifier::loop_isolation(false)]
fn violation_lines(violations: &Vec<Violation>) -> (r: Vec<String>)
    ensures
        strings_model(r@) == spec_violation_lines(violations_model(violations@)),
{
    let ghost vm = violations_model(violations@);
    let mut lines: Vec<String> = Vec::new();
    let n = violations.len();
    let mut i: usize = 0;
    proof {
        assert(strings_model(lines@) =~= Seq::<Seq<char>>::empty());
        assert(vm.subrange(0, 0) =~= Seq::<ViolationModel>::empty());
        assert(spec_violation_lines(vm.subrange(0, 0)) =~= Seq::<Seq<char>>::empty());
    }
    while i < n
        invariant
            0 <= i <= n,
            strings_model(lines@) == spec_violation_lines(vm.subrange(0, i as int)),
        decreases n - i,
    {
        let ghost lines_pre = strings_model(lines@);
        let mut head = String::new();
        head.append("[");
        head.append(violations[i].code.as_str());
        head.append("] ");
        head.append(violations[i].path.as_str());
        head.append(": ");
        head.append(violations[i].title.as_str());
        lines.push(head);
        match &violations[i].detail {
            Some(d) => {
                let mut det = String::new();
                det.append("    ");
                det.append(d.as_str());
                lines.push(det);
            },
            None => {},
        }
        proof {
            let pre = vm.subrange(0, i as int);
            assert(vm.subrange(0, i + 1) =~= pre.push(vm[i as int]));
            lemma_violation_lines_snoc(pre, vm[i as int]);
            assert(strings_model(lines@) =~= lines_pre + spec_lines_of(vm[i as int]));
        }
        i = i + 1;
    }
    proof {
        assert(vm.subrange(0, n as int) =~= vm);
    }
    lines
}

/// Format the aggregated violations and missing fields into the single
/// multi-line diagnostic that `spec_validation_message` describes.
pub fn validation_message(violations: &Vec<Violation>, missing: &Vec<String>) -> (r: String)
    ensures
        r@ == spec_validation_message(violations_model(violations@), strings_model(missing@)),
{
    let mut lines = violation_lines(violations);
    let ghost vl = strings_model(lines@);
    if missing.len() > 0 {
        let mut block = String::new();
        block.append("Missing fields:\n - ");
        let joined = join_with(missing, "\n - ");
        block.append(joined.as_str());
        lines.push(block);
        proof {
            assert(strings_model(lines@) =~= vl + spec_missing_block(strings_model(missing@)));
        }
    } else {
        proof {
            assert(strings_model(lines@) =~= vl + spec_missing_block(strings_model(missing@)));
        }
    }
    let mut out = String::new();
    out.append("Validation failed:\n");
    let joined_lines = join_with(&lines, "\n");
    out.append(joined_lines.as_str());
    out
}

/// Law: validation is complete, not fail-fast.  When a schema the validator
/// accepts (no nested `$id`, no `$ref`, valico compiles it) rejects a
/// document, `check_against_schema` returns a `ValidationFailed` carrying
/// exactly the validator's whole collection of violations — every problem,
/// not just the first — with the required-but-absent field paths collected
/// beside them; `validation_message` then formats one line for each.
pub proof fn lemma_validation_completeness(
    schema: JsonModel,
    doc: JsonModel,
    r: Result<bool, CardError>,
)
    requires
        spec_nested_id_free(schema),
        spec_ref_free(schema),
        spec_schema_ok(schema),
        !spec_valid(schema, doc),
        check_post(schema, doc, r),
    ensures
        r matches Err(CardError::ValidationFailed { violations, missing }) && violations_model(
            violations@,
        ).to_multiset() == spec_violations(schema, doc) && violations@.len() == spec_violations(
            schema,
            doc,
        ).len() && strings_model(missing@) == spec_required_paths(violations_model(violations@)),
{
    broadcast use group_to_multiset_ensures;

}

/// Law: validation is deterministic.  Two runs of `check_against_schema` on
/// the same schema and the same document agree: the same verdict, the same
/// kind of failure, and on a validation failure the very same violations in
/// the very same order, the same missing-field paths, and so the same
/// formatted diagnostic.  (After a compile failure of valico's own the two
/// causes carry valico's message, of which nothing more is promised.)
pub proof fn lemma_validation_deterministic(
    schema: JsonModel,
    doc: JsonModel,
    r1: Result<bool, CardError>,
    r2: Result<bool, CardError>,
)
    requires
        check_post(schema, doc, r1),
        check_post(schema, doc, r2),
    ensures
        r1 is Ok <==> r2 is Ok,
        r1 is Ok ==> r1 == r2,
        (r1 matches Err(CardError::SchemaCompileError { .. })) <==> (r2 matches Err(
            CardError::SchemaCompileError { .. },
        )),
        (r1 matches Err(CardError::ValidationFailed { .. })) <==> (r2 matches Err(
            CardError::ValidationFailed { .. },
        )),
        r1 matches Err(CardError::ValidationFailed { violations: v1, missing: m1 }) ==> (r2 matches
            Err(CardError::ValidationFailed { violations: v2, missing: m2 }) && ({
            &&& violations_model(v1@) == violations_model(v2@)
            &&& strings_model(m1@) == strings_model(m2@)
            &&& spec_validation_message(violations_model(v1@), strings_model(m1@))
                == spec_validation_message(violations_model(v2@), strings_model(m2@))
        })),
{
    match (r1, r2) {
        (
            Err(CardError::ValidationFailed { violations: v1, missing: m1 }),
            Err(CardError::ValidationFailed { violations: v2, missing: m2 }),
        ) => {
            lemma_sorted_violations_unique(violations_model(v1@), violations_model(v2@));
        },
        _ => {},
    }
}

} // verus!
