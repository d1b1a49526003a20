//! The executor: locates the operation, wraps the root resolver with the
//! introspection overlay, and drives selection-set execution recursively,
//! keeping response-object keys in collection order and list elements in
//! resolver order.
use vstd::prelude::*;

use crate::collect::CollectErr;
use crate::collect::collect_err_matches;
use crate::collect::collect_fields;
use crate::collect::spec_collect;
use crate::ctx::ExecCtx;
use crate::document::Document;
use crate::document::FieldNode;
use crate::document::FragmentDefinition;
use crate::document::OperationDefinition;
use crate::document::OperationType;
use crate::document::Selection;
use crate::document::SelectionSet;
use crate::error::Error;
use crate::introspection::ExecResolver;
use crate::introspection::IspObjectResolver;
use crate::introspection::IspRootResolver;
use crate::resolver::Ctx;
use crate::resolver::ObjectResolver;
use crate::resolver::Resolved;
use crate::schema::ExecSchema;
use crate::schema::ObjectTypeDefinition;
use crate::schema::SchemaDoc;
use crate::schema::Type;
use crate::schema::TypeDefinition;
use crate::schema::opt_text;
use crate::value::ConstValue;
use crate::value::Name;
use crate::value::ValueModel;
use crate::value::vmodel;
use crate::value::vmodel_fields;
use crate::value::vmodel_list;
use crate::value::lemma_vmodel_fields_len;
use crate::value::lemma_vmodel_fields_index;
use crate::value::lemma_vmodel_list_index;

verus! {

broadcast use vstd::std_specs::vec::group_vec_axioms;

/// Structural size of a resolved tree, for termination of element-wise list
/// resolution.
pub open spec fn resolved_size<R>(r: Resolved<R>) -> nat
    decreases r,
{
    match r {
        Resolved::Value(_) => 1,
        Resolved::Object(_) => 1,
        Resolved::Array(elems) => 1 + resolved_list_size(elems@),
    }
}

pub open spec fn resolved_list_size<R>(rs: Seq<Resolved<R>>) -> nat
    decreases rs,
{
    if rs.len() == 0 {
        0
    } else {
        resolved_size(rs[0]) + resolved_list_size(rs.drop_first())
    }
}

proof fn lemma_resolved_size_le<R>(rs: Seq<Resolved<R>>, i: int)
    requires
        0 <= i < rs.len(),
    ensures
        resolved_size(rs[i]) <= resolved_list_size(rs),
    decreases rs,
{
    if i > 0 {
        lemma_resolved_size_le(rs.drop_first(), i - 1);
    }
}

/// The first operation whose name is `name` (both possibly absent).
pub open spec fn spec_find_operation(
    ops: Seq<OperationDefinition>,
    name: Option<Seq<char>>,
) -> Option<OperationDefinition>
    decreases ops,
{
    if ops.len() == 0 {
        None
    } else if opt_text(ops[0].name) == name {
        Some(ops[0])
    } else {
        spec_find_operation(ops.drop_first(), name)
    }
}

/// The name of the schema's root type for an operation kind, if the schema
/// declares one.
pub open spec fn spec_root_type_name(schema: ExecSchema, op: OperationType) -> Option<Seq<char>> {
    match op {
        OperationType::Query => Some(schema.query_type@),
        OperationType::Mutation => opt_text(schema.mutation_type),
        OperationType::Subscription => opt_text(schema.subscription_type),
    }
}

#[verifier::loop_isolation(false)]
fn find_operation<'a>(ops: &'a Vec<OperationDefinition>, name: &Option<String>) -> (r: Option<
    &'a OperationDefinition,
>)
    ensures
        match r {
            Some(op) => spec_find_operation(ops@, opt_text(*name)) == Some(*op),
            None => spec_find_operation(ops@, opt_text(*name)) is None,
        },
{
    let mut i: usize = 0;
    proof {
        assert(ops@.skip(0) =~= ops@);
    }
    while i < ops.len()
        invariant
            i <= ops@.len(),
            spec_find_operation(ops@, opt_text(*name)) == spec_find_operation(
                ops@.skip(i as int),
                opt_text(*name),
            ),
        decreases ops@.len() - i,
    {
        proof {
            assert(ops@.skip(i as int)[0] == ops@[i as int]);
            assert(ops@.skip(i as int).drop_first() =~= ops@.skip(i as int + 1));
        }
        let same: bool = match (&ops[i].name, name) {
            (Some(a), Some(b)) => *a == *b,
            (None, None) => true,
            _ => false,
        };
        if same {
            return Some(&ops[i]);
        }
        i = i + 1;
    }
    None
}

/// Saturating addition, for the recursion budget.
fn sat_add(a: u64, b: u64) -> (r: u64)
    ensures
        r == if a + b > u64::MAX {
            u64::MAX as int
        } else {
            a + b
        },
{
    if a > u64::MAX - b {
        u64::MAX
    } else {
        a + b
    }
}

/// An upper bound for the nesting depth a selection list can produce.
fn count_sels(sels: &Vec<Selection>) -> (r: u64)
    decreases crate::document::sels_size(sels@), sels@.len(),
{
    let mut total: u64 = 0;
    let mut i: usize = 0;
    while i < sels.len()
        invariant
            i <= sels@.len(),
        decreases sels@.len() - i,
    {
        proof {
            crate::document::lemma_sel_size_le(sels@, i as int);
        }
        let sub: u64 = match &sels[i] {
            Selection::Field(f) => count_sels(&f.selection_set.selections),
            Selection::FragmentSpread(_) => 0,
            Selection::InlineFragment(fr) => count_sels(&fr.selection_set.selections),
        };
        total = sat_add(total, sat_add(1, sub));
        i = i + 1;
    }
    total
}

/// The recursion budget for one document: enough for any execution whose
/// fragments do not spread into themselves.
fn document_budget(document: &Document) -> (r: u64)
    ensures
        r >= 1,
{
    let mut total: u64 = 1;
    let mut i: usize = 0;
    while i < document.operations.len()
        invariant
            total >= 1,
        decreases document.operations@.len() - i,
    {
        total = sat_add(total, count_sels(&document.operations[i].selection_set.selections));
        i = i + 1;
    }
    let mut j: usize = 0;
    while j < document.fragments.len()
        invariant
            total >= 1,
        decreases document.fragments@.len() - j,
    {
        total = sat_add(total, sat_add(1, count_sels(&document.fragments[j].selection_set.selections)));
        j = j + 1;
    }
    total
}

/// Pick the concrete object type for an abstract field position from what
/// the resolver's `resolve_type_name` answered: an absent or unknown name is
/// `AbstractTypeUnresolved`; a known object type that does not satisfy the
/// abstract type is `TypeMismatch`. This is the whole of the abstract
/// resolution rule, verified for every possible answer.
pub fn select_concrete_type<'a>(
    ectx: &ExecCtx<'a>,
    abstract_name: &String,
    name_result: Option<String>,
) -> (r: Result<&'a ObjectTypeDefinition, Error>)
    ensures
        match name_result {
            None => (r matches Err(e) && e matches Error::AbstractTypeUnresolved(n) && n@
                == abstract_name@),
            Some(nm) => match ectx.schema.spec_find_type(nm@) {
                Some(TypeDefinition::Object(o)) => if ectx.schema.spec_is_subtype(
                    o.name@,
                    abstract_name@,
                ) {
                    r matches Ok(c) && *c == o
                } else {
                    r matches Err(e) && e is TypeMismatch
                },
                _ => (r matches Err(e) && e matches Error::AbstractTypeUnresolved(n) && n@
                    == abstract_name@),
            },
        },
        r matches Ok(c) ==> ectx.schema.spec_find_type(c.name@) == Some(
            TypeDefinition::Object(*c),
        ),
{
    match name_result {
        None => Err(Error::AbstractTypeUnresolved(abstract_name.clone())),
        Some(nm) => match ectx.find_object_type_definition(&nm) {
            Some(o) => {
                if ectx.is_subtype(&o.name, abstract_name) {
                    Ok(o)
                } else {
                    Err(Error::TypeMismatch)
                }
            },
            None => Err(Error::AbstractTypeUnresolved(abstract_name.clone())),
        },
    }
}

/// The collection of one selection set from a clean accumulator, as the
/// executor invokes it.
pub open spec fn spec_collected(
    schema: ExecSchema,
    fragments: Seq<FragmentDefinition>,
    vars: Seq<(String, ConstValue)>,
    object_ty: ObjectTypeDefinition,
    sels: Seq<Selection>,
) -> Result<Seq<(Seq<char>, Seq<FieldNode>)>, CollectErr> {
    spec_collect(schema, fragments, vars, object_ty, sels, Seq::empty(), Seq::empty())
}

/// Whether the aggregated field errors are keyed by collected response
/// keys, at most one per group, in collection order: there are positions,
/// strictly increasing, mapping each error to its group.
pub open spec fn keys_along(
    es: Seq<(String, Error)>,
    groups: Seq<(Seq<char>, Seq<FieldNode>)>,
) -> bool {
    exists|idxs: Seq<int>|
        idxs.len() == es.len() && (forall|j: int|
            0 <= j < es.len() ==> 0 <= #[trigger] idxs[j] < groups.len() && es[j].0@
                == groups[idxs[j]].0) && (forall|j1: int, j2: int|
            0 <= j1 < j2 < es.len() ==> idxs[j1] < idxs[j2])
}

/// Introduction form of `keys_along` from an explicit position sequence.
proof fn lemma_keys_along_intro(
    es: Seq<(String, Error)>,
    groups: Seq<(Seq<char>, Seq<FieldNode>)>,
    idxs: Seq<int>,
)
    requires
        idxs.len() == es.len(),
        forall|j: int|
            0 <= j < es.len() ==> 0 <= #[trigger] idxs[j] < groups.len() && es[j].0@
                == groups[idxs[j]].0,
        forall|j1: int, j2: int| 0 <= j1 < j2 < es.len() ==> idxs[j1] < idxs[j2],
    ensures
        keys_along(es, groups),
{
}

/// Whether every group's driving (first) field is `__typename`: a selection
/// set the typename decorator answers on its own, owing success.
pub open spec fn all_typename_first(groups: Seq<(Seq<char>, Seq<FieldNode>)>) -> bool {
    forall|i: int|
        0 <= i < groups.len() ==> (#[trigger] groups[i]).1.len() > 0 && groups[i].1[0].name@
            == "__typename"@
}

/// Execute one selection set against an already-decorated resolver.
///
/// On success the response object's keys are exactly the collected response
/// keys, in first-seen order and pairwise distinct, whatever order resolvers
/// answer in. Success is owed where no resolver decides: an empty collection
/// yields the empty object, and a selection whose every group the typename
/// decorator answers yields the type's name under each key. The errors are
/// exact: `RecursionLimit` exactly at budget zero, a collection failure
/// returned as that error, and otherwise a non-empty `FieldErrors` keyed by
/// collected response keys, at most one per group, in collection order.
#[verifier::loop_isolation(false)]
pub fn execute_selection_set<'a, R: ObjectResolver>(
    ectx: &ExecCtx<'a>,
    resolver: &ExecResolver<'a, R>,
    object_ty: &'a ObjectTypeDefinition,
    sel_set: &'a SelectionSet,
    budget: u64,
) -> (r: Result<ConstValue, Error>)
    requires
        ectx.schema.spec_find_type(object_ty.name@) == Some(TypeDefinition::Object(*object_ty)),
    ensures
        budget == 0 ==> (r matches Err(e) && e is RecursionLimit),
        budget > 0 ==> ({
            let c = spec_collected(
                *ectx.schema,
                ectx.fragments@,
                ectx.variables@,
                *object_ty,
                sel_set.selections@,
            );
            &&& (c is Err ==> (r matches Err(e) && collect_err_matches(e, c->Err_0)))
            &&& (r matches Ok(v) ==> (c matches Ok(groups) && vmodel(
                v,
            ) matches ValueModel::Object(entries) && entries.len() == groups.len() && (forall|
                i: int,
            |
                0 <= i < entries.len() ==> entries[i].0 == groups[i].0) && (forall|i: int, j: int|
                0 <= i < j < entries.len() ==> entries[i].0 != entries[j].0)))
            &&& (r matches Err(e) ==> ((c is Err && collect_err_matches(e, c->Err_0)) || (
            c is Ok && (e matches Error::FieldErrors(es) && es@.len() > 0 && keys_along(
                es@,
                c->Ok_0,
            )))))
            &&& (c == Ok::<_, CollectErr>(Seq::<(Seq<char>, Seq<FieldNode>)>::empty()) ==> (
            r matches Ok(v) && vmodel(v) == ValueModel::Object(Seq::<(Seq<char>, ValueModel)>::empty())))
            &&& (*resolver matches ExecResolver::Typename(d) ==> ((r matches Ok(v) ==> (
            c matches Ok(groups) && vmodel(v) matches ValueModel::Object(entries) && (forall|
                i: int,
            |
                (0 <= i < groups.len() && (#[trigger] groups[i]).1.len() > 0
                    && groups[i].1[0].name@ == "__typename"@) ==> entries[i].1 == ValueModel::Str(
                    d.type_def.name@,
                )))) && ((c matches Ok(groups) && all_typename_first(groups)) ==> r is Ok)))
        }),
    decreases budget, 0nat,
{
    if budget == 0 {
        return Err(Error::RecursionLimit);
    }
    let groups = match collect_fields(ectx, sel_set, object_ty) {
        Ok(g) => g,
        Err(e) => {
            return Err(e);
        },
    };
    proof {
        crate::laws::lemma_spec_collect_keys_distinct(
            *ectx.schema,
            ectx.fragments@,
            ectx.variables@,
            *object_ty,
            sel_set.selections@,
            Seq::empty(),
            Seq::empty(),
        );
    }
    let ghost gv = groups.gview();
    let mut out: Vec<(Name, ConstValue)> = Vec::new();
    let mut errs: Vec<(String, Error)> = Vec::new();
    let ghost mut idxs: Seq<int> = Seq::empty();
    let mut i: usize = 0;
    while i < groups.len()
        invariant
            i <= gv.len(),
            gv == groups.gview(),
            errs@.len() <= i,
            errs@.len() == 0 ==> out@.len() == i && (forall|j: int|
                0 <= j < i ==> (#[trigger] out@[j]).0.value@ == gv[j].0),
            idxs.len() == errs@.len(),
            forall|j: int|
                0 <= j < errs@.len() ==> 0 <= #[trigger] idxs[j] < gv.len() && errs@[j].0@
                    == gv[idxs[j]].0,
            forall|j1: int, j2: int| 0 <= j1 < j2 < errs@.len() ==> idxs[j1] < idxs[j2],
            forall|j: int| 0 <= j < errs@.len() ==> #[trigger] idxs[j] < i,
            errs@.len() == 0 ==> (*resolver matches ExecResolver::Typename(d) ==> (forall|j: int|
                0 <= j < i ==> (((#[trigger] gv[j]).1.len() > 0 && gv[j].1[0].name@
                    == "__typename"@) ==> vmodel(out@[j].1) == ValueModel::Str(
                    d.type_def.name@,
                )))),
            (*resolver matches ExecResolver::Typename(dd) && all_typename_first(gv)) ==> errs@.len()
                == 0,
        decreases gv.len() - i,
    {
        let ghost errs0 = errs@;
        let entry = groups.entry(i);
        let key = &entry.0;
        let fields = &entry.1;
        proof {
            assert(key@ == gv[i as int].0);
            assert(fields@.map_values(|f: &FieldNode| *f) == gv[i as int].1);
        }
        if fields.len() == 0 {
            // collection never leaves a key without fields; defend anyway
            proof {
                assert(gv[i as int].1.len() == 0);
            }
            errs.push((key.clone(), Error::TypeMismatch));
            proof {
                idxs = idxs.push(i as int);
                lemma_errs_idx_extend(errs0, errs@, idxs, gv, i as int);
            }
        } else {
            let field: &FieldNode = fields[0];
            proof {
                assert(fields@.map_values(|f: &FieldNode| *f)[0] == *(fields@[0]));
                assert(*field == gv[i as int].1[0]);
            }
            let ctx = Ctx { variables: ectx.variables, field };
            match resolver.resolve_field(ectx, &ctx, &field.name) {
                Err(e) => {
                    proof {
                        if *resolver is Typename && gv[i as int].1[0].name@ == "__typename"@ {
                            assert(false);
                        }
                    }
                    errs.push((key.clone(), e));
                    proof {
                        idxs = idxs.push(i as int);
                        lemma_errs_idx_extend(errs0, errs@, idxs, gv, i as int);
                    }
                },
                Ok(res) => {
                    match resolve_to_value(ectx, object_ty, field, res, budget - 1) {
                        Err(e) => {
                            proof {
                                if *resolver is Typename && gv[i as int].1[0].name@
                                    == "__typename"@ {
                                    assert(false);
                                }
                            }
                            errs.push((key.clone(), e));
                            proof {
                                idxs = idxs.push(i as int);
                                lemma_errs_idx_extend(errs0, errs@, idxs, gv, i as int);
                            }
                        },
                        Ok(v) => {
                            let pair = (Name::new(key.clone()), v);
                            out.push(pair);
                        },
                    }
                },
            }
        }
        i = i + 1;
    }
    if errs.len() > 0 {
        proof {
            let c = spec_collected(
                *ectx.schema,
                ectx.fragments@,
                ectx.variables@,
                *object_ty,
                sel_set.selections@,
            );
            assert(c == Ok::<Seq<(Seq<char>, Seq<FieldNode>)>, CollectErr>(gv));
            lemma_keys_along_intro(errs@, gv, idxs);
        }
        Err(Error::FieldErrors(errs))
    } else {
        proof {
            lemma_vmodel_fields_len(out@);
            if out@.len() == 0 {
                assert(vmodel_fields(out@) =~= Seq::<(Seq<char>, ValueModel)>::empty());
            }
            assert forall|j: int| 0 <= j < out@.len() implies vmodel_fields(out@)[j].0
                == gv[j].0 by {
                lemma_vmodel_fields_index(out@, j);
            }
            assert forall|i: int, j: int| 0 <= i < j < out@.len() implies vmodel_fields(out@)[i].0
                != vmodel_fields(out@)[j].0 by {
                lemma_vmodel_fields_index(out@, i);
                lemma_vmodel_fields_index(out@, j);
                assert(gv[i].0 != gv[j].0);
            }
            assert forall|j: int|
                0 <= j < out@.len() implies (*resolver matches ExecResolver::Typename(d) ==> (((
                #[trigger] gv[j]).1.len() > 0 && gv[j].1[0].name@ == "__typename"@) ==> vmodel_fields(
                    out@,
                )[j].1 == ValueModel::Str(d.type_def.name@))) by {
                lemma_vmodel_fields_index(out@, j);
            }
        }
        Ok(ConstValue::Object(out))
    }
}

/// Recording one error for the group at `i` keeps the error keys aligned
/// with the collected groups: positions stay strictly increasing and below
/// the next group index.
proof fn lemma_errs_idx_extend(
    prev: Seq<(String, Error)>,
    cur: Seq<(String, Error)>,
    cidx: Seq<int>,
    gv: Seq<(Seq<char>, Seq<FieldNode>)>,
    i: int,
)
    requires
        0 <= i < gv.len(),
        cur.len() == prev.len() + 1,
        forall|j: int| 0 <= j < prev.len() ==> cur[j] == prev[j],
        cur.last().0@ == gv[i].0,
        cidx.len() == cur.len(),
        cidx.last() == i,
        forall|j: int| 0 <= j < prev.len() ==> cidx[j] == cidx.drop_last()[j],
        forall|j: int|
            0 <= j < prev.len() ==> 0 <= #[trigger] cidx.drop_last()[j] < gv.len() && prev[j].0@
                == gv[cidx.drop_last()[j]].0,
        forall|j1: int, j2: int|
            0 <= j1 < j2 < prev.len() ==> cidx.drop_last()[j1] < cidx.drop_last()[j2],
        forall|j: int| 0 <= j < prev.len() ==> #[trigger] cidx.drop_last()[j] < i,
    ensures
        forall|j: int|
            0 <= j < cur.len() ==> 0 <= #[trigger] cidx[j] < gv.len() && cur[j].0@
                == gv[cidx[j]].0,
        forall|j1: int, j2: int| 0 <= j1 < j2 < cur.len() ==> cidx[j1] < cidx[j2],
        forall|j: int| 0 <= j < cur.len() ==> #[trigger] cidx[j] < i + 1,
{
    assert forall|j: int| 0 <= j < cur.len() implies 0 <= #[trigger] cidx[j] < gv.len()
        && cur[j].0@ == gv[cidx[j]].0 by {
        if j < prev.len() {
            assert(cidx[j] == cidx.drop_last()[j]);
        } else {
            assert(cur[j] == cur.last());
            assert(cidx[j] == i);
        }
    }
    assert forall|j1: int, j2: int| 0 <= j1 < j2 < cur.len() implies cidx[j1] < cidx[j2] by {
        if j2 < prev.len() {
            assert(cidx[j1] == cidx.drop_last()[j1]);
            assert(cidx[j2] == cidx.drop_last()[j2]);
        } else {
            assert(cidx[j1] == cidx.drop_last()[j1]);
            assert(cidx[j2] == i);
        }
    }
    assert forall|j: int| 0 <= j < cur.len() implies #[trigger] cidx[j] < i + 1 by {
        if j < prev.len() {
            assert(cidx[j] == cidx.drop_last()[j]);
        } else {
            assert(cidx[j] == i);
        }
    }
}

/// Turn what a resolver returned for a field into a response value: a value
/// passes through unchanged; a list resolves element-wise, in order, keeping
/// its length; an object descends into the field's sub-selection against the
/// concrete type, decorated so `__typename` resolves.
#[verifier::loop_isolation(false)]
pub fn resolve_to_value<'a, R: ObjectResolver>(
    ectx: &ExecCtx<'a>,
    parent_ty: &'a ObjectTypeDefinition,
    field: &'a FieldNode,
    resolved: Resolved<ExecResolver<'a, R>>,
    budget: u64,
) -> (r: Result<ConstValue, Error>)
    ensures
        resolved matches Resolved::Value(v0) ==> (r matches Ok(v) && vmodel(v) == vmodel(v0)),
        resolved matches Resolved::Array(elems) ==> (r matches Ok(v) ==> (vmodel(
            v,
        ) matches ValueModel::List(ms) && ms.len() == elems@.len() && (forall|i: int|
            0 <= i < elems@.len() ==> (#[trigger] elems@[i] matches Resolved::Value(ev) ==> ms[i]
                == vmodel(ev))) && (forall|i: int|
            0 <= i < elems@.len() ==> ((#[trigger] elems@[i]) is Object ==> ms[i] is Object)))),
        resolved matches Resolved::Object(_) ==> (r matches Ok(v) ==> vmodel(v) is Object),
        (resolved matches Resolved::Array(elems) && (forall|i: int|
            0 <= i < elems@.len() ==> (#[trigger] elems@[i]) is Value)) ==> r is Ok,
        resolved matches Resolved::Object(_) ==> (match ectx.schema.spec_field_definition(
            parent_ty.name@,
            field.name@,
        ) {
            None => r matches Err(e) && e is TypeMismatch,
            Some(fd) => match ectx.schema.spec_find_type(fd.ty.spec_name()) {
                None => (r matches Err(e) && e matches Error::TypeNotFound(n) && n@
                    == fd.ty.spec_name()),
                Some(td) => (td is Scalar || td is Enum || td is InputObject) ==> (r matches Err(
                    e,
                ) && e is TypeMismatch),
            },
        }),
        resolved matches Resolved::Object(_) ==> (budget > 0 ==> (
        match ectx.schema.spec_field_definition(parent_ty.name@, field.name@) {
            Some(fd) => (match ectx.schema.spec_find_type(fd.ty.spec_name()) {
                Some(td) => (td matches TypeDefinition::Object(o) ==> (spec_collected(
                    *ectx.schema,
                    ectx.fragments@,
                    ectx.variables@,
                    o,
                    field.selection_set.selections@,
                ) == Ok::<Seq<(Seq<char>, Seq<FieldNode>)>, CollectErr>(Seq::empty()) ==> (
                r matches Ok(v) && vmodel(v) == ValueModel::Object(
                    Seq::<(Seq<char>, ValueModel)>::empty(),
                )))),
                None => true,
            }),
            None => true,
        })),
    decreases budget, resolved_size(resolved),
{
    match resolved {
        Resolved::Value(v) => Ok(v),
        Resolved::Array(elems) => {
            let ghost e0 = elems;
            let mut rest = elems;
            let mut out: Vec<ConstValue> = Vec::new();
            proof {
                assert(e0@.skip(0) =~= e0@);
            }
            while rest.len() > 0
                invariant
                    out@.len() + rest@.len() == e0@.len(),
                    rest@ =~= e0@.skip(out@.len() as int),
                    forall|j: int|
                        0 <= j < out@.len() ==> (e0@[j] matches Resolved::Value(ev) ==> vmodel(
                            #[trigger] out@[j],
                        ) == vmodel(ev)),
                    forall|j: int|
                        0 <= j < out@.len() ==> (e0@[j] is Object ==> vmodel(
                            #[trigger] out@[j],
                        ) is Object),
                decreases rest@.len(),
            {
                let ghost i = out@.len() as int;
                let head = rest.remove(0);
                proof {
                    assert(e0@.skip(i)[0] == e0@[i]);
                    assert(head == e0@[i]);
                    assert(resolved is Array && resolved->Array_0 == e0);
                    assert(decreases_to!(resolved => resolved->Array_0));
                    assert(decreases_to!(e0 => e0@));
                    assert(decreases_to!(e0@ => e0@[i]));
                    lemma_resolved_size_le(e0@, i);
                }
                let ghost head_is_value = head matches Resolved::Value(_);
                match resolve_to_value(ectx, parent_ty, field, head, budget) {
                    Ok(v) => {
                        out.push(v);
                        proof {
                            assert(rest@ =~= e0@.skip(i + 1));
                        }
                    },
                    Err(e) => {
                        proof {
                            assert(0 <= i < e0@.len() && !(e0@[i] is Value));
                        }
                        return Err(e);
                    },
                }
            }
            proof {
                assert(out@.len() == e0@.len());
                assert forall|j: int|
                    0 <= j < e0@.len() implies (#[trigger] e0@[j] matches Resolved::Value(ev)
                    ==> vmodel_list(out@)[j] == vmodel(ev)) by {
                    lemma_vmodel_list_index(out@, j);
                }
                assert forall|j: int|
                    0 <= j < e0@.len() implies ((#[trigger] e0@[j]) is Object ==> vmodel_list(
                    out@,
                )[j] is Object) by {
                    lemma_vmodel_list_index(out@, j);
                }
                crate::value::lemma_vmodel_list_len(out@);
            }
            Ok(ConstValue::List(out))
        },
        Resolved::Object(sub) => {
            let field_def = match ectx.field_definition(&parent_ty.name, &field.name) {
                Some(fd) => fd,
                None => {
                    return Err(Error::TypeMismatch);
                },
            };
            let tname = field_def.ty.name();
            let ftd = match ectx.find_type_definition_by_name(tname) {
                Some(td) => td,
                None => {
                    return Err(Error::TypeNotFound(tname.clone()));
                },
            };
            let concrete: &'a ObjectTypeDefinition = match ftd {
                TypeDefinition::Object(o) => o,
                TypeDefinition::Interface(iface) => {
                    let nm = match sub.resolve_type_name() {
                        Ok(n) => n,
                        Err(e) => {
                            return Err(e);
                        },
                    };
                    match select_concrete_type(ectx, &iface.name, nm) {
                        Ok(o) => o,
                        Err(e) => {
                            return Err(e);
                        },
                    }
                },
                TypeDefinition::Union(u) => {
                    let nm = match sub.resolve_type_name() {
                        Ok(n) => n,
                        Err(e) => {
                            return Err(e);
                        },
                    };
                    match select_concrete_type(ectx, &u.name, nm) {
                        Ok(o) => o,
                        Err(e) => {
                            return Err(e);
                        },
                    }
                },
                _ => {
                    return Err(Error::TypeMismatch);
                },
            };
            let decorated = ExecResolver::Typename(
                IspObjectResolver { type_def: concrete, inner: Box::new(sub) },
            );
            execute_selection_set(ectx, &decorated, concrete, &field.selection_set, budget)
        },
    }
}

/// A loaded schema, shared by reference, against which operations run.
pub struct Executor {
    pub schema: ExecSchema,
}

impl Executor {
    /// Build the executor's schema view from a schema document, with the
    /// schema view's full contract carried through: the roots and visible
    /// types are the document's, the subtype map is exactly what the
    /// document declares, and the implicit introspection fields are typed.
    pub fn new(doc: SchemaDoc) -> (r: Executor)
        ensures
            r.schema.query_type@ == doc.query_type@,
            opt_text(r.schema.mutation_type) == opt_text(doc.mutation_type),
            opt_text(r.schema.subscription_type) == opt_text(doc.subscription_type),
            opt_text(r.schema.description) == opt_text(doc.description),
            crate::introspection::visible_types(r.schema.types@)
                == crate::introspection::visible_types(doc.types@),
            forall|c: Seq<char>, a: Seq<char>| #[trigger] r.schema.spec_is_subtype(c, a)
                == crate::schema::spec_declares_subtype(doc.types@, c, a),
            r.schema.typename_field.name@ == "__typename"@,
            r.schema.typename_field.ty matches Type::NonNull(t) && *t matches Type::Named(n) && n@
                == "String"@,
            r.schema.schema_field.name@ == "__schema"@,
            r.schema.schema_field.ty matches Type::NonNull(t) && *t matches Type::Named(n) && n@
                == "__Schema"@,
            r.schema.type_field.name@ == "__type"@,
            r.schema.type_field.ty matches Type::Named(n) && n@ == "__Type"@,
            r.schema.type_field.arguments@.len() == 1 && r.schema.type_field.arguments@[0].name@
                == "name"@ && (r.schema.type_field.arguments@[0].ty matches Type::NonNull(t)
                && *t matches Type::Named(n) && n@ == "String"@),
    {
        Executor { schema: ExecSchema::new(doc) }
    }

    /// Run one operation of a validated document against a root resolver.
    /// The operation is located by name; its root selection set is executed
    /// against the schema's root type for its kind, with the root resolver
    /// wrapped so `__schema`, `__type` and `__typename` resolve. On success
    /// the response object's keys are the collected response keys of the
    /// root selection set, in first-seen order.
    pub fn run<R: ObjectResolver>(
        &self,
        document: &Document,
        root_resolver: R,
        operation_name: Option<String>,
        variables: &Vec<(String, ConstValue)>,
    ) -> (r: Result<ConstValue, Error>)
        ensures
            spec_find_operation(document.operations@, opt_text(operation_name)) is None ==> (
            r matches Err(e) && e matches Error::OperationNotFound(n) && opt_text(n) == opt_text(
                operation_name,
            )),
            spec_find_operation(document.operations@, opt_text(operation_name)) matches Some(op)
                ==> (match spec_root_type_name(self.schema, op.operation_type) {
                None => r matches Err(e) && e is TypeNotFound,
                Some(rn) => !(self.schema.spec_find_type(rn) matches Some(
                    TypeDefinition::Object(_),
                )) ==> (r matches Err(e) && e is TypeNotFound),
            }),
            spec_find_operation(document.operations@, opt_text(operation_name)) matches Some(op)
                ==> (spec_root_type_name(self.schema, op.operation_type) matches Some(rn) ==> (
            self.schema.spec_find_type(rn) matches Some(TypeDefinition::Object(root_def)) ==> ({
                let c = spec_collected(
                    self.schema,
                    document.fragments@,
                    variables@,
                    root_def,
                    op.selection_set.selections@,
                );
                &&& (r matches Err(e) ==> ((c is Err && collect_err_matches(e, c->Err_0)) || (
                c is Ok && (e matches Error::FieldErrors(es) && es@.len() > 0 && keys_along(
                    es@,
                    c->Ok_0,
                )))))
                &&& (c == Ok::<_, CollectErr>(Seq::<(Seq<char>, Seq<FieldNode>)>::empty()) ==> (
                r matches Ok(v) && vmodel(v) == ValueModel::Object(
                    Seq::<(Seq<char>, ValueModel)>::empty(),
                )))
                &&& (c matches Ok(groups) ==> (all_typename_first(groups) ==> (r matches Ok(v)
                    && vmodel(v) matches ValueModel::Object(entries) && entries.len()
                    == groups.len() && (forall|i: int|
                    0 <= i < entries.len() ==> entries[i].1 == ValueModel::Str(root_def.name@)))))
            }))),
            r matches Ok(v) ==> ({
                let op = spec_find_operation(
                    document.operations@,
                    opt_text(operation_name),
                )->Some_0;
                &&& spec_find_operation(document.operations@, opt_text(operation_name)) is Some
                &&& spec_root_type_name(self.schema, op.operation_type) matches Some(rn)
                &&& self.schema.spec_find_type(
                    spec_root_type_name(self.schema, op.operation_type)->Some_0,
                ) matches Some(TypeDefinition::Object(root_ty))
                &&& spec_collect(
                    self.schema,
                    document.fragments@,
                    variables@,
                    self.schema.spec_find_type(
                        spec_root_type_name(self.schema, op.operation_type)->Some_0,
                    )->Some_0->Object_0,
                    op.selection_set.selections@,
                    Seq::empty(),
                    Seq::empty(),
                ) matches Ok(groups)
                &&& vmodel(v) matches ValueModel::Object(entries)
                &&& entries.len() == groups.len()
                &&& forall|i: int| 0 <= i < entries.len() ==> entries[i].0 == groups[i].0
            }),
    {
        let op = match find_operation(&document.operations, &operation_name) {
            Some(op) => op,
            None => {
                return Err(Error::OperationNotFound(operation_name));
            },
        };
        let root_name: &String = match &op.operation_type {
            OperationType::Query => &self.schema.query_type,
            OperationType::Mutation => match &self.schema.mutation_type {
                Some(n) => n,
                None => {
                    return Err(Error::TypeNotFound("mutation root".to_owned()));
                },
            },
            OperationType::Subscription => match &self.schema.subscription_type {
                Some(n) => n,
                None => {
                    return Err(Error::TypeNotFound("subscription root".to_owned()));
                },
            },
        };
        let root_ty = match self.schema.find_object_type_definition(root_name) {
            Some(o) => o,
            None => {
                return Err(Error::TypeNotFound(root_name.clone()));
            },
        };
        let budget = document_budget(document);
        let ectx = ExecCtx::new(&self.schema, &document.fragments, variables);
        let resolver: ExecResolver<'_, R> = ExecResolver::Typename(
            IspObjectResolver {
                type_def: root_ty,
                inner: Box::new(
                    ExecResolver::Root(
                        IspRootResolver { inner: Box::new(ExecResolver::User(root_resolver)) },
                    ),
                ),
            },
        );
        let r = execute_selection_set(&ectx, &resolver, root_ty, &op.selection_set, budget);
        proof {
            assert(resolver matches ExecResolver::Typename(d) && d.type_def == root_ty);
            assert(budget > 0);
        }
        r
    }
}

} // verus!
