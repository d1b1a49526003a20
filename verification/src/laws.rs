//! The collection laws, stated over the collection specification that the
//! executable collector is proved to implement.
use vstd::prelude::*;

use crate::collect::CollectErr;
use crate::collect::spec_collect;
use crate::collect::spec_fragment_applies;
use crate::collect::spec_group_add;
use crate::collect::spec_should_include;
use crate::collect::spec_should_skip;
use crate::document::FieldNode;
use crate::document::FragmentDefinition;
use crate::document::FragmentSpreadNode;
use crate::document::InlineFragmentNode;
use crate::document::Selection;
use crate::document::response_key;
use crate::lookup::spec_find;
use crate::schema::ExecSchema;
use crate::schema::ObjectTypeDefinition;
use crate::schema::TypeDefinition;
use crate::value::ConstValue;

verus! {

/// Key order stability: recording a field never moves an existing response
/// key. A known key keeps every key in place; a new key goes to the end. So
/// response-object keys stand in first-seen order, whatever arrives later.
pub proof fn lemma_group_add_key_order(
    g: Seq<(Seq<char>, Seq<FieldNode>)>,
    key: Seq<char>,
    f: FieldNode,
)
    ensures
        (exists|i: int| 0 <= i < g.len() && g[i].0 == key) ==> spec_group_add(g, key, f).len()
            == g.len(),
        !(exists|i: int| 0 <= i < g.len() && g[i].0 == key) ==> spec_group_add(g, key, f).len()
            == g.len() + 1 && spec_group_add(g, key, f)[g.len() as int].0 == key,
        forall|j: int| 0 <= j < g.len() ==> spec_group_add(g, key, f)[j].0 == g[j].0,
    decreases g,
{
    if g.len() > 0 && g[0].0 != key {
        lemma_group_add_key_order(g.drop_first(), key, f);
        assert forall|j: int| 0 <= j < g.drop_first().len() implies g.drop_first()[j]
            == g[j + 1] by {}
        if exists|i: int| 0 <= i < g.len() && g[i].0 == key {
            let i = choose|i: int| 0 <= i < g.len() && g[i].0 == key;
            assert(g.drop_first()[i - 1].0 == key);
        }
        if exists|i: int| 0 <= i < g.drop_first().len() && g.drop_first()[i].0 == key {
            let i = choose|i: int| 0 <= i < g.drop_first().len() && g.drop_first()[i].0 == key;
            assert(g[i + 1].0 == key);
        }
        assert forall|j: int| 0 <= j < g.len() implies spec_group_add(g, key, f)[j].0
            == g[j].0 by {
            if j > 0 {
                assert(spec_group_add(g, key, f)[j] == spec_group_add(g.drop_first(), key, f)[j
                    - 1]);
                assert(spec_group_add(g.drop_first(), key, f)[j - 1].0 == g.drop_first()[j - 1].0);
            }
        }
    } else if g.len() > 0 {
        assert forall|j: int| 0 <= j < g.len() implies spec_group_add(g, key, f)[j].0
            == g[j].0 by {
            if j > 0 {
                assert(spec_group_add(g, key, f)[j] == g.drop_first()[j - 1]);
            }
        }
        assert(g[0].0 == key);
    }
}

/// Skip correctness, omitting half: a selection whose `@skip` condition is
/// true contributes nothing to collection.
pub proof fn lemma_skip_true_omits(
    schema: ExecSchema,
    fragments: Seq<FragmentDefinition>,
    vars: Seq<(String, ConstValue)>,
    concrete: ObjectTypeDefinition,
    sel: Selection,
    rest: Seq<Selection>,
    visited: Seq<Seq<char>>,
    acc: Seq<(Seq<char>, Seq<FieldNode>)>,
)
    requires
        spec_should_skip(sel, vars) == Ok::<bool, CollectErr>(true),
    ensures
        spec_collect(schema, fragments, vars, concrete, seq![sel] + rest, visited, acc)
            == spec_collect(schema, fragments, vars, concrete, rest, visited, acc),
{
    assert((seq![sel] + rest)[0] == sel);
    assert((seq![sel] + rest).drop_first() =~= rest);
}

/// Include correctness, omitting half: a selection that is not skipped but
/// whose `@include` condition is false contributes nothing.
pub proof fn lemma_include_false_omits(
    schema: ExecSchema,
    fragments: Seq<FragmentDefinition>,
    vars: Seq<(String, ConstValue)>,
    concrete: ObjectTypeDefinition,
    sel: Selection,
    rest: Seq<Selection>,
    visited: Seq<Seq<char>>,
    acc: Seq<(Seq<char>, Seq<FieldNode>)>,
)
    requires
        spec_should_skip(sel, vars) == Ok::<bool, CollectErr>(false),
        spec_should_include(sel, vars) == Ok::<bool, CollectErr>(false),
    ensures
        spec_collect(schema, fragments, vars, concrete, seq![sel] + rest, visited, acc)
            == spec_collect(schema, fragments, vars, concrete, rest, visited, acc),
{
    assert((seq![sel] + rest)[0] == sel);
    assert((seq![sel] + rest).drop_first() =~= rest);
}

/// Skip / include correctness, keeping half: a field that is not skipped and
/// whose `@include` condition holds (or is absent) is recorded under its
/// response key.
pub proof fn lemma_field_included(
    schema: ExecSchema,
    fragments: Seq<FragmentDefinition>,
    vars: Seq<(String, ConstValue)>,
    concrete: ObjectTypeDefinition,
    f: FieldNode,
    rest: Seq<Selection>,
    visited: Seq<Seq<char>>,
    acc: Seq<(Seq<char>, Seq<FieldNode>)>,
)
    requires
        spec_should_skip(Selection::Field(f), vars) == Ok::<bool, CollectErr>(false),
        spec_should_include(Selection::Field(f), vars) == Ok::<bool, CollectErr>(true),
    ensures
        spec_collect(
            schema,
            fragments,
            vars,
            concrete,
            seq![Selection::Field(f)] + rest,
            visited,
            acc,
        ) == spec_collect(
            schema,
            fragments,
            vars,
            concrete,
            rest,
            visited,
            spec_group_add(acc, response_key(f), f),
        ),
{
    assert((seq![Selection::Field(f)] + rest)[0] == Selection::Field(f));
    assert((seq![Selection::Field(f)] + rest).drop_first() =~= rest);
}

/// Fragment type-condition correctness for inline fragments: the fragment's
/// selections contribute exactly when its condition applies to the concrete
/// type — for an interface or union condition, when `is_subtype` holds.
pub proof fn lemma_inline_fragment_condition(
    schema: ExecSchema,
    fragments: Seq<FragmentDefinition>,
    vars: Seq<(String, ConstValue)>,
    concrete: ObjectTypeDefinition,
    inl: InlineFragmentNode,
    cond: TypeDefinition,
    rest: Seq<Selection>,
    visited: Seq<Seq<char>>,
    acc: Seq<(Seq<char>, Seq<FieldNode>)>,
)
    requires
        spec_should_skip(Selection::InlineFragment(inl), vars) == Ok::<bool, CollectErr>(false),
        spec_should_include(Selection::InlineFragment(inl), vars) == Ok::<bool, CollectErr>(true),
        inl.type_condition matches Some(cnd) && schema.spec_find_type(cnd@) == Some(cond),
    ensures
        spec_fragment_applies(schema, concrete, cond) == Ok::<bool, CollectErr>(false)
            ==> spec_collect(
            schema,
            fragments,
            vars,
            concrete,
            seq![Selection::InlineFragment(inl)] + rest,
            visited,
            acc,
        ) == spec_collect(schema, fragments, vars, concrete, rest, visited, acc),
        spec_fragment_applies(schema, concrete, cond) == Ok::<bool, CollectErr>(true)
            ==> spec_collect(
            schema,
            fragments,
            vars,
            concrete,
            seq![Selection::InlineFragment(inl)] + rest,
            visited,
            acc,
        ) == (match spec_collect(
            schema,
            fragments,
            vars,
            concrete,
            inl.selection_set.selections@,
            visited,
            acc,
        ) {
            Ok(acc2) => spec_collect(schema, fragments, vars, concrete, rest, visited, acc2),
            Err(k) => Err(k),
        }),
{
    assert((seq![Selection::InlineFragment(inl)] + rest)[0] == Selection::InlineFragment(inl));
    assert((seq![Selection::InlineFragment(inl)] + rest).drop_first() =~= rest);
}

/// Fragment type-condition correctness for spreads: a named fragment that is
/// not already on the path contributes its selections exactly when its type
/// condition applies to the concrete type.
pub proof fn lemma_fragment_spread_condition(
    schema: ExecSchema,
    fragments: Seq<FragmentDefinition>,
    vars: Seq<(String, ConstValue)>,
    concrete: ObjectTypeDefinition,
    sp: FragmentSpreadNode,
    frag: FragmentDefinition,
    cond: TypeDefinition,
    rest: Seq<Selection>,
    visited: Seq<Seq<char>>,
    acc: Seq<(Seq<char>, Seq<FieldNode>)>,
)
    requires
        spec_should_skip(Selection::FragmentSpread(sp), vars) == Ok::<bool, CollectErr>(false),
        spec_should_include(Selection::FragmentSpread(sp), vars) == Ok::<bool, CollectErr>(true),
        spec_find(fragments, sp.name@) == Some(frag),
        !visited.contains(sp.name@),
        schema.spec_find_type(frag.type_condition@) == Some(cond),
    ensures
        spec_fragment_applies(schema, concrete, cond) == Ok::<bool, CollectErr>(false)
            ==> spec_collect(
            schema,
            fragments,
            vars,
            concrete,
            seq![Selection::FragmentSpread(sp)] + rest,
            visited,
            acc,
        ) == spec_collect(schema, fragments, vars, concrete, rest, visited, acc),
        spec_fragment_applies(schema, concrete, cond) == Ok::<bool, CollectErr>(true)
            ==> spec_collect(
            schema,
            fragments,
            vars,
            concrete,
            seq![Selection::FragmentSpread(sp)] + rest,
            visited,
            acc,
        ) == (match spec_collect(
            schema,
            fragments,
            vars,
            concrete,
            frag.selection_set.selections@,
            visited.push(sp.name@),
            acc,
        ) {
            Ok(acc2) => spec_collect(schema, fragments, vars, concrete, rest, visited, acc2),
            Err(k) => Err(k),
        }),
{
    assert((seq![Selection::FragmentSpread(sp)] + rest)[0] == Selection::FragmentSpread(sp));
    assert((seq![Selection::FragmentSpread(sp)] + rest).drop_first() =~= rest);
}

/// A fragment already on the current path is refused: it contributes
/// nothing, so collection cannot re-enter a fragment cycle.
pub proof fn lemma_fragment_revisit_refused(
    schema: ExecSchema,
    fragments: Seq<FragmentDefinition>,
    vars: Seq<(String, ConstValue)>,
    concrete: ObjectTypeDefinition,
    sp: FragmentSpreadNode,
    rest: Seq<Selection>,
    visited: Seq<Seq<char>>,
    acc: Seq<(Seq<char>, Seq<FieldNode>)>,
)
    requires
        spec_should_skip(Selection::FragmentSpread(sp), vars) == Ok::<bool, CollectErr>(false),
        spec_should_include(Selection::FragmentSpread(sp), vars) == Ok::<bool, CollectErr>(true),
        spec_find(fragments, sp.name@) is Some,
        visited.contains(sp.name@),
    ensures
        spec_collect(
            schema,
            fragments,
            vars,
            concrete,
            seq![Selection::FragmentSpread(sp)] + rest,
            visited,
            acc,
        ) == spec_collect(schema, fragments, vars, concrete, rest, visited, acc),
{
    assert((seq![Selection::FragmentSpread(sp)] + rest)[0] == Selection::FragmentSpread(sp));
    assert((seq![Selection::FragmentSpread(sp)] + rest).drop_first() =~= rest);
}

/// Whether all response keys in the groups are distinct.
pub open spec fn group_keys_distinct(g: Seq<(Seq<char>, Seq<FieldNode>)>) -> bool {
    forall|i: int, j: int| 0 <= i < j < g.len() ==> g[i].0 != g[j].0
}

/// Recording a field keeps response keys distinct.
pub proof fn lemma_group_add_keeps_distinct(
    g: Seq<(Seq<char>, Seq<FieldNode>)>,
    key: Seq<char>,
    f: FieldNode,
)
    requires
        group_keys_distinct(g),
    ensures
        group_keys_distinct(spec_group_add(g, key, f)),
{
    lemma_group_add_key_order(g, key, f);
    let out = spec_group_add(g, key, f);
    if exists|i: int| 0 <= i < g.len() && g[i].0 == key {
        assert forall|i: int, j: int| 0 <= i < j < out.len() implies out[i].0 != out[j].0 by {
            assert(out[i].0 == g[i].0);
            assert(out[j].0 == g[j].0);
        }
    } else {
        assert forall|i: int, j: int| 0 <= i < j < out.len() implies out[i].0 != out[j].0 by {
            assert(out[i].0 == g[i].0);
            if j < g.len() {
                assert(out[j].0 == g[j].0);
            } else {
                assert(out[j].0 == key);
            }
        }
    }
}

/// The response-key mapping invariant: collection never produces two groups
/// under the same key, so a response object is a mapping, its keys in
/// first-seen order.
pub proof fn lemma_spec_collect_keys_distinct(
    schema: ExecSchema,
    fragments: Seq<FragmentDefinition>,
    vars: Seq<(String, ConstValue)>,
    concrete: ObjectTypeDefinition,
    sels: Seq<Selection>,
    visited: Seq<Seq<char>>,
    acc: Seq<(Seq<char>, Seq<FieldNode>)>,
)
    requires
        group_keys_distinct(acc),
    ensures
        spec_collect(schema, fragments, vars, concrete, sels, visited, acc) matches Ok(g)
            ==> group_keys_distinct(g),
    decreases crate::collect::unvisited_count(fragments, visited), crate::document::sels_size(
        sels,
    ),
{
    if sels.len() > 0 {
        let sel = sels[0];
        let rest = sels.drop_first();
        crate::document::lemma_sel_size_le(sels, 0);
        match spec_should_skip(sel, vars) {
            Err(_) => {},
            Ok(true) => {
                lemma_spec_collect_keys_distinct(
                    schema,
                    fragments,
                    vars,
                    concrete,
                    rest,
                    visited,
                    acc,
                );
            },
            Ok(false) => {
                match spec_should_include(sel, vars) {
                    Err(_) => {},
                    Ok(false) => {
                        lemma_spec_collect_keys_distinct(
                            schema,
                            fragments,
                            vars,
                            concrete,
                            rest,
                            visited,
                            acc,
                        );
                    },
                    Ok(true) => {
                        match sel {
                            Selection::Field(f) => {
                                lemma_group_add_keeps_distinct(acc, response_key(f), f);
                                lemma_spec_collect_keys_distinct(
                                    schema,
                                    fragments,
                                    vars,
                                    concrete,
                                    rest,
                                    visited,
                                    spec_group_add(acc, response_key(f), f),
                                );
                            },
                            Selection::FragmentSpread(sp) => {
                                match spec_find(fragments, sp.name@) {
                                    None => {},
                                    Some(frag) => {
                                        if visited.contains(sp.name@) {
                                            lemma_spec_collect_keys_distinct(
                                                schema,
                                                fragments,
                                                vars,
                                                concrete,
                                                rest,
                                                visited,
                                                acc,
                                            );
                                        } else {
                                            match schema.spec_find_type(frag.type_condition@) {
                                                None => {},
                                                Some(cond) => {
                                                    match spec_fragment_applies(
                                                        schema,
                                                        concrete,
                                                        cond,
                                                    ) {
                                                        Err(_) => {},
                                                        Ok(false) => {
                                                            lemma_spec_collect_keys_distinct(
                                                                schema,
                                                                fragments,
                                                                vars,
                                                                concrete,
                                                                rest,
                                                                visited,
                                                                acc,
                                                            );
                                                        },
                                                        Ok(true) => {
                                                            crate::collect::lemma_unvisited_count_decreases(
                                                                fragments,
                                                                visited,
                                                                sp.name@,
                                                            );
                                                            lemma_spec_collect_keys_distinct(
                                                                schema,
                                                                fragments,
                                                                vars,
                                                                concrete,
                                                                frag.selection_set.selections@,
                                                                visited.push(sp.name@),
                                                                acc,
                                                            );
                                                            match spec_collect(
                                                                schema,
                                                                fragments,
                                                                vars,
                                                                concrete,
                                                                frag.selection_set.selections@,
                                                                visited.push(sp.name@),
                                                                acc,
                                                            ) {
                                                                Err(_) => {},
                                                                Ok(acc2) => {
                                                                    lemma_spec_collect_keys_distinct(
                                                                        schema,
                                                                        fragments,
                                                                        vars,
                                                                        concrete,
                                                                        rest,
                                                                        visited,
                                                                        acc2,
                                                                    );
                                                                },
                                                            }
                                                        },
                                                    }
                                                },
                                            }
                                        }
                                    },
                                }
                            },
                            Selection::InlineFragment(inl) => {
                                let applies: Result<bool, CollectErr> = match inl.type_condition {
                                    None => Ok(true),
                                    Some(cnd) => match schema.spec_find_type(cnd@) {
                                        None => Err(CollectErr::TypeNotFound(cnd@)),
                                        Some(cond) => spec_fragment_applies(
                                            schema,
                                            concrete,
                                            cond,
                                        ),
                                    },
                                };
                                match applies {
                                    Err(_) => {},
                                    Ok(false) => {
                                        lemma_spec_collect_keys_distinct(
                                            schema,
                                            fragments,
                                            vars,
                                            concrete,
                                            rest,
                                            visited,
                                            acc,
                                        );
                                    },
                                    Ok(true) => {
                                        lemma_spec_collect_keys_distinct(
                                            schema,
                                            fragments,
                                            vars,
                                            concrete,
                                            inl.selection_set.selections@,
                                            visited,
                                            acc,
                                        );
                                        match spec_collect(
                                            schema,
                                            fragments,
                                            vars,
                                            concrete,
                                            inl.selection_set.selections@,
                                            visited,
                                            acc,
                                        ) {
                                            Err(_) => {},
                                            Ok(acc2) => {
                                                lemma_spec_collect_keys_distinct(
                                                    schema,
                                                    fragments,
                                                    vars,
                                                    concrete,
                                                    rest,
                                                    visited,
                                                    acc2,
                                                );
                                            },
                                        }
                                    },
                                }
                            },
                        }
                    },
                }
            },
        }
    }
}

} // verus!
