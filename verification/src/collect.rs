//! Field collection: flattening a selection set over fragments and
//! `@skip` / `@include` directives into an ordered map from response keys to
//! the field nodes that contribute to each key.
//!
//! The algorithm is stated twice: once as the spec functions below, and once
//! as the executable functions, each proved to return exactly what its spec
//! says. Repeated runs on the same inputs therefore give the same key order
//! and the same grouping.
use vstd::prelude::*;

use crate::ctx::ExecCtx;
use crate::document::Directive;
use crate::document::DocValue;
use crate::document::FieldNode;
use crate::document::FragmentDefinition;
use crate::document::Selection;
use crate::document::SelectionSet;
use crate::document::response_key;
use crate::document::sel_size;
use crate::document::sels_size;
use crate::document::lemma_sel_size_le;
use crate::error::Error;
use crate::lookup::find_by_key;
use crate::lookup::find_index_by_key;
use crate::lookup::spec_find;
use crate::lookup::lemma_spec_find_found;
use crate::schema::ExecSchema;
use crate::schema::ObjectTypeDefinition;
use crate::schema::TypeDefinition;
use crate::value::ConstValue;

verus! {

broadcast use vstd::seq_lib::group_seq_lib_default;

/// How collection can fail, at the level contracts speak of.
pub enum CollectErr {
    FragmentNotFound(Seq<char>),
    TypeNotFound(Seq<char>),
    InvalidFragmentTypeCondition(Seq<char>),
    /// The named directive's `if` argument was missing or not a boolean.
    DirectiveArgumentInvalid(Seq<char>),
}

/// Which `Error` value corresponds to a spec-level collection failure.
pub open spec fn collect_err_matches(e: Error, k: CollectErr) -> bool {
    match k {
        CollectErr::FragmentNotFound(n) => e matches Error::FragmentNotFound(m) && m@ == n,
        CollectErr::TypeNotFound(n) => e matches Error::TypeNotFound(m) && m@ == n,
        CollectErr::InvalidFragmentTypeCondition(n) => e matches Error::InvalidFragmentTypeCondition(
            m,
        ) && m@ == n,
        CollectErr::DirectiveArgumentInvalid(d) => e matches Error::DirectiveArgumentInvalid(
            m,
            a,
        ) && m@ == d && a@ == "if"@,
    }
}

/// The directives attached to a selection, whichever kind it is.
pub open spec fn spec_directives_of(sel: Selection) -> Seq<Directive> {
    match sel {
        Selection::Field(f) => f.directives@,
        Selection::FragmentSpread(s) => s.directives@,
        Selection::InlineFragment(f) => f.directives@,
    }
}

/// A `@skip` / `@include` condition value: a boolean literal, or a variable
/// holding a boolean. Anything else has no value.
pub open spec fn spec_eval_bool_arg(v: DocValue, vars: Seq<(String, ConstValue)>) -> Option<
    bool,
> {
    match v {
        DocValue::BoolValue(b) => Some(b),
        DocValue::Variable(x) => match spec_find(vars, x@) {
            Some(p) => match p.1 {
                ConstValue::Boolean(b) => Some(b),
                _ => None,
            },
            None => None,
        },
        _ => None,
    }
}

/// The condition of the named directive on a selection: `Ok(None)` when the
/// directive is absent, `Ok(Some(b))` when its `if` argument evaluates to
/// `b`, and an error when the argument is missing or not a boolean.
pub open spec fn spec_directive_cond(
    sel: Selection,
    dname: Seq<char>,
    vars: Seq<(String, ConstValue)>,
) -> Result<Option<bool>, CollectErr> {
    match spec_find(spec_directives_of(sel), dname) {
        Some(d) => match spec_find(d.arguments@, "if"@) {
            Some(a) => match spec_eval_bool_arg(a.value, vars) {
                Some(b) => Ok(Some(b)),
                None => Err(CollectErr::DirectiveArgumentInvalid(dname)),
            },
            None => Err(CollectErr::DirectiveArgumentInvalid(dname)),
        },
        None => Ok(None),
    }
}

/// `@skip(if: true)` drops the selection; an absent `@skip` keeps it.
pub open spec fn spec_should_skip(sel: Selection, vars: Seq<(String, ConstValue)>) -> Result<
    bool,
    CollectErr,
> {
    match spec_directive_cond(sel, "skip"@, vars) {
        Ok(Some(b)) => Ok(b),
        Ok(None) => Ok(false),
        Err(k) => Err(k),
    }
}

/// `@include(if: false)` drops the selection; an absent `@include` keeps it.
pub open spec fn spec_should_include(sel: Selection, vars: Seq<(String, ConstValue)>) -> Result<
    bool,
    CollectErr,
> {
    match spec_directive_cond(sel, "include"@, vars) {
        Ok(Some(b)) => Ok(b),
        Ok(None) => Ok(true),
        Err(k) => Err(k),
    }
}

/// Whether a fragment's type condition applies to the concrete object type:
/// an object condition exactly when it is the concrete definition itself
/// (definition identity); an interface or union condition through the
/// subtype map; any other kind of condition is an error.
pub open spec fn spec_fragment_applies(
    schema: ExecSchema,
    concrete: ObjectTypeDefinition,
    cond: TypeDefinition,
) -> Result<bool, CollectErr> {
    match cond {
        TypeDefinition::Object(o) => Ok(o == concrete),
        TypeDefinition::Interface(i) => Ok(schema.spec_is_subtype(concrete.name@, i.name@)),
        TypeDefinition::Union(u) => Ok(schema.spec_is_subtype(concrete.name@, u.name@)),
        _ => Err(CollectErr::InvalidFragmentTypeCondition(cond.spec_name())),
    }
}

/// Appending one field under a response key: the first group with that key
/// grows; a new key goes to the end, keeping first-seen key order.
pub open spec fn spec_group_add(
    g: Seq<(Seq<char>, Seq<FieldNode>)>,
    key: Seq<char>,
    f: FieldNode,
) -> Seq<(Seq<char>, Seq<FieldNode>)>
    decreases g,
{
    if g.len() == 0 {
        seq![(key, seq![f])]
    } else if g[0].0 == key {
        seq![(g[0].0, g[0].1.push(f))] + g.drop_first()
    } else {
        seq![g[0]] + spec_group_add(g.drop_first(), key, f)
    }
}

/// The names of the document's fragments.
pub open spec fn frag_names(fragments: Seq<FragmentDefinition>) -> Set<Seq<char>> {
    fragments.map_values(|f: FragmentDefinition| f.name@).to_set()
}

/// How many fragment names are not yet on the visited path: the first
/// component of the collector's termination measure.
pub open spec fn unvisited_count(
    fragments: Seq<FragmentDefinition>,
    visited: Seq<Seq<char>>,
) -> nat {
    frag_names(fragments).difference(visited.to_set()).len()
}

/// Entering a fragment that exists and is not yet visited strictly shrinks
/// the unvisited count.
pub proof fn lemma_unvisited_count_decreases(
    fragments: Seq<FragmentDefinition>,
    visited: Seq<Seq<char>>,
    name: Seq<char>,
)
    requires
        spec_find(fragments, name) is Some,
        !visited.contains(name),
    ensures
        unvisited_count(fragments, visited.push(name)) < unvisited_count(fragments, visited),
{
    broadcast use vstd::seq_lib::seq_to_set_is_finite;
    broadcast use vstd::set::group_set_axioms;

    lemma_spec_find_found(fragments, name);
    let i = choose|i: int|
        0 <= i < fragments.len() && fragments[i] == spec_find(fragments, name)->Some_0;
    let mapped = fragments.map_values(|f: FragmentDefinition| f.name@);
    assert(mapped[i] == name);
    assert(mapped.contains(name));
    let s = frag_names(fragments);
    let v = visited.to_set();
    assert(s.contains(name));
    assert forall|x: Seq<char>|
        visited.push(name).contains(x) <==> (visited.contains(x) || x == name) by {
        if visited.push(name).contains(x) {
            let j = choose|j: int| 0 <= j < visited.push(name).len() && visited.push(name)[j] == x;
            if j < visited.len() {
                assert(visited[j] == x);
            }
        }
        if visited.contains(x) {
            let j = choose|j: int| 0 <= j < visited.len() && visited[j] == x;
            assert(visited.push(name)[j] == x);
        }
        assert(visited.push(name)[visited.len() as int] == name);
    }
    assert(visited.push(name).to_set() =~= v.insert(name));
    assert(s.difference(v.insert(name)) =~= s.difference(v).remove(name));
    assert(s.difference(v).contains(name));
    assert(s.difference(v).finite());
    vstd::set::axiom_set_remove_len(s.difference(v), name);
}

/// The specification of field collection: processing `sels` in document
/// order against the concrete type, growing the accumulated groups, with
/// `visited` guarding against re-entering a fragment on the current path.
pub open spec fn spec_collect(
    schema: ExecSchema,
    fragments: Seq<FragmentDefinition>,
    vars: Seq<(String, ConstValue)>,
    concrete: ObjectTypeDefinition,
    sels: Seq<Selection>,
    visited: Seq<Seq<char>>,
    acc: Seq<(Seq<char>, Seq<FieldNode>)>,
) -> Result<Seq<(Seq<char>, Seq<FieldNode>)>, CollectErr>
    decreases unvisited_count(fragments, visited), sels_size(sels),
    via spec_collect_decreases
{
    if sels.len() == 0 {
        Ok(acc)
    } else {
        let sel = sels[0];
        let rest = sels.drop_first();
        match spec_should_skip(sel, vars) {
            Err(k) => Err(k),
            Ok(true) => spec_collect(schema, fragments, vars, concrete, rest, visited, acc),
            Ok(false) => match spec_should_include(sel, vars) {
                Err(k) => Err(k),
                Ok(false) => spec_collect(schema, fragments, vars, concrete, rest, visited, acc),
                Ok(true) => match sel {
                    Selection::Field(f) => spec_collect(
                        schema,
                        fragments,
                        vars,
                        concrete,
                        rest,
                        visited,
                        spec_group_add(acc, response_key(f), f),
                    ),
                    Selection::FragmentSpread(sp) => match spec_find(fragments, sp.name@) {
                        None => Err(CollectErr::FragmentNotFound(sp.name@)),
                        Some(frag) => if visited.contains(sp.name@) {
                            spec_collect(schema, fragments, vars, concrete, rest, visited, acc)
                        } else {
                            match schema.spec_find_type(frag.type_condition@) {
                                None => Err(CollectErr::TypeNotFound(frag.type_condition@)),
                                Some(cond) => match spec_fragment_applies(schema, concrete, cond) {
                                    Err(k) => Err(k),
                                    Ok(false) => spec_collect(
                                        schema,
                                        fragments,
                                        vars,
                                        concrete,
                                        rest,
                                        visited,
                                        acc,
                                    ),
                                    Ok(true) => match spec_collect(
                                        schema,
                                        fragments,
                                        vars,
                                        concrete,
                                        frag.selection_set.selections@,
                                        visited.push(sp.name@),
                                        acc,
                                    ) {
                                        Err(k) => Err(k),
                                        Ok(acc2) => spec_collect(
                                            schema,
                                            fragments,
                                            vars,
                                            concrete,
                                            rest,
                                            visited,
                                            acc2,
                                        ),
                                    },
                                },
                            }
                        },
                    },
                    Selection::InlineFragment(inl) => {
                        let applies = match inl.type_condition {
                            None => Ok(true),
                            Some(cnd) => match schema.spec_find_type(cnd@) {
                                None => Err(CollectErr::TypeNotFound(cnd@)),
                                Some(cond) => spec_fragment_applies(schema, concrete, cond),
                            },
                        };
                        match applies {
                            Err(k) => Err(k),
                            Ok(false) => spec_collect(
                                schema,
                                fragments,
                                vars,
                                concrete,
                                rest,
                                visited,
                                acc,
                            ),
                            Ok(true) => match spec_collect(
                                schema,
                                fragments,
                                vars,
                                concrete,
                                inl.selection_set.selections@,
                                visited,
                                acc,
                            ) {
                                Err(k) => Err(k),
                                Ok(acc2) => spec_collect(
                                    schema,
                                    fragments,
                                    vars,
                                    concrete,
                                    rest,
                                    visited,
                                    acc2,
                                ),
                            },
                        }
                    },
                },
            },
        }
    }
}

#[via_fn]
proof fn spec_collect_decreases(
    schema: ExecSchema,
    fragments: Seq<FragmentDefinition>,
    vars: Seq<(String, ConstValue)>,
    concrete: ObjectTypeDefinition,
    sels: Seq<Selection>,
    visited: Seq<Seq<char>>,
    acc: Seq<(Seq<char>, Seq<FieldNode>)>,
) {
    if sels.len() > 0 {
        lemma_sel_size_le(sels, 0);
        assert(sels_size(sels.drop_first()) < sels_size(sels));
        match sels[0] {
            Selection::FragmentSpread(sp) => {
                if spec_find(fragments, sp.name@) is Some && !visited.contains(sp.name@) {
                    lemma_unvisited_count_decreases(fragments, visited, sp.name@);
                }
            },
            Selection::InlineFragment(inl) => {
                assert(sels_size(inl.selection_set.selections@) < sel_size(sels[0]));
            },
            _ => {},
        }
    }
}

/// The executable groups: response keys in first-seen order, each with the
/// field nodes that contribute to it, in document order.
pub struct GroupedFields<'a> {
    pub entries: Vec<(String, Vec<&'a FieldNode>)>,
}

impl<'a> GroupedFields<'a> {
    /// The groups as the spec functions see them.
    pub open spec fn gview(self) -> Seq<(Seq<char>, Seq<FieldNode>)> {
        self.entries@.map_values(
            |e: (String, Vec<&'a FieldNode>)| (e.0@, e.1@.map_values(|f: &FieldNode| *f)),
        )
    }

    pub fn new() -> (r: GroupedFields<'a>)
        ensures
            r.gview() == Seq::<(Seq<char>, Seq<FieldNode>)>::empty(),
    {
        let r = GroupedFields { entries: Vec::new() };
        proof {
            assert(r.gview() =~= Seq::<(Seq<char>, Seq<FieldNode>)>::empty());
        }
        r
    }

    pub fn len(&self) -> (r: usize)
        ensures
            r == self.gview().len(),
    {
        self.entries.len()
    }

    /// The response key and fields of the group at `i`.
    pub fn entry(&self, i: usize) -> (r: &(String, Vec<&'a FieldNode>))
        requires
            i < self.gview().len(),
        ensures
            r.0@ == self.gview()[i as int].0,
            r.1@.map_values(|f: &FieldNode| *f) == self.gview()[i as int].1,
    {
        &self.entries[i]
    }

    /// Record one field under its response key, preserving first-seen key
    /// order.
    pub fn add(&mut self, key: String, field: &'a FieldNode)
        ensures
            final(self).gview() == spec_group_add(old(self).gview(), key@, *field),
    {
        let ghost g0 = self.gview();
        match find_index_by_key(&self.entries, &key) {
            Some(i) => {
                let (k, mut v) = self.entries.remove(i);
                v.push(field);
                let ghost entries1 = self.entries@;
                self.entries.insert(i, (k, v));
                proof {
                    assert forall|j: int| 0 <= j < i implies g0[j].0 != key@ by {
                        assert(g0[j].0 == old(self).entries@[j].0@);
                    }
                    assert(g0[i as int].0 == key@);
                    lemma_spec_group_add_found(g0, key@, *field, i as int);
                    assert(entries1.insert(i as int, (k, v)) =~= old(self).entries@.update(
                        i as int,
                        (k, v),
                    ));
                    assert(v@.map_values(|f: &FieldNode| *f) =~= g0[i as int].1.push(*field));
                    assert(self.gview() =~= g0.update(
                        i as int,
                        (g0[i as int].0, g0[i as int].1.push(*field)),
                    ));
                }
            },
            None => {
                let mut v: Vec<&'a FieldNode> = Vec::new();
                v.push(field);
                self.entries.push((key, v));
                proof {
                    assert forall|j: int| 0 <= j < g0.len() implies g0[j].0 != key@ by {
                        assert(g0[j].0 == old(self).entries@[j].0@);
                    }
                    lemma_spec_group_add_not_found(g0, key@, *field);
                    assert(v@.map_values(|f: &FieldNode| *f) =~= seq![*field]);
                    assert(self.gview() =~= g0.push((key@, seq![*field])));
                }
            },
        }
    }
}

/// Where the key is already present (first at `i`), adding appends to that
/// group in place.
pub proof fn lemma_spec_group_add_found(
    g: Seq<(Seq<char>, Seq<FieldNode>)>,
    key: Seq<char>,
    f: FieldNode,
    i: int,
)
    requires
        0 <= i < g.len(),
        g[i].0 == key,
        forall|j: int| 0 <= j < i ==> g[j].0 != key,
    ensures
        spec_group_add(g, key, f) == g.update(i, (g[i].0, g[i].1.push(f))),
    decreases g,
{
    if i == 0 {
        assert(spec_group_add(g, key, f) =~= g.update(0, (g[0].0, g[0].1.push(f))));
    } else {
        assert forall|j: int| 0 <= j < i - 1 implies g.drop_first()[j].0 != key by {
            assert(g.drop_first()[j] == g[j + 1]);
        }
        lemma_spec_group_add_found(g.drop_first(), key, f, i - 1);
        assert(g.drop_first().update(i - 1, (g[i].0, g[i].1.push(f))) =~= g.update(
            i,
            (g[i].0, g[i].1.push(f)),
        ).drop_first());
        assert(spec_group_add(g, key, f) =~= g.update(i, (g[i].0, g[i].1.push(f))));
    }
}

/// Where the key is new, adding appends a fresh one-field group at the end.
pub proof fn lemma_spec_group_add_not_found(
    g: Seq<(Seq<char>, Seq<FieldNode>)>,
    key: Seq<char>,
    f: FieldNode,
)
    requires
        forall|j: int| 0 <= j < g.len() ==> g[j].0 != key,
    ensures
        spec_group_add(g, key, f) == g.push((key, seq![f])),
    decreases g,
{
    if g.len() == 0 {
        assert(spec_group_add(g, key, f) =~= g.push((key, seq![f])));
    } else {
        assert forall|j: int| 0 <= j < g.drop_first().len() implies g.drop_first()[j].0 != key by {
            assert(g.drop_first()[j] == g[j + 1]);
        }
        lemma_spec_group_add_not_found(g.drop_first(), key, f);
        assert(spec_group_add(g, key, f) =~= g.push((key, seq![f])));
    }
}

/// The visited fragment names, as the spec sees them.
pub open spec fn vnames(v: Seq<String>) -> Seq<Seq<char>> {
    v.map_values(|s: String| s@)
}

/// Whether `name` is among the visited fragment names.
fn contains_name(visited: &Vec<String>, name: &String) -> (r: bool)
    ensures
        r == vnames(visited@).contains(name@),
{
    let mut i: usize = 0;
    while i < visited.len()
        invariant
            i <= visited.len(),
            forall|j: int| 0 <= j < i ==> vnames(visited@)[j] != name@,
        decreases visited.len() - i,
    {
        if visited[i] == *name {
            proof {
                assert(vnames(visited@)[i as int] == name@);
            }
            return true;
        }
        i = i + 1;
    }
    proof {
        if vnames(visited@).contains(name@) {
            let j = choose|j: int|
                0 <= j < vnames(visited@).len() && vnames(visited@)[j] == name@;
            assert(vnames(visited@)[j] != name@);
        }
    }
    false
}

/// The directives attached to a selection.
pub fn sel_directives<'a>(selection: &'a Selection) -> (r: &'a Vec<Directive>)
    ensures
        r@ == spec_directives_of(*selection),
{
    match selection {
        Selection::Field(f) => &f.directives,
        Selection::FragmentSpread(s) => &s.directives,
        Selection::InlineFragment(f) => &f.directives,
    }
}

/// Evaluate a `@skip` / `@include` condition value against the variables.
pub fn eval_bool_arg(v: &DocValue, vars: &Vec<(String, ConstValue)>) -> (r: Option<bool>)
    ensures
        r == spec_eval_bool_arg(*v, vars@),
{
    match v {
        DocValue::BoolValue(b) => Some(*b),
        DocValue::Variable(x) => match find_by_key(vars, x) {
            Some(p) => match &p.1 {
                ConstValue::Boolean(b) => Some(*b),
                _ => None,
            },
            None => None,
        },
        _ => None,
    }
}

/// The condition of the named directive on the selection, if it is present.
fn directive_cond(sel: &Selection, dname: &String, vars: &Vec<(String, ConstValue)>) -> (r: Result<
    Option<bool>,
    Error,
>)
    ensures
        match (r, spec_directive_cond(*sel, dname@, vars@)) {
            (Ok(a), Ok(b)) => a == b,
            (Err(e), Err(k)) => collect_err_matches(e, k),
            _ => false,
        },
{
    match find_by_key(sel_directives(sel), dname) {
        Some(d) => match find_by_key(&d.arguments, &"if".to_owned()) {
            Some(a) => match eval_bool_arg(&a.value, vars) {
                Some(b) => Ok(Some(b)),
                None => Err(Error::DirectiveArgumentInvalid(dname.clone(), "if".to_owned())),
            },
            None => Err(Error::DirectiveArgumentInvalid(dname.clone(), "if".to_owned())),
        },
        None => Ok(None),
    }
}

/// Whether `@skip` drops this selection.
pub fn should_skip(sel: &Selection, vars: &Vec<(String, ConstValue)>) -> (r: Result<bool, Error>)
    ensures
        match (r, spec_should_skip(*sel, vars@)) {
            (Ok(a), Ok(b)) => a == b,
            (Err(e), Err(k)) => collect_err_matches(e, k),
            _ => false,
        },
{
    match directive_cond(sel, &"skip".to_owned(), vars) {
        Ok(Some(b)) => Ok(b),
        Ok(None) => Ok(false),
        Err(e) => Err(e),
    }
}

/// Whether `@include` keeps this selection.
pub fn should_include(sel: &Selection, vars: &Vec<(String, ConstValue)>) -> (r: Result<
    bool,
    Error,
>)
    ensures
        match (r, spec_should_include(*sel, vars@)) {
            (Ok(a), Ok(b)) => a == b,
            (Err(e), Err(k)) => collect_err_matches(e, k),
            _ => false,
        },
{
    match directive_cond(sel, &"include".to_owned(), vars) {
        Ok(Some(b)) => Ok(b),
        Ok(None) => Ok(true),
        Err(e) => Err(e),
    }
}

/// Whether the fragment's type condition applies to the concrete type. Both
/// definitions must be the schema's own definitions of their names, as every
/// definition execution handles is; under that hypothesis the executable
/// name test decides definition identity for object conditions.
pub fn fragment_type_applies(
    ectx: &ExecCtx,
    obj_type: &ObjectTypeDefinition,
    frag_type: &TypeDefinition,
) -> (r: Result<bool, Error>)
    requires
        ectx.schema.spec_find_type(obj_type.name@) == Some(TypeDefinition::Object(*obj_type)),
        frag_type matches TypeDefinition::Object(o) ==> ectx.schema.spec_find_type(o.name@)
            == Some(*frag_type),
    ensures
        match (r, spec_fragment_applies(*ectx.schema, *obj_type, *frag_type)) {
            (Ok(a), Ok(b)) => a == b,
            (Err(e), Err(k)) => collect_err_matches(e, k),
            _ => false,
        },
{
    match frag_type {
        TypeDefinition::Object(o) => {
            proof {
                if o.name@ == obj_type.name@ {
                    assert(ectx.schema.spec_find_type(o.name@) == ectx.schema.spec_find_type(
                        obj_type.name@,
                    ));
                }
            }
            Ok(o.name == obj_type.name)
        },
        TypeDefinition::Interface(i) => Ok(ectx.is_subtype(&obj_type.name, &i.name)),
        TypeDefinition::Union(u) => Ok(ectx.is_subtype(&obj_type.name, &u.name)),
        _ => Err(Error::InvalidFragmentTypeCondition(frag_type.name().clone())),
    }
}

/// One level of collection: processes `sels` in order into `out`, exactly as
/// `spec_collect` says.
#[verifier::loop_isolation(false)]
fn collect_into<'a>(
    ectx: &ExecCtx<'a>,
    sels: &'a Vec<Selection>,
    concrete: &ObjectTypeDefinition,
    visited: &Vec<String>,
    out: &mut GroupedFields<'a>,
) -> (r: Result<(), Error>)
    requires
        ectx.schema.spec_find_type(concrete.name@) == Some(TypeDefinition::Object(*concrete)),
    ensures
        match r {
            Ok(()) => spec_collect(
                *ectx.schema,
                ectx.fragments@,
                ectx.variables@,
                *concrete,
                sels@,
                vnames(visited@),
                old(out).gview(),
            ) == Ok::<_, CollectErr>(final(out).gview()),
            Err(e) => spec_collect(
                *ectx.schema,
                ectx.fragments@,
                ectx.variables@,
                *concrete,
                sels@,
                vnames(visited@),
                old(out).gview(),
            ) is Err && collect_err_matches(
                e,
                spec_collect(
                    *ectx.schema,
                    ectx.fragments@,
                    ectx.variables@,
                    *concrete,
                    sels@,
                    vnames(visited@),
                    old(out).gview(),
                )->Err_0,
            ),
        },
    decreases unvisited_count(ectx.fragments@, vnames(visited@)), sels_size(sels@), sels@.len(),
{
    let ghost schema = *ectx.schema;
    let ghost frags = ectx.fragments@;
    let ghost vars = ectx.variables@;
    let ghost vis = vnames(visited@);
    let ghost g0 = old(out).gview();
    let mut i: usize = 0;
    proof {
        assert(sels@.skip(0) =~= sels@);
    }
    while i < sels.len()
        invariant
            i <= sels.len(),
            spec_collect(schema, frags, vars, *concrete, sels@, vis, g0) == spec_collect(
                schema,
                frags,
                vars,
                *concrete,
                sels@.skip(i as int),
                vis,
                out.gview(),
            ),
        decreases sels@.len() - i,
    {
        let ghost cur = out.gview();
        let ghost sub = sels@.skip(i as int);
        proof {
            assert(sub[0] == sels@[i as int]);
            assert(sub.drop_first() =~= sels@.skip(i as int + 1));
        }
        let sel = &sels[i];
        match should_skip(sel, ectx.variables) {
            Err(e) => {
                return Err(e);
            },
            Ok(true) => {},
            Ok(false) => {
                match should_include(sel, ectx.variables) {
                    Err(e) => {
                        return Err(e);
                    },
                    Ok(false) => {},
                    Ok(true) => {
                        match sel {
                            Selection::Field(f) => {
                                let key = f.response_key_string();
                                out.add(key, f);
                            },
                            Selection::FragmentSpread(sp) => {
                                match ectx.fragment(&sp.name) {
                                    None => {
                                        return Err(Error::FragmentNotFound(sp.name.clone()));
                                    },
                                    Some(frag) => {
                                        if !contains_name(visited, &sp.name) {
                                            match ectx.find_type_definition_by_name(
                                                &frag.type_condition,
                                            ) {
                                                None => {
                                                    return Err(
                                                        Error::TypeNotFound(
                                                            frag.type_condition.clone(),
                                                        ),
                                                    );
                                                },
                                                Some(cond) => {
                                                    match fragment_type_applies(
                                                        ectx,
                                                        concrete,
                                                        cond,
                                                    ) {
                                                        Err(e) => {
                                                            return Err(e);
                                                        },
                                                        Ok(false) => {},
                                                        Ok(true) => {
                                                            let mut v2: Vec<String> = Vec::new();
                                                            let mut j: usize = 0;
                                                            while j < visited.len()
                                                                invariant
                                                                    j <= visited.len(),
                                                                    v2@.len() == j,
                                                                    forall|m: int|
                                                                        0 <= m < j ==> v2@[m]@
                                                                            == visited@[m]@,
                                                                decreases visited@.len() - j,
                                                            {
                                                                v2.push(visited[j].clone());
                                                                j = j + 1;
                                                            }
                                                            v2.push(sp.name.clone());
                                                            proof {
                                                                assert(vnames(v2@) =~= vnames(
                                                                    visited@,
                                                                ).push(sp.name@));
                                                                lemma_unvisited_count_decreases(
                                                                    frags,
                                                                    vis,
                                                                    sp.name@,
                                                                );
                                                            }
                                                            match collect_into(
                                                                ectx,
                                                                &frag.selection_set.selections,
                                                                concrete,
                                                                &v2,
                                                                out,
                                                            ) {
                                                                Err(e) => {
                                                                    return Err(e);
                                                                },
                                                                Ok(()) => {},
                                                            }
                                                        },
                                                    }
                                                },
                                            }
                                        }
                                    },
                                }
                            },
                            Selection::InlineFragment(inl) => {
                                let applies: bool = match &inl.type_condition {
                                    None => true,
                                    Some(cnd) => {
                                        match ectx.find_type_definition_by_name(cnd) {
                                            None => {
                                                return Err(Error::TypeNotFound(cnd.clone()));
                                            },
                                            Some(cond) => {
                                                match fragment_type_applies(ectx, concrete, cond) {
                                                    Err(e) => {
                                                        return Err(e);
                                                    },
                                                    Ok(b) => b,
                                                }
                                            },
                                        }
                                    },
                                };
                                if applies {
                                    proof {
                                        lemma_sel_size_le(sels@, i as int);
                                    }
                                    match collect_into(
                                        ectx,
                                        &inl.selection_set.selections,
                                        concrete,
                                        visited,
                                        out,
                                    ) {
                                        Err(e) => {
                                            return Err(e);
                                        },
                                        Ok(()) => {},
                                    }
                                }
                            },
                        }
                    },
                }
            },
        }
        i = i + 1;
    }
    proof {
        assert(sels@.skip(i as int).len() == 0);
    }
    Ok(())
}

/// Collects a selection set into the ordered `(response key -> fields)`
/// groups used for execution, per the field-collection algorithm: document
/// order, `@skip` / `@include` honored, fragments entered when their type
/// condition applies to the concrete type, and no fragment re-entered on one
/// path.
pub fn collect_fields<'a>(
    ectx: &ExecCtx<'a>,
    sel_set: &'a SelectionSet,
    concrete_type: &ObjectTypeDefinition,
) -> (r: Result<GroupedFields<'a>, Error>)
    requires
        ectx.schema.spec_find_type(concrete_type.name@) == Some(
            TypeDefinition::Object(*concrete_type),
        ),
    ensures
        match r {
            Ok(g) => spec_collect(
                *ectx.schema,
                ectx.fragments@,
                ectx.variables@,
                *concrete_type,
                sel_set.selections@,
                Seq::empty(),
                Seq::empty(),
            ) == Ok::<_, CollectErr>(g.gview()),
            Err(e) => spec_collect(
                *ectx.schema,
                ectx.fragments@,
                ectx.variables@,
                *concrete_type,
                sel_set.selections@,
                Seq::empty(),
                Seq::empty(),
            ) is Err && collect_err_matches(
                e,
                spec_collect(
                    *ectx.schema,
                    ectx.fragments@,
                    ectx.variables@,
                    *concrete_type,
                    sel_set.selections@,
                    Seq::empty(),
                    Seq::empty(),
                )->Err_0,
            ),
        },
{
    let mut out = GroupedFields::new();
    let visited: Vec<String> = Vec::new();
    proof {
        assert(vnames(visited@) =~= Seq::<Seq<char>>::empty());
    }
    match collect_into(ectx, &sel_set.selections, concrete_type, &visited, &mut out) {
        Ok(()) => Ok(out),
        Err(e) => Err(e),
    }
}

} // verus!
