//! Resolver implementations that overlay introspection on user resolvers:
//! `__typename` on every object level, `__schema` / `__type` at the root,
//! and the `__Schema` / `__Type` / `__Field` / `__InputValue` / `__EnumValue`
//! projections.
use vstd::prelude::*;
use vstd::string::StrSliceExecFns;

use crate::ctx::ExecCtx;
use crate::document::Directive;
use crate::document::DocValue;
use crate::error::Error;
use crate::lookup::find_by_key;
use crate::lookup::spec_find;
use crate::resolver::Ctx;
use crate::resolver::ObjectResolver;
use crate::resolver::Resolved;
use crate::schema::EnumValueDefinition;
use crate::schema::FieldDefinition;
use crate::schema::InputValueDefinition;
use crate::schema::ObjectTypeDefinition;
use crate::schema::Type;
use crate::schema::TypeDefinition;
use crate::value::ConstValue;
use crate::value::ValueModel;
use crate::value::vmodel;

verus! {

broadcast use vstd::std_specs::vec::group_vec_axioms;

/// A type position an introspection resolver describes: either a borrowed
/// wrapper type from a field definition, or a type referred to by name.
pub enum TypeRef<'a> {
    Direct(&'a Type),
    ByName(String),
}

/// Adds `__typename` to another resolver, answering with the concrete
/// object type's name.
pub struct IspObjectResolver<'a, R> {
    pub type_def: &'a ObjectTypeDefinition,
    pub inner: Box<ExecResolver<'a, R>>,
}

/// Adds `__schema` and `__type` to the operation-root resolver.
pub struct IspRootResolver<'a, R> {
    pub inner: Box<ExecResolver<'a, R>>,
}

/// Resolves the fields of `__Schema`.
pub struct IspSchemaResolver {}

/// Resolves the fields of `__Type` for one type position.
pub struct IspTypeResolver<'a> {
    pub ty: TypeRef<'a>,
}

/// Resolves the fields of `__Field` for one field definition.
pub struct IspFieldResolver<'a> {
    pub field_def: &'a FieldDefinition,
}

/// Resolves the fields of `__InputValue` for one input value definition.
pub struct IspInputValueResolver<'a> {
    pub input_value_def: &'a InputValueDefinition,
}

/// Resolves the fields of `__EnumValue` for one enum value definition.
pub struct IspEnumValueResolver<'a> {
    pub enum_value: &'a EnumValueDefinition,
}

/// The resolver the executor drives: a user resolver, or one of the
/// introspection resolvers layered over and around user resolvers.
pub enum ExecResolver<'a, R> {
    User(R),
    Typename(IspObjectResolver<'a, R>),
    Root(IspRootResolver<'a, R>),
    Schema(IspSchemaResolver),
    Type(IspTypeResolver<'a>),
    Field(IspFieldResolver<'a>),
    InputValue(IspInputValueResolver<'a>),
    EnumValue(IspEnumValueResolver<'a>),
}

/// Whether `w` is `u` with every object resolver wrapped as a user leaf:
/// same values, same list lengths and order.
pub open spec fn wraps<'a, R>(w: Resolved<ExecResolver<'a, R>>, u: Resolved<R>) -> bool
    decreases u,
{
    match u {
        Resolved::Value(b) => w matches Resolved::Value(a) && a == b,
        Resolved::Object(r) => w matches Resolved::Object(er) && er == ExecResolver::User(r),
        Resolved::Array(us) => w matches Resolved::Array(ws) && ws@.len() == us@.len() && (forall|
            i: int,
        |
            0 <= i < us@.len() ==> wraps(ws@[i], #[trigger] us@[i])),
    }
}

/// Wrap everything a user resolver returned, so the executor can descend
/// with the introspection overlay in place. Order and values are kept.
#[verifier::loop_isolation(false)]
pub fn wrap_user_resolved<'a, R: ObjectResolver>(u: Resolved<R>) -> (r: Resolved<
    ExecResolver<'a, R>,
>)
    ensures
        wraps(r, u),
    decreases u,
{
    match u {
        Resolved::Value(v) => Resolved::Value(v),
        Resolved::Object(o) => Resolved::Object(ExecResolver::User(o)),
        Resolved::Array(items) => {
            let ghost u0 = items;
            let mut rest = items;
            let mut out: Vec<Resolved<ExecResolver<'a, R>>> = Vec::new();
            proof {
                assert(u0@.skip(0) =~= u0@);
            }
            while rest.len() > 0
                invariant
                    out@.len() + rest@.len() == u0@.len(),
                    rest@ =~= u0@.skip(out@.len() as int),
                    forall|j: int| 0 <= j < out@.len() ==> wraps(out@[j], #[trigger] u0@[j]),
                decreases rest@.len(),
            {
                let ghost i = out@.len() as int;
                let head = rest.remove(0);
                proof {
                    assert(u0@.skip(i)[0] == u0@[i]);
                    assert(head == u0@[i]);
                    assert(u is Array && u->Array_0 == u0);
                    assert(decreases_to!(u => u->Array_0));
                    assert(decreases_to!(u0 => u0@));
                    assert(decreases_to!(u0@ => u0@[i]));
                }
                let w = wrap_user_resolved(head);
                out.push(w);
                proof {
                    assert(rest@ =~= u0@.skip(i + 1));
                }
            }
            proof {
                assert(out@.len() == u0@.len());
            }
            Resolved::Array(out)
        },
    }
}

/// Whether a name is introspection-reserved: it starts with `__`.
pub open spec fn spec_is_dunder(n: Seq<char>) -> bool {
    n.len() >= 2 && n[0] == '_' && n[1] == '_'
}

pub fn is_dunder(name: &String) -> (r: bool)
    ensures
        r == spec_is_dunder(name@),
{
    let s = name.as_str();
    let len = s.unicode_len();
    if len < 2 {
        false
    } else {
        let c0 = s.get_char(0);
        let c1 = s.get_char(1);
        c0 as u32 == '_' as u32 && c1 as u32 == '_' as u32
    }
}

/// The schema's types in order, without the introspection-reserved ones:
/// what `__schema { types }` lists.
pub open spec fn visible_types(s: Seq<TypeDefinition>) -> Seq<TypeDefinition>
    decreases s,
{
    if s.len() == 0 {
        Seq::empty()
    } else if spec_is_dunder(s[0].spec_name()) {
        visible_types(s.drop_first())
    } else {
        seq![s[0]] + visible_types(s.drop_first())
    }
}

proof fn lemma_visible_types_snoc(s: Seq<TypeDefinition>, x: TypeDefinition)
    ensures
        visible_types(s.push(x)) == if spec_is_dunder(x.spec_name()) {
            visible_types(s)
        } else {
            visible_types(s).push(x)
        },
    decreases s,
{
    if s.len() == 0 {
        assert(s.push(x).drop_first() =~= s);
        if !spec_is_dunder(x.spec_name()) {
            assert(visible_types(s.push(x)) =~= visible_types(s).push(x));
        }
    } else {
        assert(s.push(x).drop_first() =~= s.drop_first().push(x));
        lemma_visible_types_snoc(s.drop_first(), x);
        if !spec_is_dunder(x.spec_name()) {
            assert(visible_types(s.push(x)) =~= visible_types(s).push(x));
        }
    }
}

/// Whether a directive list marks its owner deprecated.
pub open spec fn spec_is_deprecated(ds: Seq<Directive>) -> bool {
    spec_find(ds, "deprecated"@) is Some
}

/// The deprecation reason: the string `reason` argument of `@deprecated`.
pub open spec fn spec_deprecation_reason(ds: Seq<Directive>) -> Option<Seq<char>> {
    match spec_find(ds, "deprecated"@) {
        Some(d) => match spec_find(d.arguments@, "reason"@) {
            Some(a) => match a.value {
                DocValue::StrValue(s) => Some(s@),
                _ => None,
            },
            None => None,
        },
        None => None,
    }
}

fn is_deprecated(ds: &Vec<Directive>) -> (r: bool)
    ensures
        r == spec_is_deprecated(ds@),
{
    find_by_key(ds, &"deprecated".to_owned()).is_some()
}

fn deprecation_reason(ds: &Vec<Directive>) -> (r: Option<&String>)
    ensures
        match r {
            Some(s) => spec_deprecation_reason(ds@) == Some(s@),
            None => spec_deprecation_reason(ds@) is None,
        },
{
    match find_by_key(ds, &"deprecated".to_owned()) {
        Some(d) => match find_by_key(&d.arguments, &"reason".to_owned()) {
            Some(a) => match &a.value {
                DocValue::StrValue(s) => Some(s),
                _ => None,
            },
            None => None,
        },
        None => None,
    }
}

/// The `specifiedByURL` of a scalar: the string `url` argument of its
/// `specifiedBy` directive.
pub open spec fn spec_specified_by(ds: Seq<Directive>) -> Option<Seq<char>> {
    match spec_find(ds, "specifiedBy"@) {
        Some(d) => match spec_find(d.arguments@, "url"@) {
            Some(a) => match a.value {
                DocValue::StrValue(s) => Some(s@),
                _ => None,
            },
            None => None,
        },
        None => None,
    }
}

fn specified_by(ds: &Vec<Directive>) -> (r: Option<&String>)
    ensures
        match r {
            Some(s) => spec_specified_by(ds@) == Some(s@),
            None => spec_specified_by(ds@) is None,
        },
{
    match find_by_key(ds, &"specifiedBy".to_owned()) {
        Some(d) => match find_by_key(&d.arguments, &"url".to_owned()) {
            Some(a) => match &a.value {
                DocValue::StrValue(s) => Some(s),
                _ => None,
            },
            None => None,
        },
        None => None,
    }
}

impl IspSchemaResolver {
    /// The `__Schema` projections. `types` lists every schema type whose
    /// name is not introspection-reserved, in schema order; the root
    /// operation types, the description and the (empty) directive list are
    /// read off the schema view; any other name is an error.
    #[verifier::loop_isolation(false)]
    pub fn resolve_field<'a, R: ObjectResolver>(
        &self,
        ectx: &ExecCtx<'a>,
        name: &String,
    ) -> (r: Result<Resolved<ExecResolver<'a, R>>, Error>)
        ensures
            name@ == "types"@ ==> (r matches Ok(res) && res matches Resolved::Array(items) && {
                let vis = visible_types(ectx.schema.types@);
                &&& items@.len() == vis.len()
                &&& forall|i: int|
                    0 <= i < vis.len() ==> (#[trigger] items@[i] matches Resolved::Object(er)
                        && er matches ExecResolver::Type(tr) && tr.ty matches TypeRef::ByName(n)
                        && n@ == vis[i].spec_name())
            }),
            name@ == "queryType"@ ==> (r matches Ok(res) && res matches Resolved::Object(er)
                && er matches ExecResolver::Type(tr) && tr.ty matches TypeRef::ByName(n) && n@
                == ectx.schema.query_type@),
            name@ == "mutationType"@ ==> (match crate::schema::opt_text(
                ectx.schema.mutation_type,
            ) {
                Some(m) => (r matches Ok(res) && res matches Resolved::Object(er)
                    && er matches ExecResolver::Type(tr) && tr.ty matches TypeRef::ByName(n) && n@
                    == m),
                None => (r matches Ok(res) && res matches Resolved::Value(c) && vmodel(c)
                    == ValueModel::Null),
            }),
            name@ == "subscriptionType"@ ==> (match crate::schema::opt_text(
                ectx.schema.subscription_type,
            ) {
                Some(m) => (r matches Ok(res) && res matches Resolved::Object(er)
                    && er matches ExecResolver::Type(tr) && tr.ty matches TypeRef::ByName(n) && n@
                    == m),
                None => (r matches Ok(res) && res matches Resolved::Value(c) && vmodel(c)
                    == ValueModel::Null),
            }),
            name@ == "description"@ ==> (r matches Ok(res) && res matches Resolved::Value(c)
                && vmodel(c) == spec_opt_str(crate::schema::opt_text(ectx.schema.description))),
            name@ == "directives"@ ==> (r matches Ok(res) && res matches Resolved::Array(items)
                && items@.len() == 0),
            (name@ != "types"@ && name@ != "queryType"@ && name@ != "mutationType"@ && name@
                != "subscriptionType"@ && name@ != "description"@ && name@ != "directives"@)
                ==> r is Err,
    {
        proof {
            reveal_strlit("types");
            reveal_strlit("queryType");
            reveal_strlit("mutationType");
            reveal_strlit("subscriptionType");
            reveal_strlit("description");
            reveal_strlit("directives");
            assert("types"@.len() == 5);
            assert("queryType"@.len() == 9);
            assert("mutationType"@.len() == 12);
            assert("subscriptionType"@.len() == 16);
            assert("description"@.len() == 11);
            assert("directives"@.len() == 10);
        }
        if *name == "types".to_owned() {
            let types = &ectx.schema.types;
            let mut items: Vec<Resolved<ExecResolver<'a, R>>> = Vec::new();
            let mut i: usize = 0;
            proof {
                assert(types@.take(0) =~= Seq::<TypeDefinition>::empty());
            }
            while i < types.len()
                invariant
                    i <= types@.len(),
                    types == &ectx.schema.types,
                    items@.len() == visible_types(types@.take(i as int)).len(),
                    forall|j: int|
                        0 <= j < items@.len() ==> (#[trigger] items@[j] matches Resolved::Object(er)
                            && er matches ExecResolver::Type(tr) && tr.ty matches TypeRef::ByName(
                            n,
                        ) && n@ == visible_types(types@.take(i as int))[j].spec_name()),
                decreases types@.len() - i,
            {
                let t = &types[i];
                proof {
                    assert(types@.take(i as int + 1) =~= types@.take(i as int).push(
                        types@[i as int],
                    ));
                    lemma_visible_types_snoc(types@.take(i as int), types@[i as int]);
                }
                let ghost prev_vis = visible_types(types@.take(i as int));
                if !is_dunder(t.name()) {
                    let tr = IspTypeResolver { ty: TypeRef::ByName(t.name().clone()) };
                    items.push(Resolved::Object(ExecResolver::Type(tr)));
                    proof {
                        assert(visible_types(types@.take(i as int + 1)) =~= prev_vis.push(
                            types@[i as int],
                        ));
                        assert(items@[items@.len() - 1] matches Resolved::Object(er)
                            && er matches ExecResolver::Type(tr2) && tr2.ty matches TypeRef::ByName(
                            n,
                        ) && n@ == types@[i as int].spec_name());
                    }
                } else {
                    proof {
                        assert(visible_types(types@.take(i as int + 1)) =~= prev_vis);
                    }
                }
                i = i + 1;
            }
            proof {
                assert(types@.take(types@.len() as int) =~= types@);
            }
            Ok(Resolved::Array(items))
        } else if *name == "description".to_owned() {
            match &ectx.schema.description {
                Some(d) => Ok(Resolved::Value(ConstValue::Str(d.clone()))),
                None => Ok(Resolved::Value(ConstValue::Null)),
            }
        } else if *name == "queryType".to_owned() {
            Ok(
                Resolved::Object(
                    ExecResolver::Type(
                        IspTypeResolver { ty: TypeRef::ByName(ectx.schema.query_type.clone()) },
                    ),
                ),
            )
        } else if *name == "mutationType".to_owned() {
            match &ectx.schema.mutation_type {
                Some(n) => Ok(
                    Resolved::Object(
                        ExecResolver::Type(IspTypeResolver { ty: TypeRef::ByName(n.clone()) }),
                    ),
                ),
                None => Ok(Resolved::Value(ConstValue::Null)),
            }
        } else if *name == "subscriptionType".to_owned() {
            match &ectx.schema.subscription_type {
                Some(n) => Ok(
                    Resolved::Object(
                        ExecResolver::Type(IspTypeResolver { ty: TypeRef::ByName(n.clone()) }),
                    ),
                ),
                None => Ok(Resolved::Value(ConstValue::Null)),
            }
        } else if *name == "directives".to_owned() {
            // The schema view carries no directive definitions.
            Ok(Resolved::Array(Vec::new()))
        } else {
            Err(
                Error::FieldResolverError(
                    "invalid schema field: ".to_owned().concat(name.as_str()),
                ),
            )
        }
    }
}

impl<'a> IspTypeResolver<'a> {
    /// The `__Type` projections, dispatching on the kind of the type
    /// position: LIST and NON_NULL wrappers have an `ofType` and no name;
    /// named types project their definition.
    pub fn resolve_field<R: ObjectResolver>(&self, ectx: &ExecCtx<'a>, name: &String) -> (r: Result<
        Resolved<ExecResolver<'a, R>>,
        Error,
    >)
        ensures
            self.ty matches TypeRef::ByName(tn) ==> (ectx.schema.spec_find_type(tn@) matches Some(
                t,
            ) ==> ((name@ == "kind"@ ==> (r matches Ok(res) && res matches Resolved::Value(c)
                && vmodel(c) == ValueModel::EnumVal(spec_kind_name(t)))) && (name@ == "name"@
                ==> (r matches Ok(res) && res matches Resolved::Value(c) && vmodel(c)
                == ValueModel::Str(t.spec_name()))))),
            self.ty matches TypeRef::Direct(ty) ==> (*ty matches Type::Named(nm) ==> (
            ectx.schema.spec_find_type(nm@) matches Some(t) ==> ((name@ == "kind"@ ==> (
            r matches Ok(res) && res matches Resolved::Value(c) && vmodel(c) == ValueModel::EnumVal(
                spec_kind_name(t),
            ))) && (name@ == "name"@ ==> (r matches Ok(res) && res matches Resolved::Value(c)
                && vmodel(c) == ValueModel::Str(t.spec_name())))))),
            self.ty matches TypeRef::Direct(ty) ==> (*ty matches Type::List(of) ==> ((name@
                == "kind"@ ==> (r matches Ok(res) && res matches Resolved::Value(c) && vmodel(c)
                == ValueModel::EnumVal("LIST"@))) && (name@ == "ofType"@ ==> (r matches Ok(res)
                && res matches Resolved::Object(er) && er matches ExecResolver::Type(tr)
                && tr.ty matches TypeRef::Direct(t2) && *t2 == *of)))),
            self.ty matches TypeRef::Direct(ty) ==> (*ty matches Type::NonNull(of) ==> ((name@
                == "kind"@ ==> (r matches Ok(res) && res matches Resolved::Value(c) && vmodel(c)
                == ValueModel::EnumVal("NON_NULL"@))) && (name@ == "ofType"@ ==> (r matches Ok(
                res,
            ) && res matches Resolved::Object(er) && er matches ExecResolver::Type(tr)
                && tr.ty matches TypeRef::Direct(t2) && *t2 == *of)))),
    {
        match &self.ty {
            TypeRef::Direct(t) => match t {
                Type::Named(n) => resolve_named_type(ectx, n, name),
                Type::List(of) => resolve_wrapper_type(ectx, "LIST", of, name),
                Type::NonNull(of) => resolve_wrapper_type(ectx, "NON_NULL", of, name),
            },
            TypeRef::ByName(n) => resolve_named_type(ectx, n, name),
        }
    }
}

/// The `__Type` field names, revealed with enough of their text that the
/// projection branches tell them apart.
proof fn reveal_type_field_names()
    ensures
        "kind"@.len() == 4 && "kind"@[0] == 'k',
        "name"@.len() == 4 && "name"@[0] == 'n',
        "description"@.len() == 11 && "description"@[0] == 'd',
        "fields"@.len() == 6 && "fields"@[0] == 'f',
        "interfaces"@.len() == 10 && "interfaces"@[0] == 'i',
        "possibleTypes"@.len() == 13,
        "enumValues"@.len() == 10 && "enumValues"@[0] == 'e',
        "inputFields"@.len() == 11 && "inputFields"@[0] == 'i',
        "ofType"@.len() == 6 && "ofType"@[0] == 'o',
        "specifiedByURL"@.len() == 14,
{
    reveal_strlit("kind");
    reveal_strlit("name");
    reveal_strlit("description");
    reveal_strlit("fields");
    reveal_strlit("interfaces");
    reveal_strlit("possibleTypes");
    reveal_strlit("enumValues");
    reveal_strlit("inputFields");
    reveal_strlit("ofType");
    reveal_strlit("specifiedByURL");
}

/// Whether a name is one of the `__Type` fields every kind answers as null
/// unless its kind carries them.
pub open spec fn spec_wrapper_null_field(n: Seq<char>) -> bool {
    ||| n == "name"@
    ||| n == "description"@
    ||| n == "fields"@
    ||| n == "interfaces"@
    ||| n == "possibleTypes"@
    ||| n == "enumValues"@
    ||| n == "inputFields"@
    ||| n == "specifiedByURL"@
}

/// `__Type` fields of a LIST or NON_NULL position: a kind, an `ofType`, and
/// null for everything named types carry.
pub fn resolve_wrapper_type<'a, R: ObjectResolver>(
    ectx: &ExecCtx<'a>,
    kind: &str,
    of_type: &'a Type,
    name: &String,
) -> (r: Result<Resolved<ExecResolver<'a, R>>, Error>)
    ensures
        name@ == "kind"@ ==> (r matches Ok(res) && res matches Resolved::Value(c) && vmodel(c)
            == ValueModel::EnumVal(kind@)),
        name@ == "ofType"@ ==> (r matches Ok(res) && res matches Resolved::Object(er)
            && er matches ExecResolver::Type(tr) && tr.ty matches TypeRef::Direct(t) && t
            == of_type),
        spec_wrapper_null_field(name@) ==> (r matches Ok(res) && res matches Resolved::Value(c)
            && vmodel(c) == ValueModel::Null),
        (name@ != "kind"@ && name@ != "ofType"@ && !spec_wrapper_null_field(name@)) ==> r is Err,
{
    proof {
        reveal_type_field_names();
    }
    if *name == "kind".to_owned() {
        Ok(Resolved::enum_value(kind))
    } else if *name == "ofType".to_owned() {
        Ok(Resolved::Object(ExecResolver::Type(IspTypeResolver { ty: TypeRef::Direct(of_type) })))
    } else if *name == "name".to_owned() || *name == "description".to_owned() || *name
        == "fields".to_owned() || *name == "interfaces".to_owned() || *name
        == "possibleTypes".to_owned() || *name == "enumValues".to_owned() || *name
        == "inputFields".to_owned() || *name == "specifiedByURL".to_owned() {
        Ok(Resolved::Value(ConstValue::Null))
    } else {
        Err(Error::FieldResolverError("invalid type field: ".to_owned().concat(name.as_str())))
    }
}

/// The `__TypeKind` value of a named type definition.
pub open spec fn spec_kind_name(t: TypeDefinition) -> Seq<char> {
    match t {
        TypeDefinition::Scalar(_) => "SCALAR"@,
        TypeDefinition::Object(_) => "OBJECT"@,
        TypeDefinition::Interface(_) => "INTERFACE"@,
        TypeDefinition::Union(_) => "UNION"@,
        TypeDefinition::Enum(_) => "ENUM"@,
        TypeDefinition::InputObject(_) => "INPUT_OBJECT"@,
    }
}

/// A type definition's description text.
pub open spec fn spec_description(t: TypeDefinition) -> Option<Seq<char>> {
    match t {
        TypeDefinition::Scalar(x) => crate::schema::opt_text(x.description),
        TypeDefinition::Object(x) => crate::schema::opt_text(x.description),
        TypeDefinition::Interface(x) => crate::schema::opt_text(x.description),
        TypeDefinition::Union(x) => crate::schema::opt_text(x.description),
        TypeDefinition::Enum(x) => crate::schema::opt_text(x.description),
        TypeDefinition::InputObject(x) => crate::schema::opt_text(x.description),
    }
}

/// The string, or null, that an optional text resolves to.
pub open spec fn spec_opt_str(o: Option<Seq<char>>) -> ValueModel {
    match o {
        Some(t) => ValueModel::Str(t),
        None => ValueModel::Null,
    }
}

/// A list of `__Field` resolvers, one per definition, in order.
pub open spec fn is_field_resolver_list<'a, R>(
    res: Resolved<ExecResolver<'a, R>>,
    defs: Seq<FieldDefinition>,
) -> bool {
    res matches Resolved::Array(items) && items@.len() == defs.len() && (forall|i: int|
        0 <= i < defs.len() ==> ((#[trigger] items@[i]) matches Resolved::Object(er)
            && er matches ExecResolver::Field(fr) && *fr.field_def == defs[i]))
}

/// A list of `__Type` resolvers by name, one per name, in order.
pub open spec fn is_type_name_resolver_list<'a, R>(
    res: Resolved<ExecResolver<'a, R>>,
    names: Seq<Seq<char>>,
) -> bool {
    res matches Resolved::Array(items) && items@.len() == names.len() && (forall|i: int|
        0 <= i < names.len() ==> ((#[trigger] items@[i]) matches Resolved::Object(er)
            && er matches ExecResolver::Type(tr) && tr.ty matches TypeRef::ByName(n) && n@
            == names[i]))
}

/// A list of `__InputValue` resolvers, one per definition, in order.
pub open spec fn is_input_value_resolver_list<'a, R>(
    res: Resolved<ExecResolver<'a, R>>,
    defs: Seq<InputValueDefinition>,
) -> bool {
    res matches Resolved::Array(items) && items@.len() == defs.len() && (forall|i: int|
        0 <= i < defs.len() ==> ((#[trigger] items@[i]) matches Resolved::Object(er)
            && er matches ExecResolver::InputValue(iv) && *iv.input_value_def == defs[i]))
}

/// A list of `__EnumValue` resolvers, one per definition, in order.
pub open spec fn is_enum_value_resolver_list<'a, R>(
    res: Resolved<ExecResolver<'a, R>>,
    defs: Seq<EnumValueDefinition>,
) -> bool {
    res matches Resolved::Array(items) && items@.len() == defs.len() && (forall|i: int|
        0 <= i < defs.len() ==> ((#[trigger] items@[i]) matches Resolved::Object(er)
            && er matches ExecResolver::EnumValue(ev) && *ev.enum_value == defs[i]))
}

/// The object type definitions that implement the named interface, in schema
/// order: what an interface's `possibleTypes` lists.
pub open spec fn spec_implementors(types: Seq<TypeDefinition>, iface: Seq<char>) -> Seq<
    ObjectTypeDefinition,
>
    decreases types,
{
    if types.len() == 0 {
        Seq::empty()
    } else {
        let rest = spec_implementors(types.drop_first(), iface);
        match types[0] {
            TypeDefinition::Object(o) => if spec_find(o.implements_interfaces@, iface) is Some {
                seq![o] + rest
            } else {
                rest
            },
            _ => rest,
        }
    }
}

proof fn lemma_spec_implementors_snoc(s: Seq<TypeDefinition>, x: TypeDefinition, iface: Seq<char>)
    ensures
        spec_implementors(s.push(x), iface) == (match x {
            TypeDefinition::Object(o) => if spec_find(o.implements_interfaces@, iface) is Some {
                spec_implementors(s, iface).push(o)
            } else {
                spec_implementors(s, iface)
            },
            _ => spec_implementors(s, iface),
        }),
    decreases s,
{
    if s.len() == 0 {
        assert(s.push(x).drop_first() =~= s);
        match x {
            TypeDefinition::Object(o) => {
                if spec_find(o.implements_interfaces@, iface) is Some {
                    assert(spec_implementors(s.push(x), iface) =~= spec_implementors(
                        s,
                        iface,
                    ).push(o));
                }
            },
            _ => {},
        }
    } else {
        assert(s.push(x).drop_first() =~= s.drop_first().push(x));
        lemma_spec_implementors_snoc(s.drop_first(), x, iface);
        match x {
            TypeDefinition::Object(o) => {
                if spec_find(o.implements_interfaces@, iface) is Some {
                    assert(spec_implementors(s.push(x), iface) =~= spec_implementors(
                        s,
                        iface,
                    ).push(o));
                }
            },
            _ => {},
        }
    }
}

/// `__Type` fields of a named position: looked up in the schema and
/// projected by kind; an unknown name resolves to null.
pub fn resolve_named_type<'a, R: ObjectResolver>(
    ectx: &ExecCtx<'a>,
    ty_name: &String,
    name: &String,
) -> (r: Result<Resolved<ExecResolver<'a, R>>, Error>)
    ensures
        ectx.schema.spec_find_type(ty_name@) is None ==> (r matches Ok(res)
            && res matches Resolved::Value(c) && vmodel(c) == ValueModel::Null),
        ectx.schema.spec_find_type(ty_name@) matches Some(t) ==> (name@ == "kind"@ ==> (
        r matches Ok(res) && res matches Resolved::Value(c) && vmodel(c) == ValueModel::EnumVal(
            spec_kind_name(t),
        ))),
        ectx.schema.spec_find_type(ty_name@) matches Some(t) ==> (name@ == "name"@ ==> (
        r matches Ok(res) && res matches Resolved::Value(c) && vmodel(c) == ValueModel::Str(
            t.spec_name(),
        ))),
        ectx.schema.spec_find_type(ty_name@) matches Some(t) ==> (name@ == "description"@ ==> (
        r matches Ok(res) && res matches Resolved::Value(c) && vmodel(c) == spec_opt_str(
            spec_description(t),
        ))),
        ectx.schema.spec_find_type(ty_name@) matches Some(t) ==> (name@ == "fields"@ ==> (match t {
            TypeDefinition::Object(o) => r matches Ok(res) && is_field_resolver_list(
                res,
                o.fields@,
            ),
            TypeDefinition::Interface(i2) => r matches Ok(res) && is_field_resolver_list(
                res,
                i2.fields@,
            ),
            _ => (r matches Ok(res) && res matches Resolved::Value(c) && vmodel(c)
                == ValueModel::Null),
        })),
        ectx.schema.spec_find_type(ty_name@) matches Some(t) ==> (name@ == "interfaces"@ ==> (
        match t {
            TypeDefinition::Object(o) => r matches Ok(res) && is_type_name_resolver_list(
                res,
                o.implements_interfaces@.map_values(|s2: String| s2@),
            ),
            _ => (r matches Ok(res) && res matches Resolved::Value(c) && vmodel(c)
                == ValueModel::Null),
        })),
        ectx.schema.spec_find_type(ty_name@) matches Some(t) ==> (name@ == "possibleTypes"@ ==> (
        match t {
            TypeDefinition::Interface(i2) => r matches Ok(res) && is_type_name_resolver_list(
                res,
                spec_implementors(ectx.schema.types@, i2.name@).map_values(
                    |o: ObjectTypeDefinition| o.name@,
                ),
            ),
            TypeDefinition::Union(u) => r matches Ok(res) && is_type_name_resolver_list(
                res,
                u.members@.map_values(|s2: String| s2@),
            ),
            _ => (r matches Ok(res) && res matches Resolved::Value(c) && vmodel(c)
                == ValueModel::Null),
        })),
        ectx.schema.spec_find_type(ty_name@) matches Some(t) ==> (name@ == "enumValues"@ ==> (
        match t {
            TypeDefinition::Enum(e2) => r matches Ok(res) && is_enum_value_resolver_list(
                res,
                e2.values@,
            ),
            _ => (r matches Ok(res) && res matches Resolved::Value(c) && vmodel(c)
                == ValueModel::Null),
        })),
        ectx.schema.spec_find_type(ty_name@) matches Some(t) ==> (name@ == "inputFields"@ ==> (
        match t {
            TypeDefinition::InputObject(io) => r matches Ok(res) && is_input_value_resolver_list(
                res,
                io.input_fields@,
            ),
            _ => (r matches Ok(res) && res matches Resolved::Value(c) && vmodel(c)
                == ValueModel::Null),
        })),
        ectx.schema.spec_find_type(ty_name@) matches Some(t) ==> (name@ == "ofType"@ ==> (
        r matches Ok(res) && res matches Resolved::Value(c) && vmodel(c) == ValueModel::Null)),
        ectx.schema.spec_find_type(ty_name@) matches Some(t) ==> (name@ == "specifiedByURL"@ ==> (
        match t {
            TypeDefinition::Scalar(sc) => (r matches Ok(res) && res matches Resolved::Value(c)
                && vmodel(c) == spec_opt_str(spec_specified_by(sc.directives@))),
            _ => (r matches Ok(res) && res matches Resolved::Value(c) && vmodel(c)
                == ValueModel::Null),
        })),
        ectx.schema.spec_find_type(ty_name@) matches Some(t) ==> ((name@ != "kind"@ && name@
            != "name"@ && name@ != "description"@ && name@ != "fields"@ && name@ != "interfaces"@
            && name@ != "possibleTypes"@ && name@ != "enumValues"@ && name@ != "inputFields"@
            && name@ != "ofType"@ && name@ != "specifiedByURL"@) ==> r is Err),
{
    proof {
        reveal_type_field_names();
    }
    let td = match ectx.find_type_definition_by_name(ty_name) {
        Some(td) => td,
        None => {
            return Ok(Resolved::Value(ConstValue::Null));
        },
    };
    if *name == "kind".to_owned() {
        match td {
            TypeDefinition::Scalar(_) => Ok(Resolved::enum_value("SCALAR")),
            TypeDefinition::Object(_) => Ok(Resolved::enum_value("OBJECT")),
            TypeDefinition::Interface(_) => Ok(Resolved::enum_value("INTERFACE")),
            TypeDefinition::Union(_) => Ok(Resolved::enum_value("UNION")),
            TypeDefinition::Enum(_) => Ok(Resolved::enum_value("ENUM")),
            TypeDefinition::InputObject(_) => Ok(Resolved::enum_value("INPUT_OBJECT")),
        }
    } else if *name == "name".to_owned() {
        Ok(Resolved::Value(ConstValue::Str(td.name().clone())))
    } else if *name == "description".to_owned() {
        let d = match td {
            TypeDefinition::Scalar(t) => &t.description,
            TypeDefinition::Object(t) => &t.description,
            TypeDefinition::Interface(t) => &t.description,
            TypeDefinition::Union(t) => &t.description,
            TypeDefinition::Enum(t) => &t.description,
            TypeDefinition::InputObject(t) => &t.description,
        };
        Ok(Resolved::string_opt(d.as_ref()))
    } else if *name == "fields".to_owned() {
        match td {
            TypeDefinition::Object(o) => Ok(field_resolvers(&o.fields)),
            TypeDefinition::Interface(i) => Ok(field_resolvers(&i.fields)),
            _ => Ok(Resolved::Value(ConstValue::Null)),
        }
    } else if *name == "interfaces".to_owned() {
        match td {
            TypeDefinition::Object(o) => Ok(named_type_resolvers(&o.implements_interfaces)),
            _ => Ok(Resolved::Value(ConstValue::Null)),
        }
    } else if *name == "possibleTypes".to_owned() {
        match td {
            TypeDefinition::Interface(i) => Ok(implementor_resolvers(ectx, &i.name)),
            TypeDefinition::Union(u) => Ok(named_type_resolvers(&u.members)),
            _ => Ok(Resolved::Value(ConstValue::Null)),
        }
    } else if *name == "enumValues".to_owned() {
        match td {
            TypeDefinition::Enum(e) => Ok(enum_value_resolvers(&e.values)),
            _ => Ok(Resolved::Value(ConstValue::Null)),
        }
    } else if *name == "inputFields".to_owned() {
        match td {
            TypeDefinition::InputObject(io) => Ok(input_value_resolvers(&io.input_fields)),
            _ => Ok(Resolved::Value(ConstValue::Null)),
        }
    } else if *name == "ofType".to_owned() {
        Ok(Resolved::Value(ConstValue::Null))
    } else if *name == "specifiedByURL".to_owned() {
        match td {
            TypeDefinition::Scalar(s) => Ok(Resolved::string_opt(specified_by(&s.directives))),
            _ => Ok(Resolved::Value(ConstValue::Null)),
        }
    } else {
        Err(Error::FieldResolverError("invalid type field: ".to_owned().concat(name.as_str())))
    }
}

/// `__Field` resolvers for a definition list, in definition order.
pub fn field_resolvers<'a, R: ObjectResolver>(fields: &'a Vec<FieldDefinition>) -> (r: Resolved<
    ExecResolver<'a, R>,
>)
    ensures
        is_field_resolver_list(r, fields@),
{
    let mut items: Vec<Resolved<ExecResolver<'a, R>>> = Vec::new();
    let mut i: usize = 0;
    while i < fields.len()
        invariant
            i <= fields@.len(),
            items@.len() == i,
            forall|j: int|
                0 <= j < i ==> (#[trigger] items@[j] matches Resolved::Object(er)
                    && er matches ExecResolver::Field(fr) && *fr.field_def == fields@[j]),
        decreases fields@.len() - i,
    {
        items.push(Resolved::Object(ExecResolver::Field(IspFieldResolver { field_def: &fields[i] })));
        i = i + 1;
    }
    Resolved::Array(items)
}

/// `__Type` resolvers for a list of type names, in order.
pub fn named_type_resolvers<'a, R: ObjectResolver>(names: &Vec<String>) -> (r: Resolved<
    ExecResolver<'a, R>,
>)
    ensures
        is_type_name_resolver_list(r, names@.map_values(|s2: String| s2@)),
{
    let mut items: Vec<Resolved<ExecResolver<'a, R>>> = Vec::new();
    let mut i: usize = 0;
    while i < names.len()
        invariant
            i <= names@.len(),
            items@.len() == i,
            forall|j: int|
                0 <= j < i ==> (#[trigger] items@[j] matches Resolved::Object(er)
                    && er matches ExecResolver::Type(tr) && tr.ty matches TypeRef::ByName(n) && n@
                    == names@[j]@),
        decreases names@.len() - i,
    {
        items.push(
            Resolved::Object(
                ExecResolver::Type(IspTypeResolver { ty: TypeRef::ByName(names[i].clone()) }),
            ),
        );
        i = i + 1;
    }
    Resolved::Array(items)
}

/// `__Type` resolvers for the object types that implement an interface, in
/// schema order.
#[verifier::loop_isolation(false)]
pub fn implementor_resolvers<'a, R: ObjectResolver>(
    ectx: &ExecCtx<'a>,
    iface: &String,
) -> (r: Resolved<ExecResolver<'a, R>>)
    ensures
        is_type_name_resolver_list(
            r,
            spec_implementors(ectx.schema.types@, iface@).map_values(
                |o: ObjectTypeDefinition| o.name@,
            ),
        ),
{
    let types = &ectx.schema.types;
    let mut items: Vec<Resolved<ExecResolver<'a, R>>> = Vec::new();
    let mut i: usize = 0;
    proof {
        assert(types@.take(0) =~= Seq::<TypeDefinition>::empty());
    }
    while i < types.len()
        invariant
            i <= types@.len(),
            items@.len() == spec_implementors(types@.take(i as int), iface@).len(),
            forall|j: int|
                0 <= j < items@.len() ==> ((#[trigger] items@[j]) matches Resolved::Object(er)
                    && er matches ExecResolver::Type(tr) && tr.ty matches TypeRef::ByName(n) && n@
                    == spec_implementors(types@.take(i as int), iface@)[j].name@),
        decreases types@.len() - i,
    {
        let ghost prev_impls = spec_implementors(types@.take(i as int), iface@);
        proof {
            assert(types@.take(i as int + 1) =~= types@.take(i as int).push(types@[i as int]));
            lemma_spec_implementors_snoc(types@.take(i as int), types@[i as int], iface@);
        }
        match &types[i] {
            TypeDefinition::Object(o) => {
                if find_by_key(&o.implements_interfaces, iface).is_some() {
                    items.push(
                        Resolved::Object(
                            ExecResolver::Type(IspTypeResolver { ty: TypeRef::ByName(o.name.clone()) }),
                        ),
                    );
                    proof {
                        assert(spec_implementors(types@.take(i as int + 1), iface@)
                            =~= prev_impls.push(*o));
                    }
                }
            },
            _ => {},
        }
        i = i + 1;
    }
    proof {
        assert(types@.take(types@.len() as int) =~= types@);
    }
    Resolved::Array(items)
}

/// `__InputValue` resolvers for a definition list, in order.
pub fn input_value_resolvers<'a, R: ObjectResolver>(
    defs: &'a Vec<InputValueDefinition>,
) -> (r: Resolved<ExecResolver<'a, R>>)
    ensures
        is_input_value_resolver_list(r, defs@),
{
    let mut items: Vec<Resolved<ExecResolver<'a, R>>> = Vec::new();
    let mut i: usize = 0;
    while i < defs.len()
        invariant
            i <= defs@.len(),
            items@.len() == i,
            forall|j: int|
                0 <= j < i ==> ((#[trigger] items@[j]) matches Resolved::Object(er)
                    && er matches ExecResolver::InputValue(iv) && *iv.input_value_def == defs@[j]),
        decreases defs@.len() - i,
    {
        items.push(
            Resolved::Object(
                ExecResolver::InputValue(IspInputValueResolver { input_value_def: &defs[i] }),
            ),
        );
        i = i + 1;
    }
    Resolved::Array(items)
}

/// `__EnumValue` resolvers for a definition list, in order.
pub fn enum_value_resolvers<'a, R: ObjectResolver>(
    values: &'a Vec<EnumValueDefinition>,
) -> (r: Resolved<ExecResolver<'a, R>>)
    ensures
        is_enum_value_resolver_list(r, values@),
{
    let mut items: Vec<Resolved<ExecResolver<'a, R>>> = Vec::new();
    let mut i: usize = 0;
    while i < values.len()
        invariant
            i <= values@.len(),
            items@.len() == i,
            forall|j: int|
                0 <= j < i ==> ((#[trigger] items@[j]) matches Resolved::Object(er)
                    && er matches ExecResolver::EnumValue(ev) && *ev.enum_value == values@[j]),
        decreases values@.len() - i,
    {
        items.push(
            Resolved::Object(ExecResolver::EnumValue(IspEnumValueResolver { enum_value: &values[i] })),
        );
        i = i + 1;
    }
    Resolved::Array(items)
}

impl<'a> IspFieldResolver<'a> {
    /// The `__Field` projections, with deprecation read from `@deprecated`;
    /// any unknown name resolves to null.
    pub fn resolve_field<R: ObjectResolver>(&self, name: &String) -> (r: Result<
        Resolved<ExecResolver<'a, R>>,
        Error,
    >)
        ensures
            name@ == "name"@ ==> (r matches Ok(res) && res matches Resolved::Value(c) && vmodel(
                c,
            ) == ValueModel::Str(self.field_def.name@)),
            name@ == "description"@ ==> (r matches Ok(res) && res matches Resolved::Value(c)
                && vmodel(c) == spec_opt_str(crate::schema::opt_text(self.field_def.description))),
            name@ == "args"@ ==> (r matches Ok(res) && is_input_value_resolver_list(
                res,
                self.field_def.arguments@,
            )),
            name@ == "type"@ ==> (r matches Ok(res) && res matches Resolved::Object(er)
                && er matches ExecResolver::Type(tr) && tr.ty matches TypeRef::Direct(t) && *t
                == self.field_def.ty),
            name@ == "isDeprecated"@ ==> (r matches Ok(res) && res matches Resolved::Value(c)
                && vmodel(c) == ValueModel::Bool(spec_is_deprecated(self.field_def.directives@))),
            name@ == "deprecationReason"@ ==> (r matches Ok(res) && res matches Resolved::Value(c)
                && vmodel(c) == spec_opt_str(spec_deprecation_reason(self.field_def.directives@))),
            (name@ != "name"@ && name@ != "description"@ && name@ != "args"@ && name@ != "type"@
                && name@ != "isDeprecated"@ && name@ != "deprecationReason"@) ==> (r matches Ok(
                res,
            ) && res matches Resolved::Value(c) && vmodel(c) == ValueModel::Null),
    {
        proof {
            reveal_strlit("name");
            reveal_strlit("description");
            reveal_strlit("args");
            reveal_strlit("type");
            reveal_strlit("isDeprecated");
            reveal_strlit("deprecationReason");
            assert("name"@.len() == 4 && "name"@[0] == 'n');
            assert("args"@.len() == 4 && "args"@[0] == 'a');
            assert("type"@.len() == 4 && "type"@[0] == 't');
            assert("description"@.len() == 11);
            assert("isDeprecated"@.len() == 12);
            assert("deprecationReason"@.len() == 17);
        }
        if *name == "name".to_owned() {
            Ok(Resolved::Value(ConstValue::Str(self.field_def.name.clone())))
        } else if *name == "description".to_owned() {
            Ok(Resolved::string_opt(self.field_def.description.as_ref()))
        } else if *name == "args".to_owned() {
            Ok(input_value_resolvers(&self.field_def.arguments))
        } else if *name == "type".to_owned() {
            Ok(
                Resolved::Object(
                    ExecResolver::Type(IspTypeResolver { ty: TypeRef::Direct(&self.field_def.ty) }),
                ),
            )
        } else if *name == "isDeprecated".to_owned() {
            Ok(Resolved::Value(ConstValue::Boolean(is_deprecated(&self.field_def.directives))))
        } else if *name == "deprecationReason".to_owned() {
            Ok(Resolved::string_opt(deprecation_reason(&self.field_def.directives)))
        } else {
            Ok(Resolved::Value(ConstValue::Null))
        }
    }
}

impl<'a> IspInputValueResolver<'a> {
    /// The `__InputValue` projections. The model carries no rendered default
    /// value text, so `defaultValue` resolves to null; so does any unknown
    /// name.
    pub fn resolve_field<R: ObjectResolver>(&self, name: &String) -> (r: Result<
        Resolved<ExecResolver<'a, R>>,
        Error,
    >)
        ensures
            name@ == "name"@ ==> (r matches Ok(res) && res matches Resolved::Value(c) && vmodel(
                c,
            ) == ValueModel::Str(self.input_value_def.name@)),
            name@ == "description"@ ==> (r matches Ok(res) && res matches Resolved::Value(c)
                && vmodel(c) == spec_opt_str(
                crate::schema::opt_text(self.input_value_def.description),
            )),
            name@ == "type"@ ==> (r matches Ok(res) && res matches Resolved::Object(er)
                && er matches ExecResolver::Type(tr) && tr.ty matches TypeRef::Direct(t) && *t
                == self.input_value_def.ty),
            name@ == "isDeprecated"@ ==> (r matches Ok(res) && res matches Resolved::Value(c)
                && vmodel(c) == ValueModel::Bool(
                spec_is_deprecated(self.input_value_def.directives@),
            )),
            name@ == "deprecationReason"@ ==> (r matches Ok(res) && res matches Resolved::Value(c)
                && vmodel(c) == spec_opt_str(
                spec_deprecation_reason(self.input_value_def.directives@),
            )),
            (name@ != "name"@ && name@ != "description"@ && name@ != "type"@ && name@
                != "isDeprecated"@ && name@ != "deprecationReason"@) ==> (r matches Ok(res)
                && res matches Resolved::Value(c) && vmodel(c) == ValueModel::Null),
    {
        proof {
            reveal_strlit("name");
            reveal_strlit("description");
            reveal_strlit("type");
            reveal_strlit("defaultValue");
            reveal_strlit("isDeprecated");
            reveal_strlit("deprecationReason");
            assert("name"@.len() == 4 && "name"@[0] == 'n');
            assert("type"@.len() == 4 && "type"@[0] == 't');
            assert("description"@.len() == 11 && "description"@[0] == 'd');
            assert("defaultValue"@.len() == 12 && "defaultValue"@[0] == 'd');
            assert("isDeprecated"@.len() == 12 && "isDeprecated"@[0] == 'i');
            assert("deprecationReason"@.len() == 17);
        }
        if *name == "name".to_owned() {
            Ok(Resolved::Value(ConstValue::Str(self.input_value_def.name.clone())))
        } else if *name == "description".to_owned() {
            Ok(Resolved::string_opt(self.input_value_def.description.as_ref()))
        } else if *name == "type".to_owned() {
            Ok(
                Resolved::Object(
                    ExecResolver::Type(
                        IspTypeResolver { ty: TypeRef::Direct(&self.input_value_def.ty) },
                    ),
                ),
            )
        } else if *name == "defaultValue".to_owned() {
            Ok(Resolved::Value(ConstValue::Null))
        } else if *name == "isDeprecated".to_owned() {
            Ok(
                Resolved::Value(
                    ConstValue::Boolean(is_deprecated(&self.input_value_def.directives)),
                ),
            )
        } else if *name == "deprecationReason".to_owned() {
            Ok(Resolved::string_opt(deprecation_reason(&self.input_value_def.directives)))
        } else {
            Ok(Resolved::Value(ConstValue::Null))
        }
    }
}

impl<'a> IspEnumValueResolver<'a> {
    /// The `__EnumValue` projections; any unknown name resolves to null.
    pub fn resolve_field<R: ObjectResolver>(&self, name: &String) -> (r: Result<
        Resolved<ExecResolver<'a, R>>,
        Error,
    >)
        ensures
            name@ == "name"@ ==> (r matches Ok(res) && res matches Resolved::Value(c) && vmodel(
                c,
            ) == ValueModel::Str(self.enum_value.enum_value@)),
            name@ == "description"@ ==> (r matches Ok(res) && res matches Resolved::Value(c)
                && vmodel(c) == spec_opt_str(crate::schema::opt_text(self.enum_value.description))),
            name@ == "isDeprecated"@ ==> (r matches Ok(res) && res matches Resolved::Value(c)
                && vmodel(c) == ValueModel::Bool(spec_is_deprecated(self.enum_value.directives@))),
            name@ == "deprecationReason"@ ==> (r matches Ok(res) && res matches Resolved::Value(c)
                && vmodel(c) == spec_opt_str(spec_deprecation_reason(self.enum_value.directives@))),
            (name@ != "name"@ && name@ != "description"@ && name@ != "isDeprecated"@ && name@
                != "deprecationReason"@) ==> (r matches Ok(res) && res matches Resolved::Value(c)
                && vmodel(c) == ValueModel::Null),
    {
        proof {
            reveal_strlit("name");
            reveal_strlit("description");
            reveal_strlit("isDeprecated");
            reveal_strlit("deprecationReason");
            assert("name"@.len() == 4);
            assert("description"@.len() == 11 && "description"@[0] == 'd');
            assert("isDeprecated"@.len() == 12 && "isDeprecated"@[0] == 'i');
            assert("deprecationReason"@.len() == 17);
        }
        if *name == "name".to_owned() {
            Ok(Resolved::Value(ConstValue::Str(self.enum_value.enum_value.clone())))
        } else if *name == "description".to_owned() {
            Ok(Resolved::string_opt(self.enum_value.description.as_ref()))
        } else if *name == "isDeprecated".to_owned() {
            Ok(Resolved::Value(ConstValue::Boolean(is_deprecated(&self.enum_value.directives))))
        } else if *name == "deprecationReason".to_owned() {
            Ok(Resolved::string_opt(deprecation_reason(&self.enum_value.directives)))
        } else {
            Ok(Resolved::Value(ConstValue::Null))
        }
    }
}

impl<'a, R: ObjectResolver> ExecResolver<'a, R> {
    /// Resolve one field at this level. `__typename` on a typename-decorated
    /// resolver answers with the concrete type's name without consulting the
    /// wrapped resolver; `__schema` on the root decorator hands out the
    /// schema resolver; a user resolver's answer is wrapped and its error
    /// carried as `FieldResolverError`.
    pub fn resolve_field(&self, ectx: &ExecCtx<'a>, ctx: &Ctx<'_>, name: &String) -> (r: Result<
        Resolved<ExecResolver<'a, R>>,
        Error,
    >)
        ensures
            name@ == "__typename"@ && (*self matches ExecResolver::Typename(d)) ==> (r matches Ok(
                res,
            ) && res matches Resolved::Value(c) && (*self matches ExecResolver::Typename(d2)
                && vmodel(c) == ValueModel::Str(d2.type_def.name@))),
            (*self matches ExecResolver::Root(_) && name@ == "__schema"@) ==> (r matches Ok(res)
                && res matches Resolved::Object(er) && er matches ExecResolver::Schema(_)),
            (*self matches ExecResolver::Root(_) && name@ == "__type"@) ==> (match spec_find(
                ctx.field.arguments@,
                "name"@,
            ) {
                None => (r matches Err(e) && e matches Error::ArgumentInvalid(_)),
                Some(a) => match crate::resolver::spec_resolve_doc_value(a.value, ctx.variables@) {
                    Err(_) => (r matches Err(e) && e matches Error::ArgumentInvalid(_)),
                    Ok(m) => match m {
                        ValueModel::Str(tn) => if ectx.schema.spec_find_type(tn) is Some {
                            r matches Ok(res) && res matches Resolved::Object(er)
                                && er matches ExecResolver::Type(tr) && tr.ty matches TypeRef::ByName(
                                n2,
                            ) && n2@ == tn
                        } else {
                            r matches Ok(res) && res matches Resolved::Value(c) && vmodel(c)
                                == ValueModel::Null
                        },
                        _ => (r matches Err(e) && e matches Error::ArgumentInvalid(_)),
                    },
                },
            }),
        decreases *self,
    {
        proof {
            reveal_strlit("__typename");
            reveal_strlit("__schema");
            reveal_strlit("__type");
            assert("__typename"@.len() == 10);
            assert("__schema"@.len() == 8);
            assert("__type"@.len() == 6);
        }
        match self {
            ExecResolver::User(u) => match u.resolve_field(ctx, name) {
                Ok(res) => Ok(wrap_user_resolved(res)),
                Err(msg) => Err(Error::FieldResolverError(msg)),
            },
            ExecResolver::Typename(d) => {
                if *name == "__typename".to_owned() {
                    Ok(Resolved::Value(ConstValue::Str(d.type_def.name.clone())))
                } else {
                    d.inner.resolve_field(ectx, ctx, name)
                }
            },
            ExecResolver::Root(d) => {
                if *name == "__schema".to_owned() {
                    Ok(Resolved::Object(ExecResolver::Schema(IspSchemaResolver {})))
                } else if *name == "__type".to_owned() {
                    match ctx.try_arg::<String>(&"name".to_owned()) {
                        Err(e) => Err(e),
                        Ok(n) => {
                            if ectx.find_type_definition_by_name(&n).is_some() {
                                Ok(
                                    Resolved::Object(
                                        ExecResolver::Type(
                                            IspTypeResolver { ty: TypeRef::ByName(n) },
                                        ),
                                    ),
                                )
                            } else {
                                Ok(Resolved::Value(ConstValue::Null))
                            }
                        },
                    }
                } else {
                    d.inner.resolve_field(ectx, ctx, name)
                }
            },
            ExecResolver::Schema(s) => s.resolve_field(ectx, name),
            ExecResolver::Type(t) => t.resolve_field(ectx, name),
            ExecResolver::Field(f) => f.resolve_field(name),
            ExecResolver::InputValue(iv) => iv.resolve_field(name),
            ExecResolver::EnumValue(ev) => ev.resolve_field(name),
        }
    }

    /// The concrete type name for an abstract position: only a user resolver
    /// can answer; introspection resolvers stand at concrete positions.
    pub fn resolve_type_name(&self) -> (r: Result<Option<String>, Error>)
        ensures
            !(*self matches ExecResolver::User(_)) ==> r == Ok::<Option<String>, Error>(None),
    {
        match self {
            ExecResolver::User(u) => match u.resolve_type_name() {
                Ok(n) => Ok(n),
                Err(msg) => Err(Error::FieldResolverError(msg)),
            },
            _ => Ok(None),
        }
    }
}

} // verus!
