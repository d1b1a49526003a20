//! The resolver boundary: the capability user code implements, the
//! `Resolved` sum it returns, and the per-field context through which user
//! code reads arguments.
use vstd::prelude::*;
use vstd::string::StringExecFns;

use crate::document::DocValue;
use crate::document::FieldNode;
use crate::error::Error;
use crate::lookup::find_by_key;
use crate::lookup::spec_find;
use crate::value::ConstValue;
use crate::value::Name;
use crate::value::NumberValue;
use crate::value::ValueModel;
use crate::value::vmodel;
use crate::value::vmodel_list;
use crate::value::vmodel_fields;
use crate::value::lemma_vmodel_list_snoc;
use crate::value::lemma_vmodel_fields_snoc;

verus! {

broadcast use vstd::std_specs::vec::group_vec_axioms;

/// What one resolver call produced for one field: a terminal value, an
/// object needing further descent, or a list resolved element-wise.
pub enum Resolved<R> {
    Value(ConstValue),
    Object(R),
    Array(Vec<Resolved<R>>),
}

/// Per-field context handed to resolvers: the field node being resolved and
/// the operation's variables.
pub struct Ctx<'a> {
    pub variables: &'a Vec<(String, ConstValue)>,
    pub field: &'a FieldNode,
}

/// The capability user code implements, one per resolver family: each
/// returned `Object` carries another value of the same family. No contract
/// is placed on impls; the executor states what holds whatever they return.
pub trait ObjectResolver: Sized {
    /// The concrete type of this value, where the static field type is an
    /// interface or union; `None` elsewhere. The error is a message.
    fn resolve_type_name(&self) -> (r: Result<Option<String>, String>) {
        Ok(None)
    }

    /// The value of the named field. The error is a message; the executor
    /// wraps it.
    fn resolve_field(&self, ctx: &Ctx<'_>, name: &String) -> (r: Result<Resolved<Self>, String>);
}

impl<R> Resolved<R> {
    pub fn null() -> (r: Resolved<R>)
        ensures
            r matches Resolved::Value(v) && vmodel(v) == ValueModel::Null,
    {
        Resolved::Value(ConstValue::Null)
    }

    pub fn is_null(&self) -> (r: bool)
        ensures
            r == (*self matches Resolved::Value(v) && vmodel(v) == ValueModel::Null),
    {
        match self {
            Resolved::Value(ConstValue::Null) => true,
            _ => false,
        }
    }

    pub fn object(resolver: R) -> (r: Resolved<R>)
        ensures
            r matches Resolved::Object(o) && o == resolver,
    {
        Resolved::Object(resolver)
    }

    pub fn enum_value(v: &str) -> (r: Resolved<R>)
        ensures
            r matches Resolved::Value(c) && vmodel(c) == ValueModel::EnumVal(v@),
    {
        Resolved::Value(ConstValue::Enum(Name::new(v.to_owned())))
    }

    pub fn string(v: &str) -> (r: Resolved<R>)
        ensures
            r matches Resolved::Value(c) && vmodel(c) == ValueModel::Str(v@),
    {
        Resolved::Value(ConstValue::Str(v.to_owned()))
    }

    pub fn string_opt(v: Option<&String>) -> (r: Resolved<R>)
        ensures
            match v {
                Some(s) => r matches Resolved::Value(c) && vmodel(c) == ValueModel::Str(s@),
                None => r matches Resolved::Value(c) && vmodel(c) == ValueModel::Null,
            },
    {
        match v {
            Some(s) => Resolved::Value(ConstValue::Str(s.clone())),
            None => Resolved::Value(ConstValue::Null),
        }
    }

    pub fn value(v: ConstValue) -> (r: Resolved<R>)
        ensures
            r matches Resolved::Value(c) && c == v,
    {
        Resolved::Value(v)
    }

    /// A list resolved element-wise, in the given order.
    pub fn array(items: Vec<Resolved<R>>) -> (r: Resolved<R>)
        ensures
            r matches Resolved::Array(elems) && elems == items,
    {
        Resolved::Array(items)
    }
}

/// An argument value after variable substitution, as handed to `try_arg`
/// conversions.
pub struct CtxArg(pub ConstValue);

/// A type an argument can be read as. Each impl pins exactly which value
/// models it accepts and what it converts them to.
pub trait FromCtxArg: Sized {
    /// Which argument values convert successfully.
    spec fn arg_accepts(v: ValueModel) -> bool;

    /// Whether `self` is the conversion of `v`.
    spec fn arg_matches(self, v: ValueModel) -> bool;

    fn from_arg(arg: CtxArg) -> (r: Result<Self, Error>)
        ensures
            match r {
                Ok(t) => Self::arg_accepts(vmodel(arg.0)) && t.arg_matches(vmodel(arg.0)),
                Err(e) => !Self::arg_accepts(vmodel(arg.0)) && e matches Error::ArgumentInvalid(_),
            },
    ;
}

impl FromCtxArg for String {
    open spec fn arg_accepts(v: ValueModel) -> bool {
        v is Str
    }

    open spec fn arg_matches(self, v: ValueModel) -> bool {
        v == ValueModel::Str(self@)
    }

    fn from_arg(arg: CtxArg) -> (r: Result<Self, Error>) {
        match arg.0 {
            ConstValue::Str(s) => Ok(s),
            _ => Err(Error::ArgumentInvalid("invalid argument type, expected string".to_owned())),
        }
    }
}

impl FromCtxArg for i64 {
    open spec fn arg_accepts(v: ValueModel) -> bool {
        v is Int
    }

    open spec fn arg_matches(self, v: ValueModel) -> bool {
        v == ValueModel::Int(self)
    }

    fn from_arg(arg: CtxArg) -> (r: Result<Self, Error>) {
        match arg.0 {
            ConstValue::Number(NumberValue::Int(i)) => Ok(i),
            _ => Err(Error::ArgumentInvalid("invalid argument type, expected integer".to_owned())),
        }
    }
}

impl FromCtxArg for i32 {
    open spec fn arg_accepts(v: ValueModel) -> bool {
        v matches ValueModel::Int(i) && i32::MIN <= i <= i32::MAX
    }

    open spec fn arg_matches(self, v: ValueModel) -> bool {
        v == ValueModel::Int(self as i64)
    }

    fn from_arg(arg: CtxArg) -> (r: Result<Self, Error>) {
        match arg.0 {
            ConstValue::Number(NumberValue::Int(i)) => {
                if i >= i32::MIN as i64 && i <= i32::MAX as i64 {
                    Ok(i as i32)
                } else {
                    Err(
                        Error::ArgumentInvalid(
                            "invalid argument type, expected integer".to_owned(),
                        ),
                    )
                }
            },
            _ => Err(Error::ArgumentInvalid("invalid argument type, expected integer".to_owned())),
        }
    }
}

impl FromCtxArg for bool {
    open spec fn arg_accepts(v: ValueModel) -> bool {
        v is Bool
    }

    open spec fn arg_matches(self, v: ValueModel) -> bool {
        v == ValueModel::Bool(self)
    }

    fn from_arg(arg: CtxArg) -> (r: Result<Self, Error>) {
        match arg.0 {
            ConstValue::Boolean(b) => Ok(b),
            _ => Err(Error::ArgumentInvalid("invalid argument type, expected bool".to_owned())),
        }
    }
}

/// What substituting variables into a document value yields: the value's
/// model, or the name of an undefined variable.
pub open spec fn spec_resolve_doc_value(v: DocValue, vars: Seq<(String, ConstValue)>) -> Result<
    ValueModel,
    Seq<char>,
>
    decreases v,
{
    match v {
        DocValue::Variable(x) => match spec_find(vars, x@) {
            Some(p) => Ok(vmodel(p.1)),
            None => Err(x@),
        },
        DocValue::NullValue => Ok(ValueModel::Null),
        DocValue::BoolValue(b) => Ok(ValueModel::Bool(b)),
        DocValue::IntValue(i) => Ok(ValueModel::Int(i)),
        DocValue::FloatValue(t) => Ok(ValueModel::Float(t@)),
        DocValue::StrValue(s) => Ok(ValueModel::Str(s@)),
        DocValue::EnumValue(n) => Ok(ValueModel::EnumVal(n@)),
        DocValue::ListValue(items) => match spec_resolve_doc_list(items@, vars) {
            Ok(ms) => Ok(ValueModel::List(ms)),
            Err(x) => Err(x),
        },
        DocValue::ObjectValue(fields) => match spec_resolve_doc_fields(fields@, vars) {
            Ok(ms) => Ok(ValueModel::Object(ms)),
            Err(x) => Err(x),
        },
    }
}

pub open spec fn spec_resolve_doc_list(
    items: Seq<DocValue>,
    vars: Seq<(String, ConstValue)>,
) -> Result<Seq<ValueModel>, Seq<char>>
    decreases items,
{
    if items.len() == 0 {
        Ok(Seq::empty())
    } else {
        match spec_resolve_doc_value(items[0], vars) {
            Err(x) => Err(x),
            Ok(m) => match spec_resolve_doc_list(items.drop_first(), vars) {
                Err(x) => Err(x),
                Ok(ms) => Ok(seq![m] + ms),
            },
        }
    }
}

pub open spec fn spec_resolve_doc_fields(
    fields: Seq<(String, DocValue)>,
    vars: Seq<(String, ConstValue)>,
) -> Result<Seq<(Seq<char>, ValueModel)>, Seq<char>>
    decreases fields,
{
    if fields.len() == 0 {
        Ok(Seq::empty())
    } else {
        match spec_resolve_doc_value(fields[0].1, vars) {
            Err(x) => Err(x),
            Ok(m) => match spec_resolve_doc_fields(fields.drop_first(), vars) {
                Err(x) => Err(x),
                Ok(ms) => Ok(seq![(fields[0].0@, m)] + ms),
            },
        }
    }
}

proof fn lemma_resolve_doc_list_snoc(
    items: Seq<DocValue>,
    x: DocValue,
    vars: Seq<(String, ConstValue)>,
)
    requires
        spec_resolve_doc_list(items, vars) is Ok,
    ensures
        spec_resolve_doc_list(items.push(x), vars) == match spec_resolve_doc_value(x, vars) {
            Ok(m) => Ok::<_, Seq<char>>(spec_resolve_doc_list(items, vars)->Ok_0.push(m)),
            Err(e) => Err::<Seq<ValueModel>, _>(e),
        },
    decreases items,
{
    if items.len() == 0 {
        assert(items.push(x).drop_first() =~= items);
        match spec_resolve_doc_value(x, vars) {
            Ok(m) => {
                assert(seq![m] + Seq::<ValueModel>::empty() =~= spec_resolve_doc_list(
                    items,
                    vars,
                )->Ok_0.push(m));
            },
            Err(_) => {},
        }
    } else {
        assert(items.push(x).drop_first() =~= items.drop_first().push(x));
        lemma_resolve_doc_list_snoc(items.drop_first(), x, vars);
        match spec_resolve_doc_value(items[0], vars) {
            Ok(m0) => {
                match spec_resolve_doc_value(x, vars) {
                    Ok(m) => {
                        assert(seq![m0] + spec_resolve_doc_list(items.drop_first(), vars)->Ok_0.push(
                            m,
                        ) =~= (seq![m0] + spec_resolve_doc_list(items.drop_first(), vars)->Ok_0).push(
                            m,
                        ));
                    },
                    Err(_) => {},
                }
            },
            Err(_) => {},
        }
    }
}

proof fn lemma_resolve_doc_fields_snoc(
    fields: Seq<(String, DocValue)>,
    x: (String, DocValue),
    vars: Seq<(String, ConstValue)>,
)
    requires
        spec_resolve_doc_fields(fields, vars) is Ok,
    ensures
        spec_resolve_doc_fields(fields.push(x), vars) == match spec_resolve_doc_value(
            x.1,
            vars,
        ) {
            Ok(m) => Ok::<_, Seq<char>>(
                spec_resolve_doc_fields(fields, vars)->Ok_0.push((x.0@, m)),
            ),
            Err(e) => Err::<Seq<(Seq<char>, ValueModel)>, _>(e),
        },
    decreases fields,
{
    if fields.len() == 0 {
        assert(fields.push(x).drop_first() =~= fields);
        match spec_resolve_doc_value(x.1, vars) {
            Ok(m) => {
                assert(seq![(x.0@, m)] + Seq::<(Seq<char>, ValueModel)>::empty()
                    =~= spec_resolve_doc_fields(fields, vars)->Ok_0.push((x.0@, m)));
            },
            Err(_) => {},
        }
    } else {
        assert(fields.push(x).drop_first() =~= fields.drop_first().push(x));
        lemma_resolve_doc_fields_snoc(fields.drop_first(), x, vars);
        match spec_resolve_doc_value(fields[0].1, vars) {
            Ok(m0) => {
                match spec_resolve_doc_value(x.1, vars) {
                    Ok(m) => {
                        assert(seq![(fields[0].0@, m0)] + spec_resolve_doc_fields(
                            fields.drop_first(),
                            vars,
                        )->Ok_0.push((x.0@, m)) =~= (seq![(fields[0].0@, m0)]
                            + spec_resolve_doc_fields(fields.drop_first(), vars)->Ok_0).push(
                            (x.0@, m),
                        ));
                    },
                    Err(_) => {},
                }
            },
            Err(_) => {},
        }
    }
}

/// Substitute variables into a document value, yielding a runtime value.
/// An undefined variable is reported by name.
pub fn resolve_doc_value(v: &DocValue, vars: &Vec<(String, ConstValue)>) -> (r: Result<
    ConstValue,
    Error,
>)
    ensures
        match (r, spec_resolve_doc_value(*v, vars@)) {
            (Ok(c), Ok(m)) => vmodel(c) == m,
            (Err(e), Err(x)) => e matches Error::ArgumentInvalid(msg) && msg@ == "undefined variable: "@
                + x,
            _ => false,
        },
    decreases *v,
{
    match v {
        DocValue::Variable(x) => match find_by_key(vars, x) {
            Some(p) => Ok(p.1.dup()),
            None => Err(
                Error::ArgumentInvalid("undefined variable: ".to_owned().concat(x.as_str())),
            ),
        },
        DocValue::NullValue => Ok(ConstValue::Null),
        DocValue::BoolValue(b) => Ok(ConstValue::Boolean(*b)),
        DocValue::IntValue(i) => Ok(ConstValue::Number(NumberValue::Int(*i))),
        DocValue::FloatValue(t) => Ok(ConstValue::Number(NumberValue::Float(t.clone()))),
        DocValue::StrValue(s) => Ok(ConstValue::Str(s.clone())),
        DocValue::EnumValue(n) => Ok(ConstValue::Enum(Name::new(n.clone()))),
        DocValue::ListValue(items) => {
            let mut out: Vec<ConstValue> = Vec::new();
            let mut i: usize = 0;
            while i < items.len()
                invariant
                    *v is ListValue,
                    (*v)->ListValue_0 == *items,
                    i <= items.len(),
                    out@.len() == i,
                    spec_resolve_doc_list(items@.take(i as int), vars@) == Ok::<_, Seq<char>>(
                        vmodel_list(out@),
                    ),
                decreases items.len() - i,
            {
                proof {
                    assert(decreases_to!(*v => (*v)->ListValue_0));
                    assert(decreases_to!(*items => items@));
                    assert(decreases_to!(items@ => items@[i as int]));
                }
                let sub = resolve_doc_value(&items[i], vars);
                proof {
                    assert(items@.take(i as int + 1).drop_last() =~= items@.take(i as int));
                    assert(items@.take(i as int + 1).last() == items@[i as int]);
                    lemma_resolve_doc_list_snoc(items@.take(i as int), items@[i as int], vars@);
                    assert(items@.take(i as int).push(items@[i as int]) =~= items@.take(
                        i as int + 1,
                    ));
                }
                match sub {
                    Ok(c) => {
                        let ghost prev = out@;
                        out.push(c);
                        proof {
                            lemma_vmodel_list_snoc(prev, c);
                        }
                    },
                    Err(e) => {
                        proof {
                            lemma_resolve_list_err_prefix(items@, i as int, vars@);
                        }
                        return Err(e);
                    },
                }
                i = i + 1;
            }
            proof {
                assert(items@.take(items@.len() as int) =~= items@);
            }
            Ok(ConstValue::List(out))
        },
        DocValue::ObjectValue(fields) => {
            let mut out: Vec<(Name, ConstValue)> = Vec::new();
            let mut i: usize = 0;
            while i < fields.len()
                invariant
                    *v is ObjectValue,
                    (*v)->ObjectValue_0 == *fields,
                    i <= fields.len(),
                    out@.len() == i,
                    spec_resolve_doc_fields(fields@.take(i as int), vars@) == Ok::<_, Seq<char>>(
                        vmodel_fields(out@),
                    ),
                decreases fields.len() - i,
            {
                proof {
                    assert(decreases_to!(*v => (*v)->ObjectValue_0));
                    assert(decreases_to!(*fields => fields@));
                    assert(decreases_to!(fields@ => fields@[i as int]));
                    assert(decreases_to!(fields@[i as int] => fields@[i as int].1));
                }
                let sub = resolve_doc_value(&fields[i].1, vars);
                proof {
                    assert(fields@.take(i as int + 1).drop_last() =~= fields@.take(i as int));
                    assert(fields@.take(i as int + 1).last() == fields@[i as int]);
                    lemma_resolve_doc_fields_snoc(fields@.take(i as int), fields@[i as int], vars@);
                    assert(fields@.take(i as int).push(fields@[i as int]) =~= fields@.take(
                        i as int + 1,
                    ));
                }
                match sub {
                    Ok(c) => {
                        let ghost prev = out@;
                        let pair = (Name::new(fields[i].0.clone()), c);
                        out.push(pair);
                        proof {
                            lemma_vmodel_fields_snoc(prev, pair);
                        }
                    },
                    Err(e) => {
                        proof {
                            lemma_resolve_fields_err_prefix(fields@, i as int, vars@);
                        }
                        return Err(e);
                    },
                }
                i = i + 1;
            }
            proof {
                assert(fields@.take(fields@.len() as int) =~= fields@);
            }
            Ok(ConstValue::Object(out))
        },
    }
}

/// An error on element `i` makes the whole list resolution fail with the
/// same error, whatever follows.
proof fn lemma_resolve_list_err_prefix(items: Seq<DocValue>, i: int, vars: Seq<(String, ConstValue)>)
    requires
        0 <= i < items.len(),
        spec_resolve_doc_list(items.take(i), vars) is Ok,
        spec_resolve_doc_value(items[i], vars) is Err,
    ensures
        spec_resolve_doc_list(items, vars) == Err::<Seq<ValueModel>, _>(
            spec_resolve_doc_value(items[i], vars)->Err_0,
        ),
    decreases items,
{
    if i == 0 {
    } else {
        assert(items.take(i).drop_first() =~= items.drop_first().take(i - 1));
        assert(items.drop_first()[i - 1] == items[i]);
        lemma_resolve_list_err_prefix(items.drop_first(), i - 1, vars);
        assert(spec_resolve_doc_value(items.take(i)[0], vars) == spec_resolve_doc_value(
            items[0],
            vars,
        ));
    }
}

proof fn lemma_resolve_fields_err_prefix(
    fields: Seq<(String, DocValue)>,
    i: int,
    vars: Seq<(String, ConstValue)>,
)
    requires
        0 <= i < fields.len(),
        spec_resolve_doc_fields(fields.take(i), vars) is Ok,
        spec_resolve_doc_value(fields[i].1, vars) is Err,
    ensures
        spec_resolve_doc_fields(fields, vars) == Err::<Seq<(Seq<char>, ValueModel)>, _>(
            spec_resolve_doc_value(fields[i].1, vars)->Err_0,
        ),
    decreases fields,
{
    if i == 0 {
    } else {
        assert(fields.take(i).drop_first() =~= fields.drop_first().take(i - 1));
        assert(fields.drop_first()[i - 1] == fields[i]);
        lemma_resolve_fields_err_prefix(fields.drop_first(), i - 1, vars);
        assert(spec_resolve_doc_value(fields.take(i)[0].1, vars) == spec_resolve_doc_value(
            fields[0].1,
            vars,
        ));
    }
}

impl<'a> Ctx<'a> {
    /// Read the named argument of the current field, substituting variables,
    /// and convert it. Absence, an undefined variable, and a value the
    /// target type does not accept are each an `ArgumentInvalid` error.
    pub fn try_arg<T: FromCtxArg>(&self, name: &String) -> (r: Result<T, Error>)
        ensures
            match spec_find(self.field.arguments@, name@) {
                None => r matches Err(e) && e matches Error::ArgumentInvalid(_),
                Some(a) => match spec_resolve_doc_value(a.value, self.variables@) {
                    Err(_) => r matches Err(e) && e matches Error::ArgumentInvalid(_),
                    Ok(m) => match r {
                        Ok(t) => T::arg_accepts(m) && t.arg_matches(m),
                        Err(e) => !T::arg_accepts(m) && e matches Error::ArgumentInvalid(_),
                    },
                },
            },
    {
        match find_by_key(&self.field.arguments, name) {
            None => Err(
                Error::ArgumentInvalid("argument not found: ".to_owned().concat(name.as_str())),
            ),
            Some(a) => match resolve_doc_value(&a.value, self.variables) {
                Err(e) => match e {
                    Error::ArgumentInvalid(m) => Err(Error::ArgumentInvalid(m)),
                    _ => Err(Error::ArgumentInvalid("argument resolution failed".to_owned())),
                },
                Ok(c) => T::from_arg(CtxArg(c)),
            },
        }
    }

    /// Like `try_arg`, but collapses every failure to `None`.
    pub fn arg<T: FromCtxArg>(&self, name: &String) -> (r: Option<T>)
        ensures
            match spec_find(self.field.arguments@, name@) {
                None => r is None,
                Some(a) => match spec_resolve_doc_value(a.value, self.variables@) {
                    Err(_) => r is None,
                    Ok(m) => match r {
                        Some(t) => T::arg_accepts(m) && t.arg_matches(m),
                        None => !T::arg_accepts(m),
                    },
                },
            },
    {
        match self.try_arg::<T>(name) {
            Ok(t) => Some(t),
            Err(_) => None,
        }
    }
}

} // verus!
