//! The immutable JSON-like value tree that query execution produces, plus the
//! `Name` identifier used for response keys and enum values.
use vstd::prelude::*;

verus! {

broadcast use vstd::std_specs::vec::group_vec_axioms;

/// A short identifier: response-object keys and enum values.
pub struct Name {
    pub value: String,
}

/// A JSON-style number. Integers are kept exactly; a non-integer number is
/// carried as its decimal text, so that serialization reproduces it verbatim
/// and the int/float distinction survives a round trip. The text is expected
/// to be a JSON numeral (see `is_json_number`); a parsed document's float
/// literals always are.
pub enum NumberValue {
    Int(i64),
    Float(String),
}

/// An immutable response value. `Object` keeps its members in insertion
/// order; equality is structural (see `vmodel`).
pub enum ConstValue {
    Null,
    Boolean(bool),
    Number(NumberValue),
    Str(String),
    Enum(Name),
    List(Vec<ConstValue>),
    Object(Vec<(Name, ConstValue)>),
}

/// The mathematical shape of a `ConstValue`: strings as character sequences,
/// vectors as sequences. Contracts speak of values through this model.
pub enum ValueModel {
    Null,
    Bool(bool),
    Int(i64),
    Float(Seq<char>),
    Str(Seq<char>),
    EnumVal(Seq<char>),
    List(Seq<ValueModel>),
    Object(Seq<(Seq<char>, ValueModel)>),
}

pub open spec fn vmodel(v: ConstValue) -> ValueModel
    decreases v,
{
    match v {
        ConstValue::Null => ValueModel::Null,
        ConstValue::Boolean(b) => ValueModel::Bool(b),
        ConstValue::Number(n) => match n {
            NumberValue::Int(i) => ValueModel::Int(i),
            NumberValue::Float(t) => ValueModel::Float(t@),
        },
        ConstValue::Str(s) => ValueModel::Str(s@),
        ConstValue::Enum(n) => ValueModel::EnumVal(n.value@),
        ConstValue::List(items) => ValueModel::List(vmodel_list(items@)),
        ConstValue::Object(fields) => ValueModel::Object(vmodel_fields(fields@)),
    }
}

pub open spec fn vmodel_list(items: Seq<ConstValue>) -> Seq<ValueModel>
    decreases items,
{
    if items.len() == 0 {
        Seq::empty()
    } else {
        seq![vmodel(items[0])] + vmodel_list(items.drop_first())
    }
}

pub open spec fn vmodel_fields(fields: Seq<(Name, ConstValue)>) -> Seq<(Seq<char>, ValueModel)>
    decreases fields,
{
    if fields.len() == 0 {
        Seq::empty()
    } else {
        seq![(fields[0].0.value@, vmodel(fields[0].1))] + vmodel_fields(fields.drop_first())
    }
}

/// `vmodel_list` is index-wise `vmodel`.
pub proof fn lemma_vmodel_list_index(items: Seq<ConstValue>, i: int)
    requires
        0 <= i < items.len(),
    ensures
        vmodel_list(items).len() == items.len(),
        vmodel_list(items)[i] == vmodel(items[i]),
    decreases items,
{
    lemma_vmodel_list_len(items);
    if i > 0 {
        lemma_vmodel_list_index(items.drop_first(), i - 1);
    }
}

pub proof fn lemma_vmodel_list_len(items: Seq<ConstValue>)
    ensures
        vmodel_list(items).len() == items.len(),
    decreases items,
{
    if items.len() > 0 {
        lemma_vmodel_list_len(items.drop_first());
    }
}

/// `vmodel_fields` is index-wise: the key's characters and the member's model.
pub proof fn lemma_vmodel_fields_index(fields: Seq<(Name, ConstValue)>, i: int)
    requires
        0 <= i < fields.len(),
    ensures
        vmodel_fields(fields).len() == fields.len(),
        vmodel_fields(fields)[i] == (fields[i].0.value@, vmodel(fields[i].1)),
    decreases fields,
{
    lemma_vmodel_fields_len(fields);
    if i > 0 {
        lemma_vmodel_fields_index(fields.drop_first(), i - 1);
    }
}

pub proof fn lemma_vmodel_fields_len(fields: Seq<(Name, ConstValue)>)
    ensures
        vmodel_fields(fields).len() == fields.len(),
    decreases fields,
{
    if fields.len() > 0 {
        lemma_vmodel_fields_len(fields.drop_first());
    }
}

impl Name {
    pub fn new(value: String) -> (r: Name)
        ensures
            r.value@ == value@,
    {
        Name { value }
    }

    pub fn dup(&self) -> (r: Name)
        ensures
            r.value@ == self.value@,
    {
        Name { value: self.value.clone() }
    }
}

impl ConstValue {
    /// Structural copy; the copy has the same model.
    pub fn dup(&self) -> (r: ConstValue)
        ensures
            vmodel(r) == vmodel(*self),
        decreases *self,
    {
        match self {
            ConstValue::Null => ConstValue::Null,
            ConstValue::Boolean(b) => ConstValue::Boolean(*b),
            ConstValue::Number(n) => match n {
                NumberValue::Int(i) => ConstValue::Number(NumberValue::Int(*i)),
                NumberValue::Float(t) => ConstValue::Number(NumberValue::Float(t.clone())),
            },
            ConstValue::Str(s) => ConstValue::Str(s.clone()),
            ConstValue::Enum(n) => ConstValue::Enum(n.dup()),
            ConstValue::List(items) => {
                let mut out: Vec<ConstValue> = Vec::new();
                let mut i: usize = 0;
                while i < items.len()
                    invariant
                        *self is List,
                        (*self)->List_0 == *items,
                        i <= items.len(),
                        vmodel_list(out@) == vmodel_list(items@.take(i as int)),
                        out@.len() == i,
                    decreases items.len() - i,
                {
                    proof {
                        assert(items@.take(i as int + 1).drop_last() == items@.take(i as int));
                    }
                    let ghost prev = out@;
                    proof {
                        assert(decreases_to!(*self => (*self)->List_0));
                        assert((*self)->List_0 == *items);
                        assert(decreases_to!(*items => items@));
                        assert(decreases_to!(items@ => items@[i as int]));
                    }
                    out.push(items[i].dup());
                    proof {
                        lemma_vmodel_list_push(prev, items@.take(i as int + 1));
                    }
                    i = i + 1;
                }
                proof {
                    assert(items@.take(items@.len() as int) == items@);
                }
                ConstValue::List(out)
            },
            ConstValue::Object(fields) => {
                let mut out: Vec<(Name, ConstValue)> = Vec::new();
                let mut i: usize = 0;
                while i < fields.len()
                    invariant
                        *self is Object,
                        (*self)->Object_0 == *fields,
                        i <= fields.len(),
                        vmodel_fields(out@) == vmodel_fields(fields@.take(i as int)),
                        out@.len() == i,
                    decreases fields.len() - i,
                {
                    proof {
                        assert(fields@.take(i as int + 1).drop_last() == fields@.take(i as int));
                    }
                    let ghost prev = out@;
                    proof {
                        assert(decreases_to!(*self => (*self)->Object_0));
                        assert((*self)->Object_0 == *fields);
                        assert(decreases_to!(*fields => fields@));
                        assert(decreases_to!(fields@ => fields@[i as int]));
                    }
                    let pair = (fields[i].0.dup(), fields[i].1.dup());
                    out.push(pair);
                    proof {
                        lemma_vmodel_fields_push(prev, fields@.take(i as int + 1));
                    }
                    i = i + 1;
                }
                proof {
                    assert(fields@.take(fields@.len() as int) == fields@);
                }
                ConstValue::Object(out)
            },
        }
    }
}

/// Appending one element extends the model by that element's model.
pub proof fn lemma_vmodel_list_snoc(items: Seq<ConstValue>, x: ConstValue)
    ensures
        vmodel_list(items.push(x)) == vmodel_list(items).push(vmodel(x)),
    decreases items,
{
    lemma_vmodel_list_len(items);
    if items.len() == 0 {
        assert(items.push(x).drop_first() == items);
        assert(vmodel_list(items.push(x)) =~= vmodel_list(items).push(vmodel(x)));
    } else {
        assert(items.push(x).drop_first() == items.drop_first().push(x));
        lemma_vmodel_list_snoc(items.drop_first(), x);
        assert(vmodel_list(items.push(x)) =~= vmodel_list(items).push(vmodel(x)));
    }
}

proof fn lemma_vmodel_list_push(prev: Seq<ConstValue>, taken: Seq<ConstValue>)
    requires
        taken.len() > 0,
        vmodel_list(prev) == vmodel_list(taken.drop_last()),
        prev.len() == taken.len() - 1,
    ensures
        forall|x: ConstValue|
            vmodel(x) == vmodel(taken.last()) ==> vmodel_list(prev.push(x)) == vmodel_list(taken),
{
    assert forall|x: ConstValue| vmodel(x) == vmodel(taken.last()) implies vmodel_list(
        prev.push(x),
    ) == vmodel_list(taken) by {
        lemma_vmodel_list_snoc(prev, x);
        lemma_vmodel_list_snoc(taken.drop_last(), taken.last());
        assert(taken.drop_last().push(taken.last()) == taken);
    }
}

pub proof fn lemma_vmodel_fields_snoc(fields: Seq<(Name, ConstValue)>, x: (Name, ConstValue))
    ensures
        vmodel_fields(fields.push(x)) == vmodel_fields(fields).push(
            (x.0.value@, vmodel(x.1)),
        ),
    decreases fields,
{
    lemma_vmodel_fields_len(fields);
    if fields.len() == 0 {
        assert(fields.push(x).drop_first() == fields);
        assert(vmodel_fields(fields.push(x)) =~= vmodel_fields(fields).push(
            (x.0.value@, vmodel(x.1)),
        ));
    } else {
        assert(fields.push(x).drop_first() == fields.drop_first().push(x));
        lemma_vmodel_fields_snoc(fields.drop_first(), x);
        assert(vmodel_fields(fields.push(x)) =~= vmodel_fields(fields).push(
            (x.0.value@, vmodel(x.1)),
        ));
    }
}

proof fn lemma_vmodel_fields_push(prev: Seq<(Name, ConstValue)>, taken: Seq<(Name, ConstValue)>)
    requires
        taken.len() > 0,
        vmodel_fields(prev) == vmodel_fields(taken.drop_last()),
        prev.len() == taken.len() - 1,
    ensures
        forall|x: (Name, ConstValue)|
            x.0.value@ == taken.last().0.value@ && vmodel(x.1) == vmodel(taken.last().1)
                ==> vmodel_fields(prev.push(x)) == vmodel_fields(taken),
{
    assert forall|x: (Name, ConstValue)|
        x.0.value@ == taken.last().0.value@ && vmodel(x.1) == vmodel(
            taken.last().1,
        ) implies vmodel_fields(prev.push(x)) == vmodel_fields(taken) by {
        lemma_vmodel_fields_snoc(prev, x);
        lemma_vmodel_fields_snoc(taken.drop_last(), taken.last());
        assert(taken.drop_last().push(taken.last()) == taken);
    }
}

} // verus!
