//! The executable-document model the executor consumes: operations,
//! selection sets, fields, fragments, directives and argument values.
use vstd::prelude::*;

use crate::lookup::Keyed;

verus! {

/// An argument or directive value as it stands in the document; variables
/// are substituted at evaluation time.
pub enum DocValue {
    Variable(String),
    NullValue,
    BoolValue(bool),
    IntValue(i64),
    /// A non-integer number, carried as its decimal text.
    FloatValue(String),
    StrValue(String),
    EnumValue(String),
    ListValue(Vec<DocValue>),
    ObjectValue(Vec<(String, DocValue)>),
}

pub struct Argument {
    pub name: String,
    pub value: DocValue,
}

/// A directive applied to a selection, such as `@skip(if: $flag)`.
pub struct Directive {
    pub name: String,
    pub arguments: Vec<Argument>,
}

pub struct SelectionSet {
    pub selections: Vec<Selection>,
}

pub enum Selection {
    Field(FieldNode),
    FragmentSpread(FragmentSpreadNode),
    InlineFragment(InlineFragmentNode),
}

pub struct FieldNode {
    pub alias: Option<String>,
    pub name: String,
    pub arguments: Vec<Argument>,
    pub directives: Vec<Directive>,
    pub selection_set: SelectionSet,
}

pub struct FragmentSpreadNode {
    pub name: String,
    pub directives: Vec<Directive>,
}

pub struct InlineFragmentNode {
    pub type_condition: Option<String>,
    pub directives: Vec<Directive>,
    pub selection_set: SelectionSet,
}

pub struct FragmentDefinition {
    pub name: String,
    pub type_condition: String,
    pub directives: Vec<Directive>,
    pub selection_set: SelectionSet,
}

pub enum OperationType {
    Query,
    Mutation,
    Subscription,
}

pub struct OperationDefinition {
    pub name: Option<String>,
    pub operation_type: OperationType,
    pub selection_set: SelectionSet,
}

/// One executable document: its operations and its fragment definitions.
pub struct Document {
    pub operations: Vec<OperationDefinition>,
    pub fragments: Vec<FragmentDefinition>,
}

impl Keyed for FragmentDefinition {
    open spec fn key(self) -> Seq<char> {
        self.name@
    }

    fn key_ref(&self) -> (r: &String) {
        &self.name
    }
}

impl Keyed for Directive {
    open spec fn key(self) -> Seq<char> {
        self.name@
    }

    fn key_ref(&self) -> (r: &String) {
        &self.name
    }
}

impl Keyed for Argument {
    open spec fn key(self) -> Seq<char> {
        self.name@
    }

    fn key_ref(&self) -> (r: &String) {
        &self.name
    }
}

/// The key under which a field's value appears in the output: the alias if
/// present, else the field name.
pub open spec fn response_key(f: FieldNode) -> Seq<char> {
    match f.alias {
        Some(a) => a@,
        None => f.name@,
    }
}

impl FieldNode {
    /// The response key as text.
    pub fn response_key_string(&self) -> (r: String)
        ensures
            r@ == response_key(*self),
    {
        match &self.alias {
            Some(a) => a.clone(),
            None => self.name.clone(),
        }
    }
}

/// Structural size of a selection: fields and inline fragments count their
/// bodies. Fragment spreads count 1; the fragments they name are measured
/// separately by the collector's visited-set argument.
pub open spec fn sel_size(s: Selection) -> nat
    decreases s,
{
    match s {
        Selection::Field(f) => 1 + sels_size(f.selection_set.selections@),
        Selection::FragmentSpread(_) => 1,
        Selection::InlineFragment(f) => 1 + sels_size(f.selection_set.selections@),
    }
}

pub open spec fn sels_size(s: Seq<Selection>) -> nat
    decreases s,
{
    if s.len() == 0 {
        0
    } else {
        sel_size(s[0]) + sels_size(s.drop_first())
    }
}

/// Each selection's size is bounded by the size of the whole sequence.
pub proof fn lemma_sel_size_le(s: Seq<Selection>, i: int)
    requires
        0 <= i < s.len(),
    ensures
        sel_size(s[i]) <= sels_size(s),
    decreases s,
{
    if i > 0 {
        lemma_sel_size_le(s.drop_first(), i - 1);
    }
}

} // verus!
