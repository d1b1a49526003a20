//! Per-operation execution context: the schema view, the operation's
//! fragment definitions, and the request's variables, shared read-only.
use vstd::prelude::*;

use crate::document::FragmentDefinition;
use crate::lookup::find_by_key;
use crate::lookup::spec_find;
use crate::schema::ExecSchema;
use crate::schema::FieldDefinition;
use crate::schema::ObjectTypeDefinition;
use crate::schema::TypeDefinition;
use crate::value::ConstValue;

verus! {

/// Read-only state of one operation, shared by collection and execution.
pub struct ExecCtx<'a> {
    pub schema: &'a ExecSchema,
    pub fragments: &'a Vec<FragmentDefinition>,
    pub variables: &'a Vec<(String, ConstValue)>,
}

impl<'a> ExecCtx<'a> {
    pub fn new(
        schema: &'a ExecSchema,
        fragments: &'a Vec<FragmentDefinition>,
        variables: &'a Vec<(String, ConstValue)>,
    ) -> (r: ExecCtx<'a>)
        ensures
            r.schema == schema,
            r.fragments == fragments,
            r.variables == variables,
    {
        ExecCtx { schema, fragments, variables }
    }

    pub fn fragment(&self, name: &String) -> (r: Option<&'a FragmentDefinition>)
        ensures
            match r {
                Some(f) => spec_find(self.fragments@, name@) == Some(*f),
                None => spec_find(self.fragments@, name@) is None,
            },
    {
        find_by_key(self.fragments, name)
    }

    pub fn find_type_definition_by_name(&self, name: &String) -> (r: Option<&'a TypeDefinition>)
        ensures
            match r {
                Some(t) => self.schema.spec_find_type(name@) == Some(*t) && t.spec_name()
                    == name@,
                None => self.schema.spec_find_type(name@) is None,
            },
    {
        self.schema.find_type_definition_by_name(name)
    }

    pub fn find_object_type_definition(&self, name: &String) -> (r: Option<
        &'a ObjectTypeDefinition,
    >)
        ensures
            match r {
                Some(o) => self.schema.spec_find_type(name@) == Some(TypeDefinition::Object(*o))
                    && o.name@ == name@,
                None => !(self.schema.spec_find_type(name@) matches Some(
                    TypeDefinition::Object(_),
                )),
            },
    {
        self.schema.find_object_type_definition(name)
    }

    pub fn field_definition(&self, parent_name: &String, field_name: &String) -> (r: Option<
        &'a FieldDefinition,
    >)
        ensures
            match r {
                Some(f) => self.schema.spec_field_definition(parent_name@, field_name@) == Some(
                    *f,
                ),
                None => self.schema.spec_field_definition(parent_name@, field_name@) is None,
            },
    {
        self.schema.field_definition(parent_name, field_name)
    }

    pub fn is_subtype(&self, concrete_type: &String, abstract_type: &String) -> (r: bool)
        ensures
            r == self.schema.spec_is_subtype(concrete_type@, abstract_type@),
    {
        self.schema.is_subtype(concrete_type, abstract_type)
    }

    pub fn variables(&self) -> (r: &'a Vec<(String, ConstValue)>)
        ensures
            r == self.variables,
    {
        self.variables
    }
}

} // verus!
