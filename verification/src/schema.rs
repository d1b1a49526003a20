//! The schema view the executor consumes: type definitions, field
//! definitions, and the precomputed `ExecSchema` with its lookup and
//! subtype tests.
use vstd::prelude::*;

use crate::document::Directive;
use crate::document::DocValue;
use crate::lookup::Keyed;
use crate::lookup::find_by_key;
use crate::lookup::spec_find;
use crate::lookup::lemma_spec_find_push;

verus! {

/// A field's declared type: a named type with list and non-null wrappers.
pub enum Type {
    Named(String),
    List(Box<Type>),
    NonNull(Box<Type>),
}

impl Type {
    /// The innermost named type.
    pub open spec fn spec_name(self) -> Seq<char>
        decreases self,
    {
        match self {
            Type::Named(n) => n@,
            Type::List(t) => t.spec_name(),
            Type::NonNull(t) => t.spec_name(),
        }
    }

    pub fn name(&self) -> (r: &String)
        ensures
            r@ == self.spec_name(),
        decreases *self,
    {
        match self {
            Type::Named(n) => n,
            Type::List(t) => t.name(),
            Type::NonNull(t) => t.name(),
        }
    }
}

pub struct InputValueDefinition {
    pub name: String,
    pub description: Option<String>,
    pub ty: Type,
    pub default_value: Option<DocValue>,
    pub directives: Vec<Directive>,
}

pub struct FieldDefinition {
    pub name: String,
    pub description: Option<String>,
    pub arguments: Vec<InputValueDefinition>,
    pub ty: Type,
    pub directives: Vec<Directive>,
}

pub struct EnumValueDefinition {
    pub enum_value: String,
    pub description: Option<String>,
    pub directives: Vec<Directive>,
}

pub struct ScalarTypeDefinition {
    pub name: String,
    pub description: Option<String>,
    pub directives: Vec<Directive>,
}

pub struct ObjectTypeDefinition {
    pub name: String,
    pub description: Option<String>,
    pub implements_interfaces: Vec<String>,
    pub fields: Vec<FieldDefinition>,
}

pub struct InterfaceTypeDefinition {
    pub name: String,
    pub description: Option<String>,
    pub fields: Vec<FieldDefinition>,
}

pub struct UnionTypeDefinition {
    pub name: String,
    pub description: Option<String>,
    pub members: Vec<String>,
}

pub struct EnumTypeDefinition {
    pub name: String,
    pub description: Option<String>,
    pub values: Vec<EnumValueDefinition>,
}

pub struct InputObjectTypeDefinition {
    pub name: String,
    pub description: Option<String>,
    pub input_fields: Vec<InputValueDefinition>,
}

pub enum TypeDefinition {
    Scalar(ScalarTypeDefinition),
    Object(ObjectTypeDefinition),
    Interface(InterfaceTypeDefinition),
    Union(UnionTypeDefinition),
    Enum(EnumTypeDefinition),
    InputObject(InputObjectTypeDefinition),
}

impl TypeDefinition {
    pub open spec fn spec_name(self) -> Seq<char> {
        match self {
            TypeDefinition::Scalar(t) => t.name@,
            TypeDefinition::Object(t) => t.name@,
            TypeDefinition::Interface(t) => t.name@,
            TypeDefinition::Union(t) => t.name@,
            TypeDefinition::Enum(t) => t.name@,
            TypeDefinition::InputObject(t) => t.name@,
        }
    }

    pub fn name(&self) -> (r: &String)
        ensures
            r@ == self.spec_name(),
    {
        match self {
            TypeDefinition::Scalar(t) => &t.name,
            TypeDefinition::Object(t) => &t.name,
            TypeDefinition::Interface(t) => &t.name,
            TypeDefinition::Union(t) => &t.name,
            TypeDefinition::Enum(t) => &t.name,
            TypeDefinition::InputObject(t) => &t.name,
        }
    }
}

impl Keyed for TypeDefinition {
    open spec fn key(self) -> Seq<char> {
        self.spec_name()
    }

    fn key_ref(&self) -> (r: &String) {
        self.name()
    }
}

impl Keyed for FieldDefinition {
    open spec fn key(self) -> Seq<char> {
        self.name@
    }

    fn key_ref(&self) -> (r: &String) {
        &self.name
    }
}

impl<V> Keyed for (String, V) {
    open spec fn key(self) -> Seq<char> {
        self.0@
    }

    fn key_ref(&self) -> (r: &String) {
        &self.0
    }
}

/// The type definitions of one schema document, with its root operation
/// type names. This is the narrow slice of a schema the executor reads.
pub struct SchemaDoc {
    pub description: Option<String>,
    pub query_type: String,
    pub mutation_type: Option<String>,
    pub subscription_type: Option<String>,
    pub types: Vec<TypeDefinition>,
}

/// The precomputed schema view: all type definitions (the introspection
/// types included), the implicit field definitions, and the subtype map
/// from concrete object types to the abstract types they satisfy.
pub struct ExecSchema {
    pub description: Option<String>,
    pub query_type: String,
    pub mutation_type: Option<String>,
    pub subscription_type: Option<String>,
    pub types: Vec<TypeDefinition>,
    /// concrete object type name -> abstract type names it satisfies.
    pub subtypes: Vec<(String, Vec<String>)>,
    /// `__typename: String!`, available on every object and interface type.
    pub typename_field: FieldDefinition,
    /// `__schema: __Schema!`, available on the query root type.
    pub schema_field: FieldDefinition,
    /// `__type(name: String!): __Type`, available on the query root type.
    pub type_field: FieldDefinition,
}

impl ExecSchema {
    pub open spec fn spec_find_type(self, name: Seq<char>) -> Option<TypeDefinition> {
        spec_find(self.types@, name)
    }

    /// The field definition seen by execution: the type's own fields first,
    /// then the implicit introspection fields.
    pub open spec fn spec_field_definition(
        self,
        parent_name: Seq<char>,
        field_name: Seq<char>,
    ) -> Option<FieldDefinition> {
        match self.spec_find_type(parent_name) {
            Some(TypeDefinition::Object(o)) => match spec_find(o.fields@, field_name) {
                Some(f) => Some(f),
                None => self.spec_implicit_field(parent_name, field_name),
            },
            Some(TypeDefinition::Interface(i)) => match spec_find(i.fields@, field_name) {
                Some(f) => Some(f),
                None => self.spec_implicit_field(parent_name, field_name),
            },
            _ => None,
        }
    }

    pub open spec fn spec_implicit_field(
        self,
        parent_name: Seq<char>,
        field_name: Seq<char>,
    ) -> Option<FieldDefinition> {
        if field_name == "__typename"@ {
            Some(self.typename_field)
        } else if parent_name == self.query_type@ && field_name == "__schema"@ {
            Some(self.schema_field)
        } else if parent_name == self.query_type@ && field_name == "__type"@ {
            Some(self.type_field)
        } else {
            None
        }
    }

    /// Whether the concrete type satisfies the abstract type, per the
    /// precomputed subtype map.
    pub open spec fn spec_is_subtype(self, concrete: Seq<char>, abstract_name: Seq<char>) -> bool {
        match spec_find(self.subtypes@, concrete) {
            Some(entry) => spec_find(entry.1@, abstract_name) is Some,
            None => false,
        }
    }

    pub fn find_type_definition_by_name(&self, name: &String) -> (r: Option<&TypeDefinition>)
        ensures
            match r {
                Some(t) => self.spec_find_type(name@) == Some(*t) && t.spec_name() == name@,
                None => self.spec_find_type(name@) is None,
            },
    {
        let r = find_by_key(&self.types, name);
        proof {
            if r is Some {
                crate::lookup::lemma_spec_find_found(self.types@, name@);
            }
        }
        r
    }

    pub fn find_object_type_definition(&self, name: &String) -> (r: Option<&ObjectTypeDefinition>)
        ensures
            match r {
                Some(o) => self.spec_find_type(name@) == Some(TypeDefinition::Object(*o))
                    && o.name@ == name@,
                None => !(self.spec_find_type(name@) matches Some(TypeDefinition::Object(_))),
            },
    {
        match find_by_key(&self.types, name) {
            Some(t) => {
                proof {
                    crate::lookup::lemma_spec_find_found(self.types@, name@);
                }
                match t {
                    TypeDefinition::Object(o) => Some(o),
                    _ => None,
                }
            },
            _ => None,
        }
    }

    pub fn field_definition(&self, parent_name: &String, field_name: &String) -> (r: Option<
        &FieldDefinition,
    >)
        ensures
            match r {
                Some(f) => self.spec_field_definition(parent_name@, field_name@) == Some(*f),
                None => self.spec_field_definition(parent_name@, field_name@) is None,
            },
    {
        let fields: &Vec<FieldDefinition> = match find_by_key(&self.types, parent_name) {
            Some(TypeDefinition::Object(o)) => &o.fields,
            Some(TypeDefinition::Interface(i)) => &i.fields,
            _ => {
                return None;
            },
        };
        match find_by_key(fields, field_name) {
            Some(f) => Some(f),
            None => {
                if *field_name == "__typename".to_owned() {
                    Some(&self.typename_field)
                } else if *parent_name == self.query_type && *field_name == "__schema".to_owned() {
                    Some(&self.schema_field)
                } else if *parent_name == self.query_type && *field_name == "__type".to_owned() {
                    Some(&self.type_field)
                } else {
                    None
                }
            },
        }
    }

    pub fn is_subtype(&self, concrete_type: &String, abstract_type: &String) -> (r: bool)
        ensures
            r == self.spec_is_subtype(concrete_type@, abstract_type@),
    {
        match find_by_key(&self.subtypes, concrete_type) {
            Some(entry) => find_by_key(&entry.1, abstract_type).is_some(),
            None => false,
        }
    }
}

/// The text of an optional string, for contracts.
pub open spec fn opt_text(o: Option<String>) -> Option<Seq<char>> {
    match o {
        Some(s) => Some(s@),
        None => None,
    }
}

fn named(n: &str) -> (r: Type)
    ensures
        r matches Type::Named(s) && s@ == n@,
{
    Type::Named(n.to_owned())
}

fn non_null(t: Type) -> (r: Type)
    ensures
        r matches Type::NonNull(b) && *b == t,
{
    Type::NonNull(Box::new(t))
}

fn list_of(t: Type) -> (r: Type)
    ensures
        r matches Type::List(b) && *b == t,
{
    Type::List(Box::new(t))
}

fn plain_field(name: &str, ty: Type) -> (r: FieldDefinition)
    ensures
        r.name@ == name@,
        r.ty == ty,
        r.arguments@.len() == 0,
        r.directives@.len() == 0,
        r.description is None,
{
    FieldDefinition {
        name: name.to_owned(),
        description: None,
        arguments: Vec::new(),
        ty,
        directives: Vec::new(),
    }
}

fn plain_enum_value(name: &str) -> (r: EnumValueDefinition)
    ensures
        r.enum_value@ == name@,
{
    EnumValueDefinition { enum_value: name.to_owned(), description: None, directives: Vec::new() }
}

fn isp_object(name: &str, fields: Vec<FieldDefinition>) -> (r: TypeDefinition)
    ensures
        r matches TypeDefinition::Object(o) && o.name@ == name@ && o.fields == fields,
{
    TypeDefinition::Object(
        ObjectTypeDefinition {
            name: name.to_owned(),
            description: None,
            implements_interfaces: Vec::new(),
            fields,
        },
    )
}

/// The introspection schema's own type definitions, injected into every
/// `ExecSchema` so the executor can descend into `__schema` and `__type`
/// selections like any other object fields.
pub fn introspection_type_definitions() -> (r: Vec<TypeDefinition>)
    ensures
        r@.len() == 8,
        forall|i: int| 0 <= i < r@.len() ==> crate::introspection::spec_is_dunder(#[trigger] r@[i].spec_name()),
        r@[0].spec_name() == "__Schema"@ && r@[0] is Object,
        r@[1].spec_name() == "__Type"@ && r@[1] is Object,
        r@[2].spec_name() == "__Field"@ && r@[2] is Object,
        r@[3].spec_name() == "__InputValue"@ && r@[3] is Object,
        r@[4].spec_name() == "__EnumValue"@ && r@[4] is Object,
        r@[5].spec_name() == "__Directive"@ && r@[5] is Object,
        r@[6].spec_name() == "__TypeKind"@ && r@[6] is Enum,
        r@[7].spec_name() == "__DirectiveLocation"@ && r@[7] is Enum,
{
    let mut schema_fields: Vec<FieldDefinition> = Vec::new();
    schema_fields.push(plain_field("description", named("String")));
    schema_fields.push(plain_field("types", non_null(list_of(non_null(named("__Type"))))));
    schema_fields.push(plain_field("queryType", non_null(named("__Type"))));
    schema_fields.push(plain_field("mutationType", named("__Type")));
    schema_fields.push(plain_field("subscriptionType", named("__Type")));
    schema_fields.push(plain_field("directives", non_null(list_of(non_null(named("__Directive"))))));

    let mut type_fields: Vec<FieldDefinition> = Vec::new();
    type_fields.push(plain_field("kind", non_null(named("__TypeKind"))));
    type_fields.push(plain_field("name", named("String")));
    type_fields.push(plain_field("description", named("String")));
    type_fields.push(plain_field("fields", list_of(non_null(named("__Field")))));
    type_fields.push(plain_field("interfaces", list_of(non_null(named("__Type")))));
    type_fields.push(plain_field("possibleTypes", list_of(non_null(named("__Type")))));
    type_fields.push(plain_field("enumValues", list_of(non_null(named("__EnumValue")))));
    type_fields.push(plain_field("inputFields", list_of(non_null(named("__InputValue")))));
    type_fields.push(plain_field("ofType", named("__Type")));
    type_fields.push(plain_field("specifiedByURL", named("String")));

    let mut field_fields: Vec<FieldDefinition> = Vec::new();
    field_fields.push(plain_field("name", non_null(named("String"))));
    field_fields.push(plain_field("description", named("String")));
    field_fields.push(plain_field("args", non_null(list_of(non_null(named("__InputValue"))))));
    field_fields.push(plain_field("type", non_null(named("__Type"))));
    field_fields.push(plain_field("isDeprecated", non_null(named("Boolean"))));
    field_fields.push(plain_field("deprecationReason", named("String")));

    let mut input_value_fields: Vec<FieldDefinition> = Vec::new();
    input_value_fields.push(plain_field("name", non_null(named("String"))));
    input_value_fields.push(plain_field("description", named("String")));
    input_value_fields.push(plain_field("type", non_null(named("__Type"))));
    input_value_fields.push(plain_field("defaultValue", named("String")));
    input_value_fields.push(plain_field("isDeprecated", non_null(named("Boolean"))));
    input_value_fields.push(plain_field("deprecationReason", named("String")));

    let mut enum_value_fields: Vec<FieldDefinition> = Vec::new();
    enum_value_fields.push(plain_field("name", non_null(named("String"))));
    enum_value_fields.push(plain_field("description", named("String")));
    enum_value_fields.push(plain_field("isDeprecated", non_null(named("Boolean"))));
    enum_value_fields.push(plain_field("deprecationReason", named("String")));

    let mut directive_fields: Vec<FieldDefinition> = Vec::new();
    directive_fields.push(plain_field("name", non_null(named("String"))));
    directive_fields.push(plain_field("description", named("String")));
    directive_fields.push(
        plain_field("locations", non_null(list_of(non_null(named("__DirectiveLocation"))))),
    );
    directive_fields.push(plain_field("args", non_null(list_of(non_null(named("__InputValue"))))));
    directive_fields.push(plain_field("isRepeatable", non_null(named("Boolean"))));

    let mut kind_values: Vec<EnumValueDefinition> = Vec::new();
    kind_values.push(plain_enum_value("SCALAR"));
    kind_values.push(plain_enum_value("OBJECT"));
    kind_values.push(plain_enum_value("INTERFACE"));
    kind_values.push(plain_enum_value("UNION"));
    kind_values.push(plain_enum_value("ENUM"));
    kind_values.push(plain_enum_value("INPUT_OBJECT"));
    kind_values.push(plain_enum_value("LIST"));
    kind_values.push(plain_enum_value("NON_NULL"));

    let mut location_values: Vec<EnumValueDefinition> = Vec::new();
    location_values.push(plain_enum_value("QUERY"));
    location_values.push(plain_enum_value("MUTATION"));
    location_values.push(plain_enum_value("SUBSCRIPTION"));
    location_values.push(plain_enum_value("FIELD"));
    location_values.push(plain_enum_value("FRAGMENT_DEFINITION"));
    location_values.push(plain_enum_value("FRAGMENT_SPREAD"));
    location_values.push(plain_enum_value("INLINE_FRAGMENT"));
    location_values.push(plain_enum_value("VARIABLE_DEFINITION"));
    location_values.push(plain_enum_value("SCHEMA"));
    location_values.push(plain_enum_value("SCALAR"));
    location_values.push(plain_enum_value("OBJECT"));
    location_values.push(plain_enum_value("FIELD_DEFINITION"));
    location_values.push(plain_enum_value("ARGUMENT_DEFINITION"));
    location_values.push(plain_enum_value("INTERFACE"));
    location_values.push(plain_enum_value("UNION"));
    location_values.push(plain_enum_value("ENUM"));
    location_values.push(plain_enum_value("ENUM_VALUE"));
    location_values.push(plain_enum_value("INPUT_OBJECT"));
    location_values.push(plain_enum_value("INPUT_FIELD_DEFINITION"));

    let mut out: Vec<TypeDefinition> = Vec::new();
    out.push(isp_object("__Schema", schema_fields));
    out.push(isp_object("__Type", type_fields));
    out.push(isp_object("__Field", field_fields));
    out.push(isp_object("__InputValue", input_value_fields));
    out.push(isp_object("__EnumValue", enum_value_fields));
    out.push(isp_object("__Directive", directive_fields));
    out.push(
        TypeDefinition::Enum(
            EnumTypeDefinition {
                name: "__TypeKind".to_owned(),
                description: None,
                values: kind_values,
            },
        ),
    );
    out.push(
        TypeDefinition::Enum(
            EnumTypeDefinition {
                name: "__DirectiveLocation".to_owned(),
                description: None,
                values: location_values,
            },
        ),
    );
    proof {
        assert forall|i: int| 0 <= i < out@.len() implies crate::introspection::spec_is_dunder(
            #[trigger] out@[i].spec_name(),
        ) by {
            reveal_strlit("__Schema");
            reveal_strlit("__Type");
            reveal_strlit("__Field");
            reveal_strlit("__InputValue");
            reveal_strlit("__EnumValue");
            reveal_strlit("__Directive");
            reveal_strlit("__TypeKind");
            reveal_strlit("__DirectiveLocation");
        }
    }
    out
}

/// `visible_types` distributes over concatenation.
proof fn lemma_visible_types_concat(a: Seq<TypeDefinition>, b: Seq<TypeDefinition>)
    ensures
        crate::introspection::visible_types(a + b) == crate::introspection::visible_types(a)
            + crate::introspection::visible_types(b),
    decreases a,
{
    if a.len() == 0 {
        assert(a + b =~= b);
        assert(crate::introspection::visible_types(a) + crate::introspection::visible_types(b)
            =~= crate::introspection::visible_types(b));
    } else {
        assert((a + b).drop_first() =~= a.drop_first() + b);
        lemma_visible_types_concat(a.drop_first(), b);
        if !crate::introspection::spec_is_dunder(a[0].spec_name()) {
            assert(seq![a[0]] + (crate::introspection::visible_types(a.drop_first())
                + crate::introspection::visible_types(b)) =~= (seq![a[0]]
                + crate::introspection::visible_types(a.drop_first()))
                + crate::introspection::visible_types(b));
        }
    }
}

/// Nothing introspection-reserved is visible.
proof fn lemma_visible_types_all_dunder(s: Seq<TypeDefinition>)
    requires
        forall|i: int| 0 <= i < s.len() ==> crate::introspection::spec_is_dunder(#[trigger] s[i].spec_name()),
    ensures
        crate::introspection::visible_types(s) == Seq::<TypeDefinition>::empty(),
    decreases s,
{
    if s.len() > 0 {
        assert forall|i: int| 0 <= i < s.drop_first().len() implies crate::introspection::spec_is_dunder(
            #[trigger] s.drop_first()[i].spec_name(),
        ) by {
            assert(s.drop_first()[i] == s[i + 1]);
        }
        lemma_visible_types_all_dunder(s.drop_first());
    }
}


/// The first object type definition with the given name.
pub open spec fn spec_find_object_def(types: Seq<TypeDefinition>, name: Seq<char>) -> Option<
    ObjectTypeDefinition,
>
    decreases types,
{
    if types.len() == 0 {
        None
    } else {
        match types[0] {
            TypeDefinition::Object(o) => if o.name@ == name {
                Some(o)
            } else {
                spec_find_object_def(types.drop_first(), name)
            },
            _ => spec_find_object_def(types.drop_first(), name),
        }
    }
}

/// Whether one of the first `n` definitions is a union named `a` with `c`
/// among its members.
pub open spec fn spec_union_declares_upto(
    types: Seq<TypeDefinition>,
    n: int,
    c: Seq<char>,
    a: Seq<char>,
) -> bool {
    exists|j: int|
        0 <= j < n && j < types.len() && ((#[trigger] types[j]) matches TypeDefinition::Union(u)
            && u.name@ == a && spec_find(u.members@, c) is Some)
}

pub open spec fn spec_union_declares(types: Seq<TypeDefinition>, c: Seq<char>, a: Seq<char>) -> bool {
    spec_union_declares_upto(types, types.len() as int, c, a)
}

/// Whether the document's definitions make concrete type `c` satisfy the
/// abstract type `a`: its object definition implements interface `a`, or a
/// union `a` lists it as a member.
pub open spec fn spec_declares_subtype(
    types: Seq<TypeDefinition>,
    c: Seq<char>,
    a: Seq<char>,
) -> bool {
    match spec_find_object_def(types, c) {
        Some(o) => spec_find(o.implements_interfaces@, a) is Some || spec_union_declares(
            types,
            c,
            a,
        ),
        None => false,
    }
}

/// The subtype test over a raw entry list, as `spec_is_subtype` reads it.
pub open spec fn entries_subtype(
    entries: Seq<(String, Vec<String>)>,
    c: Seq<char>,
    a: Seq<char>,
) -> bool {
    match spec_find(entries, c) {
        Some(e) => spec_find(e.1@, a) is Some,
        None => false,
    }
}

/// The subtype test of the first `n` definitions' objects, with unions read
/// from the whole list: the build loop's intermediate state.
pub open spec fn spec_declares_subtype_upto(
    types: Seq<TypeDefinition>,
    n: int,
    c: Seq<char>,
    a: Seq<char>,
) -> bool {
    match spec_find_object_def(types.take(n), c) {
        Some(o) => spec_find(o.implements_interfaces@, a) is Some || spec_union_declares(
            types,
            c,
            a,
        ),
        None => false,
    }
}

proof fn lemma_find_object_def_push(s: Seq<TypeDefinition>, x: TypeDefinition, c: Seq<char>)
    ensures
        spec_find_object_def(s.push(x), c) == (if spec_find_object_def(s, c) is Some {
            spec_find_object_def(s, c)
        } else {
            match x {
                TypeDefinition::Object(o) => if o.name@ == c {
                    Some(o)
                } else {
                    None
                },
                _ => None,
            }
        }),
    decreases s,
{
    if s.len() == 0 {
        assert(s.push(x).drop_first() =~= s);
        assert(s.push(x)[0] == x);
    } else {
        assert(s.push(x)[0] == s[0]);
        assert(s.push(x).drop_first() =~= s.drop_first().push(x));
        lemma_find_object_def_push(s.drop_first(), x, c);
    }
}

impl ExecSchema {
    /// Build the schema view: the introspection types first, then the
    /// document's types; the implicit field definitions; and the subtype
    /// map, read off the objects' interfaces and the unions' members.
    #[verifier::loop_isolation(false)]
    pub fn new(doc: SchemaDoc) -> (r: ExecSchema)
        ensures
            r.query_type@ == doc.query_type@,
            opt_text(r.mutation_type) == opt_text(doc.mutation_type),
            opt_text(r.subscription_type) == opt_text(doc.subscription_type),
            opt_text(r.description) == opt_text(doc.description),
            crate::introspection::visible_types(r.types@) == crate::introspection::visible_types(
                doc.types@,
            ),
            r.typename_field.name@ == "__typename"@,
            r.typename_field.ty matches Type::NonNull(t) && *t matches Type::Named(n) && n@
                == "String"@,
            r.schema_field.name@ == "__schema"@,
            r.schema_field.ty matches Type::NonNull(t) && *t matches Type::Named(n) && n@
                == "__Schema"@,
            r.type_field.name@ == "__type"@,
            r.type_field.ty matches Type::Named(n) && n@ == "__Type"@,
            r.type_field.arguments@.len() == 1 && r.type_field.arguments@[0].name@ == "name"@ && (
            r.type_field.arguments@[0].ty matches Type::NonNull(t) && *t matches Type::Named(n)
                && n@ == "String"@),
            forall|c: Seq<char>, a: Seq<char>| #[trigger] r.spec_is_subtype(c, a)
                == spec_declares_subtype(doc.types@, c, a),
    {
        let mut d = doc;
        // subtype map: one entry per object type of the document.
        let mut subtypes: Vec<(String, Vec<String>)> = Vec::new();
        let mut i: usize = 0;
        proof {
            assert(d.types@.take(0) =~= Seq::<TypeDefinition>::empty());
        }
        while i < d.types.len()
            invariant
                i <= d.types@.len(),
                forall|c: Seq<char>| (#[trigger] spec_find(subtypes@, c) is Some)
                    == spec_find_object_def(d.types@.take(i as int), c) is Some,
                forall|c: Seq<char>, a: Seq<char>| #[trigger] entries_subtype(subtypes@, c, a)
                    == spec_declares_subtype_upto(d.types@, i as int, c, a),
            decreases d.types@.len() - i,
        {
            let ghost prev_entries = subtypes@;
            proof {
                assert(d.types@.take(i as int + 1) =~= d.types@.take(i as int).push(
                    d.types@[i as int],
                ));
            }
            match &d.types[i] {
                TypeDefinition::Object(o) => {
                    let mut abstracts: Vec<String> = Vec::new();
                    let mut j: usize = 0;
                    while j < o.implements_interfaces.len()
                        invariant
                            j <= o.implements_interfaces@.len(),
                            abstracts@.len() == j,
                            forall|m: int|
                                0 <= m < j ==> abstracts@[m] == o.implements_interfaces@[m],
                        decreases o.implements_interfaces@.len() - j,
                    {
                        abstracts.push(o.implements_interfaces[j].clone());
                        j = j + 1;
                    }
                    proof {
                        assert(abstracts@ =~= o.implements_interfaces@);
                    }
                    let mut k: usize = 0;
                    while k < d.types.len()
                        invariant
                            k <= d.types@.len(),
                            forall|a: Seq<char>| (#[trigger] spec_find(abstracts@, a) is Some)
                                == (spec_find(o.implements_interfaces@, a) is Some
                                || spec_union_declares_upto(d.types@, k as int, o.name@, a)),
                        decreases d.types@.len() - k,
                    {
                        let ghost prev = abstracts@;
                        match &d.types[k] {
                            TypeDefinition::Union(u) => {
                                if find_by_key(&u.members, &o.name).is_some() {
                                    abstracts.push(u.name.clone());
                                    proof {
                                        assert forall|a: Seq<char>|
                                            (#[trigger] spec_find(abstracts@, a) is Some) == (
                                            spec_find(o.implements_interfaces@, a) is Some
                                                || spec_union_declares_upto(
                                                d.types@,
                                                k as int + 1,
                                                o.name@,
                                                a,
                                            )) by {
                                            lemma_spec_find_push(prev, abstracts@.last(), a);
                                            assert(abstracts@.drop_last() =~= prev);
                                            if u.name@ == a {
                                                assert(d.types@[k as int]
                                                    matches TypeDefinition::Union(u2) && u2.name@
                                                    == a && spec_find(u2.members@, o.name@)
                                                     is Some);
                                                assert(spec_union_declares_upto(
                                                    d.types@,
                                                    k as int + 1,
                                                    o.name@,
                                                    a,
                                                ));
                                            }
                                            if spec_union_declares_upto(
                                                d.types@,
                                                k as int + 1,
                                                o.name@,
                                                a,
                                            ) && !spec_union_declares_upto(
                                                d.types@,
                                                k as int,
                                                o.name@,
                                                a,
                                            ) {
                                                let jj = choose|jj: int|
                                                    0 <= jj < k as int + 1 && jj < d.types@.len()
                                                        && ((#[trigger] d.types@[jj])
                                                        matches TypeDefinition::Union(u3)
                                                        && u3.name@ == a && spec_find(
                                                        u3.members@,
                                                        o.name@,
                                                    ) is Some);
                                                assert(jj == k as int);
                                                assert(u.name@ == a);
                                            }
                                        }
                                    }
                                } else {
                                    proof {
                                        assert forall|a: Seq<char>|
                                            spec_union_declares_upto(
                                                d.types@,
                                                k as int + 1,
                                                o.name@,
                                                a,
                                            ) == spec_union_declares_upto(
                                                d.types@,
                                                k as int,
                                                o.name@,
                                                a,
                                            ) by {
                                            if spec_union_declares_upto(
                                                d.types@,
                                                k as int + 1,
                                                o.name@,
                                                a,
                                            ) && !spec_union_declares_upto(
                                                d.types@,
                                                k as int,
                                                o.name@,
                                                a,
                                            ) {
                                                let jj = choose|jj: int|
                                                    0 <= jj < k as int + 1 && jj < d.types@.len()
                                                        && ((#[trigger] d.types@[jj])
                                                        matches TypeDefinition::Union(u3)
                                                        && u3.name@ == a && spec_find(
                                                        u3.members@,
                                                        o.name@,
                                                    ) is Some);
                                                assert(jj == k as int);
                                            }
                                        }
                                    }
                                }
                            },
                            _ => {
                                proof {
                                    assert forall|a: Seq<char>|
                                        spec_union_declares_upto(
                                            d.types@,
                                            k as int + 1,
                                            o.name@,
                                            a,
                                        ) == spec_union_declares_upto(
                                            d.types@,
                                            k as int,
                                            o.name@,
                                            a,
                                        ) by {
                                        if spec_union_declares_upto(
                                            d.types@,
                                            k as int + 1,
                                            o.name@,
                                            a,
                                        ) && !spec_union_declares_upto(
                                            d.types@,
                                            k as int,
                                            o.name@,
                                            a,
                                        ) {
                                            let jj = choose|jj: int|
                                                0 <= jj < k as int + 1 && jj < d.types@.len() && ((
                                                #[trigger] d.types@[jj])
                                                    matches TypeDefinition::Union(u3) && u3.name@
                                                    == a && spec_find(u3.members@, o.name@)
                                                     is Some);
                                            assert(jj == k as int);
                                        }
                                    }
                                }
                            },
                        }
                        k = k + 1;
                    }
                    let ghost abs_final = abstracts@;
                    let entry = (o.name.clone(), abstracts);
                    let ghost gentry = entry;
                    proof {
                        assert(gentry.1@ == abs_final);
                        assert(gentry.0@ == o.name@);
                    }
                    subtypes.push(entry);
                    proof {
                        assert(d.types@[i as int] matches TypeDefinition::Object(o2) && o2 == *o);
                        assert(subtypes@.last() == gentry);
                        assert(subtypes@.drop_last() =~= prev_entries);
                        assert forall|c: Seq<char>, a: Seq<char>|
                            #[trigger] entries_subtype(subtypes@, c, a)
                                == spec_declares_subtype_upto(d.types@, i as int + 1, c, a) by {
                            lemma_spec_find_push(prev_entries, gentry, c);
                            lemma_find_object_def_push(
                                d.types@.take(i as int),
                                d.types@[i as int],
                                c,
                            );
                            assert(entries_subtype(prev_entries, c, a)
                                == spec_declares_subtype_upto(d.types@, i as int, c, a));
                            assert((spec_find(prev_entries, c) is Some) == spec_find_object_def(
                                d.types@.take(i as int),
                                c,
                            ) is Some);
                            if spec_find(prev_entries, c) is None && o.name@ == c {
                                assert(spec_find(subtypes@, c) == Some(gentry));
                                assert((spec_find(gentry.1@, a) is Some) == (spec_find(
                                    o.implements_interfaces@,
                                    a,
                                ) is Some || spec_union_declares_upto(
                                    d.types@,
                                    d.types@.len() as int,
                                    o.name@,
                                    a,
                                )));
                            }
                        }
                        assert forall|c: Seq<char>|
                            (#[trigger] spec_find(subtypes@, c) is Some) == spec_find_object_def(
                                d.types@.take(i as int + 1),
                                c,
                            ) is Some by {
                            lemma_spec_find_push(prev_entries, gentry, c);
                            lemma_find_object_def_push(
                                d.types@.take(i as int),
                                d.types@[i as int],
                                c,
                            );
                            assert((spec_find(prev_entries, c) is Some) == spec_find_object_def(
                                d.types@.take(i as int),
                                c,
                            ) is Some);
                        }
                    }
                },
                _ => {
                    proof {
                        assert forall|c: Seq<char>|
                            spec_find_object_def(d.types@.take(i as int + 1), c)
                                == spec_find_object_def(d.types@.take(i as int), c) by {
                            lemma_find_object_def_push(
                                d.types@.take(i as int),
                                d.types@[i as int],
                                c,
                            );
                        }
                    }
                },
            }
            i = i + 1;
        }
        proof {
            assert(d.types@.take(d.types@.len() as int) =~= d.types@);
        }
        let ghost isp_view: Seq<TypeDefinition>;
        let mut types = introspection_type_definitions();
        proof {
            isp_view = types@;
        }
        let ghost user_view = d.types@;
        types.append(&mut d.types);
        proof {
            lemma_visible_types_concat(isp_view, user_view);
            lemma_visible_types_all_dunder(isp_view);
            assert(crate::introspection::visible_types(types@) =~= crate::introspection::visible_types(
                user_view,
            ));
        }
        let ghost final_entries = subtypes@;
        let mut type_field_args: Vec<InputValueDefinition> = Vec::new();
        type_field_args.push(
            InputValueDefinition {
                name: "name".to_owned(),
                description: None,
                ty: non_null(named("String")),
                default_value: None,
                directives: Vec::new(),
            },
        );
        let r = ExecSchema {
            description: d.description,
            query_type: d.query_type,
            mutation_type: d.mutation_type,
            subscription_type: d.subscription_type,
            types,
            subtypes,
            typename_field: plain_field("__typename", non_null(named("String"))),
            schema_field: plain_field("__schema", non_null(named("__Schema"))),
            type_field: FieldDefinition {
                name: "__type".to_owned(),
                description: None,
                arguments: type_field_args,
                ty: named("__Type"),
                directives: Vec::new(),
            },
        };
        proof {
            assert forall|c: Seq<char>, a: Seq<char>| #[trigger] r.spec_is_subtype(c, a)
                == spec_declares_subtype(user_view, c, a) by {
                assert(r.subtypes@ == final_entries);
                assert(entries_subtype(final_entries, c, a) == spec_declares_subtype_upto(
                    user_view,
                    user_view.len() as int,
                    c,
                    a,
                ));
            }
        }
        r
    }
}

} // verus!
