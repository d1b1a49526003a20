//! An example resolver family over a small schema: a query root with a
//! person, whose pets are an interface with two implementations.
use vstd::prelude::*;

use crate::resolver::Ctx;
use crate::resolver::ObjectResolver;
use crate::resolver::Resolved;
use crate::schema::FieldDefinition;
use crate::schema::InterfaceTypeDefinition;
use crate::schema::EnumTypeDefinition;
use crate::schema::EnumValueDefinition;
use crate::schema::ObjectTypeDefinition;
use crate::schema::SchemaDoc;
use crate::schema::Type;
use crate::schema::TypeDefinition;
use crate::value::ConstValue;
use crate::value::Name;
use crate::value::NumberValue;
use crate::value::ValueModel;
use crate::value::vmodel;

verus! {

/// Resolves the query root: a people count and a person.
pub struct QueryResolver;

/// Resolves a person: name, age, and a list of pets.
pub struct PersonResolver;

/// Resolves a dog, concrete type `Dog`.
pub struct DogResolver;

/// Resolves a cat, concrete type `Cat`.
pub struct CatResolver;

/// The family the executor drives: one variant per resolver.
pub enum DemoResolver {
    Query(QueryResolver),
    Person(PersonResolver),
    Dog(DogResolver),
    Cat(CatResolver),
}

impl QueryResolver {
    pub fn resolve_field(&self, name: &String) -> (r: Result<Resolved<DemoResolver>, String>)
        ensures
            name@ == "peopleCount"@ ==> (r matches Ok(res) && res matches Resolved::Value(v)
                && vmodel(v) == ValueModel::Int(42)),
            name@ == "person"@ ==> (r matches Ok(res) && res matches Resolved::Object(o)
                && o is Person),
            (name@ != "peopleCount"@ && name@ != "person"@) ==> r is Err,
    {
        proof {
            reveal_strlit("peopleCount");
            reveal_strlit("person");
            assert("peopleCount"@.len() == 11);
            assert("person"@.len() == 6);
        }
        if *name == "peopleCount".to_owned() {
            Ok(Resolved::Value(ConstValue::Number(NumberValue::Int(42))))
        } else if *name == "person".to_owned() {
            Ok(Resolved::Object(DemoResolver::Person(PersonResolver)))
        } else {
            Err("invalid field".to_owned())
        }
    }
}

impl PersonResolver {
    pub fn resolve_field(&self, name: &String) -> (r: Result<Resolved<DemoResolver>, String>)
        ensures
            name@ == "firstName"@ ==> (r matches Ok(res) && res matches Resolved::Value(v)
                && vmodel(v) == ValueModel::Str("Zack"@)),
            name@ == "lastName"@ ==> (r matches Ok(res) && res matches Resolved::Value(v)
                && vmodel(v) == ValueModel::Str("Angelo"@)),
            name@ == "age"@ ==> (r matches Ok(res) && res matches Resolved::Value(v) && vmodel(v)
                == ValueModel::Int(39)),
            name@ == "pets"@ ==> (r matches Ok(res) && res matches Resolved::Array(pets)
                && pets@.len() == 2 && (pets@[0] matches Resolved::Object(d) && d is Dog) && (
            pets@[1] matches Resolved::Object(c) && c is Cat)),
            (name@ != "firstName"@ && name@ != "lastName"@ && name@ != "age"@ && name@ != "pets"@)
                ==> r is Err,
    {
        proof {
            reveal_strlit("firstName");
            reveal_strlit("lastName");
            reveal_strlit("age");
            reveal_strlit("pets");
            assert("firstName"@.len() == 9);
            assert("lastName"@.len() == 8);
            assert("age"@.len() == 3);
            assert("pets"@.len() == 4);
        }
        if *name == "firstName".to_owned() {
            Ok(Resolved::Value(ConstValue::Str("Zack".to_owned())))
        } else if *name == "lastName".to_owned() {
            Ok(Resolved::Value(ConstValue::Str("Angelo".to_owned())))
        } else if *name == "age".to_owned() {
            Ok(Resolved::Value(ConstValue::Number(NumberValue::Int(39))))
        } else if *name == "pets".to_owned() {
            let mut pets: Vec<Resolved<DemoResolver>> = Vec::new();
            pets.push(Resolved::Object(DemoResolver::Dog(DogResolver)));
            pets.push(Resolved::Object(DemoResolver::Cat(CatResolver)));
            Ok(Resolved::Array(pets))
        } else {
            Err("invalid field".to_owned())
        }
    }
}

impl DogResolver {
    /// The concrete type this resolver stands for: the `Dog` object type,
    /// which implements `Pet`.
    pub fn resolve_type_name(&self) -> (r: Result<Option<String>, String>)
        ensures
            r matches Ok(n) && n matches Some(m) && m@ == "Dog"@,
    {
        Ok(Some("Dog".to_owned()))
    }

    pub fn resolve_field(&self, name: &String) -> (r: Result<Resolved<DemoResolver>, String>)
        ensures
            name@ == "name"@ ==> (r matches Ok(res) && res matches Resolved::Value(v) && vmodel(v)
                == ValueModel::Str("Coco"@)),
            name@ == "dogBreed"@ ==> (r matches Ok(res) && res matches Resolved::Value(v)
                && vmodel(v) == ValueModel::EnumVal("CHIHUAHUA"@)),
            (name@ != "name"@ && name@ != "dogBreed"@) ==> r is Err,
    {
        proof {
            reveal_strlit("name");
            reveal_strlit("dogBreed");
            assert("name"@.len() == 4);
            assert("dogBreed"@.len() == 8);
        }
        if *name == "name".to_owned() {
            Ok(Resolved::Value(ConstValue::Str("Coco".to_owned())))
        } else if *name == "dogBreed".to_owned() {
            Ok(Resolved::Value(ConstValue::Enum(Name::new("CHIHUAHUA".to_owned()))))
        } else {
            Err("invalid field".to_owned())
        }
    }
}

impl CatResolver {
    /// The concrete type this resolver stands for: the `Cat` object type,
    /// which implements `Pet`.
    pub fn resolve_type_name(&self) -> (r: Result<Option<String>, String>)
        ensures
            r matches Ok(n) && n matches Some(m) && m@ == "Cat"@,
    {
        Ok(Some("Cat".to_owned()))
    }

    pub fn resolve_field(&self, name: &String) -> (r: Result<Resolved<DemoResolver>, String>)
        ensures
            name@ == "name"@ ==> (r matches Ok(res) && res matches Resolved::Value(v) && vmodel(v)
                == ValueModel::Str("Nemo"@)),
            name@ == "catBreed"@ ==> (r matches Ok(res) && res matches Resolved::Value(v)
                && vmodel(v) == ValueModel::EnumVal("TABBY"@)),
            (name@ != "name"@ && name@ != "catBreed"@) ==> r is Err,
    {
        proof {
            reveal_strlit("name");
            reveal_strlit("catBreed");
            assert("name"@.len() == 4);
            assert("catBreed"@.len() == 8);
        }
        if *name == "name".to_owned() {
            Ok(Resolved::Value(ConstValue::Str("Nemo".to_owned())))
        } else if *name == "catBreed".to_owned() {
            Ok(Resolved::Value(ConstValue::Enum(Name::new("TABBY".to_owned()))))
        } else {
            Err("invalid field".to_owned())
        }
    }
}

impl ObjectResolver for DemoResolver {
    fn resolve_type_name(&self) -> (r: Result<Option<String>, String>) {
        match self {
            DemoResolver::Dog(d) => d.resolve_type_name(),
            DemoResolver::Cat(c) => c.resolve_type_name(),
            _ => Ok(None),
        }
    }

    fn resolve_field(&self, _ctx: &Ctx<'_>, name: &String) -> (r: Result<
        Resolved<DemoResolver>,
        String,
    >) {
        match self {
            DemoResolver::Query(q) => q.resolve_field(name),
            DemoResolver::Person(p) => p.resolve_field(name),
            DemoResolver::Dog(d) => d.resolve_field(name),
            DemoResolver::Cat(c) => c.resolve_field(name),
        }
    }
}

/// The example schema: `Query { peopleCount, person }`, a `Person` with a
/// list of `Pet`s, and `Dog` / `Cat` implementing the `Pet` interface.
pub fn demo_schema() -> (r: SchemaDoc)
    ensures
        r.query_type@ == "Query"@,
{
    let mut query_fields: Vec<FieldDefinition> = Vec::new();
    query_fields.push(demo_field("peopleCount", Type::Named("Int".to_owned())));
    query_fields.push(demo_field("person", Type::Named("Person".to_owned())));

    let mut person_fields: Vec<FieldDefinition> = Vec::new();
    person_fields.push(demo_field("firstName", Type::Named("String".to_owned())));
    person_fields.push(demo_field("lastName", Type::Named("String".to_owned())));
    person_fields.push(demo_field("age", Type::Named("Int".to_owned())));
    person_fields.push(
        demo_field("pets", Type::List(Box::new(Type::Named("Pet".to_owned())))),
    );

    let mut pet_fields: Vec<FieldDefinition> = Vec::new();
    pet_fields.push(demo_field("name", Type::Named("String".to_owned())));

    let mut dog_fields: Vec<FieldDefinition> = Vec::new();
    dog_fields.push(demo_field("name", Type::Named("String".to_owned())));
    dog_fields.push(demo_field("dogBreed", Type::Named("DogBreed".to_owned())));
    let mut dog_ifaces: Vec<String> = Vec::new();
    dog_ifaces.push("Pet".to_owned());

    let mut cat_fields: Vec<FieldDefinition> = Vec::new();
    cat_fields.push(demo_field("name", Type::Named("String".to_owned())));
    cat_fields.push(demo_field("catBreed", Type::Named("CatBreed".to_owned())));
    let mut cat_ifaces: Vec<String> = Vec::new();
    cat_ifaces.push("Pet".to_owned());

    let mut dog_breed_values: Vec<EnumValueDefinition> = Vec::new();
    dog_breed_values.push(
        EnumValueDefinition {
            enum_value: "CHIHUAHUA".to_owned(),
            description: None,
            directives: Vec::new(),
        },
    );
    let mut cat_breed_values: Vec<EnumValueDefinition> = Vec::new();
    cat_breed_values.push(
        EnumValueDefinition {
            enum_value: "TABBY".to_owned(),
            description: None,
            directives: Vec::new(),
        },
    );

    let mut types: Vec<TypeDefinition> = Vec::new();
    types.push(
        TypeDefinition::Object(
            ObjectTypeDefinition {
                name: "Query".to_owned(),
                description: None,
                implements_interfaces: Vec::new(),
                fields: query_fields,
            },
        ),
    );
    types.push(
        TypeDefinition::Object(
            ObjectTypeDefinition {
                name: "Person".to_owned(),
                description: None,
                implements_interfaces: Vec::new(),
                fields: person_fields,
            },
        ),
    );
    types.push(
        TypeDefinition::Interface(
            InterfaceTypeDefinition {
                name: "Pet".to_owned(),
                description: None,
                fields: pet_fields,
            },
        ),
    );
    types.push(
        TypeDefinition::Object(
            ObjectTypeDefinition {
                name: "Dog".to_owned(),
                description: None,
                implements_interfaces: dog_ifaces,
                fields: dog_fields,
            },
        ),
    );
    types.push(
        TypeDefinition::Object(
            ObjectTypeDefinition {
                name: "Cat".to_owned(),
                description: None,
                implements_interfaces: cat_ifaces,
                fields: cat_fields,
            },
        ),
    );
    types.push(
        TypeDefinition::Enum(
            EnumTypeDefinition {
                name: "DogBreed".to_owned(),
                description: None,
                values: dog_breed_values,
            },
        ),
    );
    types.push(
        TypeDefinition::Enum(
            EnumTypeDefinition {
                name: "CatBreed".to_owned(),
                description: None,
                values: cat_breed_values,
            },
        ),
    );

    SchemaDoc {
        description: None,
        query_type: "Query".to_owned(),
        mutation_type: None,
        subscription_type: None,
        types,
    }
}

fn demo_field(name: &str, ty: Type) -> (r: FieldDefinition)
    ensures
        r.name@ == name@,
        r.ty == ty,
{
    FieldDefinition {
        name: name.to_owned(),
        description: None,
        arguments: Vec::new(),
        ty,
        directives: Vec::new(),
    }
}

} // verus!
