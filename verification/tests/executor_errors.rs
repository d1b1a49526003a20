//! Executor failure modes: missing operations, unresolved abstract types,
//! resolver failures, and the recursion guard.
use phoebus::CatResolver;
use phoebus::ConstValue;
use phoebus::Ctx;
use phoebus::DemoResolver;
use phoebus::DogResolver;
use phoebus::Document;
use phoebus::Error;
use phoebus::Executor;
use phoebus::FieldDefinition;
use phoebus::FieldNode;
use phoebus::FragmentDefinition;
use phoebus::FragmentSpreadNode;
use phoebus::ObjectResolver;
use phoebus::ObjectTypeDefinition;
use phoebus::OperationDefinition;
use phoebus::OperationType;
use phoebus::QueryResolver;
use phoebus::Resolved;
use phoebus::SchemaDoc;
use phoebus::Selection;
use phoebus::SelectionSet;
use phoebus::Type;
use phoebus::TypeDefinition;
use phoebus::demo_schema;

fn field(name: &str) -> Selection {
    field_sub(name, vec![])
}

fn field_sub(name: &str, sels: Vec<Selection>) -> Selection {
    Selection::Field(FieldNode {
        alias: None,
        name: name.to_string(),
        arguments: vec![],
        directives: vec![],
        selection_set: SelectionSet { selections: sels },
    })
}

fn query_doc(sels: Vec<Selection>) -> Document {
    named_doc(None, sels)
}

fn named_doc(name: Option<&str>, sels: Vec<Selection>) -> Document {
    Document {
        operations: vec![OperationDefinition {
            name: name.map(|n| n.to_string()),
            operation_type: OperationType::Query,
            selection_set: SelectionSet { selections: sels },
        }],
        fragments: vec![],
    }
}

#[test]
fn operation_not_found_by_name() {
    let executor = Executor::new(demo_schema());
    let doc = named_doc(Some("getPeople"), vec![field("peopleCount")]);
    let vars = vec![];
    let r = executor.run(&doc, DemoResolver::Query(QueryResolver), Some("other".to_string()), &vars);
    assert!(matches!(r, Err(Error::OperationNotFound(Some(_)))));
    let r2 = executor.run(&doc, DemoResolver::Query(QueryResolver), None, &vars);
    assert!(matches!(r2, Err(Error::OperationNotFound(None))));
    let ok = executor.run(
        &doc,
        DemoResolver::Query(QueryResolver),
        Some("getPeople".to_string()),
        &vars,
    );
    assert!(ok.is_ok());
}

/// A resolver family whose pet answers `resolve_type_name` wrongly (or not
/// at all), and whose other answers force shape errors.
enum BadResolver {
    Root,
    MutePet,
    Liar,
    Impostor,
}

impl ObjectResolver for BadResolver {
    fn resolve_type_name(&self) -> Result<Option<String>, String> {
        match self {
            BadResolver::Liar => Ok(Some("NoSuchType".to_string())),
            BadResolver::Impostor => Ok(Some("Person".to_string())),
            _ => Ok(None),
        }
    }

    fn resolve_field(&self, _ctx: &Ctx<'_>, name: &String) -> Result<Resolved<BadResolver>, String> {
        match (self, name.as_str()) {
            (BadResolver::Root, "person") => Ok(Resolved::Object(BadResolver::MutePet)),
            (BadResolver::MutePet, "pets") => Ok(Resolved::Array(vec![
                Resolved::Object(BadResolver::MutePet),
            ])),
            (BadResolver::MutePet, "liarPets") => Ok(Resolved::Array(vec![
                Resolved::Object(BadResolver::Liar),
            ])),
            (BadResolver::MutePet, "impostorPets") => Ok(Resolved::Array(vec![
                Resolved::Object(BadResolver::Impostor),
            ])),
            (BadResolver::Root, "boom") => Err("resolver exploded".to_string()),
            (BadResolver::Root, "peopleCount") => Ok(Resolved::Object(BadResolver::Liar)),
            _ => Err("no such field".to_string()),
        }
    }
}

fn first_pet_error(r: Result<ConstValue, phoebus::Error>) -> Error {
    match r {
        Err(Error::FieldErrors(mut entries)) => match entries.remove(0).1 {
            Error::FieldErrors(mut inner) => inner.remove(0).1,
            other => panic!("expected nested field errors, got {}", other.message()),
        },
        Err(e) => panic!("expected field errors, got {}", e.message()),
        Ok(v) => panic!("expected field errors, got {}", phoebus::to_json(&v)),
    }
}

#[test]
fn unknown_concrete_type_name_is_abstract_unresolved() {
    let mut schema = demo_schema();
    add_pet_list_field(&mut schema, "liarPets");
    add_pet_list_field(&mut schema, "impostorPets");
    let executor = Executor::new(schema);
    let doc = query_doc(vec![field_sub(
        "person",
        vec![field_sub("liarPets", vec![field("name")])],
    )]);
    let vars = vec![];
    let e = first_pet_error(executor.run(&doc, BadResolver::Root, None, &vars));
    assert!(matches!(&e, Error::AbstractTypeUnresolved(n) if n == "Pet"));
}

#[test]
fn concrete_type_outside_the_interface_is_a_type_mismatch() {
    let mut schema = demo_schema();
    add_pet_list_field(&mut schema, "liarPets");
    add_pet_list_field(&mut schema, "impostorPets");
    let executor = Executor::new(schema);
    let doc = query_doc(vec![field_sub(
        "person",
        vec![field_sub("impostorPets", vec![field("name")])],
    )]);
    let vars = vec![];
    let e = first_pet_error(executor.run(&doc, BadResolver::Root, None, &vars));
    assert!(matches!(e, Error::TypeMismatch));
}

fn add_pet_list_field(schema: &mut SchemaDoc, name: &str) {
    for t in schema.types.iter_mut() {
        if let TypeDefinition::Object(o) = t {
            if o.name == "Person" {
                o.fields.push(FieldDefinition {
                    name: name.to_string(),
                    description: None,
                    arguments: vec![],
                    ty: Type::List(Box::new(Type::Named("Pet".to_string()))),
                    directives: vec![],
                });
            }
        }
    }
}

#[test]
fn abstract_type_unresolved_without_type_name() {
    let executor = Executor::new(demo_schema());
    let doc = query_doc(vec![field_sub(
        "person",
        vec![field_sub("pets", vec![field("name")])],
    )]);
    let vars = vec![];
    let r = executor.run(&doc, BadResolver::Root, None, &vars);
    match r {
        Err(Error::FieldErrors(entries)) => {
            assert_eq!(entries.len(), 1);
            assert_eq!(entries[0].0, "person");
            match &entries[0].1 {
                Error::FieldErrors(inner) => {
                    assert!(matches!(&inner[0].1, Error::AbstractTypeUnresolved(n) if n == "Pet"));
                },
                other => panic!("expected nested field errors, got {}", other.message()),
            }
        },
        Err(e) => panic!("expected field errors, got {}", e.message()),
        Ok(v) => panic!("expected field errors, got {}", phoebus::to_json(&v)),
    }
}

#[test]
fn resolver_error_is_wrapped_and_keyed() {
    let executor = Executor::new(demo_schema());
    let doc = query_doc(vec![field("boom")]);
    let vars = vec![];
    let r = executor.run(&doc, BadResolver::Root, None, &vars);
    match r {
        Err(Error::FieldErrors(entries)) => {
            assert_eq!(entries[0].0, "boom");
            assert!(matches!(&entries[0].1, Error::FieldResolverError(m) if m == "resolver exploded"));
        },
        _ => panic!("expected field errors"),
    }
}

#[test]
fn scalar_field_returning_object_is_a_type_mismatch() {
    // peopleCount is declared Int; the resolver answers with an object whose
    // claimed type does not exist.
    let executor = Executor::new(demo_schema());
    let doc = query_doc(vec![field_sub("peopleCount", vec![field("x")])]);
    let vars = vec![];
    let r = executor.run(&doc, BadResolver::Root, None, &vars);
    match r {
        Err(Error::FieldErrors(entries)) => {
            assert!(matches!(&entries[0].1, Error::TypeNotFound(n) if n == "Int"));
        },
        _ => panic!("expected field errors"),
    }
}

fn recursive_schema() -> SchemaDoc {
    SchemaDoc {
        description: None,
        query_type: "Query".to_string(),
        mutation_type: None,
        subscription_type: None,
        types: vec![TypeDefinition::Object(ObjectTypeDefinition {
            name: "Query".to_string(),
            description: None,
            implements_interfaces: vec![],
            fields: vec![FieldDefinition {
                name: "me".to_string(),
                description: None,
                arguments: vec![],
                ty: Type::Named("Query".to_string()),
                directives: vec![],
            }],
        })],
    }
}

struct SelfResolver;

impl ObjectResolver for SelfResolver {
    fn resolve_field(&self, _ctx: &Ctx<'_>, name: &String) -> Result<Resolved<SelfResolver>, String> {
        if name == "me" {
            Ok(Resolved::Object(SelfResolver))
        } else {
            Err("no such field".to_string())
        }
    }
}

#[test]
fn cyclic_fragments_hit_the_recursion_guard() {
    // fragment loop on Query { me { ...loop } } unrolls forever; the budget
    // turns that into an error instead of a hang.
    let executor = Executor::new(recursive_schema());
    let doc = Document {
        operations: vec![OperationDefinition {
            name: None,
            operation_type: OperationType::Query,
            selection_set: SelectionSet {
                selections: vec![Selection::FragmentSpread(FragmentSpreadNode {
                    name: "loop".to_string(),
                    directives: vec![],
                })],
            },
        }],
        fragments: vec![FragmentDefinition {
            name: "loop".to_string(),
            type_condition: "Query".to_string(),
            directives: vec![],
            selection_set: SelectionSet {
                selections: vec![field_sub(
                    "me",
                    vec![Selection::FragmentSpread(FragmentSpreadNode {
                        name: "loop".to_string(),
                        directives: vec![],
                    })],
                )],
            },
        }],
    };
    let vars = vec![];
    let r = executor.run(&doc, SelfResolver, None, &vars);
    fn find_limit(e: &Error) -> bool {
        match e {
            Error::RecursionLimit => true,
            Error::FieldErrors(entries) => entries.iter().any(|(_, inner)| find_limit(inner)),
            _ => false,
        }
    }
    match r {
        Err(e) => assert!(find_limit(&e), "expected the recursion guard, got {}", e.message()),
        Ok(_) => panic!("expected an error"),
    }
}

#[test]
fn mutation_without_root_type_is_an_error() {
    let executor = Executor::new(demo_schema());
    let doc = Document {
        operations: vec![OperationDefinition {
            name: None,
            operation_type: OperationType::Mutation,
            selection_set: SelectionSet { selections: vec![field("peopleCount")] },
        }],
        fragments: vec![],
    };
    let vars = vec![];
    let r = executor.run(&doc, DemoResolver::Query(QueryResolver), None, &vars);
    assert!(matches!(r, Err(Error::TypeNotFound(_))));
}

#[test]
fn field_errors_message_carries_nested_accounts() {
    let executor = Executor::new(demo_schema());
    let doc = query_doc(vec![field("boom")]);
    let vars = vec![];
    let r = executor.run(&doc, BadResolver::Root, None, &vars);
    match r {
        Err(e) => {
            let msg = e.message();
            assert!(msg.contains("boom"), "missing key in {}", msg);
            assert!(msg.contains("resolver exploded"), "missing nested message in {}", msg);
        },
        Ok(_) => panic!("expected an error"),
    }
}

#[test]
fn field_errors_keep_collection_order() {
    let executor = Executor::new(demo_schema());
    let doc = query_doc(vec![field("boom"), field("peopleCount"), field("alsoMissing")]);
    let vars = vec![];
    // peopleCount resolves to an object claiming a nonexistent type, so all
    // three fields fail; the keys must stand in collection order.
    let r = executor.run(&doc, BadResolver::Root, None, &vars);
    match r {
        Err(Error::FieldErrors(entries)) => {
            let keys: Vec<&str> = entries.iter().map(|(k, _)| k.as_str()).collect();
            assert_eq!(keys, vec!["boom", "peopleCount", "alsoMissing"]);
        },
        _ => panic!("expected field errors"),
    }
}

#[test]
fn pet_resolvers_name_their_concrete_types() {
    assert_eq!(DogResolver.resolve_type_name(), Ok(Some("Dog".to_string())));
    assert_eq!(CatResolver.resolve_type_name(), Ok(Some("Cat".to_string())));
}
