//! Field collection with fragments, directives and variables, and argument
//! reads through the field context.
use phoebus::Argument;
use phoebus::ConstValue;
use phoebus::Ctx;
use phoebus::Directive;
use phoebus::DocValue;
use phoebus::Error;
use phoebus::ExecCtx;
use phoebus::ExecSchema;
use phoebus::FieldNode;
use phoebus::FragmentDefinition;
use phoebus::FragmentSpreadNode;
use phoebus::InlineFragmentNode;
use phoebus::NumberValue;
use phoebus::Selection;
use phoebus::SelectionSet;
use phoebus::collect_fields;
use phoebus::demo_schema;

fn field(name: &str) -> Selection {
    field_full(name, None, vec![], vec![])
}

fn field_full(
    name: &str,
    alias: Option<&str>,
    arguments: Vec<Argument>,
    directives: Vec<Directive>,
) -> Selection {
    Selection::Field(FieldNode {
        alias: alias.map(|a| a.to_string()),
        name: name.to_string(),
        arguments,
        directives,
        selection_set: SelectionSet { selections: vec![] },
    })
}

fn var_dir(dir: &str, var: &str) -> Directive {
    Directive {
        name: dir.to_string(),
        arguments: vec![Argument {
            name: "if".to_string(),
            value: DocValue::Variable(var.to_string()),
        }],
    }
}

fn keys_of(
    schema: &ExecSchema,
    fragments: &Vec<FragmentDefinition>,
    variables: &Vec<(String, ConstValue)>,
    sels: Vec<Selection>,
) -> Result<Vec<String>, Error> {
    let ectx = ExecCtx::new(schema, fragments, variables);
    let sel_set = SelectionSet { selections: sels };
    let query_name = "Query".to_string();
    let query_ty = match schema.find_object_type_definition(&query_name) {
        Some(t) => t,
        None => panic!("no Query type"),
    };
    let grouped = collect_fields(&ectx, &sel_set, query_ty)?;
    let mut keys: Vec<String> = vec![];
    let mut i = 0;
    while i < grouped.len() {
        keys.push(grouped.entry(i).0.clone());
        i += 1;
    }
    Ok(keys)
}

#[test]
fn first_seen_key_order_with_aliases() {
    let schema = ExecSchema::new(demo_schema());
    let keys = keys_of(
        &schema,
        &vec![],
        &vec![],
        vec![
            field_full("peopleCount", Some("b"), vec![], vec![]),
            field("person"),
            field_full("peopleCount", Some("b"), vec![], vec![]),
        ],
    )
    .unwrap();
    assert_eq!(keys, vec!["b".to_string(), "person".to_string()]);
}

#[test]
fn variable_driven_skip_and_include() {
    let schema = ExecSchema::new(demo_schema());
    let vars = vec![
        ("on".to_string(), ConstValue::Boolean(true)),
        ("off".to_string(), ConstValue::Boolean(false)),
    ];
    let keys = keys_of(
        &schema,
        &vec![],
        &vars,
        vec![
            field_full("peopleCount", Some("skipped"), vec![], vec![var_dir("skip", "on")]),
            field_full("peopleCount", Some("kept"), vec![], vec![var_dir("skip", "off")]),
            field_full("person", Some("included"), vec![], vec![var_dir("include", "on")]),
            field_full("person", Some("dropped"), vec![], vec![var_dir("include", "off")]),
        ],
    )
    .unwrap();
    assert_eq!(keys, vec!["kept".to_string(), "included".to_string()]);
}

#[test]
fn undefined_variable_in_directive_is_an_error() {
    let schema = ExecSchema::new(demo_schema());
    let r = keys_of(
        &schema,
        &vec![],
        &vec![],
        vec![field_full("peopleCount", None, vec![], vec![var_dir("skip", "missing")])],
    );
    assert!(matches!(r, Err(Error::DirectiveArgumentInvalid(_, _))));
}

#[test]
fn skip_without_if_argument_is_an_error() {
    let schema = ExecSchema::new(demo_schema());
    let r = keys_of(
        &schema,
        &vec![],
        &vec![],
        vec![field_full(
            "peopleCount",
            None,
            vec![],
            vec![Directive { name: "skip".to_string(), arguments: vec![] }],
        )],
    );
    assert!(matches!(r, Err(Error::DirectiveArgumentInvalid(_, _))));
}

#[test]
fn missing_fragment_is_an_error() {
    let schema = ExecSchema::new(demo_schema());
    let r = keys_of(
        &schema,
        &vec![],
        &vec![],
        vec![Selection::FragmentSpread(FragmentSpreadNode {
            name: "nowhere".to_string(),
            directives: vec![],
        })],
    );
    assert!(matches!(r, Err(Error::FragmentNotFound(_))));
}

#[test]
fn unknown_type_condition_is_an_error() {
    let schema = ExecSchema::new(demo_schema());
    let r = keys_of(
        &schema,
        &vec![],
        &vec![],
        vec![Selection::InlineFragment(InlineFragmentNode {
            type_condition: Some("Nowhere".to_string()),
            directives: vec![],
            selection_set: SelectionSet { selections: vec![field("peopleCount")] },
        })],
    );
    assert!(matches!(r, Err(Error::TypeNotFound(_))));
}

#[test]
fn enum_type_condition_is_invalid() {
    let schema = ExecSchema::new(demo_schema());
    let r = keys_of(
        &schema,
        &vec![],
        &vec![],
        vec![Selection::InlineFragment(InlineFragmentNode {
            type_condition: Some("DogBreed".to_string()),
            directives: vec![],
            selection_set: SelectionSet { selections: vec![field("peopleCount")] },
        })],
    );
    assert!(matches!(r, Err(Error::InvalidFragmentTypeCondition(_))));
}

#[test]
fn fragment_spread_applies_by_condition() {
    let schema = ExecSchema::new(demo_schema());
    let fragments = vec![FragmentDefinition {
        name: "counts".to_string(),
        type_condition: "Query".to_string(),
        directives: vec![],
        selection_set: SelectionSet {
            selections: vec![field_full("peopleCount", Some("fromFragment"), vec![], vec![])],
        },
    }];
    let keys = keys_of(
        &schema,
        &fragments,
        &vec![],
        vec![
            field("person"),
            Selection::FragmentSpread(FragmentSpreadNode {
                name: "counts".to_string(),
                directives: vec![],
            }),
        ],
    )
    .unwrap();
    assert_eq!(keys, vec!["person".to_string(), "fromFragment".to_string()]);
}

#[test]
fn cyclic_fragments_are_not_reentered() {
    let schema = ExecSchema::new(demo_schema());
    let fragments = vec![FragmentDefinition {
        name: "loop".to_string(),
        type_condition: "Query".to_string(),
        directives: vec![],
        selection_set: SelectionSet {
            selections: vec![
                field("peopleCount"),
                Selection::FragmentSpread(FragmentSpreadNode {
                    name: "loop".to_string(),
                    directives: vec![],
                }),
            ],
        },
    }];
    let keys = keys_of(
        &schema,
        &fragments,
        &vec![],
        vec![Selection::FragmentSpread(FragmentSpreadNode {
            name: "loop".to_string(),
            directives: vec![],
        })],
    )
    .unwrap();
    assert_eq!(keys, vec!["peopleCount".to_string()]);
}

fn arg_field(args: Vec<Argument>) -> FieldNode {
    FieldNode {
        alias: None,
        name: "f".to_string(),
        arguments: args,
        directives: vec![],
        selection_set: SelectionSet { selections: vec![] },
    }
}

#[test]
fn argument_conversions() {
    let vars = vec![("limit".to_string(), ConstValue::Number(NumberValue::Int(10)))];
    let field = arg_field(vec![
        Argument { name: "s".to_string(), value: DocValue::StrValue("abc".to_string()) },
        Argument { name: "n".to_string(), value: DocValue::IntValue(7) },
        Argument { name: "b".to_string(), value: DocValue::BoolValue(true) },
        Argument { name: "v".to_string(), value: DocValue::Variable("limit".to_string()) },
        Argument { name: "big".to_string(), value: DocValue::IntValue(1 << 40) },
    ]);
    let ctx = Ctx { variables: &vars, field: &field };
    let s: String = ctx.try_arg(&"s".to_string()).unwrap();
    assert_eq!(s, "abc");
    let n: i64 = ctx.try_arg(&"n".to_string()).unwrap();
    assert_eq!(n, 7);
    let n32: i32 = ctx.try_arg(&"n".to_string()).unwrap();
    assert_eq!(n32, 7);
    let b: bool = ctx.try_arg(&"b".to_string()).unwrap();
    assert!(b);
    let v: i64 = ctx.try_arg(&"v".to_string()).unwrap();
    assert_eq!(v, 10);
    let too_big: Result<i32, Error> = ctx.try_arg(&"big".to_string());
    assert!(matches!(too_big, Err(Error::ArgumentInvalid(_))));
    let wrong: Result<bool, Error> = ctx.try_arg(&"s".to_string());
    assert!(matches!(wrong, Err(Error::ArgumentInvalid(_))));
    let absent: Result<String, Error> = ctx.try_arg(&"nope".to_string());
    assert!(matches!(absent, Err(Error::ArgumentInvalid(_))));
    let lenient: Option<String> = ctx.arg(&"nope".to_string());
    assert!(lenient.is_none());
}

#[test]
fn undefined_variable_in_argument() {
    let field = arg_field(vec![Argument {
        name: "v".to_string(),
        value: DocValue::Variable("ghostvar".to_string()),
    }]);
    let vars = vec![];
    let ctx = Ctx { variables: &vars, field: &field };
    let r: Result<i64, Error> = ctx.try_arg(&"v".to_string());
    assert!(matches!(r, Err(Error::ArgumentInvalid(_))));
}
