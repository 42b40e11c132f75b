use query_trails::{
    AccessorKind, CodeGenPass, Diagnostic, FieldDef, Pos, TypeDef,
};

fn named_type(t: &graphql_parser::schema::Type<'static, String>) -> String {
    match t {
        graphql_parser::schema::Type::NamedType(n) => n.clone(),
        graphql_parser::schema::Type::ListType(inner) => named_type(inner),
        graphql_parser::schema::Type::NonNullType(inner) => named_type(inner),
    }
}

fn convert_pos(p: graphql_parser::Pos) -> Pos {
    Pos { line: p.line, column: p.column }
}

fn convert_fields(fields: &[graphql_parser::schema::Field<'static, String>]) -> Vec<FieldDef> {
    fields
        .iter()
        .map(|f| FieldDef {
            name: f.name.clone(),
            target_type: named_type(&f.field_type),
            position: convert_pos(f.position),
        })
        .collect()
}

fn parse_document(schema: &'static str) -> Vec<TypeDef> {
    let doc = graphql_parser::parse_schema::<String>(schema).unwrap();
    let mut out = Vec::new();
    for def in &doc.definitions {
        match def {
            graphql_parser::schema::Definition::TypeDefinition(type_def) => match type_def {
                graphql_parser::schema::TypeDefinition::Object(obj) => out.push(TypeDef::Object {
                    name: obj.name.clone(),
                    fields: convert_fields(&obj.fields),
                }),
                graphql_parser::schema::TypeDefinition::Interface(interface) => {
                    out.push(TypeDef::Interface {
                        name: interface.name.clone(),
                        fields: convert_fields(&interface.fields),
                    })
                }
                graphql_parser::schema::TypeDefinition::Union(union) => out.push(TypeDef::Union {
                    name: union.name.clone(),
                    members: union.types.clone(),
                    position: convert_pos(union.position),
                }),
                _ => out.push(TypeDef::Other),
            },
            _ => out.push(TypeDef::Other),
        }
    }
    out
}

fn standard_scalars() -> Vec<String> {
    vec![
        "Int".to_string(),
        "Float".to_string(),
        "String".to_string(),
        "Boolean".to_string(),
        "ID".to_string(),
    ]
}

fn run_pass(schema: &'static str) -> CodeGenPass {
    let doc = parse_document(schema);
    let mut pass = CodeGenPass::new(standard_scalars());
    pass.gen_query_trails(&doc);
    pass
}

#[test]
fn test_fails_to_generate_query_trail_for_unions_where_fields_dont_overlap() {
    let schema = r#"
        union Entity = User | Company

        type User {
          country: Country!
        }

        type Company {
          country: OtherCountry!
        }

        type Country {
          id: Int!
        }

        type OtherCountry {
          id: Int!
        }
    "#;

    let out = run_pass(schema);

    assert_eq!(1, out.errors.len());
}

#[test]
fn mismatched_union_field_reports_both_types() {
    let schema = r#"
        union Entity = User | Company

        type User {
          country: Country!
        }

        type Company {
          country: OtherCountry!
        }
    "#;

    let out = run_pass(schema);

    assert_eq!(1, out.errors.len());
    let Diagnostic::UnionFieldTypeMismatch {
        union_name,
        field_name,
        type_a,
        type_b,
        field_type_a,
        field_type_b,
        ..
    } = &out.errors[0];
    assert_eq!(union_name, "Entity");
    assert_eq!(field_name, "country");
    assert_eq!(type_a, "User");
    assert_eq!(type_b, "Company");
    assert_eq!(field_type_a, "Country");
    assert_eq!(field_type_b, "OtherCountry");
}

#[test]
fn agreeing_union_fields_give_no_diagnostic_and_one_accessor() {
    let schema = r#"
        union Entity = User | Company

        type User {
          country: Country!
        }

        type Company {
          country: Country!
        }
    "#;

    let out = run_pass(schema);

    assert_eq!(0, out.errors.len());
    let entity = out
        .companions
        .iter()
        .find(|c| c.name == "Entity")
        .expect("companion type for the union");
    assert_eq!(1, entity.accessors.len());
    assert_eq!(entity.accessors[0].wire_name, "country");
    assert_eq!(entity.accessors[0].name, "country");
}

#[test]
fn three_member_union_conflict_between_later_members_reports_once() {
    let schema = r#"
        union Entity = A | B | C

        type A {
          id: Int!
        }

        type B {
          home: Country!
        }

        type C {
          home: OtherCountry!
        }
    "#;

    let out = run_pass(schema);

    assert_eq!(1, out.errors.len());
    let Diagnostic::UnionFieldTypeMismatch { type_a, type_b, field_name, .. } = &out.errors[0];
    assert_eq!(field_name, "home");
    assert_eq!(type_a, "B");
    assert_eq!(type_b, "C");
}

#[test]
fn extremes_disagreeing_while_neighbors_agree_go_unreported() {
    // The scan compares against the most recent declaration only: with the
    // middle member missing the field, the extremes are still adjacent and
    // are reported; with the middle member agreeing with the first, only the
    // second transition is reported.
    let schema = r#"
        union Entity = A | B | C

        type A {
          home: Country!
        }

        type B {
          home: Country!
        }

        type C {
          home: OtherCountry!
        }
    "#;

    let out = run_pass(schema);

    assert_eq!(1, out.errors.len());
    let Diagnostic::UnionFieldTypeMismatch { type_a, type_b, .. } = &out.errors[0];
    assert_eq!(type_a, "B");
    assert_eq!(type_b, "C");
}

#[test]
fn object_accessors_keep_declaration_order_and_are_presence_checks() {
    let schema = r#"
        type Foo {
          id: Int!
          name: String!
        }
    "#;

    let out = run_pass(schema);

    assert_eq!(0, out.errors.len());
    assert_eq!(1, out.companions.len());
    let foo = &out.companions[0];
    assert_eq!(foo.name, "Foo");
    assert_eq!(2, foo.accessors.len());
    assert_eq!(foo.accessors[0].name, "id");
    assert_eq!(foo.accessors[1].name, "name");
    assert!(matches!(foo.accessors[0].kind, AccessorKind::Presence));
    assert!(matches!(foo.accessors[1].kind, AccessorKind::Presence));
}

#[test]
fn composite_field_gets_nested_trail_accessor_independent_of_nullability() {
    let schema = r#"
        type Foo {
          friend: Person
          bestFriend: Person!
        }
    "#;

    let out = run_pass(schema);

    let foo = &out.companions[0];
    assert_eq!(2, foo.accessors.len());
    assert_eq!(foo.accessors[0].name, "friend");
    match &foo.accessors[0].kind {
        AccessorKind::Trail { target } => assert_eq!(target, "Person"),
        AccessorKind::Presence => panic!("expected a nested-trail accessor"),
    }
    assert_eq!(foo.accessors[1].name, "best_friend");
    assert_eq!(foo.accessors[1].wire_name, "bestFriend");
    match &foo.accessors[1].kind {
        AccessorKind::Trail { target } => assert_eq!(target, "Person"),
        AccessorKind::Presence => panic!("expected a nested-trail accessor"),
    }
}

#[test]
fn interface_fields_are_taken_directly() {
    let schema = r#"
        interface Named {
          displayName: String!
          avatar: Image
        }
    "#;

    let out = run_pass(schema);

    assert_eq!(1, out.companions.len());
    let named = &out.companions[0];
    assert_eq!(named.name, "Named");
    assert_eq!(2, named.accessors.len());
    assert_eq!(named.accessors[0].name, "display_name");
    assert!(matches!(named.accessors[0].kind, AccessorKind::Presence));
    match &named.accessors[1].kind {
        AccessorKind::Trail { target } => assert_eq!(target, "Image"),
        AccessorKind::Presence => panic!("expected a nested-trail accessor"),
    }
}

#[test]
fn union_accessor_names_cover_distinct_member_field_names() {
    let schema = r#"
        union Entity = User | Company

        type User {
          id: Int!
          name: String!
        }

        type Company {
          name: String!
          vatNumber: String!
        }
    "#;

    let out = run_pass(schema);

    let entity = out
        .companions
        .iter()
        .find(|c| c.name == "Entity")
        .expect("companion type for the union");
    let mut wire_names: Vec<&str> =
        entity.accessors.iter().map(|a| a.wire_name.as_str()).collect();
    wire_names.sort();
    assert_eq!(wire_names, vec!["id", "name", "vatNumber"]);
}

#[test]
fn union_member_without_indexed_fields_is_skipped() {
    let schema = r#"
        union Entity = Ghostly | User

        interface Ghostly {
          spooky: Boolean!
        }

        type User {
          id: Int!
        }
    "#;

    let out = run_pass(schema);

    assert_eq!(0, out.errors.len());
    let entity = out
        .companions
        .iter()
        .find(|c| c.name == "Entity")
        .expect("companion type for the union");
    assert_eq!(1, entity.accessors.len());
    assert_eq!(entity.accessors[0].wire_name, "id");
}

#[test]
fn scalar_and_enum_definitions_are_inert() {
    let schema = r#"
        scalar DateTime

        enum Color {
          RED
          GREEN
        }

        input NewUser {
          name: String!
        }

        type User {
          id: Int!
        }
    "#;

    let out = run_pass(schema);

    assert_eq!(1, out.companions.len());
    assert_eq!(out.companions[0].name, "User");
}

#[test]
fn object_with_no_fields_gets_empty_companion() {
    let doc = vec![
        TypeDef::Object { name: "Empty".to_string(), fields: vec![] },
        TypeDef::Union {
            name: "Lonely".to_string(),
            members: vec!["Empty".to_string(), "Unknown".to_string()],
            position: Pos { line: 1, column: 1 },
        },
    ];
    let mut pass = CodeGenPass::new(standard_scalars());
    pass.gen_query_trails(&doc);

    assert_eq!(0, pass.errors.len());
    assert_eq!(2, pass.companions.len());
    assert_eq!(pass.companions[0].name, "Empty");
    assert_eq!(0, pass.companions[0].accessors.len());
    assert_eq!(pass.companions[1].name, "Lonely");
    assert_eq!(0, pass.companions[1].accessors.len());
}

#[test]
fn repeated_runs_agree_on_diagnostics_and_accessor_names() {
    let schema = r#"
        union Entity = User | Company

        type User {
          country: Country!
          id: Int!
        }

        type Company {
          country: OtherCountry!
          name: String!
        }
    "#;

    let a = run_pass(schema);
    let b = run_pass(schema);

    assert_eq!(a.errors.len(), b.errors.len());
    for (da, db) in a.errors.iter().zip(b.errors.iter()) {
        assert!(da.same_as(db));
    }
    assert_eq!(a.companions.len(), b.companions.len());
    for (ca, cb) in a.companions.iter().zip(b.companions.iter()) {
        assert_eq!(ca.name, cb.name);
        let names_a: Vec<&str> = ca.accessors.iter().map(|x| x.name.as_str()).collect();
        let names_b: Vec<&str> = cb.accessors.iter().map(|x| x.name.as_str()).collect();
        assert_eq!(names_a, names_b);
    }
}

#[test]
fn duplicate_diagnostics_collapse_in_the_sink() {
    // A repeated membership pattern re-derives the same mismatch; the sink
    // keeps set semantics, so it is recorded once per distinct report.
    let schema = r#"
        union Entity = User | Company | User | Company

        type User {
          country: Country!
        }

        type Company {
          country: OtherCountry!
        }
    "#;

    let out = run_pass(schema);

    // User->Company and Company->User transitions each mismatch once; the
    // second User->Company occurrence repeats the first report exactly.
    assert_eq!(2, out.errors.len());
}

#[test]
fn repeated_object_definitions_accumulate_fields_in_the_index() {
    let schema = r#"
        union Only = User

        type User {
          id: Int!
        }

        type User {
          name: String!
        }
    "#;

    let out = run_pass(schema);

    let only = out
        .companions
        .iter()
        .find(|c| c.name == "Only")
        .expect("companion type for the union");
    let mut wire_names: Vec<&str> = only.accessors.iter().map(|a| a.wire_name.as_str()).collect();
    wire_names.sort();
    assert_eq!(wire_names, vec!["id", "name"]);
}

fn sample_diag(field_name: &str) -> Diagnostic {
    Diagnostic::UnionFieldTypeMismatch {
        position: Pos { line: 1, column: 1 },
        union_name: "Entity".to_string(),
        field_name: field_name.to_string(),
        type_a: "User".to_string(),
        type_b: "Company".to_string(),
        field_type_a: "Country".to_string(),
        field_type_b: "OtherCountry".to_string(),
    }
}

#[test]
fn sink_insertion_has_set_semantics() {
    let mut errors: Vec<Diagnostic> = Vec::new();
    query_trails::emit_non_fatal_error(&mut errors, sample_diag("country"));
    query_trails::emit_non_fatal_error(&mut errors, sample_diag("country"));
    assert_eq!(1, errors.len());
    query_trails::emit_non_fatal_error(&mut errors, sample_diag("region"));
    assert_eq!(2, errors.len());
}

#[test]
fn snake_case_normalization_changes_the_wire_name() {
    let schema = r#"
        type Foo {
          fooBarBaz: Int!
        }
    "#;

    let out = run_pass(schema);

    let foo = &out.companions[0];
    assert_eq!(foo.accessors[0].wire_name, "fooBarBaz");
    assert_eq!(foo.accessors[0].name, "foo_bar_baz");
}

#[test]
fn camel_case_normalization_changes_the_target_name() {
    let schema = r#"
        type Foo {
          homeAddress: postal_address
        }
    "#;

    let out = run_pass(schema);

    let foo = &out.companions[0];
    match &foo.accessors[0].kind {
        AccessorKind::Trail { target } => assert_eq!(target, "PostalAddress"),
        AccessorKind::Presence => panic!("expected a nested-trail accessor"),
    }
}
