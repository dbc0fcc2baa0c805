use schema_resolver::objects::{Entity, EntityTag, Object, ObjectId, QualifiedName, Schema};
use schema_resolver::parser::{
    range_var_name, schema_qualified_name, Error, FileId, SchemaParser,
};
use schema_resolver::ast::{RangeVar, Unsupported};

fn name(name: &str) -> QualifiedName {
    QualifiedName::unqualified(name.to_string())
}

fn qualified(schema: &str, name: &str) -> QualifiedName {
    QualifiedName::qualified(schema.to_string(), name.to_string())
}

fn object(n: QualifiedName, entity: Entity) -> Object {
    Object { name: n, entity }
}

fn parts(parts: &[&str]) -> Vec<String> {
    parts.iter().map(|p| p.to_string()).collect()
}

#[test]
fn a_new_engine_is_empty() {
    let engine = SchemaParser::new();
    assert!(engine.objects().is_empty());
    assert!(engine.files().is_empty());
    assert_eq!(engine.find(&name("t")), None);
}

#[test]
fn an_opened_file_has_empty_lists() {
    let engine = SchemaParser::new();
    let batch = engine.open_file("a.sql".to_string());
    assert_eq!(batch.file(), "a.sql");
    assert!(batch.creations().is_empty());
    assert!(batch.dependencies().is_empty());
}

#[test]
fn defining_an_unknown_name_adds_an_object() {
    let mut engine = SchemaParser::new();
    let mut batch = engine.open_file("a.sql".to_string());
    let id = engine.create_object(&mut batch, object(name("t"), Entity::Table)).unwrap();
    assert_eq!(id, ObjectId(0));
    assert_eq!(engine.objects().len(), 1);
    assert_eq!(*engine.get_object(id), object(name("t"), Entity::Table));
    assert_eq!(*batch.creations(), vec![ObjectId(0)]);
    assert!(batch.dependencies().is_empty());
    assert_eq!(engine.find(&name("t")), Some(ObjectId(0)));
}

#[test]
fn referencing_an_unknown_name_adds_a_placeholder() {
    let mut engine = SchemaParser::new();
    let mut batch = engine.open_file("a.sql".to_string());
    let id = engine.register_dep(&mut batch, name("integer"), EntityTag::Type);
    assert_eq!(id, ObjectId(0));
    assert_eq!(
        *engine.get_object(id),
        object(name("integer"), Entity::Placeholder(EntityTag::Type))
    );
    assert!(batch.creations().is_empty());
    assert_eq!(*batch.dependencies(), vec![ObjectId(0)]);
}

#[test]
fn returned_identities_resolve_to_the_name_passed_in() {
    let mut engine = SchemaParser::new();
    let mut batch = engine.open_file("a.sql".to_string());
    let a = engine.register_dep(&mut batch, qualified("s", "a"), EntityTag::Table);
    let b = engine.create_object(&mut batch, object(name("b"), Entity::View)).unwrap();
    let c = engine.register_dep(&mut batch, name("b"), EntityTag::Table);
    let d = engine.create_object(&mut batch, object(qualified("s", "a"), Entity::Table)).unwrap();
    let e = engine.register_dep(&mut batch, name("a"), EntityTag::Type);
    assert_eq!(engine.get_object(a).name, qualified("s", "a"));
    assert_eq!(engine.get_object(b).name, name("b"));
    assert_eq!(engine.get_object(c).name, name("b"));
    assert_eq!(engine.get_object(d).name, qualified("s", "a"));
    assert_eq!(engine.get_object(e).name, name("a"));
    assert_eq!((a, b, c, d, e), (ObjectId(0), ObjectId(1), ObjectId(1), ObjectId(0), ObjectId(2)));
}

#[test]
fn no_name_has_two_objects() {
    let mut engine = SchemaParser::new();
    let mut batch = engine.open_file("a.sql".to_string());
    engine.register_dep(&mut batch, name("a"), EntityTag::Table);
    engine.register_dep(&mut batch, name("a"), EntityTag::Table);
    engine.create_object(&mut batch, object(name("a"), Entity::Table)).unwrap();
    assert!(engine.create_object(&mut batch, object(name("a"), Entity::Table)).is_err());
    engine.register_dep(&mut batch, name("a"), EntityTag::View);
    engine.create_object(&mut batch, object(name("b"), Entity::Table)).unwrap();
    engine.register_dep(&mut batch, name("b"), EntityTag::Table);
    let objects = engine.objects();
    assert_eq!(objects.len(), 2);
    for i in 0..objects.len() {
        for j in 0..objects.len() {
            if i != j {
                assert_ne!(objects[i].name, objects[j].name);
            }
        }
    }
}

#[test]
fn referencing_twice_returns_the_same_identity() {
    let mut engine = SchemaParser::new();
    let mut batch = engine.open_file("a.sql".to_string());
    let first = engine.register_dep(&mut batch, name("customers"), EntityTag::Table);
    let second = engine.register_dep(&mut batch, name("customers"), EntityTag::Table);
    assert_eq!(first, second);
    assert_eq!(engine.objects().len(), 1);
    assert_eq!(*batch.dependencies(), vec![first]);
}

#[test]
fn a_reference_checks_no_kind() {
    let mut engine = SchemaParser::new();
    let mut batch = engine.open_file("a.sql".to_string());
    let table = engine.create_object(&mut batch, object(name("t"), Entity::Table)).unwrap();
    let stub = engine.register_dep(&mut batch, name("u"), EntityTag::Table);
    // Neither a concrete object nor a placeholder is held against the kind
    // that a later reference expects.
    assert_eq!(engine.register_dep(&mut batch, name("t"), EntityTag::View), table);
    assert_eq!(engine.register_dep(&mut batch, name("u"), EntityTag::Type), stub);
    assert_eq!(*engine.get_object(table), object(name("t"), Entity::Table));
    assert_eq!(
        *engine.get_object(stub),
        object(name("u"), Entity::Placeholder(EntityTag::Table))
    );
    assert_eq!(*batch.dependencies(), vec![stub]);
}

#[test]
fn a_placeholder_is_upgraded_under_its_identity() {
    let mut engine = SchemaParser::new();
    let mut batch = engine.open_file("a.sql".to_string());
    let stub = engine.register_dep(&mut batch, name("customers"), EntityTag::Table);
    let other = engine.register_dep(&mut batch, name("integer"), EntityTag::Type);
    let defined =
        engine.create_object(&mut batch, object(name("customers"), Entity::Table)).unwrap();
    assert_eq!(defined, stub);
    assert_eq!(engine.objects().len(), 2);
    assert_eq!(*engine.get_object(stub), object(name("customers"), Entity::Table));
    assert_eq!(
        *engine.get_object(other),
        object(name("integer"), Entity::Placeholder(EntityTag::Type))
    );
    assert_eq!(*batch.creations(), vec![stub]);
    assert_eq!(*batch.dependencies(), vec![stub, other]);
}

#[test]
fn a_schema_placeholder_is_upgraded_with_its_owner() {
    let mut engine = SchemaParser::new();
    let mut batch = engine.open_file("a.sql".to_string());
    let stub = engine.register_dep(&mut batch, name("s"), EntityTag::Schema);
    let schema = Entity::Schema(Schema { owner: Some("joe".to_string()) });
    let defined = engine.create_object(&mut batch, object(name("s"), schema.clone())).unwrap();
    assert_eq!(defined, stub);
    assert_eq!(engine.get_object(stub).entity, schema);
}

#[test]
fn a_definition_of_another_kind_is_a_type_conflict() {
    let mut engine = SchemaParser::new();
    let mut batch = engine.open_file("a.sql".to_string());
    engine.register_dep(&mut batch, name("customers"), EntityTag::Table);
    let r = engine.create_object(&mut batch, object(name("customers"), Entity::View));
    assert_eq!(
        r,
        Err(Error::TypeConflict {
            file: "a.sql".to_string(),
            name: name("customers"),
            expected: EntityTag::Table,
            actual: EntityTag::View,
        })
    );
    // The fault changes nothing.
    assert_eq!(
        *engine.get_object(ObjectId(0)),
        object(name("customers"), Entity::Placeholder(EntityTag::Table))
    );
    assert!(batch.creations().is_empty());
    assert_eq!(*batch.dependencies(), vec![ObjectId(0)]);
}

#[test]
fn a_second_definition_is_a_redefinition() {
    let mut engine = SchemaParser::new();
    let mut batch = engine.open_file("a.sql".to_string());
    engine.create_object(&mut batch, object(name("t"), Entity::Table)).unwrap();
    let same = engine.create_object(&mut batch, object(name("t"), Entity::Table));
    assert_eq!(
        same,
        Err(Error::Redefinition {
            file: "a.sql".to_string(),
            name: name("t"),
            previous: EntityTag::Table,
            new: EntityTag::Table,
        })
    );
    let other = engine.create_object(&mut batch, object(name("t"), Entity::View));
    assert_eq!(
        other,
        Err(Error::Redefinition {
            file: "a.sql".to_string(),
            name: name("t"),
            previous: EntityTag::Table,
            new: EntityTag::View,
        })
    );
    assert_eq!(engine.objects().len(), 1);
    assert_eq!(*batch.creations(), vec![ObjectId(0)]);
}

#[test]
fn an_upgraded_placeholder_cannot_be_defined_again() {
    let mut engine = SchemaParser::new();
    let mut batch = engine.open_file("a.sql".to_string());
    engine.register_dep(&mut batch, name("t"), EntityTag::Table);
    engine.create_object(&mut batch, object(name("t"), Entity::Table)).unwrap();
    let r = engine.create_object(&mut batch, object(name("t"), Entity::Table));
    assert_eq!(
        r,
        Err(Error::Redefinition {
            file: "a.sql".to_string(),
            name: name("t"),
            previous: EntityTag::Table,
            new: EntityTag::Table,
        })
    );
}

#[test]
fn a_type_conflict_names_the_file_that_defines() {
    let mut engine = SchemaParser::new();
    let mut a = engine.open_file("a.sql".to_string());
    engine.register_dep(&mut a, name("customers"), EntityTag::Table);
    engine.insert_file(a);
    let mut b = engine.open_file("b.sql".to_string());
    let r = engine.create_object(&mut b, object(name("customers"), Entity::View));
    assert_eq!(
        r,
        Err(Error::TypeConflict {
            file: "b.sql".to_string(),
            name: name("customers"),
            expected: EntityTag::Table,
            actual: EntityTag::View,
        })
    );
}

#[test]
fn assert_can_replace_tells_the_three_cases() {
    let engine = SchemaParser::new();
    let batch = engine.open_file("a.sql".to_string());
    let stub = object(name("t"), Entity::Placeholder(EntityTag::Table));
    let table = object(name("t"), Entity::Table);
    let view = object(name("t"), Entity::View);
    assert_eq!(SchemaParser::assert_can_replace(&batch, &stub, &table), Ok(()));
    assert_eq!(
        SchemaParser::assert_can_replace(&batch, &stub, &view),
        Err(Error::TypeConflict {
            file: "a.sql".to_string(),
            name: name("t"),
            expected: EntityTag::Table,
            actual: EntityTag::View,
        })
    );
    assert_eq!(
        SchemaParser::assert_can_replace(&batch, &table, &view),
        Err(Error::Redefinition {
            file: "a.sql".to_string(),
            name: name("t"),
            previous: EntityTag::Table,
            new: EntityTag::View,
        })
    );
}

#[test]
fn qualified_and_unqualified_names_are_distinct_keys() {
    let mut engine = SchemaParser::new();
    let mut batch = engine.open_file("a.sql".to_string());
    let plain = engine.create_object(&mut batch, object(name("t"), Entity::Table)).unwrap();
    let public =
        engine.create_object(&mut batch, object(qualified("public", "t"), Entity::Table)).unwrap();
    assert_ne!(plain, public);
    assert_eq!(engine.objects().len(), 2);
    assert_eq!(engine.find(&name("t")), Some(plain));
    assert_eq!(engine.find(&qualified("public", "t")), Some(public));
    assert_eq!(engine.find(&qualified("other", "t")), None);
}

#[test]
fn a_closed_file_is_appended_to_the_history() {
    let mut engine = SchemaParser::new();
    let mut a = engine.open_file("a.sql".to_string());
    engine.create_object(&mut a, object(name("t"), Entity::Table)).unwrap();
    engine.register_dep(&mut a, name("integer"), EntityTag::Type);
    let first = engine.insert_file(a);
    let mut b = engine.open_file("b.sql".to_string());
    engine.register_dep(&mut b, name("t"), EntityTag::Table);
    engine.create_object(&mut b, object(name("integer"), Entity::Type)).unwrap();
    let second = engine.insert_file(b);
    assert_eq!(first, FileId(0));
    assert_eq!(second, FileId(1));
    assert_eq!(*engine.files(), vec!["a.sql".to_string(), "b.sql".to_string()]);
    assert_eq!(engine.get_file(first), "a.sql");
    assert_eq!(engine.get_file(second), "b.sql");
    assert_eq!(*engine.creations(first), vec![ObjectId(0)]);
    assert_eq!(*engine.dependencies(first), vec![ObjectId(1)]);
    assert_eq!(*engine.creations(second), vec![ObjectId(1)]);
    assert!(engine.dependencies(second).is_empty());
}

#[test]
fn the_lists_hold_what_is_concrete_and_what_was_referenced_first() {
    let mut engine = SchemaParser::new();
    let mut a = engine.open_file("a.sql".to_string());
    let x = engine.register_dep(&mut a, name("x"), EntityTag::Table);
    let y = engine.create_object(&mut a, object(name("y"), Entity::Table)).unwrap();
    let z = engine.register_dep(&mut a, name("z"), EntityTag::Type);
    let fa = engine.insert_file(a);
    let mut b = engine.open_file("b.sql".to_string());
    engine.create_object(&mut b, object(name("x"), Entity::Table)).unwrap();
    engine.register_dep(&mut b, name("y"), EntityTag::Table);
    let w = engine.register_dep(&mut b, name("w"), EntityTag::Collation);
    let fb = engine.insert_file(b);

    let mut created: Vec<ObjectId> = Vec::new();
    created.extend(engine.creations(fa).iter());
    created.extend(engine.creations(fb).iter());
    created.sort();
    let mut concrete: Vec<ObjectId> = Vec::new();
    for (i, o) in engine.objects().iter().enumerate() {
        if o.entity.is_concrete() {
            concrete.push(ObjectId(i));
        }
    }
    assert_eq!(created, concrete);
    assert_eq!(created, vec![x, y]);

    let mut referenced: Vec<ObjectId> = Vec::new();
    referenced.extend(engine.dependencies(fa).iter());
    referenced.extend(engine.dependencies(fb).iter());
    referenced.sort();
    assert_eq!(referenced, vec![x, z, w]);
}

#[test]
fn a_rollback_restores_the_arena() {
    let mut engine = SchemaParser::new();
    let mut a = engine.open_file("a.sql".to_string());
    engine.register_dep(&mut a, name("customers"), EntityTag::Table);
    engine.create_object(&mut a, object(name("orders"), Entity::Table)).unwrap();
    engine.insert_file(a);
    let mut b = engine.open_file("b.sql".to_string());
    engine.create_object(&mut b, object(name("customers"), Entity::Table)).unwrap();
    engine.create_object(&mut b, object(name("items"), Entity::Table)).unwrap();
    engine.register_dep(&mut b, name("integer"), EntityTag::Type);
    engine.create_object(&mut b, object(name("integer"), Entity::Type)).unwrap();
    assert_eq!(engine.objects().len(), 4);
    engine.rollback(b);
    assert_eq!(
        *engine.objects(),
        vec![
            object(name("customers"), Entity::Placeholder(EntityTag::Table)),
            object(name("orders"), Entity::Table),
        ]
    );
    assert_eq!(*engine.files(), vec!["a.sql".to_string()]);
    assert_eq!(*engine.creations(FileId(0)), vec![ObjectId(1)]);
    assert_eq!(*engine.dependencies(FileId(0)), vec![ObjectId(0)]);
}

#[test]
fn one_part_makes_a_name_without_schema() {
    let engine = SchemaParser::new();
    let batch = engine.open_file("a.sql".to_string());
    assert_eq!(schema_qualified_name(&batch, &parts(&["integer"])), Ok(name("integer")));
}

#[test]
fn two_parts_make_a_schema_and_a_name() {
    let engine = SchemaParser::new();
    let batch = engine.open_file("a.sql".to_string());
    assert_eq!(
        schema_qualified_name(&batch, &parts(&["pg_catalog", "int4"])),
        Ok(qualified("pg_catalog", "int4"))
    );
}

#[test]
fn any_other_number_of_parts_is_a_malformed_name() {
    let engine = SchemaParser::new();
    let batch = engine.open_file("a.sql".to_string());
    assert_eq!(
        schema_qualified_name(&batch, &parts(&[])),
        Err(Error::MalformedName { file: "a.sql".to_string(), parts: vec![] })
    );
    assert_eq!(
        schema_qualified_name(&batch, &parts(&["db", "s", "t"])),
        Err(Error::MalformedName { file: "a.sql".to_string(), parts: parts(&["db", "s", "t"]) })
    );
    assert_eq!(
        schema_qualified_name(&batch, &parts(&["a", "b", "c", "d"])),
        Err(Error::MalformedName {
            file: "a.sql".to_string(),
            parts: parts(&["a", "b", "c", "d"]),
        })
    );
}

#[test]
fn a_relation_gives_its_name() {
    let plain = RangeVar { schemaname: None, relname: "t".to_string() };
    let in_schema = RangeVar { schemaname: Some("s".to_string()), relname: "t".to_string() };
    assert_eq!(range_var_name(&plain), name("t"));
    assert_eq!(range_var_name(&in_schema), qualified("s", "t"));
}

#[test]
fn an_unsupported_fault_names_file_and_statement() {
    let engine = SchemaParser::new();
    let batch = engine.open_file("a.sql".to_string());
    assert_eq!(
        batch.unsupported(Unsupported::VariableSet),
        Error::UnsupportedStatement {
            file: "a.sql".to_string(),
            statement: Unsupported::VariableSet,
        }
    );
}
