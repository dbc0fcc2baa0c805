use schema_resolver::objects::{Entity, EntityTag, Object, ObjectId, QualifiedName, Schema};
use schema_resolver::order::{rank_schemas, rank_strings, Rank};
use std::cmp::Ordering;

fn name(name: &str) -> QualifiedName {
    QualifiedName::unqualified(name.to_string())
}

fn qualified(schema: &str, name: &str) -> QualifiedName {
    QualifiedName::qualified(schema.to_string(), name.to_string())
}

#[test]
fn unqualified_name_has_no_schema() {
    let n = name("orders");
    assert_eq!(n.name, "orders");
    assert_eq!(n.schema_name, None);
}

#[test]
fn qualified_name_keeps_both_parts() {
    let n = qualified("sales", "orders");
    assert_eq!(n.name, "orders");
    assert_eq!(n.schema_name, Some("sales".to_string()));
}

#[test]
fn names_are_equal_when_both_parts_are() {
    assert_eq!(name("orders"), name("orders"));
    assert_eq!(qualified("sales", "orders"), qualified("sales", "orders"));
    assert_ne!(name("orders"), name("customers"));
    assert_ne!(qualified("sales", "orders"), qualified("stock", "orders"));
    assert_ne!(qualified("sales", "orders"), qualified("sales", "customers"));
}

#[test]
fn qualified_and_unqualified_names_differ() {
    assert_ne!(qualified("public", "orders"), name("orders"));
    assert_ne!(name("orders"), qualified("public", "orders"));
    assert_ne!(qualified("", "orders"), name("orders"));
}

#[test]
fn names_are_ordered_by_schema_then_name() {
    // No schema sorts before any schema.
    assert!(name("zebra") < qualified("a", "apple"));
    // The schema decides before the name.
    assert!(qualified("a", "zebra") < qualified("b", "apple"));
    // Within one schema the name decides.
    assert!(qualified("a", "apple") < qualified("a", "zebra"));
    assert!(name("apple") < name("zebra"));
    let mut names = vec![
        qualified("b", "x"),
        name("y"),
        qualified("a", "z"),
        qualified("a", "c"),
        name("b"),
    ];
    names.sort();
    assert_eq!(
        names,
        vec![name("b"), name("y"), qualified("a", "c"), qualified("a", "z"), qualified("b", "x")]
    );
}

#[test]
fn a_cloned_name_is_equal() {
    let n = qualified("sales", "orders");
    assert_eq!(n.clone(), n);
    let m = name("orders");
    assert_eq!(m.clone(), m);
}

#[test]
fn every_entity_has_its_tag() {
    assert_eq!(Entity::Schema(Schema { owner: None }).tag(), EntityTag::Schema);
    assert_eq!(Entity::Schema(Schema { owner: Some("joe".to_string()) }).tag(), EntityTag::Schema);
    assert_eq!(Entity::Table.tag(), EntityTag::Table);
    assert_eq!(Entity::ForeignServer.tag(), EntityTag::ForeignServer);
    assert_eq!(Entity::ForeignTable.tag(), EntityTag::ForeignTable);
    assert_eq!(Entity::Function.tag(), EntityTag::Function);
    assert_eq!(Entity::MaterializedView.tag(), EntityTag::MaterializedView);
    assert_eq!(Entity::Tablespace.tag(), EntityTag::Tablespace);
    assert_eq!(Entity::Type.tag(), EntityTag::Type);
    assert_eq!(Entity::View.tag(), EntityTag::View);
    assert_eq!(Entity::Collation.tag(), EntityTag::Collation);
    assert_eq!(Entity::Placeholder(EntityTag::Table).tag(), EntityTag::Placeholder);
}

#[test]
fn only_a_placeholder_is_not_concrete() {
    assert!(Entity::Table.is_concrete());
    assert!(Entity::Collation.is_concrete());
    assert!(Entity::Schema(Schema { owner: None }).is_concrete());
    assert!(!Entity::Placeholder(EntityTag::Table).is_concrete());
    assert!(!Entity::Placeholder(EntityTag::Placeholder).is_concrete());
}

#[test]
fn entities_are_equal_when_kind_and_content_are() {
    assert_eq!(Entity::Table, Entity::Table);
    assert_ne!(Entity::Table, Entity::View);
    assert_eq!(Entity::Placeholder(EntityTag::Type), Entity::Placeholder(EntityTag::Type));
    assert_ne!(Entity::Placeholder(EntityTag::Type), Entity::Placeholder(EntityTag::Table));
    assert_ne!(Entity::Placeholder(EntityTag::Table), Entity::Table);
    assert_ne!(Entity::Table, Entity::Placeholder(EntityTag::Table));
    assert_eq!(
        Entity::Schema(Schema { owner: Some("joe".to_string()) }),
        Entity::Schema(Schema { owner: Some("joe".to_string()) })
    );
    assert_ne!(
        Entity::Schema(Schema { owner: Some("joe".to_string()) }),
        Entity::Schema(Schema { owner: None })
    );
    assert_ne!(Entity::Schema(Schema { owner: None }), Entity::Table);
    assert_ne!(Entity::Table, Entity::Schema(Schema { owner: None }));
}

#[test]
fn a_cloned_entity_is_equal() {
    let all = vec![
        Entity::Schema(Schema { owner: Some("joe".to_string()) }),
        Entity::Schema(Schema { owner: None }),
        Entity::Table,
        Entity::ForeignServer,
        Entity::ForeignTable,
        Entity::Function,
        Entity::MaterializedView,
        Entity::Tablespace,
        Entity::Type,
        Entity::View,
        Entity::Collation,
        Entity::Placeholder(EntityTag::View),
    ];
    for e in all.iter() {
        assert_eq!(e.clone(), *e);
    }
}

#[test]
fn objects_are_equal_when_name_and_entity_are() {
    let a = Object { name: name("t"), entity: Entity::Table };
    assert_eq!(a.clone(), a);
    assert_ne!(a, Object { name: name("t"), entity: Entity::View });
    assert_ne!(a, Object { name: name("u"), entity: Entity::Table });
    assert_ne!(a, Object { name: qualified("s", "t"), entity: Entity::Table });
}

#[test]
fn identities_compare_by_position() {
    assert_eq!(ObjectId(3), ObjectId(3));
    assert_ne!(ObjectId(3), ObjectId(4));
    assert!(ObjectId(3) < ObjectId(4));
}

#[test]
fn strings_are_ranked_by_their_bytes() {
    let rank = |a: &str, b: &str| rank_strings(&a.to_string(), &b.to_string());
    assert_eq!(rank("", ""), Rank::Same);
    assert_eq!(rank("", "a"), Rank::Before);
    assert_eq!(rank("a", ""), Rank::After);
    assert_eq!(rank("abc", "abc"), Rank::Same);
    assert_eq!(rank("ab", "abc"), Rank::Before);
    assert_eq!(rank("abc", "ab"), Rank::After);
    assert_eq!(rank("abc", "abd"), Rank::Before);
    assert_eq!(rank("b", "abc"), Rank::After);
    assert_eq!(rank("Z", "a"), Rank::Before);
    // Beyond ASCII the bytes of the UTF-8 form decide.
    assert_eq!(rank("z", "\u{e9}"), Rank::Before);
    assert_eq!(rank("\u{e9}", "\u{4e2d}"), Rank::Before);
    assert_eq!(rank("\u{1f600}", "\u{4e2d}"), Rank::After);
}

#[test]
fn no_schema_ranks_before_any_schema() {
    let some = |s: &str| Some(s.to_string());
    assert_eq!(rank_schemas(&None, &None), Rank::Same);
    assert_eq!(rank_schemas(&None, &some("")), Rank::Before);
    assert_eq!(rank_schemas(&some(""), &None), Rank::After);
    assert_eq!(rank_schemas(&some("a"), &some("b")), Rank::Before);
    assert_eq!(rank_schemas(&some("b"), &some("a")), Rank::After);
    assert_eq!(rank_schemas(&some("a"), &some("a")), Rank::Same);
}

#[test]
fn names_are_ranked_by_schema_then_name() {
    assert_eq!(name("zebra").rank(&qualified("a", "apple")), Rank::Before);
    assert_eq!(qualified("a", "apple").rank(&name("zebra")), Rank::After);
    assert_eq!(qualified("a", "zebra").rank(&qualified("b", "apple")), Rank::Before);
    assert_eq!(qualified("a", "apple").rank(&qualified("a", "zebra")), Rank::Before);
    assert_eq!(qualified("a", "zebra").rank(&qualified("a", "apple")), Rank::After);
    assert_eq!(qualified("a", "apple").rank(&qualified("a", "apple")), Rank::Same);
    assert_eq!(name("apple").rank(&name("apple")), Rank::Same);
}

#[test]
fn both_orders_of_names_agree() {
    let strings = ["", "a", "ab", "abc", "b", "B", "_x", "\u{e9}", "\u{4e2d}", "z"];
    let mut names: Vec<QualifiedName> = Vec::new();
    for n in strings.iter() {
        names.push(name(n));
        for s in strings.iter() {
            names.push(qualified(s, n));
        }
    }
    for a in names.iter() {
        for b in names.iter() {
            let expected = match a.rank(b) {
                Rank::Before => Ordering::Less,
                Rank::Same => Ordering::Equal,
                Rank::After => Ordering::Greater,
            };
            assert_eq!(a.partial_cmp(b), Some(expected));
            assert_eq!(a.cmp(b), expected);
            assert_eq!(a == b, expected == Ordering::Equal);
            assert_eq!(a < b, expected == Ordering::Less);
        }
    }
}
