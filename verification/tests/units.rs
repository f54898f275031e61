use ciboulette2postgres::builder::Ciboulette2PostgresBuilder;
use ciboulette2postgres::error::Ciboulette2SqlError;
use ciboulette2postgres::graph::CibouletteStore;
use ciboulette2postgres::graph_walker::{
    check_one_to_many_relationships, fill_attributes, get_many_to_many_relationships,
    get_relationships, get_resource_single_rel,
};
use ciboulette2postgres::ident::Ciboulette2PostgresSafeIdent;
use ciboulette2postgres::model::{
    AttributeKind, AttributeObject, AttributeValue, Ciboulette2SqlValue, CibouletteId, CibouletteIdType,
    CibouletteOptionalData, CibouletteQueryParameters, CibouletteRelationshipManyToManyOption,
    CibouletteRelationshipOneToManyOption, CibouletteRelationshipOption, CibouletteResourceType,
    CibouletteSchemaProperty,
};
use ciboulette2postgres::model::{find_key, keys_are_ordered, properties_are_ordered, str_lt};
use ciboulette2postgres::table::{Ciboulette2PostgresTableField, Ciboulette2PostgresTableSettings};

fn ident(s: &str) -> Ciboulette2PostgresSafeIdent {
    Ciboulette2PostgresSafeIdent::try_from_str(s).unwrap()
}

fn rtype(name: &str, props: &[&str], aliases: &[(&str, &str)]) -> CibouletteResourceType {
    CibouletteResourceType {
        name: name.to_string(),
        id_type: CibouletteIdType::Number,
        properties: props
            .iter()
            .map(|p| CibouletteSchemaProperty { name: p.to_string(), is_object: false })
            .collect(),
        relationships_type_to_alias: aliases.iter().map(|(t, a)| (t.to_string(), a.to_string())).collect(),
    }
}

fn o2m(one: &str, many: &str, key: &str, optional: bool) -> CibouletteRelationshipOneToManyOption {
    CibouletteRelationshipOneToManyOption {
        one_table: one.to_string(),
        one_table_id_type: CibouletteIdType::Uuid,
        many_table: many.to_string(),
        many_table_key: key.to_string(),
        optional,
        part_of_many_to_many: None,
    }
}

#[test]
fn identifiers_refuse_nul_and_quote_double_quotes() {
    assert_eq!(
        Ciboulette2PostgresSafeIdent::try_from_str("a\0b").err(),
        Some(Ciboulette2SqlError::NullCharIdent("a\0b".to_string()))
    );
    let table = Ciboulette2PostgresTableSettings {
        id_name: ident("id"),
        id_type: CibouletteIdType::Text,
        schema: Some(ident("my\"schema")),
        name: ident("we\"ird"),
        ciboulette_type: "weird".to_string(),
    };
    let mut b = Ciboulette2PostgresBuilder::new();
    b.write_table_info(&table);
    assert_eq!(b.buf(), "\"my\"\"schema\".\"we\"\"ird\"");
    let field = Ciboulette2PostgresTableField::new(ident("x\"y"), Some(ident("al")), Some(ident("INT")));
    b.write(" ");
    b.insert_ident(&field, &table);
    assert_eq!(b.buf(), "\"my\"\"schema\".\"we\"\"ird\" \"my\"\"schema\".\"we\"\"ird\".\"x\"\"y\"::INT AS \"al\"");
    let plain = ident("plain");
    assert_eq!(plain.affixed("cte_", "_data").as_str(), "cte_plain_data");
}

#[test]
fn placeholders_count_from_one_in_decimal() {
    let mut b = Ciboulette2PostgresBuilder::new();
    for i in 0..12 {
        if i > 0 {
            b.write(",");
        }
        b.insert_params(Ciboulette2SqlValue::Integer(Some(i)));
    }
    assert_eq!(b.buf(), "$1,$2,$3,$4,$5,$6,$7,$8,$9,$10,$11,$12");
    assert_eq!(b.params().len(), 12);
    assert_eq!(b.params()[10], Ciboulette2SqlValue::Integer(Some(10)));
}

#[test]
fn json_builder_without_data_is_null() {
    let table = Ciboulette2PostgresTableSettings {
        id_name: ident("id"),
        id_type: CibouletteIdType::Number,
        schema: None,
        name: ident("t"),
        ciboulette_type: "t".to_string(),
    };
    let type_ = rtype("t", &["a"], &[]);
    let query = CibouletteQueryParameters { sparse: vec![], included_types: vec![] };
    let mut b = Ciboulette2PostgresBuilder::new();
    b.gen_json_builder(&table, &type_, &query, false).unwrap();
    assert_eq!(b.buf(), "NULL::json ");
    let mut b = Ciboulette2PostgresBuilder::new();
    b.gen_json_builder(&table, &type_, &query, true).unwrap();
    assert_eq!(b.buf(), "JSON_BUILD_OBJECT($1, \"t\".\"a\") ");
    let mut with_object = rtype("t", &["a"], &[]);
    with_object.properties.push(CibouletteSchemaProperty { name: "o".to_string(), is_object: true });
    let mut b = Ciboulette2PostgresBuilder::new();
    b.gen_json_builder(&table, &with_object, &query, true).unwrap();
    assert_eq!(b.buf(), "JSON_BUILD_OBJECT($1, \"t\".\"a\", NULL::json ) ");
    assert_eq!(b.params(), &vec![Ciboulette2SqlValue::Text(Some("a".to_string()))]);
}

#[test]
fn union_of_tables() {
    let t = |n: &str| Ciboulette2PostgresTableSettings {
        id_name: ident("id"),
        id_type: CibouletteIdType::Number,
        schema: None,
        name: ident(n),
        ciboulette_type: n.to_string(),
    };
    let mut b = Ciboulette2PostgresBuilder::new();
    b.gen_union_select_all(&vec![]);
    assert_eq!(b.buf(), "");
    b.gen_union_select_all(&vec![t("a"), t("b"), t("c")]);
    assert_eq!(b.buf(), "SELECT * FROM \"a\" UNION ALL SELECT * FROM \"b\" UNION ALL SELECT * FROM \"c\"");
}

#[test]
fn fill_attributes_skips_absent_attributes() {
    let obj = Some(AttributeObject {
        entries: vec![
            ("a".to_string(), AttributeValue::Number(3)),
            ("b".to_string(), AttributeValue::Absent),
            ("c".to_string(), AttributeValue::Null(AttributeKind::Text)),
            ("d".to_string(), AttributeValue::Json("[1]".to_string())),
        ],
    });
    let mut args = vec![];
    fill_attributes(&mut args, &obj).unwrap();
    let names: Vec<&str> = args.iter().map(|(k, _)| k.as_str()).collect();
    assert_eq!(names, vec!["a", "c", "d"]);
    assert_eq!(args[0].1, Ciboulette2SqlValue::Integer(Some(3)));
    assert_eq!(args[1].1, Ciboulette2SqlValue::Text(None));
    assert_eq!(args[2].1, Ciboulette2SqlValue::Json(Some("[1]".to_string())));
    let mut none = vec![];
    fill_attributes(&mut none, &None).unwrap();
    assert!(none.is_empty());
}

#[test]
fn fill_attributes_keeps_names_as_given() {
    let obj = Some(AttributeObject {
        entries: vec![
            ("a".to_string(), AttributeValue::Bool(true)),
            ("b\0".to_string(), AttributeValue::Bool(false)),
            ("c".to_string(), AttributeValue::Bool(false)),
        ],
    });
    let mut args = vec![];
    assert!(fill_attributes(&mut args, &obj).is_ok());
    let names: Vec<&str> = args.iter().map(|(k, _)| k.as_str()).collect();
    assert_eq!(names, vec!["a", "b\0", "c"]);
    assert_eq!(args[1].1, Ciboulette2SqlValue::Boolean(Some(false)));
}

#[test]
fn one_to_many_additional_fields_are_two() {
    let fields = Ciboulette2PostgresBuilder::gen_additional_params_one_to_many_rels(&o2m("articles", "comments", "article_id", true))
        .unwrap();
    assert_eq!(fields.len(), 2);
    assert_eq!(fields[0].name.as_str(), "article_id");
    assert_eq!(fields[1].name.as_str(), "article_id");
    assert_eq!(fields[0].ciboulette_type, "comments");
    assert_eq!(
        Ciboulette2PostgresBuilder::gen_additional_params_one_to_many_rels(&o2m("articles", "comments", "a\0", true))
            .err(),
        Some(Ciboulette2SqlError::NullCharIdent("a\0".to_string()))
    );
}

#[test]
fn json_builder_stops_at_the_first_bad_field() {
    let table = Ciboulette2PostgresTableSettings {
        id_name: ident("id"),
        id_type: CibouletteIdType::Number,
        schema: None,
        name: ident("t"),
        ciboulette_type: "t".to_string(),
    };
    let props = vec![
        CibouletteSchemaProperty { name: "a".to_string(), is_object: false },
        CibouletteSchemaProperty { name: "b\0".to_string(), is_object: false },
    ];
    let mut b = Ciboulette2PostgresBuilder::new();
    let r = b.gen_json_builder_routine(&table, &props, "t", &vec!["a".to_string(), "nope".to_string()]);
    assert_eq!(r.err(), Some(Ciboulette2SqlError::UnknownField("t".to_string(), "nope".to_string())));
    assert_eq!(b.buf(), "JSON_BUILD_OBJECT($1, \"t\".\"a\", ");
    let mut b = Ciboulette2PostgresBuilder::new();
    let r = b.gen_json_builder_routine(&table, &props, "t", &vec!["b\0".to_string()]);
    assert_eq!(r.err(), Some(Ciboulette2SqlError::NullCharIdent("b\0".to_string())));
    assert_eq!(b.buf(), "JSON_BUILD_OBJECT($1, ");
    assert_eq!(b.params().len(), 1);
}

#[test]
fn one_to_many_linkage_checks() {
    let from = rtype("comments", &[], &[]);
    let to = rtype("articles", &[], &[]);
    let opt = o2m("articles", "comments", "article_id", true);
    let rels = vec![("article".to_string(), CibouletteOptionalData::One(CibouletteId::Uuid(5)))];
    let r = check_one_to_many_relationships(&rels, &from, &to, "article", &opt).unwrap().unwrap();
    assert_eq!(r.0, "article_id");
    assert_eq!(r.1, Ciboulette2SqlValue::Uuid(Some(5)));
    let absent = check_one_to_many_relationships(&vec![], &from, &to, "article", &opt).unwrap();
    assert!(absent.is_none());
    let nulled = vec![("article".to_string(), CibouletteOptionalData::Null(true))];
    let r = check_one_to_many_relationships(&nulled, &from, &to, "article", &opt).unwrap().unwrap();
    assert_eq!(r.1, Ciboulette2SqlValue::Uuid(None));
    let strict = o2m("articles", "comments", "article_id", false);
    assert_eq!(
        check_one_to_many_relationships(&nulled, &from, &to, "article", &strict).err(),
        Some(Ciboulette2SqlError::MissingRelationship("comments".to_string(), "articles".to_string()))
    );
    let many = vec![("article".to_string(), CibouletteOptionalData::Many(vec![]))];
    assert_eq!(
        check_one_to_many_relationships(&many, &from, &to, "article", &opt).err(),
        Some(Ciboulette2SqlError::RequiredSingleRelationship("articles".to_string()))
    );
}

fn walk_store() -> CibouletteStore {
    let mut store = CibouletteStore::new();
    let a = store.add_type(rtype("articles", &[], &[("authors", "author"), ("tags", "tags"), ("comments", "comments")]));
    let au = store.add_type(rtype("authors", &[], &[]));
    let t = store.add_type(rtype("tags", &[], &[]));
    let c = store.add_type(rtype("comments", &[], &[]));
    store.add_type(rtype("article_tags", &[], &[]));
    store.add_relationship(a, au, CibouletteRelationshipOption::ManyToOne(o2m("authors", "articles", "author_id", true)));
    store.add_relationship(
        a,
        t,
        CibouletteRelationshipOption::ManyToMany(CibouletteRelationshipManyToManyOption {
            bucket_resource: "article_tags".to_string(),
            keys: (("articles".to_string(), "article_id".to_string()), ("tags".to_string(), "tag_id".to_string())),
        }),
    );
    store.add_relationship(a, c, CibouletteRelationshipOption::OneToMany(o2m("articles", "comments", "article_id", true)));
    store
}

#[test]
fn store_walks_the_newest_relationship_first() {
    let store = walk_store();
    let a = store.get_type_index("articles").unwrap();
    assert_eq!(a, 0);
    assert_eq!(store.get_type_index("tags"), Some(2));
    assert_eq!(store.get_type_index("nope"), None);
    assert_eq!(store.outgoing(a), vec![(2, 3), (1, 2), (0, 1)]);
    assert_eq!(store.outgoing(1), vec![]);
    assert_eq!(store.node(3).name, "comments");
    assert!(matches!(store.edge(1), CibouletteRelationshipOption::ManyToMany(_)));
    assert_eq!(store.get_type("nope").err(), Some(Ciboulette2SqlError::UnknownType("nope".to_string())));
}

#[test]
fn relationships_of_a_type() {
    let store = walk_store();
    let articles = store.get_type("articles").unwrap();
    let rels = get_relationships(&store, articles).unwrap();
    assert_eq!(rels.single_rels.len(), 1);
    assert_eq!(rels.single_rels[0].type_.name, "authors");
    assert_eq!(rels.single_rels[0].key, "author_id");
    let multi: Vec<(&str, &str)> = rels.multi_rels.iter().map(|(a, m)| (a.as_str(), m.type_.name.as_str())).collect();
    assert_eq!(multi, vec![("comments", "comments"), ("tags", "tags")]);
    let buckets = get_many_to_many_relationships(&store, articles).unwrap();
    assert_eq!(buckets.len(), 1);
    assert_eq!(buckets[0].type_.name, "tags");
    assert_eq!(buckets[0].bucket.resource.name, "article_tags");
    assert_eq!(buckets[0].bucket.from, "tag_id");
    assert_eq!(buckets[0].bucket.to, "article_id");
    assert_eq!(get_resource_single_rel(&store, articles).unwrap(), vec!["author".to_string()]);
    let unknown = rtype("nope", &[], &[]);
    assert_eq!(
        get_relationships(&store, &unknown).err(),
        Some(Ciboulette2SqlError::UnknownType("nope".to_string()))
    );
    let no_alias = rtype("articles", &[], &[]);
    assert_eq!(
        get_resource_single_rel(&store, &no_alias).err(),
        Some(Ciboulette2SqlError::MissingAliasTranslation("articles".to_string(), "authors".to_string()))
    );
}

#[test]
fn ordered_maps_are_checked_by_code_point_order() {
    assert!(str_lt("a", "b"));
    assert!(str_lt("ab", "abc"));
    assert!(!str_lt("abc", "ab"));
    assert!(!str_lt("same", "same"));
    assert!(str_lt("Z", "a"));
    let ordered = vec![("a".to_string(), 1u8), ("b".to_string(), 2u8), ("c".to_string(), 3u8)];
    assert!(keys_are_ordered(&ordered));
    assert_eq!(find_key(&ordered, "b"), Some(1));
    let repeated = vec![("a".to_string(), 1u8), ("a".to_string(), 2u8)];
    assert!(!keys_are_ordered(&repeated));
    let unordered = vec![("b".to_string(), 1u8), ("a".to_string(), 2u8)];
    assert!(!keys_are_ordered(&unordered));
    assert!(keys_are_ordered::<u8>(&vec![]));
    assert!(properties_are_ordered(&rtype("t", &["a", "b"], &[]).properties));
    assert!(!properties_are_ordered(&rtype("t", &["b", "a"], &[]).properties));
}

#[test]
fn to_many_relationships_come_by_ascending_alias() {
    let mut store = CibouletteStore::new();
    let a = store.add_type(rtype("a", &[], &[("x", "zeta"), ("y", "alpha")]));
    let x = store.add_type(rtype("x", &[], &[]));
    let y = store.add_type(rtype("y", &[], &[]));
    store.add_relationship(a, y, CibouletteRelationshipOption::OneToMany(o2m("a", "y", "a_id", true)));
    store.add_relationship(a, x, CibouletteRelationshipOption::OneToMany(o2m("a", "x", "a_id", true)));
    store.add_relationship(a, x, CibouletteRelationshipOption::OneToMany(o2m("a", "x", "other_id", true)));
    let main = store.get_type("a").unwrap();
    let rels = get_relationships(&store, main).unwrap();
    let multi: Vec<(&str, &str)> = rels.multi_rels.iter().map(|(k, m)| (k.as_str(), m.type_.name.as_str())).collect();
    assert_eq!(multi, vec![("alpha", "y"), ("zeta", "x")]);
    match &rels.multi_rels[1].1.rel_opt {
        ciboulette2postgres::builder::select_rel::Ciboulette2PostgresMultiRelationshipsType::OneToMany(o) => {
            assert_eq!(o.many_table_key, "a_id");
        },
        _ => panic!("expected a one-to-many relationship"),
    }
    let no_alias = rtype("a", &[], &[("x", "zeta")]);
    assert_eq!(
        get_relationships(&store, &no_alias).err(),
        Some(Ciboulette2SqlError::MissingAliasTranslation("a".to_string(), "y".to_string()))
    );
}
