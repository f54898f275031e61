use ciboulette2postgres::builder::Ciboulette2PostgresBuilder;
use ciboulette2postgres::error::Ciboulette2SqlError;
use ciboulette2postgres::graph::CibouletteStore;
use ciboulette2postgres::ident::Ciboulette2PostgresSafeIdent;
use ciboulette2postgres::model::{
    AttributeObject, AttributeValue, Ciboulette2SqlValue, CibouletteDeleteRequest, CibouletteId,
    CibouletteIdType, CibouletteOptionalData, CiboulettePath, CibouletteQueryParameters,
    CibouletteReadRequest, CibouletteRelationshipManyToManyOption,
    CibouletteRelationshipOneToManyOption, CibouletteRelationshipOption, CibouletteResource,
    CibouletteResourceType, CibouletteSchemaProperty, CibouletteUpdateRelationship,
    CibouletteUpdateRequest, CibouletteUpdateRequestType, Ciboulette2PostgresResponseType,
};
use ciboulette2postgres::table::{Ciboulette2PostgresTableSettings, Ciboulette2PostgresTableStore};

fn ident(s: &str) -> Ciboulette2PostgresSafeIdent {
    Ciboulette2PostgresSafeIdent::try_from_str(s).unwrap()
}

fn rtype(name: &str, props: &[&str], aliases: &[(&str, &str)]) -> CibouletteResourceType {
    CibouletteResourceType {
        name: name.to_string(),
        id_type: CibouletteIdType::Number,
        properties: props
            .iter()
            .map(|p| CibouletteSchemaProperty { name: p.to_string(), is_object: false })
            .collect(),
        relationships_type_to_alias: aliases.iter().map(|(t, a)| (t.to_string(), a.to_string())).collect(),
    }
}

fn table(tname: &str, schema: Option<&str>) -> Ciboulette2PostgresTableSettings {
    Ciboulette2PostgresTableSettings {
        id_name: ident("id"),
        id_type: CibouletteIdType::Number,
        schema: schema.map(ident),
        name: ident(tname),
        ciboulette_type: tname.to_string(),
    }
}

fn query(included: &[&str]) -> CibouletteQueryParameters {
    CibouletteQueryParameters {
        sparse: vec![],
        included_types: included.iter().map(|s| s.to_string()).collect(),
    }
}

fn text(s: &str) -> Ciboulette2SqlValue {
    Ciboulette2SqlValue::Text(Some(s.to_string()))
}

fn comment_article_opt(optional: bool) -> CibouletteRelationshipOneToManyOption {
    CibouletteRelationshipOneToManyOption {
        one_table: "articles".to_string(),
        one_table_id_type: CibouletteIdType::Number,
        many_table: "comments".to_string(),
        many_table_key: "article_id".to_string(),
        optional,
        part_of_many_to_many: None,
    }
}

/// Articles (title) own comments (body), which hold `article_id`.
fn blog_store(optional: bool, comment_aliases: &[(&str, &str)]) -> CibouletteStore {
    let mut store = CibouletteStore::new();
    let a = store.add_type(rtype("articles", &["title"], &[("comments", "comments")]));
    let c = store.add_type(rtype("comments", &["body"], comment_aliases));
    store.add_relationship(c, a, CibouletteRelationshipOption::ManyToOne(comment_article_opt(optional)));
    store.add_relationship(a, c, CibouletteRelationshipOption::OneToMany(comment_article_opt(optional)));
    store
}

fn blog_tables() -> Ciboulette2PostgresTableStore {
    Ciboulette2PostgresTableStore { tables: vec![table("articles", None), table("comments", None)] }
}

fn read(resource_type: &str, path: CiboulettePath, included: &[&str]) -> CibouletteReadRequest {
    CibouletteReadRequest { resource_type: resource_type.to_string(), path, query: query(included) }
}

fn update(resource_type: &str, id: u64, included: &[&str], data: CibouletteUpdateRequestType) -> CibouletteUpdateRequest {
    CibouletteUpdateRequest {
        resource_type: resource_type.to_string(),
        resource_id: CibouletteId::Number(id),
        query: query(included),
        data,
    }
}

fn resource(attrs: Vec<(&str, AttributeValue)>, rels: Vec<(&str, CibouletteOptionalData)>) -> CibouletteUpdateRequestType {
    CibouletteUpdateRequestType::MainType(CibouletteResource {
        attributes: Some(AttributeObject { entries: attrs.into_iter().map(|(k, v)| (k.to_string(), v)).collect() }),
        relationships: rels.into_iter().map(|(k, v)| (k.to_string(), v)).collect(),
    })
}

fn relationship(alias: &str, value: CibouletteOptionalData) -> CibouletteUpdateRequestType {
    CibouletteUpdateRequestType::Relationship(CibouletteUpdateRelationship { type_: alias.to_string(), value })
}

#[test]
fn select_every_resource_of_a_type() {
    let mut store = CibouletteStore::new();
    store.add_type(rtype("articles", &["title"], &[]));
    let tables = Ciboulette2PostgresTableStore { tables: vec![table("articles", Some("public"))] };
    let req = read("articles", CiboulettePath::Type, &[]);
    let (sql, params) = Ciboulette2PostgresBuilder::gen_select_normal(&store, &tables, &req).unwrap().build();
    assert_eq!(
        sql,
        "WITH \n\"cte_articles_data\" AS (SELECT \"public\".\"articles\".\"id\"::TEXT AS \"id\", $1::TEXT AS \"type\", JSON_BUILD_OBJECT($2, \"public\".\"articles\".\"title\")  AS \"data\" FROM \"public\".\"articles\")SELECT * FROM \"cte_articles_data\""
    );
    assert_eq!(params, vec![text("articles"), text("title")]);
}

#[test]
fn select_one_resource_binds_its_id() {
    let mut store = CibouletteStore::new();
    store.add_type(rtype("articles", &["title"], &[]));
    let tables = Ciboulette2PostgresTableStore { tables: vec![table("articles", Some("public"))] };
    let req = read("articles", CiboulettePath::TypeId(CibouletteId::Number(42)), &[]);
    let (sql, params) = Ciboulette2PostgresBuilder::gen_select_normal(&store, &tables, &req).unwrap().build();
    assert_eq!(
        sql,
        "WITH \n\"cte_articles_data\" AS (SELECT \"public\".\"articles\".\"id\"::TEXT AS \"id\", $1::TEXT AS \"type\", JSON_BUILD_OBJECT($2, \"public\".\"articles\".\"title\")  AS \"data\" FROM \"public\".\"articles\" WHERE \"public\".\"articles\".\"id\" = $3)SELECT * FROM \"cte_articles_data\""
    );
    assert_eq!(params, vec![text("articles"), text("title"), Ciboulette2SqlValue::Numeric(Some(42))]);
}

#[test]
fn select_related_path_filters_on_the_main_id() {
    let store = blog_store(true, &[("articles", "article")]);
    let req = read(
        "articles",
        CiboulettePath::TypeIdRelated(CibouletteId::Text("a-1".to_string()), "comments".to_string()),
        &[],
    );
    let b = Ciboulette2PostgresBuilder::gen_select_normal(&store, &blog_tables(), &req).unwrap();
    assert!(b.buf().contains("FROM \"articles\" WHERE \"articles\".\"id\" = $3)"));
    assert_eq!(b.params()[2], text("a-1"));
}

#[test]
fn select_with_a_to_one_relationship() {
    let store = blog_store(true, &[("articles", "article")]);
    let req = read("comments", CiboulettePath::Type, &[]);
    let b = Ciboulette2PostgresBuilder::gen_select_normal(&store, &blog_tables(), &req).unwrap();
    assert_eq!(b.working_tables().len(), 2);
    let (sql, params) = b.build();
    assert_eq!(
        sql,
        "WITH \n\"cte_comments_data\" AS (SELECT \"comments\".\"id\"::TEXT AS \"id\", $1::TEXT AS \"type\", JSON_BUILD_OBJECT($2, \"comments\".\"body\")  AS \"data\", \"comments\".\"article_id\" FROM \"comments\"), \"cte_rel_articles_data\" AS (SELECT \"articles\".\"id\"::TEXT AS \"id\", $3::TEXT AS \"type\", NULL::json  AS \"data\" FROM \"articles\" INNER JOIN \"cte_comments_data\" ON \"articles\".\"id\" = \"cte_comments_data\".\"article_id\")SELECT * FROM \"cte_rel_articles_data\" UNION ALL SELECT * FROM \"cte_comments_data\""
    );
    assert_eq!(params, vec![text("comments"), text("body"), text("articles")]);
}

#[test]
fn select_with_an_included_one_to_many_relationship() {
    let store = blog_store(true, &[("articles", "article")]);
    let req = read("articles", CiboulettePath::Type, &["comments"]);
    let (sql, params) = Ciboulette2PostgresBuilder::gen_select_normal(&store, &blog_tables(), &req).unwrap().build();
    assert_eq!(
        sql,
        "WITH \n\"cte_articles_data\" AS (SELECT \"articles\".\"id\"::TEXT AS \"id\", $1::TEXT AS \"type\", JSON_BUILD_OBJECT($2, \"articles\".\"title\")  AS \"data\" FROM \"articles\"), \"cte_rel_comments_data\" AS (SELECT \"comments\".\"id\"::TEXT AS \"id\", $3::TEXT AS \"type\", JSON_BUILD_OBJECT($4, \"comments\".\"body\")  AS \"data\", \"comments\".\"article_id\", \"comments\".\"article_id\" FROM \"comments\" INNER JOIN \"cte_articles_data\" ON \"cte_articles_data\".\"id\" = \"comments\".\"article_id\" WHERE \"comments\".\"article_id\" = \"cte_articles_data\".\"id\")SELECT * FROM \"cte_rel_comments_data\" UNION ALL SELECT * FROM \"cte_articles_data\""
    );
    assert_eq!(params, vec![text("articles"), text("title"), text("comments"), text("body")]);
}

fn people_store() -> (CibouletteStore, Ciboulette2PostgresTableStore) {
    let mut store = CibouletteStore::new();
    let p = store.add_type(rtype("people", &["name"], &[("tags", "tags")]));
    let t = store.add_type(rtype("tags", &["label"], &[("people", "people")]));
    store.add_type(rtype("people_tags", &[], &[]));
    let opt = CibouletteRelationshipManyToManyOption {
        bucket_resource: "people_tags".to_string(),
        keys: (("people".to_string(), "person_id".to_string()), ("tags".to_string(), "tag_id".to_string())),
    };
    store.add_relationship(p, t, CibouletteRelationshipOption::ManyToMany(opt));
    let tables = Ciboulette2PostgresTableStore {
        tables: vec![table("people", None), table("tags", None), table("people_tags", None)],
    };
    (store, tables)
}

#[test]
fn select_with_a_many_to_many_relationship() {
    let (store, tables) = people_store();
    let req = read("people", CiboulettePath::Type, &[]);
    let (sql, params) = Ciboulette2PostgresBuilder::gen_select_normal(&store, &tables, &req).unwrap().build();
    assert_eq!(
        sql,
        "WITH \n\"cte_people_data\" AS (SELECT \"people\".\"id\"::TEXT AS \"id\", $1::TEXT AS \"type\", JSON_BUILD_OBJECT($2, \"people\".\"name\")  AS \"data\" FROM \"people\"), \"cte_rel_people_tags_rel_data\" AS (SELECT \"people_tags\".\"id\"::TEXT AS \"id\", \"people_tags\".\"person_id\", \"people_tags\".\"tag_id\" FROM \"people_tags\" INNER JOIN \"cte_people_data\" ON \"people_tags\".\"person_id\" = \"cte_people_data\".\"id\"), \"cte_rel_tags_data\" AS (SELECT \"tags\".\"id\"::TEXT AS \"id\", $3::TEXT AS \"type\", NULL::json  AS \"data\" FROM \"tags\" INNER JOIN \"cte_rel_people_tags_rel_data\" ON \"cte_rel_people_tags_rel_data\".\"tag_id\" = \"tags\".\"id\")SELECT * FROM \"cte_rel_tags_data\" UNION ALL SELECT * FROM \"cte_people_data\""
    );
    assert_eq!(params, vec![text("people"), text("name"), text("tags")]);
}

#[test]
fn select_with_a_sparse_fieldset() {
    let mut store = CibouletteStore::new();
    store.add_type(rtype("articles", &["body", "title"], &[]));
    let tables = Ciboulette2PostgresTableStore { tables: vec![table("articles", None)] };
    let mut req = read("articles", CiboulettePath::Type, &[]);
    req.query.sparse = vec![("articles".to_string(), vec!["body".to_string()])];
    let (sql, params) = Ciboulette2PostgresBuilder::gen_select_normal(&store, &tables, &req).unwrap().build();
    assert!(sql.contains("JSON_BUILD_OBJECT($2, \"articles\".\"body\")  AS \"data\""));
    assert_eq!(params, vec![text("articles"), text("body")]);
    req.query.sparse = vec![("articles".to_string(), vec![])];
    let (sql, params) = Ciboulette2PostgresBuilder::gen_select_normal(&store, &tables, &req).unwrap().build();
    assert!(sql.contains("$1::TEXT AS \"type\", NULL::json  AS \"data\" FROM"));
    assert_eq!(params, vec![text("articles")]);
}

#[test]
fn select_errors() {
    let store = blog_store(true, &[("articles", "article")]);
    let req = read("nope", CiboulettePath::Type, &[]);
    assert_eq!(
        Ciboulette2PostgresBuilder::gen_select_normal(&store, &blog_tables(), &req).err(),
        Some(Ciboulette2SqlError::UnknownType("nope".to_string()))
    );
    let only_comments = Ciboulette2PostgresTableStore { tables: vec![table("comments", None)] };
    let req = read("articles", CiboulettePath::Type, &[]);
    assert_eq!(
        Ciboulette2PostgresBuilder::gen_select_normal(&store, &only_comments, &req).err(),
        Some(Ciboulette2SqlError::UnknownTable("articles".to_string()))
    );
    let req = read("comments", CiboulettePath::Type, &[]);
    assert_eq!(
        Ciboulette2PostgresBuilder::gen_select_normal(&store, &only_comments, &req).err(),
        Some(Ciboulette2SqlError::UnknownTable("articles".to_string()))
    );
    let mut no_alias = CibouletteStore::new();
    let a = no_alias.add_type(rtype("articles", &["title"], &[]));
    let c = no_alias.add_type(rtype("comments", &["body"], &[("articles", "article")]));
    no_alias.add_relationship(a, c, CibouletteRelationshipOption::OneToMany(comment_article_opt(true)));
    assert_eq!(
        Ciboulette2PostgresBuilder::gen_select_normal(&no_alias, &blog_tables(), &read("articles", CiboulettePath::Type, &[])).err(),
        Some(Ciboulette2SqlError::MissingAliasTranslation("articles".to_string(), "comments".to_string()))
    );
    let mut req = read("articles", CiboulettePath::Type, &[]);
    req.query.sparse = vec![("articles".to_string(), vec!["nope".to_string()])];
    assert_eq!(
        Ciboulette2PostgresBuilder::gen_select_normal(&store, &blog_tables(), &req).err(),
        Some(Ciboulette2SqlError::UnknownField("articles".to_string(), "nope".to_string()))
    );
}

#[test]
fn select_refuses_a_nul_in_a_selected_field() {
    let mut store = CibouletteStore::new();
    store.add_type(rtype("articles", &["ti\0tle"], &[]));
    let tables = Ciboulette2PostgresTableStore { tables: vec![table("articles", None)] };
    let req = read("articles", CiboulettePath::Type, &[]);
    assert_eq!(
        Ciboulette2PostgresBuilder::gen_select_normal(&store, &tables, &req).err(),
        Some(Ciboulette2SqlError::NullCharIdent("ti\0tle".to_string()))
    );
}

#[test]
fn update_of_a_resource() {
    let mut store = CibouletteStore::new();
    store.add_type(rtype("articles", &["title"], &[]));
    let tables = Ciboulette2PostgresTableStore { tables: vec![table("articles", None)] };
    let req = update("articles", 1, &[], resource(vec![("title", AttributeValue::Text("hello".to_string()))], vec![]));
    let (sql, params) = Ciboulette2PostgresBuilder::gen_update_main(&store, &tables, &req).unwrap().build();
    assert_eq!(
        sql,
        "WITH \"cte_articles_update\" AS (UPDATE \"articles\" SET \"title\" = $1 WHERE \"articles\".\"id\" = $2 RETURNING *), \"cte_articles_data\" AS (SELECT \"cte_articles_update\".\"id\"::TEXT AS \"id\", $3::TEXT AS \"type\", JSON_BUILD_OBJECT($4, \"cte_articles_update\".\"title\")  AS \"data\" FROM \"cte_articles_update\") SELECT * FROM \"cte_articles_data\""
    );
    assert_eq!(
        params,
        vec![text("hello"), Ciboulette2SqlValue::Numeric(Some(1)), text("articles"), text("title")]
    );
}

#[test]
fn update_of_a_resource_and_its_to_one_relationship() {
    let store = blog_store(true, &[("articles", "article")]);
    let req = update(
        "comments",
        3,
        &[],
        resource(
            vec![("body", AttributeValue::Text("b".to_string())), ("draft", AttributeValue::Absent)],
            vec![("article", CibouletteOptionalData::One(CibouletteId::Number(7)))],
        ),
    );
    let (sql, params) = Ciboulette2PostgresBuilder::gen_update_main(&store, &blog_tables(), &req).unwrap().build();
    assert_eq!(
        sql,
        "WITH \"cte_comments_update\" AS (UPDATE \"comments\" SET \"body\" = $1, \"article_id\" = $2 WHERE \"comments\".\"id\" = $3 RETURNING *), \"cte_comments_data\" AS (SELECT \"cte_comments_update\".\"id\"::TEXT AS \"id\", $4::TEXT AS \"type\", JSON_BUILD_OBJECT($5, \"cte_comments_update\".\"body\")  AS \"data\" FROM \"cte_comments_update\"), \"cte_rel_articles_data\" AS (SELECT \"articles\".\"id\"::TEXT AS \"id\", $6::TEXT AS \"type\", NULL::json  AS \"data\" FROM \"articles\" INNER JOIN \"cte_comments_update\" ON \"articles\".\"id\" = \"cte_comments_update\".\"article_id\") SELECT * FROM \"cte_rel_articles_data\" UNION ALL SELECT * FROM \"cte_comments_data\""
    );
    assert_eq!(
        params,
        vec![
            text("b"),
            Ciboulette2SqlValue::Numeric(Some(7)),
            Ciboulette2SqlValue::Numeric(Some(3)),
            text("comments"),
            text("body"),
            text("articles"),
        ]
    );
}

#[test]
fn update_sets_an_optional_relationship_to_null() {
    let store = blog_store(true, &[("articles", "article")]);
    let req = update("comments", 3, &[], resource(vec![], vec![("article", CibouletteOptionalData::Null(true))]));
    let b = Ciboulette2PostgresBuilder::gen_update_main(&store, &blog_tables(), &req).unwrap();
    assert!(b.buf().starts_with("WITH \"cte_comments_update\" AS (UPDATE \"comments\" SET \"article_id\" = $1 WHERE"));
    assert_eq!(b.params()[0], Ciboulette2SqlValue::Numeric(None));
}

#[test]
fn update_of_a_resource_with_many_to_many_relationships() {
    let (store, tables) = people_store();
    let req = update("people", 2, &[], resource(vec![("name", AttributeValue::Text("Ann".to_string()))], vec![]));
    let b = Ciboulette2PostgresBuilder::gen_update_main(&store, &tables, &req).unwrap();
    assert_eq!(b.working_tables().len(), 3);
    let sql = b.buf();
    assert!(sql.contains(", \"cte_rel_tags_rel_data\" AS (SELECT \"people_tags\".\"id\"::TEXT AS \"id\", $5::TEXT AS \"type\", NULL::json  AS \"data\" FROM \"people_tags\" WHERE \"people_tags\".\"person_id\" = \"cte_people_data\".\"id\"), \"cte_rel_tags_data\" AS ("));
    assert!(sql.contains("WHERE \"tags\".\"id\" IN (SELECT \"cte_rel_tags_rel_data\".\"tag_id\" FROM \"cte_rel_tags_rel_data\") SELECT"));
    assert!(sql.ends_with(" SELECT * FROM \"cte_rel_tags_data\" UNION ALL SELECT * FROM \"cte_rel_tags_rel_data\" UNION ALL SELECT * FROM \"cte_people_data\""));
}

#[test]
fn update_refuses_a_relationship_document() {
    let store = blog_store(true, &[("articles", "article")]);
    let req = update("comments", 3, &[], relationship("article", CibouletteOptionalData::Null(true)));
    assert_eq!(
        Ciboulette2PostgresBuilder::gen_update_main(&store, &blog_tables(), &req).err(),
        Some(Ciboulette2SqlError::UpdatingRelationships)
    );
}

#[test]
fn update_refuses_writing_a_to_many_relationship() {
    let store = blog_store(true, &[("articles", "article")]);
    let req = update(
        "articles",
        1,
        &[],
        resource(vec![], vec![("comments", CibouletteOptionalData::Many(vec![CibouletteId::Number(1)]))]),
    );
    assert_eq!(
        Ciboulette2PostgresBuilder::gen_update_main(&store, &blog_tables(), &req).err(),
        Some(Ciboulette2SqlError::UpdatingManyRelationships)
    );
}

#[test]
fn update_linkage_errors() {
    let store = blog_store(true, &[("articles", "article")]);
    let req = update(
        "comments",
        3,
        &[],
        resource(vec![], vec![("article", CibouletteOptionalData::Many(vec![CibouletteId::Number(1)]))]),
    );
    assert_eq!(
        Ciboulette2PostgresBuilder::gen_update_main(&store, &blog_tables(), &req).err(),
        Some(Ciboulette2SqlError::RequiredSingleRelationship("articles".to_string()))
    );
    let strict = blog_store(false, &[("articles", "article")]);
    let req = update("comments", 3, &[], resource(vec![], vec![]));
    assert_eq!(
        Ciboulette2PostgresBuilder::gen_update_main(&strict, &blog_tables(), &req).err(),
        Some(Ciboulette2SqlError::MissingRelationship("comments".to_string(), "articles".to_string()))
    );
    let no_alias = blog_store(true, &[]);
    assert_eq!(
        Ciboulette2PostgresBuilder::gen_update_main(&no_alias, &blog_tables(), &req).err(),
        Some(Ciboulette2SqlError::MissingAliasTranslation("comments".to_string(), "articles".to_string()))
    );
    let req = update("comments", 3, &[], resource(vec![("bo\0dy", AttributeValue::Bool(true))], vec![]));
    assert_eq!(
        Ciboulette2PostgresBuilder::gen_update_main(&store, &blog_tables(), &req).err(),
        Some(Ciboulette2SqlError::NullCharIdent("bo\0dy".to_string()))
    );
}

#[test]
fn update_refuses_a_bucket_without_a_column_for_the_type() {
    let mut store = CibouletteStore::new();
    let p = store.add_type(rtype("people", &["name"], &[("tags", "tags")]));
    let t = store.add_type(rtype("tags", &["label"], &[]));
    store.add_type(rtype("people_tags", &[], &[]));
    let opt = CibouletteRelationshipManyToManyOption {
        bucket_resource: "people_tags".to_string(),
        keys: (("persons".to_string(), "person_id".to_string()), ("tags".to_string(), "tag_id".to_string())),
    };
    store.add_relationship(p, t, CibouletteRelationshipOption::ManyToMany(opt));
    let tables = Ciboulette2PostgresTableStore { tables: vec![table("people", None), table("tags", None)] };
    let req = update("people", 2, &[], resource(vec![], vec![]));
    assert_eq!(
        Ciboulette2PostgresBuilder::gen_update_main(&store, &tables, &req).err(),
        Some(Ciboulette2SqlError::UnknownRelationship("people_tags".to_string(), "people".to_string()))
    );
}

#[test]
fn update_of_a_to_one_relationship() {
    let store = blog_store(true, &[("articles", "article")]);
    let req = update("comments", 3, &[], relationship("article", CibouletteOptionalData::One(CibouletteId::Number(9))));
    let (sql, params) = Ciboulette2PostgresBuilder::gen_update_rel(&store, &blog_tables(), &req).unwrap().build();
    assert_eq!(
        sql,
        "WITH \"cte_comments_update\" AS (UPDATE \"comments\" SET \"article_id\" = $1 WHERE \"comments\".\"id\" = $2 RETURNING *), \"cte_comments_data\" AS (SELECT \"cte_comments_update\".\"id\"::TEXT AS \"id\", $3::TEXT AS \"type\", JSON_BUILD_OBJECT($4, \"cte_comments_update\".\"body\")  AS \"data\", \"cte_comments_update\".\"article_id\" FROM \"cte_comments_update\") SELECT * FROM \"cte_comments_data\""
    );
    assert_eq!(
        params,
        vec![
            Ciboulette2SqlValue::Numeric(Some(9)),
            Ciboulette2SqlValue::Numeric(Some(3)),
            text("comments"),
            text("body"),
        ]
    );
}

#[test]
fn update_of_a_to_one_relationship_with_the_related_type_included() {
    let store = blog_store(true, &[("articles", "article")]);
    let req = update("comments", 3, &["articles"], relationship("article", CibouletteOptionalData::One(CibouletteId::Number(9))));
    let (sql, params) = Ciboulette2PostgresBuilder::gen_update_rel(&store, &blog_tables(), &req).unwrap().build();
    assert!(sql.ends_with("FROM \"cte_comments_update\"), \"cte_rel_articles_data\" AS (SELECT \"articles\".\"id\"::TEXT AS \"id\", $5::TEXT AS \"type\", JSON_BUILD_OBJECT($6, \"articles\".\"title\")  AS \"data\" FROM \"articles\" INNER JOIN \"cte_comments_data\" ON \"articles\".\"id\" = \"cte_comments_data\".\"article_id\") SELECT * FROM \"cte_rel_articles_data\" UNION ALL SELECT * FROM \"cte_comments_data\""));
    assert_eq!(params.len(), 6);
    assert_eq!(params[4], text("articles"));
    assert_eq!(params[5], text("title"));
}

#[test]
fn update_of_a_relationship_errors() {
    let store = blog_store(true, &[("articles", "article")]);
    let req = update("comments", 3, &[], resource(vec![], vec![]));
    assert_eq!(
        Ciboulette2PostgresBuilder::gen_update_rel(&store, &blog_tables(), &req).err(),
        Some(Ciboulette2SqlError::UpdatingMainObject)
    );
    let req = update("articles", 1, &[], relationship("comments", CibouletteOptionalData::Many(vec![])));
    assert_eq!(
        Ciboulette2PostgresBuilder::gen_update_rel(&store, &blog_tables(), &req).err(),
        Some(Ciboulette2SqlError::UpdatingManyRelationships)
    );
    let req = update("comments", 3, &[], relationship("nope", CibouletteOptionalData::Null(true)));
    assert_eq!(
        Ciboulette2PostgresBuilder::gen_update_rel(&store, &blog_tables(), &req).err(),
        Some(Ciboulette2SqlError::UnknownRelationship("comments".to_string(), "nope".to_string()))
    );
    let strict = blog_store(false, &[("articles", "article")]);
    let req = update("comments", 3, &[], relationship("article", CibouletteOptionalData::Null(true)));
    assert_eq!(
        Ciboulette2PostgresBuilder::gen_update_rel(&strict, &blog_tables(), &req).err(),
        Some(Ciboulette2SqlError::MissingRelationship("comments".to_string(), "articles".to_string()))
    );
    let req = update("nope", 3, &[], relationship("article", CibouletteOptionalData::Null(true)));
    assert_eq!(
        Ciboulette2PostgresBuilder::gen_update_rel(&store, &blog_tables(), &req).err(),
        Some(Ciboulette2SqlError::UnknownTable("nope".to_string()))
    );
}

#[test]
fn delete_detaches_an_owned_resource() {
    let tables = blog_tables();
    let req = CibouletteDeleteRequest { resource_type: "comments".to_string(), resource_id: CibouletteId::Number(5) };
    let mut b = Ciboulette2PostgresBuilder::new();
    b.gen_delete_rel_one_to_many(&tables, &req, &comment_article_opt(true)).unwrap();
    let (sql, params) = b.build();
    assert_eq!(sql, "UPDATE \"comments\" SET \"article_id\" = NULL WHERE \"comments\".\"id\" = $1");
    assert_eq!(params, vec![Ciboulette2SqlValue::Numeric(Some(5))]);
}

#[test]
fn delete_errors_leave_the_builder_unchanged() {
    let req = CibouletteDeleteRequest { resource_type: "comments".to_string(), resource_id: CibouletteId::Number(5) };
    let mut b = Ciboulette2PostgresBuilder::new();
    let empty = Ciboulette2PostgresTableStore { tables: vec![] };
    assert_eq!(
        b.gen_delete_rel_one_to_many(&empty, &req, &comment_article_opt(true)).err(),
        Some(Ciboulette2SqlError::UnknownTable("comments".to_string()))
    );
    let mut opt = comment_article_opt(true);
    opt.many_table_key = "art\0icle_id".to_string();
    assert_eq!(
        b.gen_delete_rel_one_to_many(&blog_tables(), &req, &opt).err(),
        Some(Ciboulette2SqlError::NullCharIdent("art\0icle_id".to_string()))
    );
    assert_eq!(b.buf(), "UPDATE \"comments\" SET ");
    assert!(b.params().is_empty());
}

#[test]
fn read_statement_text_does_not_depend_on_the_id() {
    let store = blog_store(true, &[("articles", "article")]);
    let r1 = read("articles", CiboulettePath::TypeId(CibouletteId::Number(1)), &["comments"]);
    let r2 = read(
        "articles",
        CiboulettePath::TypeIdRelationship(CibouletteId::Text("x'; DROP TABLE articles; --".to_string()), "comments".to_string()),
        &["comments"],
    );
    let (s1, p1) = Ciboulette2PostgresBuilder::gen_select_normal(&store, &blog_tables(), &r1).unwrap().build();
    let (s2, p2) = Ciboulette2PostgresBuilder::gen_select_normal(&store, &blog_tables(), &r2).unwrap().build();
    assert_eq!(s1, s2);
    assert_eq!(p1.len(), p2.len());
    assert_eq!(p1[2], Ciboulette2SqlValue::Numeric(Some(1)));
    assert_eq!(p2[2], text("x'; DROP TABLE articles; --"));
    assert!(!s2.contains("DROP"));
}

#[test]
fn update_statement_text_does_not_depend_on_the_values() {
    let store = blog_store(true, &[("articles", "article")]);
    let r1 = update(
        "comments",
        3,
        &[],
        resource(
            vec![("body", AttributeValue::Text("first".to_string()))],
            vec![("article", CibouletteOptionalData::One(CibouletteId::Number(7)))],
        ),
    );
    let r2 = update(
        "comments",
        4,
        &[],
        resource(
            vec![("body", AttributeValue::Null(ciboulette2postgres::model::AttributeKind::Text))],
            vec![("article", CibouletteOptionalData::One(CibouletteId::Number(8)))],
        ),
    );
    let (s1, p1) = Ciboulette2PostgresBuilder::gen_update_main(&store, &blog_tables(), &r1).unwrap().build();
    let (s2, p2) = Ciboulette2PostgresBuilder::gen_update_main(&store, &blog_tables(), &r2).unwrap().build();
    assert_eq!(s1, s2);
    assert_eq!(p1.len(), p2.len());
    assert_eq!(p2[0], Ciboulette2SqlValue::Text(None));
    assert_eq!(p2[1], Ciboulette2SqlValue::Numeric(Some(8)));
    assert_eq!(p2[2], Ciboulette2SqlValue::Numeric(Some(4)));
}

#[test]
fn relationship_update_text_does_not_depend_on_the_ids() {
    let store = blog_store(true, &[("articles", "article")]);
    let r1 = update("comments", 3, &["articles"], relationship("article", CibouletteOptionalData::One(CibouletteId::Number(9))));
    let r2 = update("comments", 5, &["articles"], relationship("article", CibouletteOptionalData::One(CibouletteId::Number(1))));
    let (s1, p1) = Ciboulette2PostgresBuilder::gen_update_rel(&store, &blog_tables(), &r1).unwrap().build();
    let (s2, p2) = Ciboulette2PostgresBuilder::gen_update_rel(&store, &blog_tables(), &r2).unwrap().build();
    assert_eq!(s1, s2);
    assert_eq!(p1.len(), p2.len());
    assert_eq!(p2[0], Ciboulette2SqlValue::Numeric(Some(1)));
    assert_eq!(p2[1], Ciboulette2SqlValue::Numeric(Some(5)));
}

#[test]
fn tables_to_return_record_their_type_and_requirement() {
    let store = blog_store(true, &[("articles", "article")]);
    let req = read("articles", CiboulettePath::Type, &["comments"]);
    let b = Ciboulette2PostgresBuilder::gen_select_normal(&store, &blog_tables(), &req).unwrap();
    let w = b.working_tables();
    assert_eq!(w.len(), 2);
    assert_eq!(w[0].table.ciboulette_type, "comments");
    assert_eq!(w[0].cte.name.as_str(), "cte_rel_comments_data");
    assert_eq!(w[0].requirement, Ciboulette2PostgresResponseType::Object);
    assert_eq!(w[1].table.ciboulette_type, "articles");
    assert_eq!(w[1].cte.name.as_str(), "cte_articles_data");
    assert_eq!(w[1].requirement, Ciboulette2PostgresResponseType::Object);
    let req = read("comments", CiboulettePath::Type, &[]);
    let b = Ciboulette2PostgresBuilder::gen_select_normal(&store, &blog_tables(), &req).unwrap();
    assert_eq!(b.working_tables()[0].table.ciboulette_type, "articles");
    assert_eq!(b.working_tables()[0].requirement, Ciboulette2PostgresResponseType::Id);
}

#[test]
fn update_refuses_a_nul_in_an_attribute_name_when_writing_it() {
    let mut store = CibouletteStore::new();
    store.add_type(rtype("articles", &["title"], &[]));
    let tables = Ciboulette2PostgresTableStore { tables: vec![table("articles", None)] };
    let req = update("articles", 1, &[], resource(vec![("ti\0tle", AttributeValue::Bool(true))], vec![]));
    assert_eq!(
        Ciboulette2PostgresBuilder::gen_update_main(&store, &tables, &req).err(),
        Some(Ciboulette2SqlError::NullCharIdent("ti\0tle".to_string()))
    );
    let mut b = Ciboulette2PostgresBuilder::new();
    let r = b.gen_update_rel_update(
        &req,
        &table("articles", None),
        &table("cte", None),
        vec![("ok".to_string(), text("v")), ("n\0".to_string(), text("w"))],
    );
    assert_eq!(r.err(), Some(Ciboulette2SqlError::NullCharIdent("n\0".to_string())));
    assert_eq!(b.buf(), "\"cte\" AS (");
    assert!(b.params().is_empty());
}

#[test]
fn select_errors_leave_what_was_written_before_them() {
    let store = blog_store(true, &[("articles", "article")]);
    let query = query(&["comments"]);
    let mut bad = blog_tables();
    bad.tables.retain(|t| t.ciboulette_type != "comments");
    let main = table("articles", None).to_cte(ident("cte_articles_data"));
    let articles = store.get_type("articles").unwrap();
    let rels = ciboulette2postgres::graph_walker::get_relationships(&store, articles).unwrap();
    let mut b = Ciboulette2PostgresBuilder::new();
    let r = b.select_multi_rels_routine(
        &bad,
        &query,
        &main,
        &rels.multi_rels,
        ciboulette2postgres::model::RelationshipFilter::All,
    );
    assert_eq!(r.err(), Some(Ciboulette2SqlError::UnknownTable("comments".to_string())));
    assert_eq!(b.buf(), ", ");
    let mut sparse = CibouletteQueryParameters { sparse: vec![], included_types: vec!["comments".to_string()] };
    sparse.sparse = vec![("comments".to_string(), vec!["body".to_string(), "nope".to_string()])];
    let mut b = Ciboulette2PostgresBuilder::new();
    let r = b.select_multi_rels_routine(
        &blog_tables(),
        &sparse,
        &main,
        &rels.multi_rels,
        ciboulette2postgres::model::RelationshipFilter::All,
    );
    assert_eq!(r.err(), Some(Ciboulette2SqlError::UnknownField("comments".to_string(), "nope".to_string())));
    assert_eq!(
        b.buf(),
        ", \"cte_rel_comments_data\" AS (SELECT \"comments\".\"id\"::TEXT AS \"id\", $1::TEXT AS \"type\", JSON_BUILD_OBJECT($2, \"comments\".\"body\", "
    );
    assert_eq!(b.params().len(), 2);
}
