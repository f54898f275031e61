use vstd::prelude::*;
use crate::builder::select::{
    additional_view, column_of, cte_final_params_view, cte_final_view, id_select_text, json_entries,
    json_object, spec_json_fields, union_view,
};
use crate::builder::select_main::{
    data_cte, path_id, read_table, read_type, select_main_view, select_normal_view, single_keys,
};
use crate::builder::select_rel::{
    bucket_rels_working, bucket_rels_view, m2m_data_view, multi_values, multi_rel_view, multi_rels_view, rel_cte,
    single_rels_view, Ciboulette2PostgresMultiRelationships, Ciboulette2PostgresMultiRelationshipsType,
    Ciboulette2PostgresRelationships, Ciboulette2PostgresResourceSingleRelationships,
};
use crate::builder::update::{
    names_ok, set_list_view, update_cte, update_main_ok, update_main_view, update_normal_view, update_table,
    update_type,
};
use crate::builder::update_rel::{update_rel_ok, update_rel_singles, update_rel_view};
use crate::builder::{ctes, empty_view, table_info, BuilderView, WorkingTableView};
use crate::graph::StoreView;
use crate::graph_walker::{
    attribute_args, extract_ok, extract_rel_ok, extract_step_ok,
    extract_values, main_steps, optional_attribute_args, rel_buckets, rel_multis, rel_singles,
    rel_step_ok, rel_update_values, spec_check_one_to_many, spec_single_opt, step_alias,
};
use crate::model::{
    lemma_find_key_bounds, spec_dest_key, Ciboulette2PostgresResponseType, spec_find_key, spec_is_included, AttributeValue,
    Ciboulette2SqlValue, CibouletteId, CibouletteOptionalData, CibouletteQueryParameters,
    CibouletteReadRequest, CibouletteRelationshipOneToManyOption, CibouletteResource,
    CibouletteResourceType, CibouletteSchemaProperty, CibouletteUpdateRelationship,
    CibouletteUpdateRequest, RelationshipFilter,
};
use crate::table::{spec_get_table, Ciboulette2PostgresTableStore, TableView};

verus! {

/// Whether two builders hold the same statement text, as many parameters, and the same
/// tables to return: they differ at most in the values bound to the parameters.
pub open spec fn same_shape(a: BuilderView, b: BuilderView) -> bool {
    &&& a.buf == b.buf
    &&& a.params.len() == b.params.len()
    &&& a.tables == b.tables
}

proof fn lemma_json_entries_shape(
    a: BuilderView,
    b: BuilderView,
    table: TableView,
    props: Seq<CibouletteSchemaProperty>,
    fields: Seq<String>,
)
    requires
        same_shape(a, b),
    ensures
        same_shape(json_entries(a, table, props, fields), json_entries(b, table, props, fields)),
    decreases fields.len(),
{
    if fields.len() > 0 {
        lemma_json_entries_shape(a, b, table, props, fields.drop_last());
    }
}

proof fn lemma_additional_shape(a: BuilderView, b: BuilderView, table: TableView, names: Seq<Seq<char>>)
    requires
        same_shape(a, b),
    ensures
        same_shape(additional_view(a, table, names), additional_view(b, table, names)),
    decreases names.len(),
{
    if names.len() > 0 {
        lemma_additional_shape(a, b, table, names.drop_last());
    }
}

proof fn lemma_cte_final_params_shape(
    a: BuilderView,
    b: BuilderView,
    table: TableView,
    type_: CibouletteResourceType,
    query: CibouletteQueryParameters,
    with_data: bool,
    params: Seq<Seq<char>>,
)
    requires
        same_shape(a, b),
    ensures
        same_shape(
            cte_final_params_view(a, table, type_, query, with_data, params),
            cte_final_params_view(b, table, type_, query, with_data, params),
        ),
{
    let prefix = |st: BuilderView|
        st.write("SELECT "@).write(id_select_text(table)).write(", "@).param(
            Ciboulette2SqlValue::Text(Some(type_.name)),
        ).write("::TEXT AS \"type\", "@);
    let fields = spec_json_fields(type_, query, with_data);
    if fields.len() > 0 {
        lemma_json_entries_shape(
            prefix(a).write("JSON_BUILD_OBJECT("@),
            prefix(b).write("JSON_BUILD_OBJECT("@),
            table,
            type_.properties@,
            fields,
        );
    }
    lemma_additional_shape(
        json_object(prefix(a), table, type_.properties@, fields).write(" AS \"data\""@),
        json_object(prefix(b), table, type_.properties@, fields).write(" AS \"data\""@),
        table,
        params,
    );
}

proof fn lemma_single_rels_shape(
    a: BuilderView,
    b: BuilderView,
    store: Ciboulette2PostgresTableStore,
    query: CibouletteQueryParameters,
    filter: RelationshipFilter,
    main: TableView,
    rels: Seq<Ciboulette2PostgresResourceSingleRelationships>,
)
    requires
        same_shape(a, b),
    ensures
        same_shape(
            single_rels_view(a, store, query, filter, main, rels),
            single_rels_view(b, store, query, filter, main, rels),
        ),
    decreases rels.len(),
{
    if rels.len() > 0 {
        lemma_single_rels_shape(a, b, store, query, filter, main, rels.drop_last());
        let pa = single_rels_view(a, store, query, filter, main, rels.drop_last());
        let pb = single_rels_view(b, store, query, filter, main, rels.drop_last());
        let r = rels.last();
        let t = spec_get_table(store, r.type_.name@)->0@;
        let cte = rel_cte(t, "_data"@);
        let with_data = spec_is_included(query, r.type_.name@);
        lemma_cte_final_params_shape(
            pa.write(", "@).write(table_info(cte)).write(" AS ("@),
            pb.write(", "@).write(table_info(cte)).write(" AS ("@),
            t,
            *r.type_,
            query,
            with_data,
            Seq::empty(),
        );
    }
}

proof fn lemma_multi_rels_shape(
    a: BuilderView,
    b: BuilderView,
    store: Ciboulette2PostgresTableStore,
    query: CibouletteQueryParameters,
    filter: RelationshipFilter,
    main: TableView,
    rels: Seq<Ciboulette2PostgresMultiRelationships>,
)
    requires
        same_shape(a, b),
    ensures
        same_shape(
            multi_rels_view(a, store, query, filter, main, rels),
            multi_rels_view(b, store, query, filter, main, rels),
        ),
    decreases rels.len(),
{
    if rels.len() > 0 {
        lemma_multi_rels_shape(a, b, store, query, filter, main, rels.drop_last());
        let pa = multi_rels_view(a, store, query, filter, main, rels.drop_last());
        let pb = multi_rels_view(b, store, query, filter, main, rels.drop_last());
        lemma_multi_rel_shape(pa, pb, store, query, filter, main, rels.last());
    }
}

proof fn lemma_multi_rel_shape(
    a: BuilderView,
    b: BuilderView,
    store: Ciboulette2PostgresTableStore,
    query: CibouletteQueryParameters,
    filter: RelationshipFilter,
    main: TableView,
    r: Ciboulette2PostgresMultiRelationships,
)
    requires
        same_shape(a, b),
    ensures
        same_shape(
            multi_rel_view(a, store, query, filter, main, r),
            multi_rel_view(b, store, query, filter, main, r),
        ),
{
    let with_data = spec_is_included(query, r.type_.name@);
    let rt = spec_get_table(store, r.type_.name@)->0@;
    match r.rel_opt {
        Ciboulette2PostgresMultiRelationshipsType::ManyToMany(o) => {
            let rrt = spec_get_table(store, o.bucket_resource@)->0@;
            let cte_rel = rel_cte(rrt, "_rel_data"@);
            let cte = rel_cte(rt, "_data"@);
            let names = seq![o.keys.0.1@, o.keys.1.1@];
            let start = |st: BuilderView|
                st.write(", "@).write(table_info(cte_rel)).write(" AS ("@).write("SELECT "@).write(
                    id_select_text(rrt),
                );
            lemma_additional_shape(start(a), start(b), rrt, names);
            let dk = spec_dest_key(o, main.ciboulette_type)->0@;
            let sa = m2m_data_view(
                a.write(", "@).write(table_info(cte_rel)).write(" AS ("@),
                rrt,
                names,
                main,
                dk,
            ).write("), "@);
            let sb = m2m_data_view(
                b.write(", "@).write(table_info(cte_rel)).write(" AS ("@),
                rrt,
                names,
                main,
                dk,
            ).write("), "@);
            lemma_cte_final_params_shape(
                sa.write(table_info(cte)).write(" AS ("@),
                sb.write(table_info(cte)).write(" AS ("@),
                rt,
                *r.type_,
                query,
                with_data,
                Seq::empty(),
            );
        },
        Ciboulette2PostgresMultiRelationshipsType::OneToMany(o) => {
            let cte = rel_cte(rt, "_data"@);
            lemma_cte_final_params_shape(
                a.write(", "@).write(table_info(cte)).write(" AS ("@),
                b.write(", "@).write(table_info(cte)).write(" AS ("@),
                rt,
                *r.type_,
                query,
                with_data,
                seq![o.many_table_key@, o.many_table_key@],
            );
        },
    }
}

proof fn lemma_union_shape(a: BuilderView, b: BuilderView, tables: Seq<TableView>)
    requires
        same_shape(a, b),
    ensures
        same_shape(union_view(a, tables), union_view(b, tables)),
    decreases tables.len(),
{
    if tables.len() > 0 {
        lemma_union_shape(a, b, tables.drop_last());
    }
}

/// The text of a read statement does not depend on the identifier that its path
/// designates: two reads of the same type with the same query, each designating an
/// identifier, give the same statement text, as many parameters and the same tables to
/// return. The identifier is only ever bound to a parameter.
pub proof fn law_select_text_ignores_id(
    sv: StoreView,
    ts: Ciboulette2PostgresTableStore,
    r1: CibouletteReadRequest,
    r2: CibouletteReadRequest,
)
    requires
        r1.resource_type == r2.resource_type,
        r1.query == r2.query,
        path_id(r1.path) is Some,
        path_id(r2.path) is Some,
    ensures
        same_shape(select_normal_view(sv, ts, r1), select_normal_view(sv, ts, r2)),
{
    let m1 = select_main_view(sv, ts, r1);
    let m2 = select_main_view(sv, ts, r2);
    assert(same_shape(m1, m2));
    let t = read_type(sv, r1);
    let steps = main_steps(sv, r1.resource_type@);
    let cte = data_cte(read_table(ts, r1));
    let singles = rel_singles(sv, t, steps);
    let multis = multi_values(rel_multis(sv, t, steps));
    lemma_single_rels_shape(m1, m2, ts, r1.query, RelationshipFilter::All, cte, singles);
    let s1 = single_rels_view(m1, ts, r1.query, RelationshipFilter::All, cte, singles);
    let s2 = single_rels_view(m2, ts, r1.query, RelationshipFilter::All, cte, singles);
    lemma_multi_rels_shape(s1, s2, ts, r1.query, RelationshipFilter::All, cte, multis);
    let w = WorkingTableView { table: read_table(ts, r1), cte, requirement: Ciboulette2PostgresResponseType::Object };
    let u1 = multi_rels_view(s1, ts, r1.query, RelationshipFilter::All, cte, multis).add_table(w);
    let u2 = multi_rels_view(s2, ts, r1.query, RelationshipFilter::All, cte, multis).add_table(w);
    lemma_union_shape(u1, u2, ctes(u1.tables));
}

proof fn lemma_set_list_shape(
    a: BuilderView,
    b: BuilderView,
    v1: Seq<(Seq<char>, Ciboulette2SqlValue)>,
    v2: Seq<(Seq<char>, Ciboulette2SqlValue)>,
)
    requires
        same_shape(a, b),
        v1.len() == v2.len(),
        forall|i: int| 0 <= i < v1.len() ==> (#[trigger] v1[i]).0 == v2[i].0,
    ensures
        same_shape(set_list_view(a, v1), set_list_view(b, v2)),
    decreases v1.len(),
{
    if v1.len() > 0 {
        lemma_set_list_shape(a, b, v1.drop_last(), v2.drop_last());
        assert(v1.last().0 == v2[v1.len() - 1].0);
    }
}

/// The text of an update does not depend on the values it assigns nor on the identifier
/// of the updated resource: two updates of the same columns give the same statement text
/// and as many parameters.
pub proof fn law_update_text_ignores_values(
    a: BuilderView,
    b: BuilderView,
    table: TableView,
    v1: Seq<(Seq<char>, Ciboulette2SqlValue)>,
    v2: Seq<(Seq<char>, Ciboulette2SqlValue)>,
    id1: CibouletteId,
    id2: CibouletteId,
    returning: bool,
)
    requires
        same_shape(a, b),
        v1.len() == v2.len(),
        forall|i: int| 0 <= i < v1.len() ==> (#[trigger] v1[i]).0 == v2[i].0,
    ensures
        same_shape(
            update_normal_view(a, table, v1, id1, returning),
            update_normal_view(b, table, v2, id2, returning),
        ),
{
    let start = |st: BuilderView| st.write("UPDATE "@).write(table_info(table)).write(" SET "@);
    lemma_set_list_shape(start(a), start(b), v1, v2);
}

/// Whether two lists of column assignments assign the same columns, in the same order.
pub open spec fn same_names(v1: Seq<(Seq<char>, Ciboulette2SqlValue)>, v2: Seq<(Seq<char>, Ciboulette2SqlValue)>) -> bool {
    v1.len() == v2.len() && forall|i: int| 0 <= i < v1.len() ==> (#[trigger] v1[i]).0 == v2[i].0
}

proof fn lemma_names_ok_same(v1: Seq<(Seq<char>, Ciboulette2SqlValue)>, v2: Seq<(Seq<char>, Ciboulette2SqlValue)>)
    requires
        same_names(v1, v2),
    ensures
        names_ok(v1) == names_ok(v2),
{
    if names_ok(v1) {
        assert forall|i: int| 0 <= i < v2.len() implies !(#[trigger] v2[i]).0.contains('\0') by {
            assert(v1[i].0 == v2[i].0);
        }
    }
    if names_ok(v2) {
        assert forall|i: int| 0 <= i < v1.len() implies !(#[trigger] v1[i]).0.contains('\0') by {
            assert(v1[i].0 == v2[i].0);
        }
    }
}

/// Whether two attribute values are both absent from the document or both present.
pub open spec fn same_presence(a: AttributeValue, b: AttributeValue) -> bool {
    (a is Absent) == (b is Absent)
}

/// Whether two linkages are of the same kind: one identifier each, several each, or the same
/// kind of null.
pub open spec fn same_linkage_kind(a: CibouletteOptionalData, b: CibouletteOptionalData) -> bool {
    match a {
        CibouletteOptionalData::One(_) => b is One,
        CibouletteOptionalData::Many(_) => b is Many,
        CibouletteOptionalData::Null(x) => b matches CibouletteOptionalData::Null(y) && x == y,
    }
}

/// Whether two documents differ at most in the values they give: the same attributes,
/// present in the same places, and the same relationships with linkages of the same kinds.
pub open spec fn same_document_shape(r1: CibouletteResource, r2: CibouletteResource) -> bool {
    &&& match r1.attributes {
        None => r2.attributes is None,
        Some(o1) => r2.attributes matches Some(o2) && o1.entries@.len() == o2.entries@.len() && forall|i: int|
            0 <= i < o1.entries@.len() ==> (#[trigger] o1.entries@[i]).0 == o2.entries@[i].0 && same_presence(
                o1.entries@[i].1,
                o2.entries@[i].1,
            ),
    }
    &&& r1.relationships@.len() == r2.relationships@.len()
    &&& forall|i: int|
        0 <= i < r1.relationships@.len() ==> (#[trigger] r1.relationships@[i]).0 == r2.relationships@[i].0
            && same_linkage_kind(r1.relationships@[i].1, r2.relationships@[i].1)
}

proof fn lemma_attribute_args_names(e1: Seq<(String, AttributeValue)>, e2: Seq<(String, AttributeValue)>)
    requires
        e1.len() == e2.len(),
        forall|i: int| 0 <= i < e1.len() ==> (#[trigger] e1[i]).0 == e2[i].0 && same_presence(e1[i].1, e2[i].1),
    ensures
        same_names(attribute_args(e1), attribute_args(e2)),
    decreases e1.len(),
{
    if e1.len() > 0 {
        assert(e1[e1.len() - 1] == e1.last());
        lemma_attribute_args_names(e1.drop_last(), e2.drop_last());
    }
}

proof fn lemma_find_key_same_keys(
    p1: Seq<(String, CibouletteOptionalData)>,
    p2: Seq<(String, CibouletteOptionalData)>,
    key: Seq<char>,
)
    requires
        p1.len() == p2.len(),
        forall|i: int| 0 <= i < p1.len() ==> (#[trigger] p1[i]).0 == p2[i].0,
    ensures
        spec_find_key(p1, key) == spec_find_key(p2, key),
    decreases p1.len(),
{
    if p1.len() > 0 {
        assert(p1[p1.len() - 1] == p1.last());
        lemma_find_key_same_keys(p1.drop_last(), p2.drop_last(), key);
    }
}

/// Whether two outcomes of a linkage check are alike: both refused, both without an
/// assignment, or both assigning the same column.
pub open spec fn same_check(
    c1: Option<Option<(String, Ciboulette2SqlValue)>>,
    c2: Option<Option<(String, Ciboulette2SqlValue)>>,
) -> bool {
    match c1 {
        None => c2 is None,
        Some(None) => c2 == Some(None::<(String, Ciboulette2SqlValue)>),
        Some(Some((k, _))) => c2 matches Some(Some((k2, _))) && k2 == k,
    }
}

proof fn lemma_check_same(
    r1: CibouletteResource,
    r2: CibouletteResource,
    alias: Seq<char>,
    o: CibouletteRelationshipOneToManyOption,
)
    requires
        same_document_shape(r1, r2),
    ensures
        same_check(spec_check_one_to_many(r1.relationships@, alias, o), spec_check_one_to_many(r2.relationships@, alias, o)),
        spec_find_key(r1.relationships@, alias) == spec_find_key(r2.relationships@, alias),
{
    lemma_find_key_same_keys(r1.relationships@, r2.relationships@, alias);
    lemma_find_key_bounds(r1.relationships@, alias);
}

proof fn lemma_extract_values_names(
    sv: StoreView,
    t: CibouletteResourceType,
    r1: CibouletteResource,
    r2: CibouletteResource,
    steps: Seq<(usize, usize)>,
)
    requires
        same_document_shape(r1, r2),
    ensures
        same_names(extract_values(sv, t, r1.relationships@, steps), extract_values(sv, t, r2.relationships@, steps)),
        forall|k: int|
            0 <= k < steps.len() ==> (extract_step_ok(sv, t, r1.relationships@, true, #[trigger] steps[k])
                == extract_step_ok(sv, t, r2.relationships@, true, steps[k])),
    decreases steps.len(),
{
    if steps.len() > 0 {
        lemma_extract_values_names(sv, t, r1, r2, steps.drop_last());
        let p = steps.last();
        match spec_single_opt(sv.edges[p.0 as int].2, t.name@) {
            Some(o) => {
                lemma_check_same(r1, r2, step_alias(sv, t, p)->0, o);
            },
            None => {},
        }
        assert forall|k: int| 0 <= k < steps.len() implies (extract_step_ok(sv, t, r1.relationships@, true, #[trigger] steps[k])
            == extract_step_ok(sv, t, r2.relationships@, true, steps[k])) by {
            if k < steps.len() - 1 {
                assert(steps[k] == steps.drop_last()[k]);
            } else {
                match step_alias(sv, t, p) {
                    Some(alias) => match spec_single_opt(sv.edges[p.0 as int].2, t.name@) {
                        Some(o) => {
                            lemma_check_same(r1, r2, alias, o);
                        },
                        None => {
                            lemma_find_key_same_keys(r1.relationships@, r2.relationships@, alias);
                        },
                    },
                    None => {},
                }
            }
        }
    }
}

proof fn lemma_bucket_rels_shape(
    a: BuilderView,
    b: BuilderView,
    store: Ciboulette2PostgresTableStore,
    query: CibouletteQueryParameters,
    main: TableView,
    rels: Seq<Ciboulette2PostgresRelationships>,
)
    requires
        same_shape(a, b),
    ensures
        same_shape(bucket_rels_view(a, store, query, main, rels), bucket_rels_view(b, store, query, main, rels)),
    decreases rels.len(),
{
    if rels.len() > 0 {
        lemma_bucket_rels_shape(a, b, store, query, main, rels.drop_last());
        let pa = bucket_rels_view(a, store, query, main, rels.drop_last());
        let pb = bucket_rels_view(b, store, query, main, rels.drop_last());
        let r = rels.last();
        let rt = spec_get_table(store, r.type_.name@)->0@;
        let rrt = spec_get_table(store, r.bucket.resource.name@)->0@;
        let cte_rel = rel_cte(rt, "_rel_data"@);
        let cte = rel_cte(rt, "_data"@);
        let bucket_data = spec_is_included(query, r.bucket.resource.name@);
        let start = |st: BuilderView| st.write(", "@).write(table_info(cte_rel)).write(" AS ("@);
        lemma_cte_final_params_shape(start(pa), start(pb), rrt, *r.bucket.resource, query, bucket_data, Seq::empty());
        let mid = |st: BuilderView|
            cte_final_view(start(st), rrt, *r.bucket.resource, query, bucket_data).write(" WHERE "@).write(
                column_of(r.bucket.to@, rrt),
            ).write(" = "@).write(column_of(main.id_name, main)).write("), "@).write(table_info(cte)).write(
                " AS ("@,
            );
        lemma_cte_final_params_shape(
            mid(pa),
            mid(pb),
            rt,
            *r.type_,
            query,
            spec_is_included(query, r.type_.name@),
            Seq::empty(),
        );
    }
}

/// Whether an update of a resource is accepted, and the text of its statement, do not
/// depend on the values that its document gives nor on the identifier of the resource:
/// two updates of the same type with the same query, whose documents differ at most in
/// their values, are accepted or refused alike, and give the same statement text, as many
/// parameters and the same tables to return.
pub proof fn law_update_text_ignores_document_values(
    sv: StoreView,
    ts: Ciboulette2PostgresTableStore,
    r1: CibouletteUpdateRequest,
    r2: CibouletteUpdateRequest,
)
    requires
        r1.resource_type == r2.resource_type,
        r1.query == r2.query,
        r1.data is MainType,
        r2.data is MainType,
        same_document_shape(r1.data->MainType_0, r2.data->MainType_0),
    ensures
        update_main_ok(sv, ts, r1) == update_main_ok(sv, ts, r2),
        same_shape(update_main_view(sv, ts, r1), update_main_view(sv, ts, r2)),
{
    let t = update_type(sv, r1);
    let res1 = r1.data->MainType_0;
    let res2 = r2.data->MainType_0;
    let steps = main_steps(sv, r1.resource_type@);
    match res1.attributes {
        Some(o1) => {
            let o2 = res2.attributes->0;
            lemma_attribute_args_names(o1.entries@, o2.entries@);
        },
        None => {},
    }
    lemma_extract_values_names(sv, t, res1, res2, steps);
    let ms = main_steps(sv, t.name@);
    lemma_extract_values_names(sv, t, res1, res2, ms);
    if forall|k: int| 0 <= k < ms.len() ==> extract_step_ok(sv, t, res1.relationships@, true, #[trigger] ms[k]) {
        assert forall|k: int| 0 <= k < ms.len() implies extract_step_ok(sv, t, res2.relationships@, true, #[trigger] ms[k]) by {
            assert(extract_step_ok(sv, t, res1.relationships@, true, ms[k]));
        }
    }
    if forall|k: int| 0 <= k < ms.len() ==> extract_step_ok(sv, t, res2.relationships@, true, #[trigger] ms[k]) {
        assert forall|k: int| 0 <= k < ms.len() implies extract_step_ok(sv, t, res1.relationships@, true, #[trigger] ms[k]) by {
            assert(extract_step_ok(sv, t, res2.relationships@, true, ms[k]));
        }
    }
    assert(extract_ok(sv, t, res1.attributes, res1.relationships@, true) == extract_ok(
        sv,
        t,
        res2.attributes,
        res2.relationships@,
        true,
    ));
    let a1 = optional_attribute_args(res1.attributes);
    let a2 = optional_attribute_args(res2.attributes);
    let x1 = extract_values(sv, t, res1.relationships@, steps);
    let x2 = extract_values(sv, t, res2.relationships@, steps);
    assert forall|i: int| 0 <= i < (a1 + x1).len() implies (#[trigger] (a1 + x1)[i]).0 == (a2 + x2)[i].0 by {
        if i < a1.len() {
            assert(a1[i].0 == a2[i].0);
        } else {
            assert(x1[i - a1.len()].0 == x2[i - a1.len()].0);
        }
    }
    lemma_names_ok_same(a1 + x1, a2 + x2);
    let table = update_table(ts, r1);
    let upd = update_cte(table);
    let data = data_cte(table);
    let st0 = empty_view().write("WITH "@).write(table_info(upd)).write(" AS ("@);
    law_update_text_ignores_values(st0, st0, table, a1 + x1, a2 + x2, r1.resource_id, r2.resource_id, true);
    let st1a = update_normal_view(st0, table, a1 + x1, r1.resource_id, true).write("), "@);
    let st1b = update_normal_view(st0, table, a2 + x2, r2.resource_id, true).write("), "@);
    lemma_cte_final_params_shape(
        st1a.write(table_info(data)).write(" AS ("@),
        st1b.write(table_info(data)).write(" AS ("@),
        upd,
        t,
        r1.query,
        true,
        Seq::empty(),
    );
    let st2a = cte_final_view(st1a.write(table_info(data)).write(" AS ("@), upd, t, r1.query, true).write(")"@);
    let st2b = cte_final_view(st1b.write(table_info(data)).write(" AS ("@), upd, t, r1.query, true).write(")"@);
    let singles = rel_singles(sv, t, steps);
    lemma_single_rels_shape(st2a, st2b, ts, r1.query, RelationshipFilter::All, upd, singles);
    let st3a = single_rels_view(st2a, ts, r1.query, RelationshipFilter::All, upd, singles);
    let st3b = single_rels_view(st2b, ts, r1.query, RelationshipFilter::All, upd, singles);
    let buckets = rel_buckets(sv, t, steps);
    lemma_bucket_rels_shape(st3a, st3b, ts, r1.query, data, buckets);
    let w = WorkingTableView { table, cte: data, requirement: Ciboulette2PostgresResponseType::Object };
    let bw = bucket_rels_working(ts, r1.query, buckets);
    let st4a = bucket_rels_view(st3a, ts, r1.query, data, buckets).add_tables(bw).write(" "@).add_table(w);
    let st4b = bucket_rels_view(st3b, ts, r1.query, data, buckets).add_tables(bw).write(" "@).add_table(w);
    lemma_union_shape(st4a, st4b, ctes(st4a.tables));
}

proof fn lemma_rel_update_values_names(
    sv: StoreView,
    t: CibouletteResourceType,
    rel1: CibouletteUpdateRelationship,
    rel2: CibouletteUpdateRelationship,
    steps: Seq<(usize, usize)>,
)
    requires
        rel1.type_ == rel2.type_,
        same_linkage_kind(rel1.value, rel2.value),
    ensures
        same_names(rel_update_values(sv, t, rel1, steps), rel_update_values(sv, t, rel2, steps)),
        forall|k: int|
            0 <= k < steps.len() ==> (rel_step_ok(sv, t, rel1, #[trigger] steps[k]) == rel_step_ok(sv, t, rel2, steps[k])),
    decreases steps.len(),
{
    if steps.len() > 0 {
        lemma_rel_update_values_names(sv, t, rel1, rel2, steps.drop_last());
        assert forall|k: int| 0 <= k < steps.len() implies (rel_step_ok(sv, t, rel1, #[trigger] steps[k]) == rel_step_ok(
            sv,
            t,
            rel2,
            steps[k],
        )) by {
            if k < steps.len() - 1 {
                assert(steps[k] == steps.drop_last()[k]);
            }
        }
    }
}

/// Whether an update of a relationship is accepted, and the text of its statement, do not
/// depend on the identifiers that it gives nor on the identifier of the resource: two
/// updates of the same relationship of the same type with the same query, whose linkages
/// are of the same kind, are accepted or refused alike, and give the same statement text,
/// as many parameters and the same tables to return.
pub proof fn law_update_rel_text_ignores_ids(
    sv: StoreView,
    ts: Ciboulette2PostgresTableStore,
    r1: CibouletteUpdateRequest,
    r2: CibouletteUpdateRequest,
)
    requires
        r1.resource_type == r2.resource_type,
        r1.query == r2.query,
        r1.data is Relationship,
        r2.data is Relationship,
        r1.data->Relationship_0.type_ == r2.data->Relationship_0.type_,
        same_linkage_kind(r1.data->Relationship_0.value, r2.data->Relationship_0.value),
    ensures
        update_rel_ok(sv, ts, r1) == update_rel_ok(sv, ts, r2),
        same_shape(update_rel_view(sv, ts, r1), update_rel_view(sv, ts, r2)),
{
    let t = update_type(sv, r1);
    let rel1 = r1.data->Relationship_0;
    let rel2 = r2.data->Relationship_0;
    let steps = main_steps(sv, r1.resource_type@);
    let ms = main_steps(sv, t.name@);
    lemma_rel_update_values_names(sv, t, rel1, rel2, steps);
    lemma_rel_update_values_names(sv, t, rel1, rel2, ms);
    if forall|k: int| 0 <= k < ms.len() ==> rel_step_ok(sv, t, rel1, #[trigger] ms[k]) {
        assert forall|k: int| 0 <= k < ms.len() implies rel_step_ok(sv, t, rel2, #[trigger] ms[k]) by {
            assert(rel_step_ok(sv, t, rel1, ms[k]));
        }
    }
    if forall|k: int| 0 <= k < ms.len() ==> rel_step_ok(sv, t, rel2, #[trigger] ms[k]) {
        assert forall|k: int| 0 <= k < ms.len() implies rel_step_ok(sv, t, rel1, #[trigger] ms[k]) by {
            assert(rel_step_ok(sv, t, rel2, ms[k]));
        }
    }
    assert(extract_rel_ok(sv, t, rel1) == extract_rel_ok(sv, t, rel2));
    let v1 = rel_update_values(sv, t, rel1, steps);
    let v2 = rel_update_values(sv, t, rel2, steps);
    lemma_names_ok_same(v1, v2);
    let table = update_table(ts, r1);
    let upd = update_cte(table);
    let data = data_cte(table);
    let singles = update_rel_singles(sv, r1);
    assert(singles == update_rel_singles(sv, r2));
    let st0 = empty_view().write("WITH "@).write(table_info(upd)).write(" AS ("@);
    law_update_text_ignores_values(st0, st0, table, v1, v2, r1.resource_id, r2.resource_id, true);
    let st1a = update_normal_view(st0, table, v1, r1.resource_id, true).write("), "@);
    let st1b = update_normal_view(st0, table, v2, r2.resource_id, true).write("), "@);
    lemma_cte_final_params_shape(
        st1a.write(table_info(data)).write(" AS ("@),
        st1b.write(table_info(data)).write(" AS ("@),
        upd,
        t,
        r1.query,
        true,
        single_keys(singles),
    );
    let st2a = cte_final_params_view(
        st1a.write(table_info(data)).write(" AS ("@),
        upd,
        t,
        r1.query,
        true,
        single_keys(singles),
    ).write(")"@);
    let st2b = cte_final_params_view(
        st1b.write(table_info(data)).write(" AS ("@),
        upd,
        t,
        r1.query,
        true,
        single_keys(singles),
    ).write(")"@);
    lemma_single_rels_shape(st2a, st2b, ts, r1.query, RelationshipFilter::IncludedOnly, data, singles);
    let w = WorkingTableView { table, cte: data, requirement: Ciboulette2PostgresResponseType::Object };
    let st3a = single_rels_view(st2a, ts, r1.query, RelationshipFilter::IncludedOnly, data, singles).write(" "@).add_table(w);
    let st3b = single_rels_view(st2b, ts, r1.query, RelationshipFilter::IncludedOnly, data, singles).write(" "@).add_table(w);
    lemma_union_shape(st3a, st3b, ctes(st3a.tables));
}

} // verus!
