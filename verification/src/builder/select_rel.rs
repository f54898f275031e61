use vstd::prelude::*;
use crate::builder::select::{
    additional_view, cte_final_err_view, column_of, cte_final_ok, cte_final_params_view, cte_final_view,
    cte_single_rel_view, id_select_text, is_cte_final_error,
};
use crate::builder::{table_info, BuilderView, Ciboulette2PostgresBuilder, WorkingTableView};
use crate::error::Ciboulette2SqlError;
use crate::ident::Ciboulette2PostgresSafeIdent;
use crate::text::str_eq;
use crate::model::{
    keys_ordered, requirement, spec_dest_key, spec_is_included, spec_requirement, Ciboulette2PostgresResponseType,
    CibouletteQueryParameters, CibouletteRelationshipManyToManyOption,
    CibouletteRelationshipOneToManyOption, CibouletteResourceType, RelationshipFilter,
};
use crate::table::{
    additional_names, Ciboulette2PostgresTableField, Ciboulette2SqlAdditionalField, is_unknown_table, spec_get_table, spec_to_cte, Ciboulette2PostgresTableSettings,
    Ciboulette2PostgresTableStore, TableView,
};

verus! {

/// The common table expression `cte_rel_<name><suffix>` that stands for a table.
pub open spec fn rel_cte(t: TableView, suffix: Seq<char>) -> TableView {
    spec_to_cte(t, "cte_rel_"@ + t.name + suffix)
}

/// The common table expression `cte_rel_<name><suffix>` that stands for a table.
pub fn to_rel_cte(t: &Ciboulette2PostgresTableSettings, suffix: &str) -> (r: Ciboulette2PostgresTableSettings)
    requires
        !suffix@.contains('\0'),
    ensures
        r@ == rel_cte(t@, suffix@),
{
    proof {
        reveal_strlit("cte_rel_");
    }
    t.to_cte(t.name.affixed("cte_rel_", suffix))
}

/// A to-one relationship of the main resource: the related type, and the column of the
/// main table that holds the identifier of the related resource.
pub struct Ciboulette2PostgresResourceSingleRelationships<'a> {
    pub type_: &'a CibouletteResourceType,
    pub key: String,
}

/// Whether a to-one relationship is selected.
pub open spec fn single_rel_needed(
    filter: RelationshipFilter,
    query: CibouletteQueryParameters,
    r: Ciboulette2PostgresResourceSingleRelationships,
) -> bool {
    spec_requirement(filter, query, r.type_.name@) is Some
}

/// Whether a to-one relationship can be selected, when it is to be.
pub open spec fn single_rel_ok(
    store: Ciboulette2PostgresTableStore,
    query: CibouletteQueryParameters,
    filter: RelationshipFilter,
    r: Ciboulette2PostgresResourceSingleRelationships,
) -> bool {
    single_rel_needed(filter, query, r) ==> spec_get_table(store, r.type_.name@) is Some
        && !r.key@.contains('\0') && cte_final_ok(*r.type_, query, spec_is_included(query, r.type_.name@))
}

/// Whether `e` reports why a to-one relationship cannot be selected.
pub open spec fn is_single_rel_error(
    e: Ciboulette2SqlError,
    store: Ciboulette2PostgresTableStore,
    query: CibouletteQueryParameters,
    r: Ciboulette2PostgresResourceSingleRelationships,
) -> bool {
    if spec_get_table(store, r.type_.name@) is None {
        is_unknown_table(e, r.type_.name@)
    } else if r.key@.contains('\0') {
        e matches Ciboulette2SqlError::NullCharIdent(m) && m@ == r.key@
    } else {
        is_cte_final_error(e, *r.type_, query, spec_is_included(query, r.type_.name@))
    }
}

/// `, "cte_rel_<t>_data" AS (<related resources>)` for a selected to-one relationship; its
/// table, common table expression and requirement are added to the tables to return.
pub open spec fn single_rel_view(
    st: BuilderView,
    store: Ciboulette2PostgresTableStore,
    query: CibouletteQueryParameters,
    filter: RelationshipFilter,
    main: TableView,
    r: Ciboulette2PostgresResourceSingleRelationships,
) -> BuilderView {
    if !single_rel_needed(filter, query, r) {
        st
    } else {
        let t = spec_get_table(store, r.type_.name@)->0@;
        let cte = rel_cte(t, "_data"@);
        cte_single_rel_view(
            st.write(", "@).write(table_info(cte)).write(" AS ("@),
            t,
            *r.type_,
            query,
            main,
            r.key@,
            spec_is_included(query, r.type_.name@),
        ).write(")"@).add_table(
            (WorkingTableView { table: t, cte, requirement: spec_requirement(filter, query, r.type_.name@)->0 }),
        )
    }
}

/// What the selection of a to-one relationship that cannot be selected leaves written:
/// nothing when its table is missing or its key holds a NUL, else the start of its common
/// table expression up to the field that cannot be selected.
pub open spec fn single_rel_err_view(
    st: BuilderView,
    store: Ciboulette2PostgresTableStore,
    query: CibouletteQueryParameters,
    r: Ciboulette2PostgresResourceSingleRelationships,
) -> BuilderView {
    let t = spec_get_table(store, r.type_.name@)->0@;
    if spec_get_table(store, r.type_.name@) is None || r.key@.contains('\0') {
        st
    } else {
        cte_final_err_view(
            st.write(", "@).write(table_info(rel_cte(t, "_data"@))).write(" AS ("@),
            t,
            *r.type_,
            query,
            spec_is_included(query, r.type_.name@),
        )
    }
}

/// Whether every to-one relationship can be selected.
pub open spec fn single_rels_ok(
    store: Ciboulette2PostgresTableStore,
    query: CibouletteQueryParameters,
    filter: RelationshipFilter,
    rels: Seq<Ciboulette2PostgresResourceSingleRelationships>,
) -> bool {
    forall|j: int| 0 <= j < rels.len() ==> single_rel_ok(store, query, filter, #[trigger] rels[j])
}

/// Whether `e` says why the first to-one relationship that cannot be selected cannot be.
pub open spec fn is_single_rels_error(
    e: Ciboulette2SqlError,
    store: Ciboulette2PostgresTableStore,
    query: CibouletteQueryParameters,
    filter: RelationshipFilter,
    rels: Seq<Ciboulette2PostgresResourceSingleRelationships>,
) -> bool {
    exists|k: int|
        0 <= k < rels.len() && !single_rel_ok(store, query, filter, #[trigger] rels[k]) && (forall|j: int|
            0 <= j < k ==> single_rel_ok(store, query, filter, #[trigger] rels[j])) && is_single_rel_error(
            e,
            store,
            query,
            rels[k],
        )
}

/// The selections of the to-one relationships, in order.
pub open spec fn single_rels_view(
    st: BuilderView,
    store: Ciboulette2PostgresTableStore,
    query: CibouletteQueryParameters,
    filter: RelationshipFilter,
    main: TableView,
    rels: Seq<Ciboulette2PostgresResourceSingleRelationships>,
) -> BuilderView
    decreases rels.len(),
{
    if rels.len() == 0 {
        st
    } else {
        single_rel_view(
            single_rels_view(st, store, query, filter, main, rels.drop_last()),
            store,
            query,
            filter,
            main,
            rels.last(),
        )
    }
}

/// The views of a list of tables.
pub open spec fn views(tables: Seq<Ciboulette2PostgresTableSettings>) -> Seq<TableView> {
    tables.map_values(|t: Ciboulette2PostgresTableSettings| t@)
}

/// The bucket of a many-to-many relationship as seen from the main type: the bucket type,
/// its column `to` that holds identifiers of main resources, and its column `from` that
/// holds identifiers of related resources.
pub struct CibouletteRelationshipBucket<'a> {
    pub resource: &'a CibouletteResourceType,
    pub from: String,
    pub to: String,
}

/// A many-to-many relationship of the main resources.
pub struct Ciboulette2PostgresRelationships<'a> {
    pub type_: &'a CibouletteResourceType,
    pub bucket: CibouletteRelationshipBucket<'a>,
}

/// Whether a many-to-many relationship can be selected: both tables are registered, the
/// fields to return of both types can be selected, and both columns are identifiers.
pub open spec fn bucket_rel_ok(
    store: Ciboulette2PostgresTableStore,
    query: CibouletteQueryParameters,
    r: Ciboulette2PostgresRelationships,
) -> bool {
    &&& spec_get_table(store, r.type_.name@) is Some
    &&& spec_get_table(store, r.bucket.resource.name@) is Some
    &&& cte_final_ok(*r.bucket.resource, query, spec_is_included(query, r.bucket.resource.name@))
    &&& !r.bucket.to@.contains('\0')
    &&& cte_final_ok(*r.type_, query, spec_is_included(query, r.type_.name@))
    &&& !r.bucket.from@.contains('\0')
}

/// Whether `e` reports the first reason, in this order, why a many-to-many relationship
/// cannot be selected.
pub open spec fn is_bucket_rel_error(
    e: Ciboulette2SqlError,
    store: Ciboulette2PostgresTableStore,
    query: CibouletteQueryParameters,
    r: Ciboulette2PostgresRelationships,
) -> bool {
    if spec_get_table(store, r.type_.name@) is None {
        is_unknown_table(e, r.type_.name@)
    } else if spec_get_table(store, r.bucket.resource.name@) is None {
        is_unknown_table(e, r.bucket.resource.name@)
    } else if !cte_final_ok(*r.bucket.resource, query, spec_is_included(query, r.bucket.resource.name@)) {
        is_cte_final_error(e, *r.bucket.resource, query, spec_is_included(query, r.bucket.resource.name@))
    } else if r.bucket.to@.contains('\0') {
        e matches Ciboulette2SqlError::NullCharIdent(m) && m@ == r.bucket.to@
    } else if !cte_final_ok(*r.type_, query, spec_is_included(query, r.type_.name@)) {
        is_cte_final_error(e, *r.type_, query, spec_is_included(query, r.type_.name@))
    } else {
        e matches Ciboulette2SqlError::NullCharIdent(m) && m@ == r.bucket.from@
    }
}

/// The two common table expressions of a many-to-many relationship.
pub open spec fn bucket_rel_view(
    st: BuilderView,
    store: Ciboulette2PostgresTableStore,
    query: CibouletteQueryParameters,
    main: TableView,
    r: Ciboulette2PostgresRelationships,
) -> BuilderView {
    let rt = spec_get_table(store, r.type_.name@)->0@;
    let rrt = spec_get_table(store, r.bucket.resource.name@)->0@;
    let cte_rel = rel_cte(rt, "_rel_data"@);
    let cte = rel_cte(rt, "_data"@);
    let st1 = cte_final_view(
        st.write(", "@).write(table_info(cte_rel)).write(" AS ("@),
        rrt,
        *r.bucket.resource,
        query,
        spec_is_included(query, r.bucket.resource.name@),
    ).write(" WHERE "@).write(column_of(r.bucket.to@, rrt)).write(" = "@).write(
        column_of(main.id_name, main),
    ).write("), "@).write(table_info(cte)).write(" AS ("@);
    cte_final_view(st1, rt, *r.type_, query, spec_is_included(query, r.type_.name@)).write(
        " WHERE "@,
    ).write(column_of(rt.id_name, rt)).write(" IN (SELECT "@).write(column_of(r.bucket.from@, cte_rel)).write(
        " FROM "@,
    ).write(table_info(cte_rel)).write(")"@)
}

/// What the common table expressions of a many-to-many relationship that cannot be
/// selected leave written: the separator when a table is missing; else the text up to the
/// field that cannot be selected, or up to the bucket column that holds a NUL.
pub open spec fn bucket_rel_err_view(
    st: BuilderView,
    store: Ciboulette2PostgresTableStore,
    query: CibouletteQueryParameters,
    main: TableView,
    r: Ciboulette2PostgresRelationships,
) -> BuilderView {
    let rt = spec_get_table(store, r.type_.name@)->0@;
    let rrt = spec_get_table(store, r.bucket.resource.name@)->0@;
    let cte_rel = rel_cte(rt, "_rel_data"@);
    let cte = rel_cte(rt, "_data"@);
    let bucket_data = spec_is_included(query, r.bucket.resource.name@);
    let with_data = spec_is_included(query, r.type_.name@);
    let s0 = st.write(", "@);
    let s1 = s0.write(table_info(cte_rel)).write(" AS ("@);
    let s2 = cte_final_view(s1, rrt, *r.bucket.resource, query, bucket_data).write(" WHERE "@);
    let s3 = s2.write(column_of(r.bucket.to@, rrt)).write(" = "@).write(column_of(main.id_name, main)).write(
        "), "@,
    ).write(table_info(cte)).write(" AS ("@);
    if spec_get_table(store, r.type_.name@) is None || spec_get_table(store, r.bucket.resource.name@) is None {
        s0
    } else if !cte_final_ok(*r.bucket.resource, query, bucket_data) {
        cte_final_err_view(s1, rrt, *r.bucket.resource, query, bucket_data)
    } else if r.bucket.to@.contains('\0') {
        s2
    } else if !cte_final_ok(*r.type_, query, with_data) {
        cte_final_err_view(s3, rt, *r.type_, query, with_data)
    } else {
        cte_final_view(s3, rt, *r.type_, query, with_data).write(" WHERE "@).write(column_of(rt.id_name, rt)).write(
            " IN (SELECT "@,
        )
    }
}

/// The common table expressions of the many-to-many relationships, in order.
pub open spec fn bucket_rels_view(
    st: BuilderView,
    store: Ciboulette2PostgresTableStore,
    query: CibouletteQueryParameters,
    main: TableView,
    rels: Seq<Ciboulette2PostgresRelationships>,
) -> BuilderView
    decreases rels.len(),
{
    if rels.len() == 0 {
        st
    } else {
        bucket_rel_view(bucket_rels_view(st, store, query, main, rels.drop_last()), store, query, main, rels.last())
    }
}

/// The tables that the many-to-many relationships add: for each, its related resources,
/// then its bucket rows.
pub open spec fn bucket_rels_tables(
    store: Ciboulette2PostgresTableStore,
    rels: Seq<Ciboulette2PostgresRelationships>,
) -> Seq<TableView>
    decreases rels.len(),
{
    if rels.len() == 0 {
        Seq::empty()
    } else {
        let rt = spec_get_table(store, rels.last().type_.name@)->0@;
        bucket_rels_tables(store, rels.drop_last()).push(rel_cte(rt, "_data"@)).push(rel_cte(rt, "_rel_data"@))
    }
}

/// The relationships of an ordered map from alias to relationship, in order.
pub open spec fn multi_values(rels: Seq<(String, Ciboulette2PostgresMultiRelationships)>) -> Seq<Ciboulette2PostgresMultiRelationships> {
    rels.map_values(|p: (String, Ciboulette2PostgresMultiRelationships)| p.1)
}

/// What is returned of resources of the type `name`: their data when the type is
/// included, else their identifiers.
pub open spec fn included_requirement(query: CibouletteQueryParameters, name: Seq<char>) -> Ciboulette2PostgresResponseType {
    if spec_is_included(query, name) {
        Ciboulette2PostgresResponseType::Object
    } else {
        Ciboulette2PostgresResponseType::Id
    }
}

/// The tables to return that the many-to-many relationships add: for each, the related
/// table with its common table expression, then the bucket table with the common table
/// expression of its rows.
pub open spec fn bucket_rels_working(
    store: Ciboulette2PostgresTableStore,
    query: CibouletteQueryParameters,
    rels: Seq<Ciboulette2PostgresRelationships>,
) -> Seq<WorkingTableView>
    decreases rels.len(),
{
    if rels.len() == 0 {
        Seq::empty()
    } else {
        let r = rels.last();
        let rt = spec_get_table(store, r.type_.name@)->0@;
        let rrt = spec_get_table(store, r.bucket.resource.name@)->0@;
        bucket_rels_working(store, query, rels.drop_last()).push(
            (WorkingTableView {
                table: rt,
                cte: rel_cte(rt, "_data"@),
                requirement: included_requirement(query, r.type_.name@),
            }),
        ).push(
            (WorkingTableView {
                table: rrt,
                cte: rel_cte(rt, "_rel_data"@),
                requirement: included_requirement(query, r.bucket.resource.name@),
            }),
        )
    }
}

/// For each many-to-many relationship, in order, the tables to return are its related table
/// and then its bucket table; the related resources come back as objects exactly when the
/// related type is included, the bucket rows exactly when the bucket type is.
pub proof fn lemma_bucket_rels_working_requirements(
    store: Ciboulette2PostgresTableStore,
    query: CibouletteQueryParameters,
    rels: Seq<Ciboulette2PostgresRelationships>,
)
    ensures
        bucket_rels_working(store, query, rels).len() == 2 * rels.len(),
        forall|j: int|
            #![trigger rels[j]]
            0 <= j < rels.len() ==> {
                let w = bucket_rels_working(store, query, rels);
                &&& w[2 * j].table == spec_get_table(store, rels[j].type_.name@)->0@
                &&& w[2 * j + 1].table == spec_get_table(store, rels[j].bucket.resource.name@)->0@
                &&& (w[2 * j].requirement is Object <==> spec_is_included(query, rels[j].type_.name@))
                &&& (w[2 * j + 1].requirement is Object <==> spec_is_included(query, rels[j].bucket.resource.name@))
            },
    decreases rels.len(),
{
    if rels.len() > 0 {
        let prev = rels.drop_last();
        lemma_bucket_rels_working_requirements(store, query, prev);
        let w = bucket_rels_working(store, query, rels);
        let wp = bucket_rels_working(store, query, prev);
        assert forall|j: int| 0 <= j < rels.len() implies {
            &&& w[2 * j].table == spec_get_table(store, rels[j].type_.name@)->0@
            &&& w[2 * j + 1].table == spec_get_table(store, rels[j].bucket.resource.name@)->0@
            &&& (w[2 * j].requirement is Object <==> spec_is_included(query, rels[j].type_.name@))
            &&& (w[2 * j + 1].requirement is Object <==> spec_is_included(query, rels[j].bucket.resource.name@))
        } by {
            if j < prev.len() {
                assert(prev[j] == rels[j]);
                assert(w[2 * j] == wp[2 * j]);
                assert(w[2 * j + 1] == wp[2 * j + 1]);
            } else {
                assert(rels[j] == rels.last());
            }
        }
    }
}

impl Ciboulette2PostgresBuilder {
    /// Appends, for each selected to-one relationship of the main resources, a common table
    /// expression of the related resources, and adds it to the tables to return.
    /// Stops at the first relationship that cannot be selected, with what came before it.
    pub fn select_one_to_one_rels_routine(
        &mut self,
        table_store: &Ciboulette2PostgresTableStore,
        query: &CibouletteQueryParameters,
        main_cte_data: &Ciboulette2PostgresTableSettings,
        single_rels: &Vec<Ciboulette2PostgresResourceSingleRelationships>,
        filter: RelationshipFilter,
    ) -> (res: Result<(), Ciboulette2SqlError>)
        ensures
            res is Ok <==> forall|j: int|
                0 <= j < single_rels@.len() ==> single_rel_ok(
                    *table_store,
                    *query,
                    filter,
                    #[trigger] single_rels@[j],
                ),
            res is Ok ==> final(self)@ == single_rels_view(
                old(self)@,
                *table_store,
                *query,
                filter,
                main_cte_data@,
                single_rels@,
            ),
            res matches Err(e) ==> is_single_rels_error(e, *table_store, *query, filter, single_rels@),
            res matches Err(e) ==> exists|k: int|
                0 <= k < single_rels@.len() && !single_rel_ok(
                    *table_store,
                    *query,
                    filter,
                    #[trigger] single_rels@[k],
                ) && (forall|j: int|
                    0 <= j < k ==> single_rel_ok(*table_store, *query, filter, #[trigger] single_rels@[j]))
                    && is_single_rel_error(e, *table_store, *query, single_rels@[k])
                    && final(self)@ == single_rel_err_view(
                    single_rels_view(old(self)@, *table_store, *query, filter, main_cte_data@, single_rels@.take(k)),
                    *table_store,
                    *query,
                    single_rels@[k],
                ),
    {
        let ghost start = self@;
        let mut i: usize = 0;
        while i < single_rels.len()
            invariant
                i <= single_rels@.len(),
                start == old(self)@,
                forall|j: int|
                    0 <= j < i ==> single_rel_ok(*table_store, *query, filter, #[trigger] single_rels@[j]),
                self@ == single_rels_view(
                    start,
                    *table_store,
                    *query,
                    filter,
                    main_cte_data@,
                    single_rels@.take(i as int),
                ),
            decreases single_rels@.len() - i,
        {
            let rel = &single_rels[i];
            proof {
                assert(single_rels@.take(i + 1).drop_last() =~= single_rels@.take(i as int));
            }
            match requirement(filter, query, rel.type_.name.as_str()) {
                None => {},
                Some(requirement_type) => {
                    let rel_table = match table_store.get(rel.type_.name.as_str()) {
                        Ok(t) => t,
                        Err(e) => {
                            proof {
                                assert(!single_rel_ok(*table_store, *query, filter, single_rels@[i as int]));
                                assert(is_single_rel_error(e, *table_store, *query, single_rels@[i as int]));
                                assert(self@ == single_rels_view(start, *table_store, *query, filter, main_cte_data@, single_rels@.take(i as int)));
                            }
                            return Err(e);
                        },
                    };
                    let key = match Ciboulette2PostgresSafeIdent::try_from_str(rel.key.as_str()) {
                        Ok(k) => k,
                        Err(e) => {
                            proof {
                                assert(!single_rel_ok(*table_store, *query, filter, single_rels@[i as int]));
                                assert(is_single_rel_error(e, *table_store, *query, single_rels@[i as int]));
                                assert(self@ == single_rels_view(start, *table_store, *query, filter, main_cte_data@, single_rels@.take(i as int)));
                            }
                            return Err(e);
                        },
                    };
                    proof {
                        reveal_strlit("_data");
                    }
                    let rel_table_cte = to_rel_cte(rel_table, "_data");
                    self.write(", ");
                    self.write_table_info(&rel_table_cte);
                    self.write(" AS (");
                    match self.gen_select_cte_single_rel(rel_table, rel.type_, query, main_cte_data, &key, &requirement_type) {
                        Ok(()) => {},
                        Err(e) => {
                            proof {
                                assert(!single_rel_ok(*table_store, *query, filter, single_rels@[i as int]));
                                assert(is_single_rel_error(e, *table_store, *query, single_rels@[i as int]));
                            }
                            return Err(e);
                        },
                    }
                    self.write(")");
                    self.add_working_table(rel_table, rel_table_cte, requirement_type);
                },
            }
            i = i + 1;
        }
        proof {
            assert(single_rels@.take(i as int) =~= single_rels@);
        }
        Ok(())
    }

    fn gen_select_rel_one(
        &mut self,
        table_store: &Ciboulette2PostgresTableStore,
        query: &CibouletteQueryParameters,
        main_cte_data: &Ciboulette2PostgresTableSettings,
        rel: &Ciboulette2PostgresRelationships,
    ) -> (res: Result<(Ciboulette2PostgresTableSettings, Ciboulette2PostgresTableSettings), Ciboulette2SqlError>)
        ensures
            res is Ok <==> bucket_rel_ok(*table_store, *query, *rel),
            res matches Ok(p) ==> final(self)@ == bucket_rel_view(old(self)@, *table_store, *query, main_cte_data@, *rel)
                && p.0@ == rel_cte(spec_get_table(*table_store, rel.type_.name@)->0@, "_data"@)
                && p.1@ == rel_cte(spec_get_table(*table_store, rel.type_.name@)->0@, "_rel_data"@),
            res matches Err(e) ==> is_bucket_rel_error(e, *table_store, *query, *rel) && final(self)@
                == bucket_rel_err_view(old(self)@, *table_store, *query, main_cte_data@, *rel),
    {
        self.write(", ");
        let rel_table = table_store.get(rel.type_.name.as_str())?;
        let rel_rel_table = table_store.get(rel.bucket.resource.name.as_str())?;
        proof {
            reveal_strlit("_rel_data");
            reveal_strlit("_data");
        }
        let rel_cte_rel_data = to_rel_cte(rel_table, "_rel_data");
        let rel_cte_data = to_rel_cte(rel_table, "_data");
        self.write_table_info(&rel_cte_rel_data);
        self.write(" AS (");
        let bucket_with_data = query.is_included(rel.bucket.resource.name.as_str());
        self.gen_select_cte_final(rel_rel_table, rel.bucket.resource, query, bucket_with_data)?;
        self.write(" WHERE ");
        let to_key = Ciboulette2PostgresSafeIdent::try_from_str(rel.bucket.to.as_str())?;
        let to_field = Ciboulette2PostgresTableField::plain(to_key);
        let main_id = Ciboulette2PostgresTableField::plain(main_cte_data.id_name.duplicate());
        proof {
            crate::builder::select::lemma_column_text(to_field.name, rel_rel_table@);
            crate::builder::select::lemma_column_text(main_id.name, main_cte_data@);
        }
        self.insert_ident(&to_field, rel_rel_table);
        self.write(" = ");
        self.insert_ident(&main_id, main_cte_data);
        self.write("), ");
        self.write_table_info(&rel_cte_data);
        self.write(" AS (");
        let with_data = query.is_included(rel.type_.name.as_str());
        self.gen_select_cte_final(rel_table, rel.type_, query, with_data)?;
        self.write(" WHERE ");
        let rel_id = Ciboulette2PostgresTableField::plain(rel_table.id_name.duplicate());
        proof {
            crate::builder::select::lemma_column_text(rel_id.name, rel_table@);
        }
        self.insert_ident(&rel_id, rel_table);
        self.write(" IN (SELECT ");
        let from_key = Ciboulette2PostgresSafeIdent::try_from_str(rel.bucket.from.as_str())?;
        let from_field = Ciboulette2PostgresTableField::plain(from_key);
        proof {
            crate::builder::select::lemma_column_text(from_field.name, rel_cte_rel_data@);
        }
        self.insert_ident(&from_field, &rel_cte_rel_data);
        self.write(" FROM ");
        self.write_table_info(&rel_cte_rel_data);
        self.write(")");
        Ok((rel_cte_data, rel_cte_rel_data))
    }

    /// Appends, for each many-to-many relationship of the main resources, two common table
    /// expressions: `cte_rel_<t>_rel_data`, the bucket rows that point to a main resource,
    /// and `cte_rel_<t>_data`, the related resources those rows point to. Both are added to
    /// `table_list`, the second first. Stops at the first relationship that cannot be
    /// selected, with what came before it.
    #[verifier::rlimit(40)]
    pub fn gen_select_rel_routine(
        &mut self,
        table_store: &Ciboulette2PostgresTableStore,
        query: &CibouletteQueryParameters,
        table_list: &mut Vec<Ciboulette2PostgresTableSettings>,
        main_cte_data: &Ciboulette2PostgresTableSettings,
        rels: &Vec<Ciboulette2PostgresRelationships>,
    ) -> (res: Result<(), Ciboulette2SqlError>)
        ensures
            res is Ok <==> forall|j: int|
                0 <= j < rels@.len() ==> bucket_rel_ok(*table_store, *query, #[trigger] rels@[j]),
            res is Ok ==> final(self)@ == bucket_rels_view(
                old(self)@,
                *table_store,
                *query,
                main_cte_data@,
                rels@,
            ) && views(final(table_list)@) == views(old(table_list)@) + bucket_rels_tables(
                *table_store,
                rels@,
            ),
            res matches Err(e) ==> exists|k: int|
                0 <= k < rels@.len() && !bucket_rel_ok(*table_store, *query, #[trigger] rels@[k])
                    && (forall|j: int|
                    0 <= j < k ==> bucket_rel_ok(*table_store, *query, #[trigger] rels@[j]))
                    && is_bucket_rel_error(e, *table_store, *query, rels@[k])
                    && final(self)@ == bucket_rel_err_view(
                    bucket_rels_view(old(self)@, *table_store, *query, main_cte_data@, rels@.take(k)),
                    *table_store,
                    *query,
                    main_cte_data@,
                    rels@[k],
                ) && views(final(table_list)@) == views(old(table_list)@) + bucket_rels_tables(
                    *table_store,
                    rels@.take(k),
                ),
    {
        let ghost start = self@;
        let ghost start_list = views(table_list@);
        let mut i: usize = 0;
        while i < rels.len()
            invariant
                i <= rels@.len(),
                start == old(self)@,
                start_list == views(old(table_list)@),
                forall|j: int| 0 <= j < i ==> bucket_rel_ok(*table_store, *query, #[trigger] rels@[j]),
                self@ == bucket_rels_view(start, *table_store, *query, main_cte_data@, rels@.take(i as int)),
                views(table_list@) == start_list + bucket_rels_tables(*table_store, rels@.take(i as int)),
            decreases rels@.len() - i,
        {
            let rel = &rels[i];
            proof {
                assert(rels@.take(i + 1).drop_last() =~= rels@.take(i as int));
            }
            let (rel_cte_data, rel_cte_rel_data) = match self.gen_select_rel_one(table_store, query, main_cte_data, rel) {
                Ok(p) => p,
                Err(e) => {
                    return Err(e);
                },
            };
            let ghost prev_list = table_list@;
            let ghost a = rel_cte_data@;
            let ghost b = rel_cte_rel_data@;
            table_list.push(rel_cte_data);
            table_list.push(rel_cte_rel_data);
            proof {
                assert(views(table_list@) =~= views(prev_list).push(a).push(b));
                assert(rels@.take(i + 1).last() == rels@[i as int]);
                assert(bucket_rels_tables(*table_store, rels@.take(i + 1)) == bucket_rels_tables(*table_store, rels@.take(i as int)).push(a).push(b));
                assert(views(table_list@) =~= start_list + bucket_rels_tables(*table_store, rels@.take(i + 1)));
            }
            i = i + 1;
        }
        proof {
            assert(rels@.take(i as int) =~= rels@);
        }
        Ok(())
    }
}

/// The bucket columns of a many-to-many relationship, as additional fields: each holds
/// identifiers of one of the two related types.
pub open spec fn m2m_params_ok(opt: CibouletteRelationshipManyToManyOption) -> bool {
    !opt.keys.0.1@.contains('\0') && !opt.keys.1.1@.contains('\0')
}

/// The column that links the bucket rows to the related resources: the one that does not
/// hold identifiers of the main type.
pub open spec fn m2m_left_key(opt: CibouletteRelationshipManyToManyOption, main_type: Seq<char>) -> Seq<char> {
    if opt.keys.0.0@ == main_type {
        opt.keys.1.1@
    } else {
        opt.keys.0.1@
    }
}

/// When the main type is one of the two types the bucket declares, and they differ, the
/// related resources are joined on the column declared for the other type, whichever of the
/// two keys that is.
pub proof fn lemma_m2m_left_key_is_other_type(opt: CibouletteRelationshipManyToManyOption, main_type: Seq<char>)
    requires
        opt.keys.0.0@ == main_type || opt.keys.1.0@ == main_type,
        opt.keys.0.0@ != opt.keys.1.0@,
    ensures
        (opt.keys.0.0@ != main_type && m2m_left_key(opt, main_type) == opt.keys.0.1@) || (opt.keys.1.0@
            != main_type && m2m_left_key(opt, main_type) == opt.keys.1.1@),
{
}

/// The table that `gen_rel_select_tables` gives: the bucket rows, then the related resources.
pub open spec fn spec_rel_select_tables(rel_rel_table: TableView, rel_table: TableView) -> (TableView, TableView) {
    (rel_cte(rel_rel_table, "_rel_data"@), rel_cte(rel_table, "_data"@))
}

/// `SELECT bucket.id, bucket.keys... FROM bucket INNER JOIN main ON `: the selection of the
/// bucket rows up to their join condition.
pub open spec fn m2m_data_prefix(st: BuilderView, rel_rel_table: TableView, names: Seq<Seq<char>>, main: TableView) -> BuilderView {
    additional_view(st.write("SELECT "@).write(id_select_text(rel_rel_table)), rel_rel_table, names).write(
        " FROM "@,
    ).write(table_info(rel_rel_table)).write(" INNER JOIN "@).write(table_info(main)).write(" ON "@)
}

/// `SELECT bucket.id, bucket.keys... FROM bucket INNER JOIN main ON bucket.key = main.id`:
/// the bucket rows that point to a main resource.
pub open spec fn m2m_data_view(
    st: BuilderView,
    rel_rel_table: TableView,
    names: Seq<Seq<char>>,
    main: TableView,
    dest_key: Seq<char>,
) -> BuilderView {
    m2m_data_prefix(st, rel_rel_table, names, main).write(column_of(dest_key, rel_rel_table)).write(" = "@).write(
        column_of(main.id_name, main),
    )
}

/// `cte AS (SELECT ... FROM rel INNER JOIN bucket_cte ON bucket_cte.left = rel.id)`: the
/// related resources that the bucket rows point to.
pub open spec fn m2m_rel_data_view(
    st: BuilderView,
    rel_cte_data: TableView,
    rel_table: TableView,
    type_: CibouletteResourceType,
    query: CibouletteQueryParameters,
    rel_cte_rel_data: TableView,
    left: Seq<char>,
    with_data: bool,
) -> BuilderView {
    cte_final_view(st.write(table_info(rel_cte_data)).write(" AS ("@), rel_table, type_, query, with_data).write(
        " INNER JOIN "@,
    ).write(table_info(rel_cte_rel_data)).write(" ON "@).write(column_of(left, rel_cte_rel_data)).write(
        " = "@,
    ).write(column_of(rel_table.id_name, rel_table)).write(")"@)
}

/// The column of a common table expression of main resources that holds their
/// identifier: the identifier is selected under the name `id`.
pub open spec fn main_identifier() -> Seq<char> {
    "id"@
}

/// `SELECT ... FROM rel INNER JOIN main ON main.id = rel.key WHERE rel.key = main.id)`: the
/// resources owned by a main resource through the column `key`, with the additional
/// columns `names`.
pub open spec fn o2m_data_view(
    st: BuilderView,
    rel_table: TableView,
    type_: CibouletteResourceType,
    query: CibouletteQueryParameters,
    main: TableView,
    key: Seq<char>,
    names: Seq<Seq<char>>,
    with_data: bool,
) -> BuilderView {
    cte_final_params_view(st, rel_table, type_, query, with_data, names).write(" INNER JOIN "@).write(
        table_info(main),
    ).write(" ON "@).write(column_of(main_identifier(), main)).write(" = "@).write(column_of(key, rel_table)).write(
        " WHERE "@,
    ).write(column_of(key, rel_table)).write(" = "@).write(column_of(main_identifier(), main)).write(")"@)
}

/// What a to-many relationship of the main resources is.
pub enum Ciboulette2PostgresMultiRelationshipsType {
    ManyToMany(CibouletteRelationshipManyToManyOption),
    OneToMany(CibouletteRelationshipOneToManyOption),
}

/// A to-many relationship of the main resources, to resources of `type_`.
pub struct Ciboulette2PostgresMultiRelationships<'a> {
    pub type_: &'a CibouletteResourceType,
    pub rel_opt: Ciboulette2PostgresMultiRelationshipsType,
}

/// Whether a to-many relationship is selected: the query asks for it, and it is not the
/// one-to-many half of a many-to-many relationship.
pub open spec fn multi_rel_selected(
    filter: RelationshipFilter,
    query: CibouletteQueryParameters,
    r: Ciboulette2PostgresMultiRelationships,
) -> bool {
    spec_requirement(filter, query, r.type_.name@) is Some && match r.rel_opt {
        Ciboulette2PostgresMultiRelationshipsType::ManyToMany(_) => true,
        Ciboulette2PostgresMultiRelationshipsType::OneToMany(o) => o.part_of_many_to_many is None,
    }
}

/// Whether a selected to-many relationship can be selected.
pub open spec fn multi_rel_ok(
    store: Ciboulette2PostgresTableStore,
    query: CibouletteQueryParameters,
    filter: RelationshipFilter,
    main_type: Seq<char>,
    r: Ciboulette2PostgresMultiRelationships,
) -> bool {
    let with_data = spec_is_included(query, r.type_.name@);
    multi_rel_selected(filter, query, r) ==> match r.rel_opt {
        Ciboulette2PostgresMultiRelationshipsType::ManyToMany(o) => {
            &&& m2m_params_ok(o)
            &&& spec_get_table(store, r.type_.name@) is Some
            &&& spec_get_table(store, o.bucket_resource@) is Some
            &&& spec_dest_key(o, main_type) is Some
            &&& !spec_dest_key(o, main_type)->0@.contains('\0')
            &&& cte_final_ok(*r.type_, query, with_data)
        },
        Ciboulette2PostgresMultiRelationshipsType::OneToMany(o) => {
            &&& !o.many_table_key@.contains('\0')
            &&& spec_get_table(store, r.type_.name@) is Some
            &&& cte_final_ok(*r.type_, query, with_data)
        },
    }
}

/// Whether `e` reports the first reason, in this order, why a to-many relationship cannot
/// be selected.
pub open spec fn is_multi_rel_error(
    e: Ciboulette2SqlError,
    store: Ciboulette2PostgresTableStore,
    query: CibouletteQueryParameters,
    main_type: Seq<char>,
    r: Ciboulette2PostgresMultiRelationships,
) -> bool {
    let with_data = spec_is_included(query, r.type_.name@);
    match r.rel_opt {
        Ciboulette2PostgresMultiRelationshipsType::ManyToMany(o) => {
            if o.keys.0.1@.contains('\0') {
                e matches Ciboulette2SqlError::NullCharIdent(m) && m@ == o.keys.0.1@
            } else if o.keys.1.1@.contains('\0') {
                e matches Ciboulette2SqlError::NullCharIdent(m) && m@ == o.keys.1.1@
            } else if spec_get_table(store, r.type_.name@) is None {
                is_unknown_table(e, r.type_.name@)
            } else if spec_get_table(store, o.bucket_resource@) is None {
                is_unknown_table(e, o.bucket_resource@)
            } else if spec_dest_key(o, main_type) is None {
                e matches Ciboulette2SqlError::UnknownRelationship(a, b) && a@ == o.bucket_resource@
                    && b@ == main_type
            } else if spec_dest_key(o, main_type)->0@.contains('\0') {
                e matches Ciboulette2SqlError::NullCharIdent(m) && m@ == spec_dest_key(o, main_type)->0@
            } else {
                is_cte_final_error(e, *r.type_, query, with_data)
            }
        },
        Ciboulette2PostgresMultiRelationshipsType::OneToMany(o) => {
            if o.many_table_key@.contains('\0') {
                e matches Ciboulette2SqlError::NullCharIdent(m) && m@ == o.many_table_key@
            } else if spec_get_table(store, r.type_.name@) is None {
                is_unknown_table(e, r.type_.name@)
            } else {
                is_cte_final_error(e, *r.type_, query, with_data)
            }
        },
    }
}

/// The common table expressions of a selected to-many relationship; the one of the related
/// resources is added to the tables to return.
pub open spec fn multi_rel_view(
    st: BuilderView,
    store: Ciboulette2PostgresTableStore,
    query: CibouletteQueryParameters,
    filter: RelationshipFilter,
    main: TableView,
    r: Ciboulette2PostgresMultiRelationships,
) -> BuilderView {
    let with_data = spec_is_included(query, r.type_.name@);
    let req = spec_requirement(filter, query, r.type_.name@)->0;
    if !multi_rel_selected(filter, query, r) {
        st
    } else {
        let rt = spec_get_table(store, r.type_.name@)->0@;
        match r.rel_opt {
            Ciboulette2PostgresMultiRelationshipsType::ManyToMany(o) => {
                let rrt = spec_get_table(store, o.bucket_resource@)->0@;
                let cte_rel = rel_cte(rrt, "_rel_data"@);
                let cte = rel_cte(rt, "_data"@);
                let st1 = m2m_data_view(
                    st.write(", "@).write(table_info(cte_rel)).write(" AS ("@),
                    rrt,
                    seq![o.keys.0.1@, o.keys.1.1@],
                    main,
                    spec_dest_key(o, main.ciboulette_type)->0@,
                ).write("), "@);
                m2m_rel_data_view(
                    st1,
                    cte,
                    rt,
                    *r.type_,
                    query,
                    cte_rel,
                    m2m_left_key(o, main.ciboulette_type),
                    with_data,
                ).add_table((WorkingTableView { table: rt, cte, requirement: req }))
            },
            Ciboulette2PostgresMultiRelationshipsType::OneToMany(o) => {
                let cte = rel_cte(rt, "_data"@);
                o2m_data_view(
                    st.write(", "@).write(table_info(cte)).write(" AS ("@),
                    rt,
                    *r.type_,
                    query,
                    main,
                    o.many_table_key@,
                    seq![o.many_table_key@, o.many_table_key@],
                    with_data,
                ).add_table((WorkingTableView { table: rt, cte, requirement: req }))
            },
        }
    }
}

/// What the common table expressions of a selected to-many relationship that cannot be
/// selected leave written: the separator when a key holds a NUL or a table is missing;
/// for a many-to-many relationship whose bucket has no usable column for the main type,
/// the bucket selection up to its join condition; else the text up to the field that
/// cannot be selected.
pub open spec fn multi_rel_err_view(
    st: BuilderView,
    store: Ciboulette2PostgresTableStore,
    query: CibouletteQueryParameters,
    main: TableView,
    r: Ciboulette2PostgresMultiRelationships,
) -> BuilderView {
    let with_data = spec_is_included(query, r.type_.name@);
    let rt = spec_get_table(store, r.type_.name@)->0@;
    let cte = rel_cte(rt, "_data"@);
    let s0 = st.write(", "@);
    match r.rel_opt {
        Ciboulette2PostgresMultiRelationshipsType::ManyToMany(o) => {
            let rrt = spec_get_table(store, o.bucket_resource@)->0@;
            let cte_rel = rel_cte(rrt, "_rel_data"@);
            let names = seq![o.keys.0.1@, o.keys.1.1@];
            let s1 = s0.write(table_info(cte_rel)).write(" AS ("@);
            let dest = spec_dest_key(o, main.ciboulette_type);
            if !m2m_params_ok(o) || spec_get_table(store, r.type_.name@) is None || spec_get_table(
                store,
                o.bucket_resource@,
            ) is None {
                s0
            } else if dest is None || dest->0@.contains('\0') {
                m2m_data_prefix(s1, rrt, names, main)
            } else {
                cte_final_err_view(
                    m2m_data_view(s1, rrt, names, main, dest->0@).write("), "@).write(table_info(cte)).write(" AS ("@),
                    rt,
                    *r.type_,
                    query,
                    with_data,
                )
            }
        },
        Ciboulette2PostgresMultiRelationshipsType::OneToMany(o) => {
            if o.many_table_key@.contains('\0') || spec_get_table(store, r.type_.name@) is None {
                s0
            } else {
                cte_final_err_view(s0.write(table_info(cte)).write(" AS ("@), rt, *r.type_, query, with_data)
            }
        },
    }
}

/// Whether every to-many relationship can be selected.
pub open spec fn multi_rels_ok(
    store: Ciboulette2PostgresTableStore,
    query: CibouletteQueryParameters,
    filter: RelationshipFilter,
    main_type: Seq<char>,
    rels: Seq<Ciboulette2PostgresMultiRelationships>,
) -> bool {
    forall|j: int| 0 <= j < rels.len() ==> multi_rel_ok(store, query, filter, main_type, #[trigger] rels[j])
}

/// Whether `e` says why the first to-many relationship that cannot be selected cannot be.
pub open spec fn is_multi_rels_error(
    e: Ciboulette2SqlError,
    store: Ciboulette2PostgresTableStore,
    query: CibouletteQueryParameters,
    filter: RelationshipFilter,
    main_type: Seq<char>,
    rels: Seq<Ciboulette2PostgresMultiRelationships>,
) -> bool {
    exists|k: int|
        0 <= k < rels.len() && !multi_rel_ok(store, query, filter, main_type, #[trigger] rels[k]) && (forall|j: int|
            0 <= j < k ==> multi_rel_ok(store, query, filter, main_type, #[trigger] rels[j]))
            && is_multi_rel_error(e, store, query, main_type, rels[k])
}

/// The common table expressions of the to-many relationships, in order.
pub open spec fn multi_rels_view(
    st: BuilderView,
    store: Ciboulette2PostgresTableStore,
    query: CibouletteQueryParameters,
    filter: RelationshipFilter,
    main: TableView,
    rels: Seq<Ciboulette2PostgresMultiRelationships>,
) -> BuilderView
    decreases rels.len(),
{
    if rels.len() == 0 {
        st
    } else {
        multi_rel_view(multi_rels_view(st, store, query, filter, main, rels.drop_last()), store, query, filter, main, rels.last())
    }
}

impl Ciboulette2PostgresBuilder {
    /// The bucket columns of a many-to-many relationship, as additional fields.
    pub fn gen_additional_params_many_to_many_rels(
        rels: &CibouletteRelationshipManyToManyOption,
    ) -> (res: Result<[Ciboulette2SqlAdditionalField; 2], Ciboulette2SqlError>)
        ensures
            res is Ok <==> m2m_params_ok(*rels),
            res matches Ok(p) ==> additional_names(p@) == seq![rels.keys.0.1@, rels.keys.1.1@]
                && p@[0].ciboulette_type == rels.keys.0.0 && p@[1].ciboulette_type == rels.keys.1.0,
            res matches Err(e) ==> if rels.keys.0.1@.contains('\0') {
                e matches Ciboulette2SqlError::NullCharIdent(m) && m@ == rels.keys.0.1@
            } else {
                e matches Ciboulette2SqlError::NullCharIdent(m) && m@ == rels.keys.1.1@
            },
    {
        let first = Ciboulette2PostgresSafeIdent::try_from_str(rels.keys.0.1.as_str())?;
        let second = Ciboulette2PostgresSafeIdent::try_from_str(rels.keys.1.1.as_str())?;
        let r = [
            Ciboulette2SqlAdditionalField { name: first, ciboulette_type: rels.keys.0.0.clone() },
            Ciboulette2SqlAdditionalField { name: second, ciboulette_type: rels.keys.1.0.clone() },
        ];
        proof {
            assert(additional_names(r@) =~= seq![rels.keys.0.1@, rels.keys.1.1@]);
        }
        Ok(r)
    }

    /// Two additional fields, each the key column of the owned resources of a one-to-many
    /// relationship, linked to the owned type.
    pub fn gen_additional_params_one_to_many_rels(
        rels: &CibouletteRelationshipOneToManyOption,
    ) -> (res: Result<[Ciboulette2SqlAdditionalField; 2], Ciboulette2SqlError>)
        ensures
            res is Ok <==> !rels.many_table_key@.contains('\0'),
            res matches Ok(p) ==> additional_names(p@) == seq![rels.many_table_key@, rels.many_table_key@]
                && p@[0].ciboulette_type == rels.many_table && p@[1].ciboulette_type == rels.many_table,
            res matches Err(e) ==> e matches Ciboulette2SqlError::NullCharIdent(m) && m@ == rels.many_table_key@,
    {
        let key = Ciboulette2PostgresSafeIdent::try_from_str(rels.many_table_key.as_str())?;
        let r = [
            Ciboulette2SqlAdditionalField { name: key.duplicate(), ciboulette_type: rels.many_table.clone() },
            Ciboulette2SqlAdditionalField { name: key, ciboulette_type: rels.many_table.clone() },
        ];
        proof {
            assert(additional_names(r@) =~= seq![rels.many_table_key@, rels.many_table_key@]);
        }
        Ok(r)
    }

    /// The common table expressions of a many-to-many relationship: `cte_rel_<bucket>_rel_data`
    /// for the bucket rows and `cte_rel_<related>_data` for the related resources.
    pub fn gen_rel_select_tables(
        rel_rel_table: &Ciboulette2PostgresTableSettings,
        rel_table: &Ciboulette2PostgresTableSettings,
    ) -> (r: (Ciboulette2PostgresTableSettings, Ciboulette2PostgresTableSettings))
        ensures
            (r.0@, r.1@) == spec_rel_select_tables(rel_rel_table@, rel_table@),
    {
        proof {
            reveal_strlit("_rel_data");
            reveal_strlit("_data");
        }
        (to_rel_cte(rel_rel_table, "_rel_data"), to_rel_cte(rel_table, "_data"))
    }

    /// Appends the selection of the bucket rows of a many-to-many relationship that point
    /// to a main resource: their identifier, the bucket columns in `additional_params`, and
    /// the join on the bucket column that holds identifiers of `main_type`.
    pub fn gen_select_many_to_many_rels_data(
        &mut self,
        rel_rel_table: &Ciboulette2PostgresTableSettings,
        opt: &CibouletteRelationshipManyToManyOption,
        additional_params: &[Ciboulette2SqlAdditionalField],
        main_cte_data: &Ciboulette2PostgresTableSettings,
        main_type: &str,
    ) -> (res: Result<(), Ciboulette2SqlError>)
        ensures
            res is Ok <==> spec_dest_key(*opt, main_type@) is Some && !spec_dest_key(
                *opt,
                main_type@,
            )->0@.contains('\0'),
            res is Ok ==> final(self)@ == m2m_data_view(
                old(self)@,
                rel_rel_table@,
                additional_names(additional_params@),
                main_cte_data@,
                spec_dest_key(*opt, main_type@)->0@,
            ),
            res matches Err(e) ==> final(self)@ == m2m_data_prefix(
                old(self)@,
                rel_rel_table@,
                additional_names(additional_params@),
                main_cte_data@,
            ) && if spec_dest_key(*opt, main_type@) is None {
                e matches Ciboulette2SqlError::UnknownRelationship(a, b) && a@ == opt.bucket_resource@
                    && b@ == main_type@
            } else {
                e matches Ciboulette2SqlError::NullCharIdent(m) && m@ == spec_dest_key(*opt, main_type@)->0@
            },
    {
        self.write("SELECT ");
        self.insert_id_as_text(rel_rel_table);
        self.handle_additionnal_params(rel_rel_table, additional_params);
        self.write(" FROM ");
        self.write_table_info(rel_rel_table);
        self.write(" INNER JOIN ");
        self.write_table_info(main_cte_data);
        self.write(" ON ");
        let dest_key = opt.dest_key(main_type)?;
        let key = Ciboulette2PostgresSafeIdent::try_from_str(dest_key.as_str())?;
        let left = Ciboulette2PostgresTableField::plain(key);
        let right = Ciboulette2PostgresTableField::plain(main_cte_data.id_name.duplicate());
        proof {
            crate::builder::select::lemma_column_text(left.name, rel_rel_table@);
            crate::builder::select::lemma_column_text(right.name, main_cte_data@);
        }
        self.compare_fields(rel_rel_table, &left, main_cte_data, &right);
        Ok(())
    }

    /// Appends `cte AS (<related resources> INNER JOIN bucket_cte ON bucket_cte.left =
    /// rel.id)`: the resources that the bucket rows of a many-to-many relationship point to,
    /// with their data when `rel_requirement_type` asks for it.
    pub fn gen_select_many_to_many_rels_rel_data(
        &mut self,
        rel_cte_data: &Ciboulette2PostgresTableSettings,
        rel_table: &Ciboulette2PostgresTableSettings,
        type_: &CibouletteResourceType,
        query: &CibouletteQueryParameters,
        rel_cte_rel_data: &Ciboulette2PostgresTableSettings,
        left_additional_params: &Ciboulette2SqlAdditionalField,
        rel_requirement_type: &Ciboulette2PostgresResponseType,
    ) -> (res: Result<(), Ciboulette2SqlError>)
        ensures
            res is Ok <==> cte_final_ok(
                *type_,
                *query,
                *rel_requirement_type == Ciboulette2PostgresResponseType::Object,
            ),
            res is Ok ==> final(self)@ == m2m_rel_data_view(
                old(self)@,
                rel_cte_data@,
                rel_table@,
                *type_,
                *query,
                rel_cte_rel_data@,
                left_additional_params.name@,
                *rel_requirement_type == Ciboulette2PostgresResponseType::Object,
            ),
            res matches Err(e) ==> is_cte_final_error(
                e,
                *type_,
                *query,
                *rel_requirement_type == Ciboulette2PostgresResponseType::Object,
            ) && final(self)@ == cte_final_err_view(
                old(self)@.write(table_info(rel_cte_data@)).write(" AS ("@),
                rel_table@,
                *type_,
                *query,
                *rel_requirement_type == Ciboulette2PostgresResponseType::Object,
            ),
    {
        let with_data = match rel_requirement_type {
            Ciboulette2PostgresResponseType::Object => true,
            Ciboulette2PostgresResponseType::Id => false,
        };
        self.write_table_info(rel_cte_data);
        self.write(" AS (");
        self.gen_select_cte_final(rel_table, type_, query, with_data)?;
        self.write(" INNER JOIN ");
        self.write_table_info(rel_cte_rel_data);
        self.write(" ON ");
        let left = Ciboulette2PostgresTableField::plain(left_additional_params.name.duplicate());
        let right = Ciboulette2PostgresTableField::plain(rel_table.id_name.duplicate());
        proof {
            crate::builder::select::lemma_column_text(left.name, rel_cte_rel_data@);
            crate::builder::select::lemma_column_text(right.name, rel_table@);
        }
        self.compare_fields(rel_cte_rel_data, &left, rel_table, &right);
        self.write(")");
        Ok(())
    }

    /// Appends the selection of the resources owned by a main resource through a
    /// one-to-many relationship, with the additional columns, joined on their key column to
    /// the identifier of the main resources. Fails, leaving the builder as it was, when the
    /// key holds a NUL; when a field to return cannot be selected, leaves what was written
    /// before it.
    pub fn gen_select_one_to_many_rels_data(
        &mut self,
        rel_table: &Ciboulette2PostgresTableSettings,
        type_: &CibouletteResourceType,
        query: &CibouletteQueryParameters,
        main_cte_data: &Ciboulette2PostgresTableSettings,
        additional_params: &[Ciboulette2SqlAdditionalField],
        opt: &CibouletteRelationshipOneToManyOption,
        rel_requirement_type: &Ciboulette2PostgresResponseType,
    ) -> (res: Result<(), Ciboulette2SqlError>)
        ensures
            res is Ok <==> !opt.many_table_key@.contains('\0') && cte_final_ok(
                *type_,
                *query,
                *rel_requirement_type == Ciboulette2PostgresResponseType::Object,
            ),
            res is Ok ==> final(self)@ == o2m_data_view(
                old(self)@,
                rel_table@,
                *type_,
                *query,
                main_cte_data@,
                opt.many_table_key@,
                additional_names(additional_params@),
                *rel_requirement_type == Ciboulette2PostgresResponseType::Object,
            ),
            res matches Err(e) ==> if opt.many_table_key@.contains('\0') {
                e matches Ciboulette2SqlError::NullCharIdent(m) && m@ == opt.many_table_key@
                    && final(self)@ == old(self)@
            } else {
                is_cte_final_error(
                    e,
                    *type_,
                    *query,
                    *rel_requirement_type == Ciboulette2PostgresResponseType::Object,
                ) && final(self)@ == cte_final_err_view(
                    old(self)@,
                    rel_table@,
                    *type_,
                    *query,
                    *rel_requirement_type == Ciboulette2PostgresResponseType::Object,
                )
            },
    {
        let key = Ciboulette2PostgresSafeIdent::try_from_str(opt.many_table_key.as_str())?;
        let with_data = match rel_requirement_type {
            Ciboulette2PostgresResponseType::Object => true,
            Ciboulette2PostgresResponseType::Id => false,
        };
        self.gen_select_cte_final_with_params(rel_table, type_, query, with_data, additional_params)?;
        proof {
            reveal_strlit("id");
        }
        let main_ident = match Ciboulette2PostgresSafeIdent::try_from_str("id") {
            Ok(m) => m,
            Err(e) => {
                return Err(e);
            },
        };
        let key_field = Ciboulette2PostgresTableField::plain(key);
        let main_id = Ciboulette2PostgresTableField::plain(main_ident);
        proof {
            crate::builder::select::lemma_column_text(key_field.name, rel_table@);
            crate::builder::select::lemma_column_text(main_id.name, main_cte_data@);
        }
        self.write(" INNER JOIN ");
        self.write_table_info(main_cte_data);
        self.write(" ON ");
        self.insert_ident(&main_id, main_cte_data);
        self.write(" = ");
        self.insert_ident(&key_field, rel_table);
        self.write(" WHERE ");
        self.insert_ident(&key_field, rel_table);
        self.write(" = ");
        self.insert_ident(&main_id, main_cte_data);
        self.write(")");
        Ok(())
    }

    fn select_multi_rel_one(
        &mut self,
        table_store: &Ciboulette2PostgresTableStore,
        query: &CibouletteQueryParameters,
        main_cte_data: &Ciboulette2PostgresTableSettings,
        rel: &Ciboulette2PostgresMultiRelationships,
        filter: RelationshipFilter,
    ) -> (res: Result<(), Ciboulette2SqlError>)
        ensures
            res is Ok <==> multi_rel_ok(*table_store, *query, filter, main_cte_data@.ciboulette_type, *rel),
            res is Ok ==> final(self)@ == multi_rel_view(old(self)@, *table_store, *query, filter, main_cte_data@, *rel),
            res matches Err(e) ==> is_multi_rel_error(e, *table_store, *query, main_cte_data@.ciboulette_type, *rel)
                && final(self)@ == multi_rel_err_view(old(self)@, *table_store, *query, main_cte_data@, *rel),
    {
        let rel_requirement_type = match requirement(filter, query, rel.type_.name.as_str()) {
            None => {
                return Ok(());
            },
            Some(r) => r,
        };
        let main_type = main_cte_data.ciboulette_type.as_str();
        match &rel.rel_opt {
            Ciboulette2PostgresMultiRelationshipsType::ManyToMany(opt) => {
                self.write(", ");
                let additional_params = Self::gen_additional_params_many_to_many_rels(opt)?;
                let rel_table = table_store.get(rel.type_.name.as_str())?;
                let rel_rel_table = table_store.get(opt.bucket_resource.as_str())?;
                let (rel_cte_rel_data, rel_cte_data) = Self::gen_rel_select_tables(rel_rel_table, rel_table);
                self.write_table_info(&rel_cte_rel_data);
                self.write(" AS (");
                self.gen_select_many_to_many_rels_data(
                    rel_rel_table,
                    opt,
                    additional_params.as_slice(),
                    main_cte_data,
                    main_type,
                )?;
                self.write("), ");
                let left_additional_param = if str_eq(additional_params[0].ciboulette_type.as_str(), main_type) {
                    &additional_params[1]
                } else {
                    &additional_params[0]
                };
                self.gen_select_many_to_many_rels_rel_data(
                    &rel_cte_data,
                    rel_table,
                    rel.type_,
                    query,
                    &rel_cte_rel_data,
                    left_additional_param,
                    &rel_requirement_type,
                )?;
                self.add_working_table(rel_table, rel_cte_data, rel_requirement_type);
                Ok(())
            },
            Ciboulette2PostgresMultiRelationshipsType::OneToMany(opt) => {
                if opt.part_of_many_to_many.is_some() {
                    return Ok(());
                }
                self.write(", ");
                let additional_params = Self::gen_additional_params_one_to_many_rels(opt)?;
                let rel_table = table_store.get(rel.type_.name.as_str())?;
                proof {
                    reveal_strlit("_data");
                }
                let rel_cte_data = to_rel_cte(rel_table, "_data");
                self.write_table_info(&rel_cte_data);
                self.write(" AS (");
                self.gen_select_one_to_many_rels_data(
                    rel_table,
                    rel.type_,
                    query,
                    main_cte_data,
                    additional_params.as_slice(),
                    opt,
                    &rel_requirement_type,
                )?;
                self.add_working_table(rel_table, rel_cte_data, rel_requirement_type);
                Ok(())
            },
        }
    }

    /// Appends, in ascending order of their aliases (`rels` is an ordered map from alias to
    /// relationship), for each selected to-many relationship of the main resources, the common
    /// table expressions of the related resources, and adds them to the tables to return:
    /// for a many-to-many relationship, the bucket rows then the resources they point to;
    /// for a one-to-many relationship, the owned resources. Stops at the first relationship
    /// that cannot be selected, with what came before it.
    pub fn select_multi_rels_routine(
        &mut self,
        table_store: &Ciboulette2PostgresTableStore,
        query: &CibouletteQueryParameters,
        main_cte_data: &Ciboulette2PostgresTableSettings,
        rels: &Vec<(String, Ciboulette2PostgresMultiRelationships)>,
        filter: RelationshipFilter,
    ) -> (res: Result<(), Ciboulette2SqlError>)
        requires
            keys_ordered(rels@),
        ensures
            res is Ok <==> forall|j: int|
                0 <= j < multi_values(rels@).len() ==> multi_rel_ok(
                    *table_store,
                    *query,
                    filter,
                    main_cte_data@.ciboulette_type,
                    #[trigger] multi_values(rels@)[j],
                ),
            res is Ok ==> final(self)@ == multi_rels_view(
                old(self)@,
                *table_store,
                *query,
                filter,
                main_cte_data@,
                multi_values(rels@),
            ),
            res matches Err(e) ==> is_multi_rels_error(
                e,
                *table_store,
                *query,
                filter,
                main_cte_data@.ciboulette_type,
                multi_values(rels@),
            ),
            res matches Err(e) ==> exists|k: int|
                0 <= k < multi_values(rels@).len() && !multi_rel_ok(
                    *table_store,
                    *query,
                    filter,
                    main_cte_data@.ciboulette_type,
                    #[trigger] multi_values(rels@)[k],
                ) && (forall|j: int|
                    0 <= j < k ==> multi_rel_ok(
                        *table_store,
                        *query,
                        filter,
                        main_cte_data@.ciboulette_type,
                        #[trigger] multi_values(rels@)[j],
                    )) && is_multi_rel_error(
                    e,
                    *table_store,
                    *query,
                    main_cte_data@.ciboulette_type,
                    multi_values(rels@)[k],
                ) && final(self)@ == multi_rel_err_view(
                    multi_rels_view(old(self)@, *table_store, *query, filter, main_cte_data@, multi_values(rels@).take(k)),
                    *table_store,
                    *query,
                    main_cte_data@,
                    multi_values(rels@)[k],
                ),
    {
        let ghost start = self@;
        let mut i: usize = 0;
        while i < rels.len()
            invariant
                i <= multi_values(rels@).len(),
                start == old(self)@,
                forall|j: int|
                    0 <= j < i ==> multi_rel_ok(
                        *table_store,
                        *query,
                        filter,
                        main_cte_data@.ciboulette_type,
                        #[trigger] multi_values(rels@)[j],
                    ),
                self@ == multi_rels_view(start, *table_store, *query, filter, main_cte_data@, multi_values(rels@).take(i as int)),
            decreases multi_values(rels@).len() - i,
        {
            proof {
                assert(multi_values(rels@).take(i + 1).drop_last() =~= multi_values(rels@).take(i as int));
                assert(multi_values(rels@)[i as int] == rels@[i as int].1);
            }
            match self.select_multi_rel_one(table_store, query, main_cte_data, &rels[i].1, filter) {
                Ok(()) => {},
                Err(e) => {
                    return Err(e);
                },
            }
            i = i + 1;
        }
        proof {
            assert(multi_values(rels@).take(i as int) =~= multi_values(rels@));
        }
        Ok(())
    }
}

} // verus!
