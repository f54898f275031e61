use vstd::prelude::*;
use crate::builder::select::{column_of, cte_final_err_view, cte_final_ok, cte_final_view, is_cte_final_error, union_view};
use crate::builder::select_main::data_cte;
use crate::builder::select_rel::{
    bucket_rel_ok, bucket_rels_working, to_rel_cte, bucket_rels_view, is_bucket_rel_error, is_single_rels_error,
    single_rels_ok, single_rels_view, Ciboulette2PostgresRelationships,
    Ciboulette2PostgresResourceSingleRelationships,
};
use crate::builder::{
    ctes, empty_view, table_info, BuilderView, Ciboulette2PostgresBuilder, Ciboulette2PostgresWorkingTable,
    WorkingTableView,
};
use crate::error::Ciboulette2SqlError;
use crate::graph::{store_types_wf, lemma_find_type_bounds, spec_find_type, CibouletteStore, StoreView};
use crate::graph_walker::{
    arg_views, bucket_step_ok, extract_fields_and_values, extract_ok, extract_step_ok,
    extract_values, get_many_to_many_relationships, get_relationships, is_bucket_step_error,
    is_extract_error, is_extract_step_error, main_steps, optional_attribute_args, rel_buckets,
    rel_singles, spec_single_opt, step_alias,
};
use crate::model::spec_find_key;
use crate::ident::{quoted, Ciboulette2PostgresSafeIdent};
use crate::model::{
    spec_value_of_id, Ciboulette2PostgresResponseType, Ciboulette2SqlValue, CibouletteId, CibouletteQueryParameters,
    CibouletteResource, CibouletteResourceType, CibouletteUpdateRequest,
    CibouletteUpdateRequestType, RelationshipFilter,
};
use crate::table::{
    is_unknown_table, lemma_find_table_bounds, spec_get_table, spec_to_cte,
    Ciboulette2PostgresTableField, Ciboulette2PostgresTableSettings, Ciboulette2PostgresTableStore,
    TableView,
};

verus! {

/// `"col1" = $i, "col2" = $j, ...`: each column assigned its value as the next parameter.
pub open spec fn set_list_view(st: BuilderView, values: Seq<(Seq<char>, Ciboulette2SqlValue)>) -> BuilderView
    decreases values.len(),
{
    if values.len() == 0 {
        st
    } else {
        let prev = set_list_view(st, values.drop_last());
        let sep = if values.len() > 1 {
            prev.write(", "@)
        } else {
            prev
        };
        sep.write(quoted(values.last().0)).write(" = "@).param(values.last().1)
    }
}

/// `UPDATE table SET <assignments> WHERE table.id = $n[ RETURNING *]`: the update of the
/// resource `id`.
pub open spec fn update_normal_view(
    st: BuilderView,
    table: TableView,
    values: Seq<(Seq<char>, Ciboulette2SqlValue)>,
    id: CibouletteId,
    returning: bool,
) -> BuilderView {
    let w = set_list_view(st.write("UPDATE "@).write(table_info(table)).write(" SET "@), values).write(
        " WHERE "@,
    ).write(column_of(table.id_name, table)).write(" = "@).param(spec_value_of_id(id));
    if returning {
        w.write(" RETURNING *"@)
    } else {
        w
    }
}

/// The common table expression `cte_<table>_update` of the updated resource.
pub open spec fn update_cte(table: TableView) -> TableView {
    spec_to_cte(table, "cte_"@ + table.name + "_update"@)
}

/// `"cte_<t>_update" AS (UPDATE ... RETURNING *), `: the update of the resource, which
/// gives back its new row.
pub open spec fn update_main_update_view(
    st: BuilderView,
    table: TableView,
    cte: TableView,
    values: Seq<(Seq<char>, Ciboulette2SqlValue)>,
    id: CibouletteId,
) -> BuilderView {
    update_normal_view(st.write(table_info(cte)).write(" AS ("@), table, values, id, true).write("), "@)
}

/// Whether no assigned column name holds a NUL.
pub open spec fn names_ok(values: Seq<(Seq<char>, Ciboulette2SqlValue)>) -> bool {
    forall|i: int| 0 <= i < values.len() ==> !(#[trigger] values[i]).0.contains('\0')
}

/// Whether `e` reports the first assigned column name that holds a NUL.
pub open spec fn is_names_error(e: Ciboulette2SqlError, values: Seq<(Seq<char>, Ciboulette2SqlValue)>) -> bool {
    exists|k: int|
        0 <= k < values.len() && (#[trigger] values[k]).0.contains('\0') && (forall|j: int|
            0 <= j < k ==> !(#[trigger] values[j]).0.contains('\0')) && (e matches Ciboulette2SqlError::NullCharIdent(
            m,
        ) && m@ == values[k].0)
}

/// The resource that an update request carries; a request that carries a relationship is
/// refused with `UpdatingRelationships`.
pub fn extract_data(request: &CibouletteUpdateRequest) -> (res: Result<&CibouletteResource, Ciboulette2SqlError>)
    ensures
        res is Ok <==> request.data is MainType,
        res matches Ok(r) ==> request.data == CibouletteUpdateRequestType::MainType(*r),
        res matches Err(e) ==> e is UpdatingRelationships,
{
    match &request.data {
        CibouletteUpdateRequestType::MainType(attr) => Ok(attr),
        CibouletteUpdateRequestType::Relationship(_) => Err(Ciboulette2SqlError::UpdatingRelationships),
    }
}

/// Whether every many-to-many edge that leaves the main type can be followed.
pub open spec fn bucket_steps_ok(sv: StoreView, main: CibouletteResourceType, steps: Seq<(usize, usize)>) -> bool {
    forall|k: int| 0 <= k < steps.len() ==> bucket_step_ok(sv, main, #[trigger] steps[k])
}

/// Whether `e` says why the first many-to-many edge that cannot be followed cannot be.
pub open spec fn is_bucket_steps_error(
    e: Ciboulette2SqlError,
    sv: StoreView,
    main: CibouletteResourceType,
    steps: Seq<(usize, usize)>,
) -> bool {
    exists|k: int|
        0 <= k < steps.len() && !bucket_step_ok(sv, main, #[trigger] steps[k]) && (forall|j: int|
            0 <= j < k ==> bucket_step_ok(sv, main, #[trigger] steps[j])) && is_bucket_step_error(
            e,
            sv,
            main,
            steps[k],
        )
}

/// Whether every many-to-many relationship can be selected.
pub open spec fn bucket_rels_ok(
    ts: Ciboulette2PostgresTableStore,
    query: CibouletteQueryParameters,
    rels: Seq<Ciboulette2PostgresRelationships>,
) -> bool {
    forall|j: int| 0 <= j < rels.len() ==> bucket_rel_ok(ts, query, #[trigger] rels[j])
}

/// Whether `e` says why the first many-to-many relationship that cannot be selected cannot
/// be.
pub open spec fn is_bucket_rels_error(
    e: Ciboulette2SqlError,
    ts: Ciboulette2PostgresTableStore,
    query: CibouletteQueryParameters,
    rels: Seq<Ciboulette2PostgresRelationships>,
) -> bool {
    exists|k: int|
        0 <= k < rels.len() && !bucket_rel_ok(ts, query, #[trigger] rels[k]) && (forall|j: int|
            0 <= j < k ==> bucket_rel_ok(ts, query, #[trigger] rels[j])) && is_bucket_rel_error(e, ts, query, rels[k])
}

/// The resource type that an update request designates.
pub open spec fn update_type(sv: StoreView, req: CibouletteUpdateRequest) -> CibouletteResourceType {
    sv.nodes[spec_find_type(sv.nodes, req.resource_type@)->0]
}

/// The table of the resource type that an update request designates.
pub open spec fn update_table(ts: Ciboulette2PostgresTableStore, req: CibouletteUpdateRequest) -> TableView {
    spec_get_table(ts, req.resource_type@)->0@
}

/// The column assignments that an update request of a resource gives: its attributes, then
/// the keys of its to-one relationships.
pub open spec fn update_values(sv: StoreView, req: CibouletteUpdateRequest) -> Seq<(Seq<char>, Ciboulette2SqlValue)> {
    let res = req.data->MainType_0;
    optional_attribute_args(res.attributes) + extract_values(
        sv,
        update_type(sv, req),
        res.relationships@,
        main_steps(sv, req.resource_type@),
    )
}

/// Whether an update request of a resource can be turned into a statement: it carries a
/// resource, its table and type are registered, the resource can be turned into column
/// assignments (no to-many relationship written) whose names hold no NUL, and the updated
/// resource and its related resources can all be selected.
pub open spec fn update_main_ok(sv: StoreView, ts: Ciboulette2PostgresTableStore, req: CibouletteUpdateRequest) -> bool {
    let t = update_type(sv, req);
    let steps = main_steps(sv, req.resource_type@);
    let res = req.data->MainType_0;
    &&& req.data is MainType
    &&& spec_get_table(ts, req.resource_type@) is Some
    &&& spec_find_type(sv.nodes, req.resource_type@) is Some
    &&& extract_ok(sv, t, res.attributes, res.relationships@, true)
    &&& bucket_steps_ok(sv, t, steps)
    &&& names_ok(update_values(sv, req))
    &&& cte_final_ok(t, req.query, true)
    &&& single_rels_ok(ts, req.query, RelationshipFilter::All, rel_singles(sv, t, steps))
    &&& bucket_rels_ok(ts, req.query, rel_buckets(sv, t, steps))
}

/// Whether `e` reports the first reason, in this order, why an update request of a resource
/// cannot be turned into a statement.
pub open spec fn is_update_main_error(
    e: Ciboulette2SqlError,
    sv: StoreView,
    ts: Ciboulette2PostgresTableStore,
    req: CibouletteUpdateRequest,
) -> bool {
    let t = update_type(sv, req);
    let steps = main_steps(sv, req.resource_type@);
    let res = req.data->MainType_0;
    if !(req.data is MainType) {
        e is UpdatingRelationships
    } else if spec_get_table(ts, req.resource_type@) is None {
        is_unknown_table(e, req.resource_type@)
    } else if spec_find_type(sv.nodes, req.resource_type@) is None {
        e matches Ciboulette2SqlError::UnknownType(n) && n@ == req.resource_type@
    } else if !extract_ok(sv, t, res.attributes, res.relationships@, true) {
        is_extract_error(e, sv, t, res.attributes, res.relationships@, true)
    } else if !bucket_steps_ok(sv, t, steps) {
        is_bucket_steps_error(e, sv, t, steps)
    } else if !names_ok(update_values(sv, req)) {
        is_names_error(e, update_values(sv, req))
    } else if !cte_final_ok(t, req.query, true) {
        is_cte_final_error(e, t, req.query, true)
    } else if !single_rels_ok(ts, req.query, RelationshipFilter::All, rel_singles(sv, t, steps)) {
        is_single_rels_error(e, ts, req.query, RelationshipFilter::All, rel_singles(sv, t, steps))
    } else {
        is_bucket_rels_error(e, ts, req.query, rel_buckets(sv, t, steps))
    }
}

/// The statement of an update request of a resource: the update, which returns the new
/// row; the selection of the updated resource; its to-one related resources; its
/// many-to-many related resources and their bucket rows; then the union of every table to
/// return, the updated resource last.
pub open spec fn update_main_view(sv: StoreView, ts: Ciboulette2PostgresTableStore, req: CibouletteUpdateRequest) -> BuilderView {
    let t = update_type(sv, req);
    let table = update_table(ts, req);
    let steps = main_steps(sv, req.resource_type@);
    let values = update_values(sv, req);
    let upd = update_cte(table);
    let data = data_cte(table);
    let buckets = rel_buckets(sv, t, steps);
    let st1 = update_main_update_view(empty_view().write("WITH "@), table, upd, values, req.resource_id);
    let st2 = cte_final_view(st1.write(table_info(data)).write(" AS ("@), upd, t, req.query, true).write(")"@);
    let st3 = single_rels_view(st2, ts, req.query, RelationshipFilter::All, upd, rel_singles(sv, t, steps));
    let st4 = bucket_rels_view(st3, ts, req.query, data, buckets).add_tables(bucket_rels_working(ts, req.query, buckets)).write(
        " "@,
    ).add_table((WorkingTableView { table, cte: data, requirement: Ciboulette2PostgresResponseType::Object }));
    union_view(st4, ctes(st4.tables))
}

impl Ciboulette2PostgresBuilder {
    /// Appends `UPDATE table SET "col" = $i, ... WHERE table.id = $n`, with ` RETURNING *`
    /// when asked: the update of the resource that the request designates. Fails, leaving
    /// the builder as it was, when a column name holds a NUL.
    pub fn gen_update_normal(
        &mut self,
        table: &Ciboulette2PostgresTableSettings,
        values: Vec<(String, Ciboulette2SqlValue)>,
        request: &CibouletteUpdateRequest,
        returning: bool,
    ) -> (res: Result<(), Ciboulette2SqlError>)
        ensures
            res is Ok <==> names_ok(arg_views(values@)),
            res is Ok ==> final(self)@ == update_normal_view(
                old(self)@,
                table@,
                arg_views(values@),
                request.resource_id,
                returning,
            ),
            res matches Err(e) ==> is_names_error(e, arg_views(values@)),
            res is Err ==> final(self)@ == old(self)@,
    {
        let mut idents: Vec<Ciboulette2PostgresSafeIdent> = Vec::new();
        let mut i: usize = 0;
        while i < values.len()
            invariant
                i <= values@.len(),
                idents@.len() == i,
                forall|j: int| 0 <= j < i ==> (#[trigger] idents@[j])@ == values@[j].0@,
                forall|j: int| 0 <= j < i ==> !(#[trigger] values@[j]).0@.contains('\0'),
            decreases values@.len() - i,
        {
            match Ciboulette2PostgresSafeIdent::try_from_str(values[i].0.as_str()) {
                Ok(id) => {
                    idents.push(id);
                },
                Err(e) => {
                    proof {
                        assert(arg_views(values@)[i as int].0 == values@[i as int].0@);
                        assert forall|j: int| 0 <= j < i implies !(#[trigger] arg_views(values@)[j]).0.contains('\0') by {
                            assert(arg_views(values@)[j].0 == values@[j].0@);
                        }
                    }
                    return Err(e);
                },
            }
            i = i + 1;
        }
        proof {
            assert forall|j: int| 0 <= j < values@.len() implies !(#[trigger] arg_views(values@)[j]).0.contains('\0') by {
                assert(arg_views(values@)[j].0 == values@[j].0@);
            }
        }
        self.write("UPDATE ");
        self.write_table_info(table);
        self.write(" SET ");
        let ghost start = self@;
        let mut i: usize = 0;
        while i < values.len()
            invariant
                i <= values@.len(),
                idents@.len() == values@.len(),
                forall|j: int| 0 <= j < values@.len() ==> (#[trigger] idents@[j])@ == values@[j].0@,
                self@ == set_list_view(start, arg_views(values@.take(i as int))),
            decreases values@.len() - i,
        {
            if i > 0 {
                self.write(", ");
            }
            let field = Ciboulette2PostgresTableField::plain(idents[i].duplicate());
            self.insert_ident_name(&field);
            self.write(" = ");
            self.insert_params(values[i].1.duplicate());
            proof {
                assert(crate::builder::field_text(field) =~= quoted(values@[i as int].0@));
                assert(arg_views(values@.take(i + 1)).drop_last() =~= arg_views(values@.take(i as int)));
            }
            i = i + 1;
        }
        proof {
            assert(values@.take(i as int) =~= values@);
        }
        self.write(" WHERE ");
        let id_field = Ciboulette2PostgresTableField::plain(table.id_name.duplicate());
        proof {
            crate::builder::select::lemma_column_text(id_field.name, table@);
        }
        self.insert_ident(&id_field, table);
        self.write(" = ");
        self.insert_params(Ciboulette2SqlValue::from_id(&request.resource_id));
        if returning {
            self.write(" RETURNING *");
        }
        Ok(())
    }

    /// Appends `"cte_<t>_update" AS (UPDATE ... RETURNING *), `; when a column name holds
    /// a NUL, only its start is left.
    fn gen_update_main_update(
        &mut self,
        request: &CibouletteUpdateRequest,
        main_table: &Ciboulette2PostgresTableSettings,
        main_update_cte: &Ciboulette2PostgresTableSettings,
        values: Vec<(String, Ciboulette2SqlValue)>,
    ) -> (res: Result<(), Ciboulette2SqlError>)
        ensures
            res is Ok <==> names_ok(arg_views(values@)),
            res is Ok ==> final(self)@ == update_main_update_view(
                old(self)@,
                main_table@,
                main_update_cte@,
                arg_views(values@),
                request.resource_id,
            ),
            res matches Err(e) ==> is_names_error(e, arg_views(values@)),
            res is Err ==> final(self)@ == old(self)@.write(table_info(main_update_cte@)).write(" AS ("@),
    {
        self.write_table_info(main_update_cte);
        self.write(" AS (");
        self.gen_update_normal(main_table, values, request, true)?;
        self.write("), ");
        Ok(())
    }

    /// Appends `"cte_<t>_data" AS (SELECT ... FROM "cte_<t>_update")`: the updated resource
    /// as it is returned.
    fn gen_update_main_update_data(
        &mut self,
        request: &CibouletteUpdateRequest,
        main_type: &CibouletteResourceType,
        main_update_cte: &Ciboulette2PostgresTableSettings,
        main_data_cte: &Ciboulette2PostgresTableSettings,
    ) -> (res: Result<(), Ciboulette2SqlError>)
        ensures
            res is Ok <==> cte_final_ok(*main_type, request.query, true),
            res is Ok ==> final(self)@ == cte_final_view(
                old(self)@.write(table_info(main_data_cte@)).write(" AS ("@),
                main_update_cte@,
                *main_type,
                request.query,
                true,
            ).write(")"@),
            res matches Err(e) ==> is_cte_final_error(e, *main_type, request.query, true),
            res is Err ==> final(self)@ == cte_final_err_view(
                old(self)@.write(table_info(main_data_cte@)).write(" AS ("@),
                main_update_cte@,
                *main_type,
                request.query,
                true,
            ),
    {
        self.write_table_info(main_data_cte);
        self.write(" AS (");
        self.gen_select_cte_final(main_update_cte, main_type, &request.query, true)?;
        self.write(")");
        Ok(())
    }

    /// Appends the to-one related resources of the updated resource.
    fn gen_update_rel_data_single(
        &mut self,
        table_store: &Ciboulette2PostgresTableStore,
        request: &CibouletteUpdateRequest,
        main_update_cte: &Ciboulette2PostgresTableSettings,
        single_relationships: &Vec<Ciboulette2PostgresResourceSingleRelationships>,
    ) -> (res: Result<(), Ciboulette2SqlError>)
        ensures
            res is Ok <==> single_rels_ok(*table_store, request.query, RelationshipFilter::All, single_relationships@),
            res is Ok ==> final(self)@ == single_rels_view(
                old(self)@,
                *table_store,
                request.query,
                RelationshipFilter::All,
                main_update_cte@,
                single_relationships@,
            ),
            res matches Err(e) ==> is_single_rels_error(
                e,
                *table_store,
                request.query,
                RelationshipFilter::All,
                single_relationships@,
            ),
    {
        self.select_one_to_one_rels_routine(
            table_store,
            &request.query,
            main_update_cte,
            single_relationships,
            RelationshipFilter::All,
        )
    }

    /// Appends the many-to-many related resources of the updated resource and their bucket
    /// rows, and adds them to the tables to return.
    fn gen_update_rel_data_multi(
        &mut self,
        table_store: &Ciboulette2PostgresTableStore,
        request: &CibouletteUpdateRequest,
        main_data_cte: &Ciboulette2PostgresTableSettings,
        multi_relationships: &Vec<Ciboulette2PostgresRelationships>,
    ) -> (res: Result<(), Ciboulette2SqlError>)
        ensures
            res is Ok <==> bucket_rels_ok(*table_store, request.query, multi_relationships@),
            res is Ok ==> final(self)@ == bucket_rels_view(
                old(self)@,
                *table_store,
                request.query,
                main_data_cte@,
                multi_relationships@,
            ).add_tables(bucket_rels_working(*table_store, request.query, multi_relationships@)),
            res matches Err(e) ==> is_bucket_rels_error(e, *table_store, request.query, multi_relationships@),
    {
        let mut table_list: Vec<Ciboulette2PostgresTableSettings> = Vec::new();
        self.gen_select_rel_routine(table_store, &request.query, &mut table_list, main_data_cte, multi_relationships)?;
        let mut working: Vec<Ciboulette2PostgresWorkingTable> = Vec::new();
        let mut i: usize = 0;
        while i < multi_relationships.len()
            invariant
                i <= multi_relationships@.len(),
                forall|j: int|
                    0 <= j < multi_relationships@.len() ==> bucket_rel_ok(
                        *table_store,
                        request.query,
                        #[trigger] multi_relationships@[j],
                    ),
                working@.map_values(|t: Ciboulette2PostgresWorkingTable| t@) == bucket_rels_working(
                    *table_store,
                    request.query,
                    multi_relationships@.take(i as int),
                ),
            decreases multi_relationships@.len() - i,
        {
            let rel = &multi_relationships[i];
            proof {
                assert(multi_relationships@.take(i + 1).drop_last() =~= multi_relationships@.take(i as int));
                assert(bucket_rel_ok(*table_store, request.query, multi_relationships@[i as int]));
                reveal_strlit("_data");
                reveal_strlit("_rel_data");
            }
            let rel_table = match table_store.get(rel.type_.name.as_str()) {
                Ok(t) => t,
                Err(e) => {
                    return Err(e);
                },
            };
            let rel_rel_table = match table_store.get(rel.bucket.resource.name.as_str()) {
                Ok(t) => t,
                Err(e) => {
                    return Err(e);
                },
            };
            let requirement = if request.query.is_included(rel.type_.name.as_str()) {
                Ciboulette2PostgresResponseType::Object
            } else {
                Ciboulette2PostgresResponseType::Id
            };
            let bucket_requirement = if request.query.is_included(rel.bucket.resource.name.as_str()) {
                Ciboulette2PostgresResponseType::Object
            } else {
                Ciboulette2PostgresResponseType::Id
            };
            let ghost prev = working@;
            working.push(
                Ciboulette2PostgresWorkingTable {
                    table: rel_table.duplicate(),
                    cte: to_rel_cte(rel_table, "_data"),
                    requirement,
                },
            );
            working.push(
                Ciboulette2PostgresWorkingTable {
                    table: rel_rel_table.duplicate(),
                    cte: to_rel_cte(rel_table, "_rel_data"),
                    requirement: bucket_requirement,
                },
            );
            proof {
                let f = |t: Ciboulette2PostgresWorkingTable| t@;
                assert(working@.map_values(f) =~= prev.map_values(f).push(working@[working@.len() - 2]@).push(
                    working@[working@.len() - 1]@,
                ));
            }
            i = i + 1;
        }
        proof {
            assert(multi_relationships@.take(i as int) =~= multi_relationships@);
        }
        self.add_working_tables(&working);
        Ok(())
    }

    /// Builds the statement of an update request of a resource: the update of its row (its
    /// attributes and the keys of its to-one relationships; writing a to-many relationship
    /// is refused), the updated resource, its to-one and many-to-many related resources,
    /// and the union of all of them. A request that carries a relationship is refused with
    /// `UpdatingRelationships`.
    pub fn gen_update_main(
        store: &CibouletteStore,
        table_store: &Ciboulette2PostgresTableStore,
        request: &CibouletteUpdateRequest,
    ) -> (res: Result<Self, Ciboulette2SqlError>)
        requires
            store_types_wf(store@),
            request.query.wf(),
            request.data matches CibouletteUpdateRequestType::MainType(r) ==> r.wf(),
        ensures
            res is Ok <==> update_main_ok(store@, *table_store, *request),
            res matches Ok(b) ==> b@ == update_main_view(store@, *table_store, *request),
            res matches Err(e) ==> is_update_main_error(e, store@, *table_store, *request),
    {
        let mut se = Self::new();
        let main_attrs = extract_data(request)?;
        let main_table = table_store.get(request.resource_type.as_str())?;
        let main_type = store.get_type(request.resource_type.as_str())?;
        proof {
            lemma_find_type_bounds(store@.nodes, request.resource_type@);
            lemma_find_table_bounds(table_store.tables@, request.resource_type@);
            reveal_strlit("cte_");
            reveal_strlit("_update");
            reveal_strlit("_data");
        }
        let main_cte_update = main_table.to_cte(main_table.name.affixed("cte_", "_update"));
        let main_cte_data = main_table.to_cte(main_table.name.affixed("cte_", "_data"));
        let info = extract_fields_and_values(store, main_type, &main_attrs.attributes, &main_attrs.relationships, true)?;
        let multi = get_many_to_many_relationships(store, main_type)?;
        let rels = get_relationships(store, main_type)?;
        se.write("WITH ");
        se.gen_update_main_update(request, main_table, &main_cte_update, info.insert_values)?;
        se.gen_update_main_update_data(request, main_type, &main_cte_update, &main_cte_data)?;
        se.gen_update_rel_data_single(table_store, request, &main_cte_update, &rels.single_rels)?;
        se.gen_update_rel_data_multi(table_store, request, &main_cte_data, &multi)?;
        se.write(" ");
        se.add_working_table(main_table, main_cte_data, Ciboulette2PostgresResponseType::Object);
        se.gen_union_working_tables();
        Ok(se)
    }
}

/// An update of a resource that carries a relationship instead is refused with
/// `UpdatingRelationships`, whatever else the request holds.
pub proof fn law_update_main_refuses_relationship(
    sv: StoreView,
    ts: Ciboulette2PostgresTableStore,
    req: CibouletteUpdateRequest,
)
    requires
        req.data is Relationship,
    ensures
        !update_main_ok(sv, ts, req),
        forall|e: Ciboulette2SqlError| is_update_main_error(e, sv, ts, req) <==> e is UpdatingRelationships,
{
}

/// An update of a resource whose document writes a to-many relationship of the type is
/// refused with `UpdatingManyRelationships`, when the relationships met before it in the
/// walk of the type's edges are accepted.
pub proof fn law_update_main_refuses_to_many(
    sv: StoreView,
    ts: Ciboulette2PostgresTableStore,
    req: CibouletteUpdateRequest,
    k: int,
)
    requires
        req.data is MainType,
        spec_get_table(ts, req.resource_type@) is Some,
        spec_find_type(sv.nodes, req.resource_type@) is Some,
        0 <= k < main_steps(sv, req.resource_type@).len(),
        forall|j: int|
            0 <= j < k ==> extract_step_ok(
                sv,
                update_type(sv, req),
                req.data->MainType_0.relationships@,
                true,
                #[trigger] main_steps(sv, req.resource_type@)[j],
            ),
        step_alias(sv, update_type(sv, req), main_steps(sv, req.resource_type@)[k]) is Some,
        spec_single_opt(sv.edges[main_steps(sv, req.resource_type@)[k].0 as int].2, req.resource_type@) is None,
        spec_find_key(
            req.data->MainType_0.relationships@,
            step_alias(sv, update_type(sv, req), main_steps(sv, req.resource_type@)[k])->0,
        ) is Some,
    ensures
        !update_main_ok(sv, ts, req),
        forall|e: Ciboulette2SqlError| is_update_main_error(e, sv, ts, req) <==> e is UpdatingManyRelationships,
{
    lemma_find_type_bounds(sv.nodes, req.resource_type@);
    let t = update_type(sv, req);
    let res = req.data->MainType_0;
    let steps = main_steps(sv, req.resource_type@);
    assert(t.name@ == req.resource_type@);
    assert(!extract_step_ok(sv, t, res.relationships@, true, steps[k]));
    assert(!extract_ok(sv, t, res.attributes, res.relationships@, true));
    assert forall|e: Ciboulette2SqlError| is_update_main_error(e, sv, ts, req) <==> e is UpdatingManyRelationships by {
        if is_update_main_error(e, sv, ts, req) {
            assert(is_extract_error(e, sv, t, res.attributes, res.relationships@, true));
            let k2 = choose|k2: int|
                0 <= k2 < steps.len() && !extract_step_ok(sv, t, res.relationships@, true, #[trigger] steps[k2])
                    && (forall|j: int|
                    0 <= j < k2 ==> extract_step_ok(sv, t, res.relationships@, true, #[trigger] steps[j]))
                    && is_extract_step_error(e, sv, t, res.relationships@, steps[k2]);
            if k2 < k {
                assert(extract_step_ok(sv, t, res.relationships@, true, steps[k2]));
            } else if k2 > k {
                assert(extract_step_ok(sv, t, res.relationships@, true, steps[k]));
            }
            assert(k2 == k);
        }
        if e is UpdatingManyRelationships {
            assert(is_extract_step_error(e, sv, t, res.relationships@, steps[k]));
            assert(is_extract_error(e, sv, t, res.attributes, res.relationships@, true));
        }
    }
}

} // verus!
