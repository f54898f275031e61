use vstd::prelude::*;
use crate::builder::select::{cte_final_err_view, cte_final_ok, cte_final_params_view, is_cte_final_error, union_view};
use crate::builder::select_main::{
    data_cte, is_single_keys_error, single_keys, single_keys_ok, single_rels_additional_fields,
};
use crate::builder::select_rel::{
    is_single_rels_error, single_rels_ok, single_rels_view, Ciboulette2PostgresResourceSingleRelationships,
};
use crate::builder::update::{
    is_names_error, names_ok, update_cte, update_main_update_view, update_table, update_type,
};
use crate::builder::{ctes, empty_view, table_info, BuilderView, Ciboulette2PostgresBuilder, WorkingTableView};
use crate::error::Ciboulette2SqlError;
use crate::graph::{store_types_wf, lemma_find_type_bounds, spec_find_type, CibouletteStore, StoreView};
use crate::graph_walker::{
    arg_views, extract_fields_rel, extract_rel_ok, is_extract_rel_error, is_rel_step_error, main_steps,
    rel_step_matches, rel_step_ok, rel_update_singles, rel_update_values, spec_single_opt,
};
use crate::model::{
    Ciboulette2PostgresResponseType, Ciboulette2SqlValue, CibouletteResourceType, CibouletteUpdateRelationship, CibouletteUpdateRequest,
    CibouletteUpdateRequestType, RelationshipFilter,
};
use crate::table::{
    is_unknown_table, lemma_find_table_bounds, spec_get_table,
    Ciboulette2PostgresTableSettings, Ciboulette2PostgresTableStore,
};

verus! {

/// The relationship that an update request carries; a request that carries a resource is
/// refused with `UpdatingMainObject`.
pub fn extract_rels(request: &CibouletteUpdateRequest) -> (res: Result<&CibouletteUpdateRelationship, Ciboulette2SqlError>)
    ensures
        res is Ok <==> request.data is Relationship,
        res matches Ok(r) ==> request.data == CibouletteUpdateRequestType::Relationship(*r),
        res matches Err(e) ==> e is UpdatingMainObject,
{
    match &request.data {
        CibouletteUpdateRequestType::MainType(_) => Err(Ciboulette2SqlError::UpdatingMainObject),
        CibouletteUpdateRequestType::Relationship(rels) => Ok(rels),
    }
}

/// The to-one relationships that an update of a relationship names.
pub open spec fn update_rel_singles<'a>(
    sv: StoreView,
    req: CibouletteUpdateRequest,
) -> Seq<Ciboulette2PostgresResourceSingleRelationships<'a>> {
    rel_update_singles(
        sv,
        update_type(sv, req),
        req.data->Relationship_0.type_@,
        main_steps(sv, req.resource_type@),
    )
}

/// Whether an update request of a relationship can be turned into a statement: its table
/// and type are registered, it carries a relationship, that relationship is a to-one
/// relationship of the type that can take the new linkage, and the updated resource and
/// its included related resources can all be selected.
pub open spec fn update_rel_ok(sv: StoreView, ts: Ciboulette2PostgresTableStore, req: CibouletteUpdateRequest) -> bool {
    let t = update_type(sv, req);
    let singles = update_rel_singles(sv, req);
    &&& spec_get_table(ts, req.resource_type@) is Some
    &&& spec_find_type(sv.nodes, req.resource_type@) is Some
    &&& req.data is Relationship
    &&& extract_rel_ok(sv, t, req.data->Relationship_0)
    &&& names_ok(rel_update_values(sv, t, req.data->Relationship_0, main_steps(sv, req.resource_type@)))
    &&& single_keys_ok(singles)
    &&& cte_final_ok(t, req.query, true)
    &&& single_rels_ok(ts, req.query, RelationshipFilter::IncludedOnly, singles)
}

/// Whether `e` reports the first reason, in this order, why an update request of a
/// relationship cannot be turned into a statement.
pub open spec fn is_update_rel_error(
    e: Ciboulette2SqlError,
    sv: StoreView,
    ts: Ciboulette2PostgresTableStore,
    req: CibouletteUpdateRequest,
) -> bool {
    let t = update_type(sv, req);
    let singles = update_rel_singles(sv, req);
    if spec_get_table(ts, req.resource_type@) is None {
        is_unknown_table(e, req.resource_type@)
    } else if spec_find_type(sv.nodes, req.resource_type@) is None {
        e matches Ciboulette2SqlError::UnknownType(n) && n@ == req.resource_type@
    } else if !(req.data is Relationship) {
        e is UpdatingMainObject
    } else if !extract_rel_ok(sv, t, req.data->Relationship_0) {
        is_extract_rel_error(e, sv, t, req.data->Relationship_0)
    } else if !names_ok(rel_update_values(sv, t, req.data->Relationship_0, main_steps(sv, req.resource_type@))) {
        is_names_error(e, rel_update_values(sv, t, req.data->Relationship_0, main_steps(sv, req.resource_type@)))
    } else if !single_keys_ok(singles) {
        is_single_keys_error(e, singles)
    } else if !cte_final_ok(t, req.query, true) {
        is_cte_final_error(e, t, req.query, true)
    } else {
        is_single_rels_error(e, ts, req.query, RelationshipFilter::IncludedOnly, singles)
    }
}

/// The statement of an update request of a relationship: the update of the key column,
/// which returns the new row; the selection of the updated resource with the keys of the
/// updated relationship; the related resource when its type is included; then the union
/// of every table to return, the updated resource last.
pub open spec fn update_rel_view(sv: StoreView, ts: Ciboulette2PostgresTableStore, req: CibouletteUpdateRequest) -> BuilderView {
    let t = update_type(sv, req);
    let table = update_table(ts, req);
    let steps = main_steps(sv, req.resource_type@);
    let values = rel_update_values(sv, t, req.data->Relationship_0, steps);
    let singles = update_rel_singles(sv, req);
    let upd = update_cte(table);
    let data = data_cte(table);
    let st1 = update_main_update_view(empty_view().write("WITH "@), table, upd, values, req.resource_id);
    let st2 = cte_final_params_view(
        st1.write(table_info(data)).write(" AS ("@),
        upd,
        t,
        req.query,
        true,
        single_keys(singles),
    ).write(")"@);
    let st3 = single_rels_view(st2, ts, req.query, RelationshipFilter::IncludedOnly, data, singles).write(
        " "@,
    ).add_table((WorkingTableView { table, cte: data, requirement: Ciboulette2PostgresResponseType::Object }));
    union_view(st3, ctes(st3.tables))
}

impl Ciboulette2PostgresBuilder {
    /// Appends `"cte_<t>_update" AS (UPDATE ... RETURNING *), `: the update of the key
    /// columns of a relationship, which gives back the new row. When a column name holds a
    /// NUL, only the start of the common table expression is left.
    pub fn gen_update_rel_update(
        &mut self,
        request: &CibouletteUpdateRequest,
        main_table: &Ciboulette2PostgresTableSettings,
        main_cte_update: &Ciboulette2PostgresTableSettings,
        values: Vec<(String, Ciboulette2SqlValue)>,
    ) -> (res: Result<(), Ciboulette2SqlError>)
        ensures
            res is Ok <==> names_ok(arg_views(values@)),
            res is Ok ==> final(self)@ == update_main_update_view(
                old(self)@,
                main_table@,
                main_cte_update@,
                arg_views(values@),
                request.resource_id,
            ),
            res matches Err(e) ==> is_names_error(e, arg_views(values@)),
            res is Err ==> final(self)@ == old(self)@.write(table_info(main_cte_update@)).write(" AS ("@),
    {
        self.write_table_info(main_cte_update);
        self.write(" AS (");
        self.gen_update_normal(main_table, values, request, true)?;
        self.write("), ");
        Ok(())
    }

    /// Appends `"cte_<t>_data" AS (SELECT ... FROM "cte_<t>_update")`: the updated resource
    /// as it is returned, with the key columns of the given to-one relationships.
    pub fn gen_update_rel_data(
        &mut self,
        request: &CibouletteUpdateRequest,
        type_: &CibouletteResourceType,
        main_cte_update: &Ciboulette2PostgresTableSettings,
        main_cte_data: &Ciboulette2PostgresTableSettings,
        rels: &Vec<Ciboulette2PostgresResourceSingleRelationships>,
    ) -> (res: Result<(), Ciboulette2SqlError>)
        ensures
            res is Ok <==> single_keys_ok(rels@) && cte_final_ok(*type_, request.query, true),
            res is Ok ==> final(self)@ == cte_final_params_view(
                old(self)@.write(table_info(main_cte_data@)).write(" AS ("@),
                main_cte_update@,
                *type_,
                request.query,
                true,
                single_keys(rels@),
            ).write(")"@),
            res matches Err(e) ==> if !single_keys_ok(rels@) {
                is_single_keys_error(e, rels@) && final(self)@ == old(self)@
            } else {
                is_cte_final_error(e, *type_, request.query, true) && final(self)@ == cte_final_err_view(
                    old(self)@.write(table_info(main_cte_data@)).write(" AS ("@),
                    main_cte_update@,
                    *type_,
                    request.query,
                    true,
                )
            },
    {
        let additional = single_rels_additional_fields(rels)?;
        self.write_table_info(main_cte_data);
        self.write(" AS (");
        self.gen_select_cte_final_with_params(main_cte_update, type_, &request.query, true, additional.as_slice())?;
        self.write(")");
        Ok(())
    }

    /// Builds the statement of an update request of one relationship of a resource: the
    /// update of the key column of that to-one relationship, the updated resource, the
    /// related resource when its type is included, and the union of all of them. Updating a
    /// to-many relationship is refused with `UpdatingManyRelationships`, and a request that
    /// carries a resource with `UpdatingMainObject`.
    pub fn gen_update_rel(
        store: &CibouletteStore,
        table_store: &Ciboulette2PostgresTableStore,
        request: &CibouletteUpdateRequest,
    ) -> (res: Result<Self, Ciboulette2SqlError>)
        requires
            store_types_wf(store@),
            request.query.wf(),
        ensures
            res is Ok <==> update_rel_ok(store@, *table_store, *request),
            res matches Ok(b) ==> b@ == update_rel_view(store@, *table_store, *request),
            res matches Err(e) ==> is_update_rel_error(e, store@, *table_store, *request),
    {
        let main_table = table_store.get(request.resource_type.as_str())?;
        let mut se = Self::new();
        let main_type = store.get_type(request.resource_type.as_str())?;
        proof {
            lemma_find_type_bounds(store@.nodes, request.resource_type@);
            lemma_find_table_bounds(table_store.tables@, request.resource_type@);
            reveal_strlit("cte_");
            reveal_strlit("_update");
            reveal_strlit("_data");
        }
        let rels = extract_rels(request)?;
        let main_cte_update = main_table.to_cte(main_table.name.affixed("cte_", "_update"));
        let main_cte_data = main_table.to_cte(main_table.name.affixed("cte_", "_data"));
        let (rel_values, single_rels) = extract_fields_rel(store, main_type, rels)?;
        se.write("WITH ");
        se.gen_update_rel_update(request, main_table, &main_cte_update, rel_values)?;
        se.gen_update_rel_data(request, main_type, &main_cte_update, &main_cte_data, &single_rels)?;
        se.select_one_to_one_rels_routine(
            table_store,
            &request.query,
            &main_cte_data,
            &single_rels,
            RelationshipFilter::IncludedOnly,
        )?;
        se.write(" ");
        se.add_working_table(main_table, main_cte_data, Ciboulette2PostgresResponseType::Object);
        se.gen_union_working_tables();
        Ok(se)
    }
}

/// An update of a relationship that carries a resource instead is refused with
/// `UpdatingMainObject`, once the table and the type of the request are known to exist.
pub proof fn law_update_rel_refuses_main_object(
    sv: StoreView,
    ts: Ciboulette2PostgresTableStore,
    req: CibouletteUpdateRequest,
)
    requires
        req.data is MainType,
        spec_get_table(ts, req.resource_type@) is Some,
        spec_find_type(sv.nodes, req.resource_type@) is Some,
    ensures
        !update_rel_ok(sv, ts, req),
        forall|e: Ciboulette2SqlError| is_update_rel_error(e, sv, ts, req) <==> e is UpdatingMainObject,
{
}

/// An update of a relationship whose alias first names a to-many relationship of the type
/// is refused with `UpdatingManyRelationships`: only to-one relationships are updated this
/// way.
pub proof fn law_update_rel_refuses_to_many(
    sv: StoreView,
    ts: Ciboulette2PostgresTableStore,
    req: CibouletteUpdateRequest,
    k: int,
)
    requires
        spec_get_table(ts, req.resource_type@) is Some,
        spec_find_type(sv.nodes, req.resource_type@) is Some,
        req.data is Relationship,
        0 <= k < main_steps(sv, req.resource_type@).len(),
        rel_step_matches(
            sv,
            update_type(sv, req),
            req.data->Relationship_0.type_@,
            main_steps(sv, req.resource_type@)[k],
        ),
        spec_single_opt(sv.edges[main_steps(sv, req.resource_type@)[k].0 as int].2, req.resource_type@) is None,
        forall|j: int|
            0 <= j < k ==> !rel_step_matches(
                sv,
                update_type(sv, req),
                req.data->Relationship_0.type_@,
                #[trigger] main_steps(sv, req.resource_type@)[j],
            ),
    ensures
        !update_rel_ok(sv, ts, req),
        forall|e: Ciboulette2SqlError| is_update_rel_error(e, sv, ts, req) <==> e is UpdatingManyRelationships,
{
    lemma_find_type_bounds(sv.nodes, req.resource_type@);
    let t = update_type(sv, req);
    let rel = req.data->Relationship_0;
    let steps = main_steps(sv, req.resource_type@);
    assert(t.name@ == req.resource_type@);
    assert(!rel_step_ok(sv, t, rel, steps[k]));
    assert(forall|j: int| 0 <= j < k ==> rel_step_ok(sv, t, rel, #[trigger] steps[j]));
    assert(!extract_rel_ok(sv, t, rel));
    assert forall|e: Ciboulette2SqlError| is_update_rel_error(e, sv, ts, req) <==> e is UpdatingManyRelationships by {
        if is_update_rel_error(e, sv, ts, req) {
            assert(is_extract_rel_error(e, sv, t, rel));
            let k2 = choose|k2: int|
                0 <= k2 < steps.len() && !rel_step_ok(sv, t, rel, #[trigger] steps[k2]) && (forall|j: int|
                    0 <= j < k2 ==> rel_step_ok(sv, t, rel, #[trigger] steps[j])) && is_rel_step_error(
                    e,
                    sv,
                    t,
                    rel,
                    steps[k2],
                );
            if k2 < k {
                assert(rel_step_ok(sv, t, rel, steps[k2]));
            } else if k2 > k {
                assert(rel_step_ok(sv, t, rel, steps[k]));
            }
            assert(k2 == k);
        }
        if e is UpdatingManyRelationships {
            assert(is_rel_step_error(e, sv, t, rel, steps[k]));
            assert(is_extract_rel_error(e, sv, t, rel));
        }
    }
}

} // verus!
