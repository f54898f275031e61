use vstd::prelude::*;
use crate::builder::select::{
    column_of, cte_final_ok, cte_final_params_view, is_cte_final_error, union_view,
};
use crate::builder::select_rel::{
    is_multi_rels_error, is_single_rels_error, multi_values, multi_rels_ok, multi_rels_view, single_rels_ok,
    single_rels_view, Ciboulette2PostgresResourceSingleRelationships,
};
use crate::builder::{ctes, empty_view, table_info, BuilderView, Ciboulette2PostgresBuilder, WorkingTableView};
use crate::error::Ciboulette2SqlError;
use crate::graph::{store_types_wf, lemma_find_type_bounds, spec_find_type, CibouletteStore, StoreView};
use crate::graph_walker::{get_relationships, main_steps, multi_step_ok, rel_multis, rel_singles};
use crate::ident::Ciboulette2PostgresSafeIdent;
use crate::model::{
    spec_value_of_id, Ciboulette2PostgresResponseType, Ciboulette2SqlValue, CibouletteId, CiboulettePath, CibouletteReadRequest,
    CibouletteResourceType, RelationshipFilter,
};
use crate::table::{
    additional_names, is_unknown_table, lemma_find_table_bounds, spec_get_table, spec_to_cte,
    Ciboulette2PostgresTableField, Ciboulette2PostgresTableStore,
    Ciboulette2SqlAdditionalField, TableView,
};

verus! {

/// The key columns of the to-one relationships.
pub open spec fn single_keys(rels: Seq<Ciboulette2PostgresResourceSingleRelationships>) -> Seq<Seq<char>> {
    rels.map_values(|r: Ciboulette2PostgresResourceSingleRelationships| r.key@)
}

/// Whether no key column of the to-one relationships holds a NUL.
pub open spec fn single_keys_ok(rels: Seq<Ciboulette2PostgresResourceSingleRelationships>) -> bool {
    forall|j: int| 0 <= j < rels.len() ==> !(#[trigger] rels[j]).key@.contains('\0')
}

/// Whether `e` reports the first key column of the to-one relationships that holds a NUL.
pub open spec fn is_single_keys_error(
    e: Ciboulette2SqlError,
    rels: Seq<Ciboulette2PostgresResourceSingleRelationships>,
) -> bool {
    exists|k: int|
        0 <= k < rels.len() && (#[trigger] rels[k]).key@.contains('\0') && (forall|j: int|
            0 <= j < k ==> !(#[trigger] rels[j]).key@.contains('\0')) && (e matches Ciboulette2SqlError::NullCharIdent(
            m,
        ) && m@ == rels[k].key@)
}

/// The key columns of the to-one relationships, as additional fields of the main resources:
/// each holds identifiers of the related type.
pub fn single_rels_additional_fields(
    rels: &Vec<Ciboulette2PostgresResourceSingleRelationships>,
) -> (res: Result<Vec<Ciboulette2SqlAdditionalField>, Ciboulette2SqlError>)
    ensures
        res is Ok <==> single_keys_ok(rels@),
        res matches Ok(v) ==> additional_names(v@) == single_keys(rels@) && forall|j: int|
            0 <= j < v@.len() ==> (#[trigger] v@[j]).ciboulette_type == rels@[j].type_.name,
        res matches Err(e) ==> is_single_keys_error(e, rels@),
{
    let mut r: Vec<Ciboulette2SqlAdditionalField> = Vec::new();
    let mut i: usize = 0;
    while i < rels.len()
        invariant
            i <= rels@.len(),
            r@.len() == i,
            forall|j: int| 0 <= j < i ==> !(#[trigger] rels@[j]).key@.contains('\0'),
            forall|j: int| 0 <= j < i ==> (#[trigger] r@[j]).name@ == rels@[j].key@,
            forall|j: int| 0 <= j < i ==> (#[trigger] r@[j]).ciboulette_type == rels@[j].type_.name,
        decreases rels@.len() - i,
    {
        let name = match Ciboulette2PostgresSafeIdent::try_from_str(rels[i].key.as_str()) {
            Ok(n) => n,
            Err(e) => {
                proof {
                    assert(rels@[i as int].key@.contains('\0'));
                }
                return Err(e);
            },
        };
        r.push(Ciboulette2SqlAdditionalField { name, ciboulette_type: rels[i].type_.name.clone() });
        i = i + 1;
    }
    proof {
        assert(additional_names(r@) =~= single_keys(rels@));
    }
    Ok(r)
}

/// The identifier that a read path designates, if any.
pub open spec fn path_id(p: CiboulettePath) -> Option<CibouletteId> {
    match p {
        CiboulettePath::Type => None,
        CiboulettePath::TypeId(id) => Some(id),
        CiboulettePath::TypeIdRelated(id, _) => Some(id),
        CiboulettePath::TypeIdRelationship(id, _) => Some(id),
    }
}

/// The resource type that a read request designates.
pub open spec fn read_type(sv: StoreView, req: CibouletteReadRequest) -> CibouletteResourceType {
    sv.nodes[spec_find_type(sv.nodes, req.resource_type@)->0]
}

/// The table of the resource type that a read request designates.
pub open spec fn read_table(ts: Ciboulette2PostgresTableStore, req: CibouletteReadRequest) -> TableView {
    spec_get_table(ts, req.resource_type@)->0@
}

/// The common table expression `cte_<table>_data` of the main resources.
pub open spec fn data_cte(table: TableView) -> TableView {
    spec_to_cte(table, "cte_"@ + table.name + "_data"@)
}

/// Whether every to-many relationship that leaves the main type has an alias.
pub open spec fn multi_steps_ok(sv: StoreView, t: CibouletteResourceType, steps: Seq<(usize, usize)>) -> bool {
    forall|k: int| 0 <= k < steps.len() ==> multi_step_ok(sv, t, #[trigger] steps[k])
}

/// Whether `e` reports the first to-many relationship that leaves the main type without an
/// alias.
pub open spec fn is_multi_steps_error(
    e: Ciboulette2SqlError,
    sv: StoreView,
    t: CibouletteResourceType,
    steps: Seq<(usize, usize)>,
) -> bool {
    exists|k: int|
        0 <= k < steps.len() && !multi_step_ok(sv, t, #[trigger] steps[k]) && (forall|j: int|
            0 <= j < k ==> multi_step_ok(sv, t, #[trigger] steps[j])) && (e matches Ciboulette2SqlError::MissingAliasTranslation(
            a,
            b,
        ) && a@ == t.name@ && b@ == sv.nodes[steps[k].1 as int].name@)
}

/// Whether a read request can be turned into a statement: its type and its table are
/// registered, the key columns of its to-one relationships hold no NUL, and its resources
/// and their related resources can all be selected.
pub open spec fn select_normal_ok(
    sv: StoreView,
    ts: Ciboulette2PostgresTableStore,
    req: CibouletteReadRequest,
) -> bool {
    let t = read_type(sv, req);
    let steps = main_steps(sv, req.resource_type@);
    let cte = data_cte(read_table(ts, req));
    &&& spec_find_type(sv.nodes, req.resource_type@) is Some
    &&& spec_get_table(ts, req.resource_type@) is Some
    &&& multi_steps_ok(sv, t, steps)
    &&& single_keys_ok(rel_singles(sv, t, steps))
    &&& cte_final_ok(t, req.query, true)
    &&& single_rels_ok(ts, req.query, RelationshipFilter::All, rel_singles(sv, t, steps))
    &&& multi_rels_ok(ts, req.query, RelationshipFilter::All, cte.ciboulette_type, multi_values(rel_multis(sv, t, steps)))
}

/// Whether `e` reports the first reason, in this order, why a read request cannot be
/// turned into a statement.
pub open spec fn is_select_normal_error(
    e: Ciboulette2SqlError,
    sv: StoreView,
    ts: Ciboulette2PostgresTableStore,
    req: CibouletteReadRequest,
) -> bool {
    let t = read_type(sv, req);
    let steps = main_steps(sv, req.resource_type@);
    let cte = data_cte(read_table(ts, req));
    if spec_find_type(sv.nodes, req.resource_type@) is None {
        e matches Ciboulette2SqlError::UnknownType(n) && n@ == req.resource_type@
    } else if spec_get_table(ts, req.resource_type@) is None {
        is_unknown_table(e, req.resource_type@)
    } else if !multi_steps_ok(sv, t, steps) {
        is_multi_steps_error(e, sv, t, steps)
    } else if !single_keys_ok(rel_singles(sv, t, steps)) {
        is_single_keys_error(e, rel_singles(sv, t, steps))
    } else if !cte_final_ok(t, req.query, true) {
        is_cte_final_error(e, t, req.query, true)
    } else if !single_rels_ok(ts, req.query, RelationshipFilter::All, rel_singles(sv, t, steps)) {
        is_single_rels_error(e, ts, req.query, RelationshipFilter::All, rel_singles(sv, t, steps))
    } else {
        is_multi_rels_error(e, ts, req.query, RelationshipFilter::All, cte.ciboulette_type, multi_values(rel_multis(sv, t, steps)))
    }
}

/// `WITH "cte_<t>_data" AS (<main resources>[ WHERE id = $n])`, with the keys of the
/// to-one relationships selected beside the data of the main resources.
pub open spec fn select_main_view(
    sv: StoreView,
    ts: Ciboulette2PostgresTableStore,
    req: CibouletteReadRequest,
) -> BuilderView {
    let t = read_type(sv, req);
    let table = read_table(ts, req);
    let singles = rel_singles(sv, t, main_steps(sv, req.resource_type@));
    let st = cte_final_params_view(
        empty_view().write("WITH \n"@).write(table_info(data_cte(table))).write(" AS ("@),
        table,
        t,
        req.query,
        true,
        single_keys(singles),
    );
    match path_id(req.path) {
        Some(id) => st.write(" WHERE "@).write(column_of(table.id_name, table)).write(" = "@).param(
            spec_value_of_id(id),
        ),
        None => st,
    }.write(")"@)
}

/// The statement of a read request: the common table expression of the main resources,
/// those of their related resources, then the union of every table to return, the main
/// one last.
pub open spec fn select_normal_view(
    sv: StoreView,
    ts: Ciboulette2PostgresTableStore,
    req: CibouletteReadRequest,
) -> BuilderView {
    let t = read_type(sv, req);
    let steps = main_steps(sv, req.resource_type@);
    let cte = data_cte(read_table(ts, req));
    let st = multi_rels_view(
        single_rels_view(select_main_view(sv, ts, req), ts, req.query, RelationshipFilter::All, cte, rel_singles(sv, t, steps)),
        ts,
        req.query,
        RelationshipFilter::All,
        cte,
        multi_values(rel_multis(sv, t, steps)),
    ).add_table(
        (WorkingTableView {
            table: read_table(ts, req),
            cte,
            requirement: Ciboulette2PostgresResponseType::Object,
        }),
    );
    union_view(st, ctes(st.tables))
}

impl Ciboulette2PostgresBuilder {
    /// Builds the statement of a read request: the main resources (the one designated by the
    /// path when it names an identifier), each to-one and to-many relationship of their type
    /// (with the data of the included types, the identifiers of the others), and the union
    /// of all of them.
    pub fn gen_select_normal(
        store: &CibouletteStore,
        table_store: &Ciboulette2PostgresTableStore,
        request: &CibouletteReadRequest,
    ) -> (res: Result<Self, Ciboulette2SqlError>)
        requires
            store_types_wf(store@),
            request.query.wf(),
        ensures
            res is Ok <==> select_normal_ok(store@, *table_store, *request),
            res matches Ok(b) ==> b@ == select_normal_view(store@, *table_store, *request),
            res matches Err(e) ==> is_select_normal_error(e, store@, *table_store, *request),
    {
        let mut se = Self::new();
        let main_type = store.get_type(request.resource_type.as_str())?;
        proof {
            lemma_find_type_bounds(store@.nodes, request.resource_type@);
        }
        let main_table = table_store.get(request.resource_type.as_str())?;
        proof {
            lemma_find_table_bounds(table_store.tables@, request.resource_type@);
            reveal_strlit("cte_");
            reveal_strlit("_data");
        }
        let main_cte_data = main_table.to_cte(main_table.name.affixed("cte_", "_data"));
        let rels = get_relationships(store, main_type)?;
        let additional = single_rels_additional_fields(&rels.single_rels)?;
        se.write("WITH \n");
        se.write_table_info(&main_cte_data);
        se.write(" AS (");
        se.gen_select_cte_final_with_params(main_table, main_type, &request.query, true, additional.as_slice())?;
        match &request.path {
            CiboulettePath::Type => {},
            CiboulettePath::TypeId(id)
            | CiboulettePath::TypeIdRelated(id, _)
            | CiboulettePath::TypeIdRelationship(id, _) => {
                se.write(" WHERE ");
                let id_field = Ciboulette2PostgresTableField::plain(main_table.id_name.duplicate());
                proof {
                    crate::builder::select::lemma_column_text(id_field.name, main_table@);
                }
                se.insert_ident(&id_field, main_table);
                se.write(" = ");
                se.insert_params(Ciboulette2SqlValue::from_id(id));
            },
        }
        se.write(")");
        proof {
            assert(se@ == select_main_view(store@, *table_store, *request));
        }
        se.select_one_to_one_rels_routine(
            table_store,
            &request.query,
            &main_cte_data,
            &rels.single_rels,
            RelationshipFilter::All,
        )?;
        se.select_multi_rels_routine(
            table_store,
            &request.query,
            &main_cte_data,
            &rels.multi_rels,
            RelationshipFilter::All,
        )?;
        se.add_working_table(main_table, main_cte_data, Ciboulette2PostgresResponseType::Object);
        se.gen_union_working_tables();
        Ok(se)
    }
}

} // verus!
