use vstd::prelude::*;
use crate::error::Ciboulette2SqlError;
use crate::graph::{lemma_find_type_bounds, lemma_outgoing_bounds, spec_find_type, spec_outgoing, CibouletteStore, StoreView};
use crate::builder::select_rel::{
    Ciboulette2PostgresMultiRelationships, Ciboulette2PostgresMultiRelationshipsType,
    Ciboulette2PostgresRelationships, Ciboulette2PostgresResourceSingleRelationships,
    CibouletteRelationshipBucket,
};
use crate::model::{
    find_key, keys_ordered, lemma_find_key_bounds, ordered_insert, ordered_insert_exec, spec_dest_key, spec_find_key, spec_null_of_id_type, spec_value_of_id,
    is_sql_null, lemma_null_of_id_type_fits_ids, same_sql_type, spec_kind_of_id, CibouletteId,
    CibouletteRelationshipManyToManyOption, AttributeKind, AttributeObject, AttributeValue, Ciboulette2SqlValue,
    CibouletteOptionalData, CibouletteRelationshipOneToManyOption, CibouletteRelationshipOption,
    CibouletteResourceType, CibouletteUpdateRelationship,
};

verus! {

/// The parameter value of an attribute that is present in the document.
pub open spec fn spec_attribute_value(v: AttributeValue) -> Ciboulette2SqlValue {
    match v {
        AttributeValue::Null(kind) => match kind {
            AttributeKind::Bool => Ciboulette2SqlValue::Boolean(None),
            AttributeKind::Number => Ciboulette2SqlValue::Integer(None),
            AttributeKind::Text => Ciboulette2SqlValue::Text(None),
            AttributeKind::Uuid => Ciboulette2SqlValue::Uuid(None),
            AttributeKind::Json => Ciboulette2SqlValue::Json(None),
        },
        AttributeValue::Bool(b) => Ciboulette2SqlValue::Boolean(Some(b)),
        AttributeValue::Number(n) => Ciboulette2SqlValue::Integer(Some(n)),
        AttributeValue::Text(s) => Ciboulette2SqlValue::Text(Some(s)),
        AttributeValue::Uuid(u) => Ciboulette2SqlValue::Uuid(Some(u)),
        AttributeValue::Json(s) => Ciboulette2SqlValue::Json(Some(s)),
        AttributeValue::Absent => Ciboulette2SqlValue::Json(None),
    }
}

/// The parameter value of an attribute that is present in the document.
pub fn attribute_value(v: &AttributeValue) -> (r: Ciboulette2SqlValue)
    ensures
        r == spec_attribute_value(*v),
{
    match v {
        AttributeValue::Null(kind) => match kind {
            AttributeKind::Bool => Ciboulette2SqlValue::Boolean(None),
            AttributeKind::Number => Ciboulette2SqlValue::Integer(None),
            AttributeKind::Text => Ciboulette2SqlValue::Text(None),
            AttributeKind::Uuid => Ciboulette2SqlValue::Uuid(None),
            AttributeKind::Json => Ciboulette2SqlValue::Json(None),
        },
        AttributeValue::Bool(b) => Ciboulette2SqlValue::Boolean(Some(*b)),
        AttributeValue::Number(n) => Ciboulette2SqlValue::Integer(Some(*n)),
        AttributeValue::Text(s) => Ciboulette2SqlValue::Text(Some(s.clone())),
        AttributeValue::Uuid(u) => Ciboulette2SqlValue::Uuid(Some(*u)),
        AttributeValue::Json(s) => Ciboulette2SqlValue::Json(Some(s.clone())),
        AttributeValue::Absent => Ciboulette2SqlValue::Json(None),
    }
}

/// The attribute value that a bound parameter stands for: a value of the kind given by its
/// SQL type, or a NULL of that kind.
pub open spec fn spec_sql_to_attribute(v: Ciboulette2SqlValue) -> AttributeValue {
    match v {
        Ciboulette2SqlValue::Boolean(Some(b)) => AttributeValue::Bool(b),
        Ciboulette2SqlValue::Boolean(None) => AttributeValue::Null(AttributeKind::Bool),
        Ciboulette2SqlValue::Integer(Some(n)) => AttributeValue::Number(n),
        Ciboulette2SqlValue::Integer(None) => AttributeValue::Null(AttributeKind::Number),
        Ciboulette2SqlValue::Text(Some(s)) => AttributeValue::Text(s),
        Ciboulette2SqlValue::Text(None) => AttributeValue::Null(AttributeKind::Text),
        Ciboulette2SqlValue::Uuid(Some(u)) => AttributeValue::Uuid(u),
        Ciboulette2SqlValue::Uuid(None) => AttributeValue::Null(AttributeKind::Uuid),
        Ciboulette2SqlValue::Json(Some(s)) => AttributeValue::Json(s),
        Ciboulette2SqlValue::Json(None) => AttributeValue::Null(AttributeKind::Json),
        Ciboulette2SqlValue::Numeric(_) => AttributeValue::Absent,
    }
}

/// The parameter bound for an attribute present in a document carries the document's value:
/// reading it back gives that value, so two different values are never bound alike.
pub proof fn lemma_attribute_value_round_trip(a: AttributeValue, b: AttributeValue)
    requires
        !(a is Absent),
        !(b is Absent),
    ensures
        spec_sql_to_attribute(spec_attribute_value(a)) == a,
        a != b ==> spec_attribute_value(a) != spec_attribute_value(b),
{
    assert(spec_sql_to_attribute(spec_attribute_value(b)) == b);
}

/// The column names and values of a list of column assignments.
pub open spec fn arg_views(args: Seq<(String, Ciboulette2SqlValue)>) -> Seq<(Seq<char>, Ciboulette2SqlValue)> {
    args.map_values(|p: (String, Ciboulette2SqlValue)| (p.0@, p.1))
}

/// The column assignments of the attributes present in the document, in order.
pub open spec fn attribute_args(entries: Seq<(String, AttributeValue)>) -> Seq<(Seq<char>, Ciboulette2SqlValue)>
    decreases entries.len(),
{
    if entries.len() == 0 {
        Seq::empty()
    } else {
        let prev = attribute_args(entries.drop_last());
        if entries.last().1 is Absent {
            prev
        } else {
            prev.push((entries.last().0@, spec_attribute_value(entries.last().1)))
        }
    }
}

/// The column assignments of the attributes of an optional attributes object.
pub open spec fn optional_attribute_args(obj: Option<AttributeObject>) -> Seq<(Seq<char>, Ciboulette2SqlValue)> {
    match obj {
        Some(o) => attribute_args(o.entries@),
        None => Seq::empty(),
    }
}

/// Appends to `args` a column assignment for each attribute present in `obj`, in order;
/// attributes absent from the document are skipped, explicit nulls are kept.
pub fn fill_attributes(
    args: &mut Vec<(String, Ciboulette2SqlValue)>,
    obj: &Option<AttributeObject>,
) -> (res: Result<(), Ciboulette2SqlError>)
    ensures
        res is Ok,
        arg_views(final(args)@) == arg_views(old(args)@) + optional_attribute_args(*obj),
{
    match obj {
        None => {
            proof {
                assert(arg_views(args@) =~= arg_views(old(args)@) + optional_attribute_args(*obj));
            }
            Ok(())
        },
        Some(o) => {
            let ghost start = arg_views(args@);
            let mut i: usize = 0;
            while i < o.entries.len()
                invariant
                    i <= o.entries@.len(),
                    obj == Some(*o),
                    start == arg_views(old(args)@),
                    arg_views(args@) == start + attribute_args(o.entries@.take(i as int)),
                decreases o.entries@.len() - i,
            {
                proof {
                    assert(o.entries@.take(i + 1).drop_last() =~= o.entries@.take(i as int));
                }
                let (k, v) = &o.entries[i];
                match v {
                    AttributeValue::Absent => {},
                    _ => {
                        let ghost prev = args@;
                        args.push((k.clone(), attribute_value(v)));
                        proof {
                            assert(arg_views(args@) =~= arg_views(prev).push((k@, spec_attribute_value(*v))));
                        }
                    },
                }
                proof {
                    assert(arg_views(args@) =~= start + attribute_args(o.entries@.take(i + 1)));
                }
                i = i + 1;
            }
            proof {
                assert(o.entries@.take(i as int) =~= o.entries@);
            }
            Ok(())
        },
    }
}

/// The linkage of the relationship `alias` in a document: a `null` that is not written
/// when the document does not mention it.
pub open spec fn spec_rel_data(rels: Seq<(String, CibouletteOptionalData)>, alias: Seq<char>) -> CibouletteOptionalData {
    match spec_find_key(rels, alias) {
        Some(i) => rels[i].1,
        None => CibouletteOptionalData::Null(false),
    }
}

/// What the linkage `data` asks of a to-one relationship held by the column
/// `many_table_key`: `None` when it is refused, else the assignment of that column, if any.
pub open spec fn spec_check_linkage(
    data: CibouletteOptionalData,
    opt: CibouletteRelationshipOneToManyOption,
) -> Option<Option<(String, Ciboulette2SqlValue)>> {
    match data {
        CibouletteOptionalData::One(id) => Some(Some((opt.many_table_key, spec_value_of_id(id)))),
        CibouletteOptionalData::Many(_) => None,
        CibouletteOptionalData::Null(present) => if !opt.optional {
            None
        } else if present {
            Some(Some((opt.many_table_key, spec_null_of_id_type(opt.one_table_id_type))))
        } else {
            Some(None)
        },
    }
}

/// What a document asks of a to-one relationship held by the column `many_table_key`:
/// `None` when the document is refused, else the assignment of that column, if any.
pub open spec fn spec_check_one_to_many(
    rels: Seq<(String, CibouletteOptionalData)>,
    alias: Seq<char>,
    opt: CibouletteRelationshipOneToManyOption,
) -> Option<Option<(String, Ciboulette2SqlValue)>> {
    spec_check_linkage(spec_rel_data(rels, alias), opt)
}

/// Whether `e` says why the linkage `data` of a to-one relationship from `from` to `to` is
/// refused: several identifiers were given, or none for a relationship that is not optional.
pub open spec fn is_linkage_error(e: Ciboulette2SqlError, data: CibouletteOptionalData, from: Seq<char>, to: Seq<char>) -> bool {
    match data {
        CibouletteOptionalData::Many(_) => e matches Ciboulette2SqlError::RequiredSingleRelationship(t) && t@ == to,
        _ => e matches Ciboulette2SqlError::MissingRelationship(a, b) && a@ == from && b@ == to,
    }
}

/// Whether `e` says why a document is refused for a to-one relationship from `from` to `to`.
pub open spec fn is_check_one_to_many_error(
    e: Ciboulette2SqlError,
    rels: Seq<(String, CibouletteOptionalData)>,
    from: Seq<char>,
    to: Seq<char>,
    alias: Seq<char>,
) -> bool {
    is_linkage_error(e, spec_rel_data(rels, alias), from, to)
}

/// Setting an optional to-one relationship to `null` assigns its key column a NULL bound
/// with the SQL type of the identifiers of the related type, the one its column accepts.
pub proof fn lemma_null_linkage_fits_key(opt: CibouletteRelationshipOneToManyOption, id: CibouletteId)
    requires
        opt.optional,
        spec_kind_of_id(id) == opt.one_table_id_type,
    ensures
        spec_check_linkage(CibouletteOptionalData::Null(true), opt) matches Some(Some((k, v))) && k == opt.many_table_key
            && is_sql_null(v) && same_sql_type(v, spec_value_of_id(id)),
{
    lemma_null_of_id_type_fits_ids(id);
}

/// Checks the linkage of a to-one relationship and gives the assignment of the key column
/// that holds it: the identifier given, a NULL for `null`, and nothing when the linkage is
/// not written. A relationship that is not optional must be given, and at most one
/// identifier may be.
pub fn check_linkage<'a>(
    data: &CibouletteOptionalData,
    from_type_: &CibouletteResourceType,
    to_type_: &CibouletteResourceType,
    opt: &'a CibouletteRelationshipOneToManyOption,
) -> (res: Result<Option<(&'a String, Ciboulette2SqlValue)>, Ciboulette2SqlError>)
    ensures
        res is Ok <==> spec_check_linkage(*data, *opt) is Some,
        res matches Ok(r) ==> spec_check_linkage(*data, *opt) == Some(
            match r {
                Some((k, v)) => Some((*k, v)),
                None => None,
            },
        ),
        res matches Err(e) ==> is_linkage_error(e, *data, from_type_.name@, to_type_.name@),
{
    match data {
        CibouletteOptionalData::One(rel_id) => Ok(
            Some((&opt.many_table_key, Ciboulette2SqlValue::from_id(rel_id))),
        ),
        CibouletteOptionalData::Many(_) => Err(
            Ciboulette2SqlError::RequiredSingleRelationship(to_type_.name.clone()),
        ),
        CibouletteOptionalData::Null(present) => {
            if !opt.optional {
                return Err(
                    Ciboulette2SqlError::MissingRelationship(from_type_.name.clone(), to_type_.name.clone()),
                );
            }
            if *present {
                Ok(Some((&opt.many_table_key, Ciboulette2SqlValue::null_of_id_type(opt.one_table_id_type))))
            } else {
                Ok(None)
            }
        },
    }
}

/// Checks the linkage of the relationship `to_type_alias` in a document and gives the
/// assignment of the key column that holds it: the identifier given, a NULL when the
/// document says `null`, and nothing when it says nothing. A relationship that is not
/// optional must be given, and at most one identifier may be.
pub fn check_one_to_many_relationships<'a>(
    relationships: &Vec<(String, CibouletteOptionalData)>,
    from_type_: &CibouletteResourceType,
    to_type_: &CibouletteResourceType,
    to_type_alias: &str,
    opt: &'a CibouletteRelationshipOneToManyOption,
) -> (res: Result<Option<(&'a String, Ciboulette2SqlValue)>, Ciboulette2SqlError>)
    ensures
        res is Ok <==> spec_check_one_to_many(relationships@, to_type_alias@, *opt) is Some,
        res matches Ok(r) ==> spec_check_one_to_many(relationships@, to_type_alias@, *opt) == Some(
            match r {
                Some((k, v)) => Some((*k, v)),
                None => None,
            },
        ),
        res matches Err(e) ==> is_check_one_to_many_error(
            e,
            relationships@,
            from_type_.name@,
            to_type_.name@,
            to_type_alias@,
        ),
{
    proof {
        lemma_find_key_bounds(relationships@, to_type_alias@);
    }
    let absent = CibouletteOptionalData::Null(false);
    let data = match find_key(relationships, to_type_alias) {
        Some(i) => &relationships[i].1,
        None => &absent,
    };
    check_linkage(data, from_type_, to_type_, opt)
}

/// The one-to-many option of an edge that leaves the type `main_name` when that type holds
/// the key of the relationship (a to-one relationship of `main_name`).
pub open spec fn spec_single_opt(
    w: CibouletteRelationshipOption,
    main_name: Seq<char>,
) -> Option<CibouletteRelationshipOneToManyOption> {
    match w {
        CibouletteRelationshipOption::ManyToOne(o) => if o.part_of_many_to_many is None && o.many_table@ == main_name {
            Some(o)
        } else {
            None
        },
        CibouletteRelationshipOption::OneToMany(o) => if o.part_of_many_to_many is None && o.many_table@ == main_name {
            Some(o)
        } else {
            None
        },
        CibouletteRelationshipOption::ManyToMany(_) => None,
    }
}

/// The one-to-many option of an edge that leaves the type `main_name` when that type holds
/// the key of the relationship.
pub fn single_opt<'a>(
    w: &'a CibouletteRelationshipOption,
    main_name: &str,
) -> (r: Option<&'a CibouletteRelationshipOneToManyOption>)
    ensures
        r matches Some(o) ==> spec_single_opt(*w, main_name@) == Some(*o),
        r is None ==> spec_single_opt(*w, main_name@) is None,
{
    match w {
        CibouletteRelationshipOption::ManyToOne(o) | CibouletteRelationshipOption::OneToMany(o) => {
            if o.part_of_many_to_many.is_none() && crate::text::str_eq(o.many_table.as_str(), main_name) {
                Some(o)
            } else {
                None
            }
        },
        CibouletteRelationshipOption::ManyToMany(_) => None,
    }
}

/// The alias under which the type of a node appears in documents of `main`.
pub open spec fn step_alias(sv: StoreView, main: CibouletteResourceType, p: (usize, usize)) -> Option<Seq<char>> {
    match spec_find_key(main.relationships_type_to_alias@, sv.nodes[p.1 as int].name@) {
        Some(ai) => Some(main.relationships_type_to_alias@[ai].1@),
        None => None,
    }
}

/// Whether an edge that leaves the main type can be handled: the related type has an alias,
/// a to-one relationship passes `check_one_to_many_relationships`, and another relationship
/// is not written in a document that must not hold it.
pub open spec fn extract_step_ok(
    sv: StoreView,
    main: CibouletteResourceType,
    rels: Seq<(String, CibouletteOptionalData)>,
    fails_on_many: bool,
    p: (usize, usize),
) -> bool {
    match step_alias(sv, main, p) {
        None => false,
        Some(alias) => match spec_single_opt(sv.edges[p.0 as int].2, main.name@) {
            Some(o) => spec_check_one_to_many(rels, alias, o) is Some,
            None => !(fails_on_many && spec_find_key(rels, alias) is Some),
        },
    }
}

/// Whether `e` says why an edge that leaves the main type cannot be handled.
pub open spec fn is_extract_step_error(
    e: Ciboulette2SqlError,
    sv: StoreView,
    main: CibouletteResourceType,
    rels: Seq<(String, CibouletteOptionalData)>,
    p: (usize, usize),
) -> bool {
    let node = sv.nodes[p.1 as int];
    match step_alias(sv, main, p) {
        None => e matches Ciboulette2SqlError::MissingAliasTranslation(a, b) && a@ == main.name@ && b@
            == node.name@,
        Some(alias) => match spec_single_opt(sv.edges[p.0 as int].2, main.name@) {
            Some(o) => is_check_one_to_many_error(e, rels, main.name@, node.name@, alias),
            None => e matches Ciboulette2SqlError::UpdatingManyRelationships,
        },
    }
}

/// The key assignments that the to-one relationships of the main type give, in the order
/// of the edges.
pub open spec fn extract_values(
    sv: StoreView,
    main: CibouletteResourceType,
    rels: Seq<(String, CibouletteOptionalData)>,
    steps: Seq<(usize, usize)>,
) -> Seq<(Seq<char>, Ciboulette2SqlValue)>
    decreases steps.len(),
{
    if steps.len() == 0 {
        Seq::empty()
    } else {
        let prev = extract_values(sv, main, rels, steps.drop_last());
        let p = steps.last();
        match spec_single_opt(sv.edges[p.0 as int].2, main.name@) {
            Some(o) => match spec_check_one_to_many(rels, step_alias(sv, main, p)->0, o) {
                Some(Some((k, v))) => prev.push((k@, v)),
                _ => prev,
            },
            None => prev,
        }
    }
}

/// The aliases of the to-one relationships of the main type, in the order of the edges.
pub open spec fn extract_aliases(
    sv: StoreView,
    main: CibouletteResourceType,
    steps: Seq<(usize, usize)>,
) -> Seq<Seq<char>>
    decreases steps.len(),
{
    if steps.len() == 0 {
        Seq::empty()
    } else {
        let prev = extract_aliases(sv, main, steps.drop_last());
        let p = steps.last();
        if spec_single_opt(sv.edges[p.0 as int].2, main.name@) is Some {
            prev.push(step_alias(sv, main, p)->0)
        } else {
            prev
        }
    }
}

/// The views of a list of strings.
pub open spec fn string_views(v: Seq<String>) -> Seq<Seq<char>> {
    v.map_values(|s: String| s@)
}

/// The edges that leave the first type named `name`, none when there is no such type.
pub open spec fn main_steps(sv: StoreView, name: Seq<char>) -> Seq<(usize, usize)> {
    match spec_find_type(sv.nodes, name) {
        Some(i) => spec_outgoing(sv.edges, i as usize),
        None => Seq::empty(),
    }
}

/// What the main resource of a request gives to its query: the column assignments of its
/// attributes and to-one relationships, and the aliases of its to-one relationships.
pub struct Ciboulette2PostgresMainResourceInformations {
    pub insert_values: Vec<(String, Ciboulette2SqlValue)>,
    pub single_relationships: Vec<String>,
}

/// Whether the main resource of a request can be turned into column assignments.
pub open spec fn extract_ok(
    sv: StoreView,
    main: CibouletteResourceType,
    attributes: Option<AttributeObject>,
    rels: Seq<(String, CibouletteOptionalData)>,
    fails_on_many: bool,
) -> bool {
    &&& spec_find_type(sv.nodes, main.name@) is Some
    &&& forall|k: int|
        0 <= k < main_steps(sv, main.name@).len() ==> extract_step_ok(
            sv,
            main,
            rels,
            fails_on_many,
            #[trigger] main_steps(sv, main.name@)[k],
        )
}

/// Whether `e` says why the main resource of a request cannot be turned into column
/// assignments: its type is unknown, an attribute cannot be stored, or, for the first edge
/// that cannot be handled, why.
pub open spec fn is_extract_error(
    e: Ciboulette2SqlError,
    sv: StoreView,
    main: CibouletteResourceType,
    attributes: Option<AttributeObject>,
    rels: Seq<(String, CibouletteOptionalData)>,
    fails_on_many: bool,
) -> bool {
    let steps = main_steps(sv, main.name@);
    if spec_find_type(sv.nodes, main.name@) is None {
        e matches Ciboulette2SqlError::UnknownType(n) && n@ == main.name@
    } else {
        exists|k: int|
            0 <= k < steps.len() && !extract_step_ok(sv, main, rels, fails_on_many, #[trigger] steps[k])
                && (forall|j: int| 0 <= j < k ==> extract_step_ok(sv, main, rels, fails_on_many, #[trigger] steps[j]))
                && is_extract_step_error(e, sv, main, rels, steps[k])
    }
}

/// Turns the main resource of a request into column assignments: its attributes, then, for
/// each relationship that leaves its type (the most recently added first), the key column
/// of each to-one relationship as `check_one_to_many_relationships` gives it; the aliases of
/// the to-one relationships are listed too. When `fails_on_many`, a document that writes
/// another relationship is refused.
pub fn extract_fields_and_values(
    store: &CibouletteStore,
    main_type: &CibouletteResourceType,
    attributes: &Option<AttributeObject>,
    relationships: &Vec<(String, CibouletteOptionalData)>,
    fails_on_many: bool,
) -> (res: Result<Ciboulette2PostgresMainResourceInformations, Ciboulette2SqlError>)
    ensures
        res is Ok <==> extract_ok(store@, *main_type, *attributes, relationships@, fails_on_many),
        res matches Ok(r) ==> arg_views(r.insert_values@) == optional_attribute_args(*attributes)
            + extract_values(store@, *main_type, relationships@, main_steps(store@, main_type.name@))
            && string_views(r.single_relationships@) == extract_aliases(
            store@,
            *main_type,
            main_steps(store@, main_type.name@),
        ),
        res matches Err(e) ==> is_extract_error(
            e,
            store@,
            *main_type,
            *attributes,
            relationships@,
            fails_on_many,
        ),
{
    let mut res_val: Vec<(String, Ciboulette2SqlValue)> = Vec::new();
    let mut res_rel: Vec<String> = Vec::new();
    let main_type_index = match store.get_type_index(main_type.name.as_str()) {
        Some(i) => i,
        None => {
            return Err(Ciboulette2SqlError::UnknownType(main_type.name.clone()));
        },
    };
    proof {
        lemma_find_type_bounds(store@.nodes, main_type.name@);
    }
    fill_attributes(&mut res_val, attributes)?;
    store.wf();
    let walker = store.outgoing(main_type_index);
    let ghost steps = main_steps(store@, main_type.name@);
    proof {
        assert(walker@ == steps);
        lemma_outgoing_bounds(store@.edges, main_type_index, store@.nodes.len());
    }
    let mut i: usize = 0;
    while i < walker.len()
        invariant
            walker@ == steps,
            steps == main_steps(store@, main_type.name@),
            spec_find_type(store@.nodes, main_type.name@) is Some,
            forall|k: int|
                0 <= k < walker@.len() ==> {
                    let p = #[trigger] walker@[k];
                    &&& p.0 < store@.edges.len()
                    &&& p.1 < store@.nodes.len()
                },
            i <= walker@.len(),
            forall|j: int|
                0 <= j < i ==> extract_step_ok(store@, *main_type, relationships@, fails_on_many, #[trigger] steps[j]),
            arg_views(res_val@) == optional_attribute_args(*attributes) + extract_values(
                store@,
                *main_type,
                relationships@,
                steps.take(i as int),
            ),
            string_views(res_rel@) == extract_aliases(store@, *main_type, steps.take(i as int)),
        decreases walker@.len() - i,
    {
        let (edge_index, node_index) = walker[i];
        proof {
            assert(steps.take(i + 1).drop_last() =~= steps.take(i as int));
            assert(steps.take(i + 1).last() == steps[i as int]);
            lemma_find_key_bounds(main_type.relationships_type_to_alias@, store@.nodes[node_index as int].name@);
        }
        let node_weight = store.node(node_index);
        let alias = match main_type.get_alias(node_weight.name.as_str()) {
            Ok(a) => a,
            Err(e) => {
                proof {
                    assert(!extract_step_ok(store@, *main_type, relationships@, fails_on_many, steps[i as int]));
                    assert(is_extract_step_error(e, store@, *main_type, relationships@, steps[i as int]));
                }
                return Err(e);
            },
        };
        match single_opt(store.edge(edge_index), main_type.name.as_str()) {
            Some(opt) => {
                match check_one_to_many_relationships(relationships, main_type, node_weight, alias.as_str(), opt) {
                    Err(e) => {
                        proof {
                            assert(!extract_step_ok(store@, *main_type, relationships@, fails_on_many, steps[i as int]));
                            assert(is_extract_step_error(e, store@, *main_type, relationships@, steps[i as int]));
                        }
                        return Err(e);
                    },
                    Ok(Some((key, value))) => {
                        let ghost prev = res_val@;
                        res_val.push((key.clone(), value));
                        proof {
                            assert(arg_views(res_val@) =~= arg_views(prev).push((key@, value)));
                        }
                    },
                    Ok(None) => {},
                }
                let ghost prev_rel = res_rel@;
                res_rel.push(alias.clone());
                proof {
                    assert(string_views(res_rel@) =~= string_views(prev_rel).push(alias@));
                }
            },
            None => {
                if fails_on_many && find_key(relationships, alias.as_str()).is_some() {
                    proof {
                        assert(!extract_step_ok(store@, *main_type, relationships@, fails_on_many, steps[i as int]));
                    }
                    return Err(Ciboulette2SqlError::UpdatingManyRelationships);
                }
            },
        }
        proof {
            assert(extract_step_ok(store@, *main_type, relationships@, fails_on_many, steps[i as int]));
            assert(arg_views(res_val@) =~= optional_attribute_args(*attributes) + extract_values(
                store@,
                *main_type,
                relationships@,
                steps.take(i + 1),
            ));
        }
        i = i + 1;
    }
    proof {
        assert(steps.take(i as int) =~= steps);
    }
    Ok(Ciboulette2PostgresMainResourceInformations { insert_values: res_val, single_relationships: res_rel })
}

/// Whether an edge that leaves the main type is a many-to-one relationship whose related
/// type has no alias.
pub open spec fn single_rel_step_ok(sv: StoreView, main: CibouletteResourceType, p: (usize, usize)) -> bool {
    sv.edges[p.0 as int].2 is ManyToOne ==> step_alias(sv, main, p) is Some
}

/// The aliases of the many-to-one relationships that leave the main type, in the order of
/// the edges.
pub open spec fn single_rel_aliases(sv: StoreView, main: CibouletteResourceType, steps: Seq<(usize, usize)>) -> Seq<Seq<char>>
    decreases steps.len(),
{
    if steps.len() == 0 {
        Seq::empty()
    } else {
        let prev = single_rel_aliases(sv, main, steps.drop_last());
        if sv.edges[steps.last().0 as int].2 is ManyToOne {
            prev.push(step_alias(sv, main, steps.last())->0)
        } else {
            prev
        }
    }
}

/// The aliases of the many-to-one relationships that leave the type `main_type`, the most
/// recently added first.
pub fn get_resource_single_rel(
    store: &CibouletteStore,
    main_type: &CibouletteResourceType,
) -> (res: Result<Vec<String>, Ciboulette2SqlError>)
    ensures
        res is Ok <==> spec_find_type(store@.nodes, main_type.name@) is Some && forall|k: int|
            0 <= k < main_steps(store@, main_type.name@).len() ==> single_rel_step_ok(
                store@,
                *main_type,
                #[trigger] main_steps(store@, main_type.name@)[k],
            ),
        res matches Ok(r) ==> string_views(r@) == single_rel_aliases(store@, *main_type, main_steps(store@, main_type.name@)),
        res matches Err(e) ==> if spec_find_type(store@.nodes, main_type.name@) is None {
            e matches Ciboulette2SqlError::UnknownType(n) && n@ == main_type.name@
        } else {
            exists|k: int|
                0 <= k < main_steps(store@, main_type.name@).len() && !single_rel_step_ok(
                    store@,
                    *main_type,
                    #[trigger] main_steps(store@, main_type.name@)[k],
                ) && (forall|j: int| 0 <= j < k ==> single_rel_step_ok(store@, *main_type, #[trigger] main_steps(store@, main_type.name@)[j]))
                    && (e matches Ciboulette2SqlError::MissingAliasTranslation(a, b) && a@ == main_type.name@
                    && b@ == store@.nodes[main_steps(store@, main_type.name@)[k].1 as int].name@)
        },
{
    let mut res: Vec<String> = Vec::new();
    let main_type_index = match store.get_type_index(main_type.name.as_str()) {
        Some(i) => i,
        None => {
            return Err(Ciboulette2SqlError::UnknownType(main_type.name.clone()));
        },
    };
    proof {
        lemma_find_type_bounds(store@.nodes, main_type.name@);
    }
    store.wf();
    let walker = store.outgoing(main_type_index);
    let ghost steps = main_steps(store@, main_type.name@);
    proof {
        lemma_outgoing_bounds(store@.edges, main_type_index, store@.nodes.len());
    }
    let mut i: usize = 0;
    while i < walker.len()
        invariant
            walker@ == steps,
            steps == main_steps(store@, main_type.name@),
            forall|k: int|
                0 <= k < walker@.len() ==> {
                    let p = #[trigger] walker@[k];
                    &&& p.0 < store@.edges.len()
                    &&& p.1 < store@.nodes.len()
                },
            i <= walker@.len(),
            forall|j: int| 0 <= j < i ==> single_rel_step_ok(store@, *main_type, #[trigger] steps[j]),
            string_views(res@) == single_rel_aliases(store@, *main_type, steps.take(i as int)),
        decreases walker@.len() - i,
    {
        let (edge_index, node_index) = walker[i];
        proof {
            assert(steps.take(i + 1).drop_last() =~= steps.take(i as int));
            assert(steps.take(i + 1).last() == steps[i as int]);
            lemma_find_key_bounds(main_type.relationships_type_to_alias@, store@.nodes[node_index as int].name@);
        }
        let node_weight = store.node(node_index);
        match store.edge(edge_index) {
            CibouletteRelationshipOption::ManyToOne(_) => {
                let alias = match main_type.get_alias(node_weight.name.as_str()) {
                    Ok(a) => a,
                    Err(e) => {
                        proof {
                            assert(!single_rel_step_ok(store@, *main_type, steps[i as int]));
                        }
                        return Err(e);
                    },
                };
                let ghost prev = res@;
                res.push(alias.clone());
                proof {
                    assert(string_views(res@) =~= string_views(prev).push(alias@));
                }
            },
            _ => {},
        }
        i = i + 1;
    }
    proof {
        assert(steps.take(i as int) =~= steps);
    }
    Ok(res)
}

/// The to-one relationships of the main type: each related type with the column of the main
/// table that holds its identifier, in the order of the edges.
pub open spec fn rel_singles<'a>(
    sv: StoreView,
    main: CibouletteResourceType,
    steps: Seq<(usize, usize)>,
) -> Seq<Ciboulette2PostgresResourceSingleRelationships<'a>>
    decreases steps.len(),
{
    if steps.len() == 0 {
        Seq::empty()
    } else {
        let prev = rel_singles(sv, main, steps.drop_last());
        let p = steps.last();
        match spec_single_opt(sv.edges[p.0 as int].2, main.name@) {
            Some(o) => prev.push(
                Ciboulette2PostgresResourceSingleRelationships {
                    type_: &sv.nodes[p.1 as int],
                    key: o.many_table_key,
                },
            ),
            None => prev,
        }
    }
}

/// The to-many relationship of an edge that leaves the main type, if it is one: a
/// one-to-many relationship from the main type, or a many-to-many relationship.
pub open spec fn spec_multi_opt(
    w: CibouletteRelationshipOption,
    main_name: Seq<char>,
) -> Option<Ciboulette2PostgresMultiRelationshipsType> {
    if spec_single_opt(w, main_name) is Some {
        None
    } else {
        match w {
            CibouletteRelationshipOption::OneToMany(o) => Some(Ciboulette2PostgresMultiRelationshipsType::OneToMany(o)),
            CibouletteRelationshipOption::ManyToMany(o) => Some(Ciboulette2PostgresMultiRelationshipsType::ManyToMany(o)),
            CibouletteRelationshipOption::ManyToOne(_) => None,
        }
    }
}

/// The alias under which the type of a node appears in documents of `main`.
pub open spec fn step_alias_string(sv: StoreView, main: CibouletteResourceType, p: (usize, usize)) -> String {
    main.relationships_type_to_alias@[spec_find_key(main.relationships_type_to_alias@, sv.nodes[p.1 as int].name@)->0].1
}

/// The to-many relationships of the main type, as an ordered map by alias: each edge, in
/// order, binds the alias of its related type.
pub open spec fn rel_multis<'a>(
    sv: StoreView,
    main: CibouletteResourceType,
    steps: Seq<(usize, usize)>,
) -> Seq<(String, Ciboulette2PostgresMultiRelationships<'a>)>
    decreases steps.len(),
{
    if steps.len() == 0 {
        Seq::empty()
    } else {
        let prev = rel_multis(sv, main, steps.drop_last());
        let p = steps.last();
        match spec_multi_opt(sv.edges[p.0 as int].2, main.name@) {
            Some(m) => ordered_insert(
                prev,
                step_alias_string(sv, main, p),
                Ciboulette2PostgresMultiRelationships { type_: &sv.nodes[p.1 as int], rel_opt: m },
            ),
            None => prev,
        }
    }
}

/// Whether an edge that leaves the main type can be listed: a to-many relationship needs
/// the alias of its related type, by which it is keyed.
pub open spec fn multi_step_ok(sv: StoreView, main: CibouletteResourceType, p: (usize, usize)) -> bool {
    spec_multi_opt(sv.edges[p.0 as int].2, main.name@) is Some ==> step_alias(sv, main, p) is Some
}

/// The relationships of a resource type: the to-one ones in the order of the edges, and the
/// to-many ones as an ordered map by alias.
pub struct Ciboulette2SqlQueryRels<'a> {
    pub single_rels: Vec<Ciboulette2PostgresResourceSingleRelationships<'a>>,
    pub multi_rels: Vec<(String, Ciboulette2PostgresMultiRelationships<'a>)>,
}

/// The relationships that leave the first type named like `main_type`, split into to-one
/// ones, the most recently added first, and to-many ones, by ascending alias (of two
/// relationships of one alias, the one added first stays).
pub fn get_relationships<'a>(
    store: &'a CibouletteStore,
    main_type: &CibouletteResourceType,
) -> (res: Result<Ciboulette2SqlQueryRels<'a>, Ciboulette2SqlError>)
    ensures
        res is Ok <==> spec_find_type(store@.nodes, main_type.name@) is Some && forall|k: int|
            0 <= k < main_steps(store@, main_type.name@).len() ==> multi_step_ok(
                store@,
                *main_type,
                #[trigger] main_steps(store@, main_type.name@)[k],
            ),
        res matches Ok(r) ==> r.single_rels@ == rel_singles(store@, *main_type, main_steps(store@, main_type.name@))
            && r.multi_rels@ == rel_multis(store@, *main_type, main_steps(store@, main_type.name@))
            && keys_ordered(r.multi_rels@),
        res matches Err(e) ==> if spec_find_type(store@.nodes, main_type.name@) is None {
            e matches Ciboulette2SqlError::UnknownType(n) && n@ == main_type.name@
        } else {
            exists|k: int|
                0 <= k < main_steps(store@, main_type.name@).len() && !multi_step_ok(
                    store@,
                    *main_type,
                    #[trigger] main_steps(store@, main_type.name@)[k],
                ) && (forall|j: int|
                    0 <= j < k ==> multi_step_ok(store@, *main_type, #[trigger] main_steps(store@, main_type.name@)[j]))
                    && (e matches Ciboulette2SqlError::MissingAliasTranslation(a, b) && a@ == main_type.name@
                    && b@ == store@.nodes[main_steps(store@, main_type.name@)[k].1 as int].name@)
        },
{
    let mut single_rels: Vec<Ciboulette2PostgresResourceSingleRelationships<'a>> = Vec::new();
    let mut multi_rels: Vec<(String, Ciboulette2PostgresMultiRelationships<'a>)> = Vec::new();
    let main_type_index = match store.get_type_index(main_type.name.as_str()) {
        Some(i) => i,
        None => {
            return Err(Ciboulette2SqlError::UnknownType(main_type.name.clone()));
        },
    };
    proof {
        lemma_find_type_bounds(store@.nodes, main_type.name@);
    }
    store.wf();
    let walker = store.outgoing(main_type_index);
    let ghost steps = main_steps(store@, main_type.name@);
    proof {
        lemma_outgoing_bounds(store@.edges, main_type_index, store@.nodes.len());
    }
    let mut i: usize = 0;
    while i < walker.len()
        invariant
            walker@ == steps,
            steps == main_steps(store@, main_type.name@),
            forall|k: int|
                0 <= k < walker@.len() ==> {
                    let p = #[trigger] walker@[k];
                    &&& p.0 < store@.edges.len()
                    &&& p.1 < store@.nodes.len()
                },
            i <= walker@.len(),
            forall|j: int| 0 <= j < i ==> multi_step_ok(store@, *main_type, #[trigger] steps[j]),
            single_rels@ == rel_singles(store@, *main_type, steps.take(i as int)),
            multi_rels@ == rel_multis(store@, *main_type, steps.take(i as int)),
            keys_ordered(multi_rels@),
        decreases walker@.len() - i,
    {
        let (edge_index, node_index) = walker[i];
        proof {
            assert(steps.take(i + 1).drop_last() =~= steps.take(i as int));
            assert(steps.take(i + 1).last() == steps[i as int]);
            lemma_find_key_bounds(main_type.relationships_type_to_alias@, store@.nodes[node_index as int].name@);
        }
        let node_weight = store.node(node_index);
        let edge_weight = store.edge(edge_index);
        match single_opt(edge_weight, main_type.name.as_str()) {
            Some(opt) => {
                single_rels.push(
                    Ciboulette2PostgresResourceSingleRelationships { type_: node_weight, key: opt.many_table_key.clone() },
                );
            },
            None => {
                let rel_opt = match edge_weight {
                    CibouletteRelationshipOption::OneToMany(opt) => {
                        Some(Ciboulette2PostgresMultiRelationshipsType::OneToMany(opt.duplicate()))
                    },
                    CibouletteRelationshipOption::ManyToMany(opt) => {
                        Some(Ciboulette2PostgresMultiRelationshipsType::ManyToMany(opt.duplicate()))
                    },
                    CibouletteRelationshipOption::ManyToOne(_) => None,
                };
                match rel_opt {
                    Some(m) => {
                        let alias = match main_type.get_alias(node_weight.name.as_str()) {
                            Ok(a) => a,
                            Err(e) => {
                                proof {
                                    assert(!multi_step_ok(store@, *main_type, steps[i as int]));
                                }
                                return Err(e);
                            },
                        };
                        ordered_insert_exec(
                            &mut multi_rels,
                            alias.clone(),
                            Ciboulette2PostgresMultiRelationships { type_: node_weight, rel_opt: m },
                        );
                    },
                    None => {},
                }
            },
        }
        i = i + 1;
    }
    proof {
        assert(steps.take(i as int) =~= steps);
    }
    Ok(Ciboulette2SqlQueryRels { single_rels, multi_rels })
}

/// Whether a many-to-many edge that leaves the main type can be followed: its bucket type is
/// registered, and the bucket has a column for the related type and one for the main type.
pub open spec fn bucket_step_ok(sv: StoreView, main: CibouletteResourceType, p: (usize, usize)) -> bool {
    match sv.edges[p.0 as int].2 {
        CibouletteRelationshipOption::ManyToMany(o) => {
            &&& spec_find_type(sv.nodes, o.bucket_resource@) is Some
            &&& spec_dest_key(o, sv.nodes[p.1 as int].name@) is Some
            &&& spec_dest_key(o, main.name@) is Some
        },
        _ => true,
    }
}

/// Whether `e` says why a many-to-many edge that leaves the main type cannot be followed.
pub open spec fn is_bucket_step_error(
    e: Ciboulette2SqlError,
    sv: StoreView,
    main: CibouletteResourceType,
    p: (usize, usize),
) -> bool {
    match sv.edges[p.0 as int].2 {
        CibouletteRelationshipOption::ManyToMany(o) => {
            if spec_find_type(sv.nodes, o.bucket_resource@) is None {
                e matches Ciboulette2SqlError::UnknownType(n) && n@ == o.bucket_resource@
            } else if spec_dest_key(o, sv.nodes[p.1 as int].name@) is None {
                e matches Ciboulette2SqlError::UnknownRelationship(a, b) && a@ == o.bucket_resource@
                    && b@ == sv.nodes[p.1 as int].name@
            } else {
                e matches Ciboulette2SqlError::UnknownRelationship(a, b) && a@ == o.bucket_resource@
                    && b@ == main.name@
            }
        },
        _ => false,
    }
}

/// The many-to-many relationships of the main type with their buckets, in the order of the
/// edges.
pub open spec fn rel_buckets<'a>(
    sv: StoreView,
    main: CibouletteResourceType,
    steps: Seq<(usize, usize)>,
) -> Seq<Ciboulette2PostgresRelationships<'a>>
    decreases steps.len(),
{
    if steps.len() == 0 {
        Seq::empty()
    } else {
        let prev = rel_buckets(sv, main, steps.drop_last());
        let p = steps.last();
        match sv.edges[p.0 as int].2 {
            CibouletteRelationshipOption::ManyToMany(o) => prev.push(
                Ciboulette2PostgresRelationships {
                    type_: &sv.nodes[p.1 as int],
                    bucket: CibouletteRelationshipBucket {
                        resource: &sv.nodes[spec_find_type(sv.nodes, o.bucket_resource@)->0],
                        from: spec_dest_key(o, sv.nodes[p.1 as int].name@)->0,
                        to: spec_dest_key(o, main.name@)->0,
                    },
                },
            ),
            _ => prev,
        }
    }
}

/// Whether the bucket of `opt` declares the column `col` for identifiers of the type `t`.
pub open spec fn bucket_declares(opt: CibouletteRelationshipManyToManyOption, t: Seq<char>, col: String) -> bool {
    ||| (opt.keys.0.0@ == t && opt.keys.0.1 == col)
    ||| (opt.keys.1.0@ == t && opt.keys.1.1 == col)
}

/// Whether the many-to-many relationship `r` is what the edge of the step `p` gives: the type
/// the edge reaches, with `to` a bucket column declared for the main type and `from` one
/// declared for the related type.
pub open spec fn rel_from_step(
    sv: StoreView,
    main: CibouletteResourceType,
    p: (usize, usize),
    r: Ciboulette2PostgresRelationships,
) -> bool {
    match sv.edges[p.0 as int].2 {
        CibouletteRelationshipOption::ManyToMany(o) => {
            &&& *r.type_ == sv.nodes[p.1 as int]
            &&& bucket_declares(o, main.name@, r.bucket.to)
            &&& bucket_declares(o, r.type_.name@, r.bucket.from)
        },
        _ => false,
    }
}

/// Each many-to-many relationship of the main type comes from one of its many-to-many
/// edges: the relationship at `j` is what the edge of some step `k` gives, to the type that
/// edge reaches, with `to` a bucket column declared for the main type and `from` one
/// declared for the related type, whatever the order in which the two are declared.
pub proof fn lemma_rel_bucket_step<'a>(sv: StoreView, main: CibouletteResourceType, steps: Seq<(usize, usize)>, j: int) -> (k: int)
    requires
        forall|k: int| 0 <= k < steps.len() ==> bucket_step_ok(sv, main, #[trigger] steps[k]),
        0 <= j < rel_buckets::<'a>(sv, main, steps).len(),
    ensures
        0 <= k < steps.len(),
        rel_from_step(sv, main, steps[k], rel_buckets::<'a>(sv, main, steps)[j]),
    decreases steps.len(),
{
    let prev = steps.drop_last();
    let r = rel_buckets::<'a>(sv, main, steps);
    let rp = rel_buckets::<'a>(sv, main, prev);
    let last: int = steps.len() - 1;
    assert(steps[last] == steps.last());
    assert(bucket_step_ok(sv, main, steps[last]));
    match sv.edges[steps[last].0 as int].2 {
        CibouletteRelationshipOption::ManyToMany(_) => {
            assert(r == rp.push(r[r.len() - 1]));
        },
        _ => {
            assert(r == rp);
        },
    }
    if j < rp.len() {
        assert forall|k: int| 0 <= k < prev.len() implies bucket_step_ok(sv, main, #[trigger] prev[k]) by {
            assert(prev[k] == steps[k]);
        }
        let k = lemma_rel_bucket_step(sv, main, prev, j);
        assert(prev[k] == steps[k]);
        assert(r[j] == rp[j]);
        k
    } else {
        last
    }
}

/// The many-to-many relationships that leave the first type named like `main_type`, the
/// most recently added first, each with its bucket type and the bucket columns that hold
/// identifiers of the related type (`from`) and of the main type (`to`).
pub fn get_many_to_many_relationships<'a>(
    store: &'a CibouletteStore,
    main_type: &CibouletteResourceType,
) -> (res: Result<Vec<Ciboulette2PostgresRelationships<'a>>, Ciboulette2SqlError>)
    ensures
        res is Ok <==> spec_find_type(store@.nodes, main_type.name@) is Some && forall|k: int|
            0 <= k < main_steps(store@, main_type.name@).len() ==> bucket_step_ok(
                store@,
                *main_type,
                #[trigger] main_steps(store@, main_type.name@)[k],
            ),
        res matches Ok(r) ==> r@ == rel_buckets(store@, *main_type, main_steps(store@, main_type.name@)),
        res matches Err(e) ==> if spec_find_type(store@.nodes, main_type.name@) is None {
            e matches Ciboulette2SqlError::UnknownType(n) && n@ == main_type.name@
        } else {
            exists|k: int|
                0 <= k < main_steps(store@, main_type.name@).len() && !bucket_step_ok(
                    store@,
                    *main_type,
                    #[trigger] main_steps(store@, main_type.name@)[k],
                ) && (forall|j: int|
                    0 <= j < k ==> bucket_step_ok(store@, *main_type, #[trigger] main_steps(store@, main_type.name@)[j]))
                    && is_bucket_step_error(e, store@, *main_type, main_steps(store@, main_type.name@)[k])
        },
{
    let mut res: Vec<Ciboulette2PostgresRelationships<'a>> = Vec::new();
    let main_type_index = match store.get_type_index(main_type.name.as_str()) {
        Some(i) => i,
        None => {
            return Err(Ciboulette2SqlError::UnknownType(main_type.name.clone()));
        },
    };
    proof {
        lemma_find_type_bounds(store@.nodes, main_type.name@);
    }
    store.wf();
    let walker = store.outgoing(main_type_index);
    let ghost steps = main_steps(store@, main_type.name@);
    proof {
        lemma_outgoing_bounds(store@.edges, main_type_index, store@.nodes.len());
    }
    let mut i: usize = 0;
    while i < walker.len()
        invariant
            walker@ == steps,
            steps == main_steps(store@, main_type.name@),
            forall|k: int|
                0 <= k < walker@.len() ==> {
                    let p = #[trigger] walker@[k];
                    &&& p.0 < store@.edges.len()
                    &&& p.1 < store@.nodes.len()
                },
            i <= walker@.len(),
            forall|j: int| 0 <= j < i ==> bucket_step_ok(store@, *main_type, #[trigger] steps[j]),
            res@ == rel_buckets(store@, *main_type, steps.take(i as int)),
        decreases walker@.len() - i,
    {
        let (edge_index, node_index) = walker[i];
        proof {
            assert(steps.take(i + 1).drop_last() =~= steps.take(i as int));
            assert(steps.take(i + 1).last() == steps[i as int]);
        }
        let node_weight = store.node(node_index);
        match store.edge(edge_index) {
            CibouletteRelationshipOption::ManyToMany(opt) => {
                let bucket_type = match store.get_type(opt.bucket_resource.as_str()) {
                    Ok(t) => t,
                    Err(e) => {
                        proof {
                            assert(!bucket_step_ok(store@, *main_type, steps[i as int]));
                        }
                        return Err(e);
                    },
                };
                let from = match opt.dest_key(node_weight.name.as_str()) {
                    Ok(k) => k,
                    Err(e) => {
                        proof {
                            assert(!bucket_step_ok(store@, *main_type, steps[i as int]));
                        }
                        return Err(e);
                    },
                };
                let to = match opt.dest_key(main_type.name.as_str()) {
                    Ok(k) => k,
                    Err(e) => {
                        proof {
                            assert(!bucket_step_ok(store@, *main_type, steps[i as int]));
                        }
                        return Err(e);
                    },
                };
                res.push(
                    Ciboulette2PostgresRelationships {
                        type_: node_weight,
                        bucket: CibouletteRelationshipBucket { resource: bucket_type, from: from.clone(), to: to.clone() },
                    },
                );
            },
            _ => {},
        }
        i = i + 1;
    }
    proof {
        assert(steps.take(i as int) =~= steps);
    }
    Ok(res)
}

/// Whether an edge that leaves the main type is the relationship that documents of `main`
/// name `alias`.
pub open spec fn rel_step_matches(sv: StoreView, main: CibouletteResourceType, alias: Seq<char>, p: (usize, usize)) -> bool {
    step_alias(sv, main, p) == Some(alias)
}

/// Whether an edge that leaves the main type can take the relationship update `rel`: the
/// edge of another relationship always can; the named one must be a to-one relationship
/// whose new linkage passes `check_linkage`.
pub open spec fn rel_step_ok(
    sv: StoreView,
    main: CibouletteResourceType,
    rel: CibouletteUpdateRelationship,
    p: (usize, usize),
) -> bool {
    rel_step_matches(sv, main, rel.type_@, p) ==> match spec_single_opt(sv.edges[p.0 as int].2, main.name@) {
        Some(o) => spec_check_linkage(rel.value, o) is Some,
        None => false,
    }
}

/// Whether `e` says why the edge of the named relationship cannot take the update `rel`.
pub open spec fn is_rel_step_error(
    e: Ciboulette2SqlError,
    sv: StoreView,
    main: CibouletteResourceType,
    rel: CibouletteUpdateRelationship,
    p: (usize, usize),
) -> bool {
    match spec_single_opt(sv.edges[p.0 as int].2, main.name@) {
        Some(o) => is_linkage_error(e, rel.value, main.name@, sv.nodes[p.1 as int].name@),
        None => e is UpdatingManyRelationships,
    }
}

/// The key assignments that the relationship update `rel` gives, in the order of the edges.
pub open spec fn rel_update_values(
    sv: StoreView,
    main: CibouletteResourceType,
    rel: CibouletteUpdateRelationship,
    steps: Seq<(usize, usize)>,
) -> Seq<(Seq<char>, Ciboulette2SqlValue)>
    decreases steps.len(),
{
    if steps.len() == 0 {
        Seq::empty()
    } else {
        let prev = rel_update_values(sv, main, rel, steps.drop_last());
        let p = steps.last();
        if rel_step_matches(sv, main, rel.type_@, p) {
            match spec_single_opt(sv.edges[p.0 as int].2, main.name@) {
                Some(o) => match spec_check_linkage(rel.value, o) {
                    Some(Some((k, v))) => prev.push((k@, v)),
                    _ => prev,
                },
                None => prev,
            }
        } else {
            prev
        }
    }
}

/// The to-one relationships of the main type that documents name `alias`, in the order of
/// the edges.
pub open spec fn rel_update_singles<'a>(
    sv: StoreView,
    main: CibouletteResourceType,
    alias: Seq<char>,
    steps: Seq<(usize, usize)>,
) -> Seq<Ciboulette2PostgresResourceSingleRelationships<'a>>
    decreases steps.len(),
{
    if steps.len() == 0 {
        Seq::empty()
    } else {
        let prev = rel_update_singles(sv, main, alias, steps.drop_last());
        let p = steps.last();
        if rel_step_matches(sv, main, alias, p) {
            match spec_single_opt(sv.edges[p.0 as int].2, main.name@) {
                Some(o) => prev.push(
                    Ciboulette2PostgresResourceSingleRelationships {
                        type_: &sv.nodes[p.1 as int],
                        key: o.many_table_key,
                    },
                ),
                None => prev,
            }
        } else {
            prev
        }
    }
}

/// Whether the relationship update `rel` of a resource of type `main` can be turned into
/// column assignments: the type is registered, some relationship of the type has the alias
/// that the update names, and each such relationship can take the update.
pub open spec fn extract_rel_ok(sv: StoreView, main: CibouletteResourceType, rel: CibouletteUpdateRelationship) -> bool {
    let steps = main_steps(sv, main.name@);
    &&& spec_find_type(sv.nodes, main.name@) is Some
    &&& forall|k: int| 0 <= k < steps.len() ==> rel_step_ok(sv, main, rel, #[trigger] steps[k])
    &&& exists|k: int| 0 <= k < steps.len() && rel_step_matches(sv, main, rel.type_@, #[trigger] steps[k])
}

/// Whether `e` says why the relationship update `rel` cannot be turned into column
/// assignments: the type is unknown; or, for the first edge that cannot take the update,
/// why; or no relationship has the alias that the update names.
pub open spec fn is_extract_rel_error(
    e: Ciboulette2SqlError,
    sv: StoreView,
    main: CibouletteResourceType,
    rel: CibouletteUpdateRelationship,
) -> bool {
    let steps = main_steps(sv, main.name@);
    if spec_find_type(sv.nodes, main.name@) is None {
        e matches Ciboulette2SqlError::UnknownType(n) && n@ == main.name@
    } else if exists|k: int| 0 <= k < steps.len() && !rel_step_ok(sv, main, rel, #[trigger] steps[k]) {
        exists|k: int|
            0 <= k < steps.len() && !rel_step_ok(sv, main, rel, #[trigger] steps[k]) && (forall|j: int|
                0 <= j < k ==> rel_step_ok(sv, main, rel, #[trigger] steps[j])) && is_rel_step_error(
                e,
                sv,
                main,
                rel,
                steps[k],
            )
    } else {
        e matches Ciboulette2SqlError::UnknownRelationship(a, b) && a@ == main.name@ && b@ == rel.type_@
    }
}

/// Turns the update of one relationship of a resource into column assignments: for each
/// relationship of the type with the alias that the update names (the most recently added
/// first), the assignment of its key column as `check_linkage` gives it; the relationship
/// must be a to-one relationship. The to-one relationships so named are given too.
pub fn extract_fields_rel<'a>(
    store: &'a CibouletteStore,
    main_type: &CibouletteResourceType,
    rel: &CibouletteUpdateRelationship,
) -> (res: Result<
    (Vec<(String, Ciboulette2SqlValue)>, Vec<Ciboulette2PostgresResourceSingleRelationships<'a>>),
    Ciboulette2SqlError,
>)
    ensures
        res is Ok <==> extract_rel_ok(store@, *main_type, *rel),
        res matches Ok(r) ==> arg_views(r.0@) == rel_update_values(
            store@,
            *main_type,
            *rel,
            main_steps(store@, main_type.name@),
        ) && r.1@ == rel_update_singles(store@, *main_type, rel.type_@, main_steps(store@, main_type.name@)),
        res matches Err(e) ==> is_extract_rel_error(e, store@, *main_type, *rel),
{
    let mut values: Vec<(String, Ciboulette2SqlValue)> = Vec::new();
    let mut singles: Vec<Ciboulette2PostgresResourceSingleRelationships<'a>> = Vec::new();
    let main_type_index = match store.get_type_index(main_type.name.as_str()) {
        Some(i) => i,
        None => {
            return Err(Ciboulette2SqlError::UnknownType(main_type.name.clone()));
        },
    };
    proof {
        lemma_find_type_bounds(store@.nodes, main_type.name@);
    }
    store.wf();
    let walker = store.outgoing(main_type_index);
    let ghost steps = main_steps(store@, main_type.name@);
    proof {
        lemma_outgoing_bounds(store@.edges, main_type_index, store@.nodes.len());
    }
    let mut found = false;
    let mut i: usize = 0;
    while i < walker.len()
        invariant
            walker@ == steps,
            steps == main_steps(store@, main_type.name@),
            spec_find_type(store@.nodes, main_type.name@) is Some,
            forall|k: int|
                0 <= k < walker@.len() ==> {
                    let p = #[trigger] walker@[k];
                    &&& p.0 < store@.edges.len()
                    &&& p.1 < store@.nodes.len()
                },
            i <= walker@.len(),
            forall|j: int| 0 <= j < i ==> rel_step_ok(store@, *main_type, *rel, #[trigger] steps[j]),
            found == exists|j: int| 0 <= j < i && rel_step_matches(store@, *main_type, rel.type_@, #[trigger] steps[j]),
            arg_views(values@) == rel_update_values(store@, *main_type, *rel, steps.take(i as int)),
            singles@ == rel_update_singles(store@, *main_type, rel.type_@, steps.take(i as int)),
        decreases walker@.len() - i,
    {
        let (edge_index, node_index) = walker[i];
        proof {
            assert(steps.take(i + 1).drop_last() =~= steps.take(i as int));
            assert(steps.take(i + 1).last() == steps[i as int]);
            lemma_find_key_bounds(main_type.relationships_type_to_alias@, store@.nodes[node_index as int].name@);
        }
        let node_weight = store.node(node_index);
        let named = match main_type.get_alias(node_weight.name.as_str()) {
            Ok(alias) => crate::text::str_eq(alias.as_str(), rel.type_.as_str()),
            Err(_) => false,
        };
        if named {
            proof {
                assert(rel_step_matches(store@, *main_type, rel.type_@, steps[i as int]));
            }
            found = true;
            match single_opt(store.edge(edge_index), main_type.name.as_str()) {
                None => {
                    proof {
                        assert(!rel_step_ok(store@, *main_type, *rel, steps[i as int]));
                    }
                    return Err(Ciboulette2SqlError::UpdatingManyRelationships);
                },
                Some(opt) => {
                    match check_linkage(&rel.value, main_type, node_weight, opt) {
                        Err(e) => {
                            proof {
                                assert(!rel_step_ok(store@, *main_type, *rel, steps[i as int]));
                            }
                            return Err(e);
                        },
                        Ok(Some((key, value))) => {
                            let ghost prev = values@;
                            values.push((key.clone(), value));
                            proof {
                                assert(arg_views(values@) =~= arg_views(prev).push((key@, value)));
                            }
                        },
                        Ok(None) => {},
                    }
                    singles.push(
                        Ciboulette2PostgresResourceSingleRelationships { type_: node_weight, key: opt.many_table_key.clone() },
                    );
                },
            }
        } else {
            proof {
                assert(!rel_step_matches(store@, *main_type, rel.type_@, steps[i as int]));
            }
        }
        proof {
            assert(rel_step_ok(store@, *main_type, *rel, steps[i as int]));
            assert(found == exists|j: int|
                0 <= j < i + 1 && rel_step_matches(store@, *main_type, rel.type_@, #[trigger] steps[j]));
        }
        i = i + 1;
    }
    proof {
        assert(steps.take(i as int) =~= steps);
    }
    if !found {
        return Err(Ciboulette2SqlError::UnknownRelationship(main_type.name.clone(), rel.type_.clone()));
    }
    Ok((values, singles))
}

} // verus!
