use vstd::prelude::*;
use crate::builder::{
    column_text, ident_text, table_info, BuilderView, Ciboulette2PostgresBuilder,
};
use crate::error::Ciboulette2SqlError;
use crate::ident::{quoted, Ciboulette2PostgresSafeIdent};
use crate::model::{
    Ciboulette2PostgresResponseType, find_key, find_property, property_names, spec_find_key, spec_find_property,
    spec_property_names, Ciboulette2SqlValue, CibouletteQueryParameters,
    CibouletteResourceType, CibouletteSchemaProperty,
};
use crate::table::{
    additional_names, Ciboulette2PostgresTableField, Ciboulette2PostgresTableSettings,
    Ciboulette2SqlAdditionalField, TableView,
};

verus! {

/// A column of a table, by the name of the column.
pub open spec fn column_of(name: Seq<char>, t: TableView) -> Seq<char> {
    table_info(t) + seq!['.'] + quoted(name)
}

pub proof fn lemma_column_text(name: Ciboulette2PostgresSafeIdent, t: TableView)
    ensures
        column_text(name, t) == column_of(name@, t),
{
    assert(column_text(name, t) =~= column_of(name@, t));
}

/// Whether the field `f` cannot be selected from the schema `props`: it is not a property,
/// or it is a plain property whose name holds a NUL.
pub open spec fn json_field_bad(props: Seq<CibouletteSchemaProperty>, f: Seq<char>) -> bool {
    match spec_find_property(props, f) {
        None => true,
        Some(i) => !props[i].is_object && f.contains('\0'),
    }
}

/// Whether every field can be selected from the schema.
pub open spec fn json_fields_ok(props: Seq<CibouletteSchemaProperty>, fields: Seq<String>) -> bool {
    forall|j: int| 0 <= j < fields.len() ==> !json_field_bad(props, #[trigger] fields[j]@)
}

/// Whether `e` reports the first field that cannot be selected from the schema of the
/// type named `obj_name`.
pub open spec fn is_json_field_error(
    e: Ciboulette2SqlError,
    obj_name: Seq<char>,
    props: Seq<CibouletteSchemaProperty>,
    fields: Seq<String>,
) -> bool {
    exists|k: int|
        0 <= k < fields.len() && json_field_bad(props, #[trigger] fields[k]@) && (forall|j: int|
            0 <= j < k ==> !json_field_bad(props, #[trigger] fields[j]@)) && if spec_find_property(
            props,
            fields[k]@,
        ) is None {
            e matches Ciboulette2SqlError::UnknownField(a, b) && a@ == obj_name && b@ == fields[k]@
        } else {
            e matches Ciboulette2SqlError::NullCharIdent(m) && m@ == fields[k]@
        }
}

/// The index of the first field that cannot be selected from the schema.
pub open spec fn first_bad_field(props: Seq<CibouletteSchemaProperty>, fields: Seq<String>) -> int {
    choose|k: int|
        0 <= k < fields.len() && json_field_bad(props, #[trigger] fields[k]@) && forall|j: int|
            0 <= j < k ==> !json_field_bad(props, #[trigger] fields[j]@)
}

/// The first field that cannot be selected is the first one that is bad.
pub proof fn lemma_first_bad_field(props: Seq<CibouletteSchemaProperty>, fields: Seq<String>, i: int)
    requires
        0 <= i < fields.len(),
        json_field_bad(props, fields[i]@),
        forall|j: int| 0 <= j < i ==> !json_field_bad(props, #[trigger] fields[j]@),
    ensures
        first_bad_field(props, fields) == i,
{
    let k = first_bad_field(props, fields);
    if k < i {
        assert(!json_field_bad(props, fields[k]@));
    } else if k > i {
        assert(!json_field_bad(props, fields[i]@));
    }
}

/// What a JSON object of the given fields leaves written when a field cannot be selected:
/// the entries before it, and, for a plain property whose name holds a NUL, the parameter
/// of its name and the comma after it.
pub open spec fn json_err_view(
    st: BuilderView,
    table: TableView,
    props: Seq<CibouletteSchemaProperty>,
    fields: Seq<String>,
) -> BuilderView {
    let k = first_bad_field(props, fields);
    let pre = json_entries(st.write("JSON_BUILD_OBJECT("@), table, props, fields.take(k));
    let sep = if k > 0 {
        pre.write(", "@)
    } else {
        pre
    };
    if spec_find_property(props, fields[k]@) is None {
        sep
    } else {
        sep.param(Ciboulette2SqlValue::Text(Some(fields[k]))).write(", "@)
    }
}

/// One entry of a JSON object built from a row: the field name, as a parameter, and the
/// column; a nested object is not selected and stands as a JSON null.
pub open spec fn json_entry(
    st: BuilderView,
    table: TableView,
    props: Seq<CibouletteSchemaProperty>,
    f: String,
) -> BuilderView {
    if spec_find_property(props, f@) matches Some(i) && props[i].is_object {
        st.write("NULL::json "@)
    } else {
        st.param(Ciboulette2SqlValue::Text(Some(f))).write(", "@).write(column_of(f@, table))
    }
}

/// The entries of a JSON object, separated by commas.
pub open spec fn json_entries(
    st: BuilderView,
    table: TableView,
    props: Seq<CibouletteSchemaProperty>,
    fields: Seq<String>,
) -> BuilderView
    decreases fields.len(),
{
    if fields.len() == 0 {
        st
    } else {
        let prev = json_entries(st, table, props, fields.drop_last());
        json_entry(
            if fields.len() > 1 {
                prev.write(", "@)
            } else {
                prev
            },
            table,
            props,
            fields.last(),
        )
    }
}

/// A JSON object of the given fields of a row, or a JSON null when no field is asked for.
pub open spec fn json_object(
    st: BuilderView,
    table: TableView,
    props: Seq<CibouletteSchemaProperty>,
    fields: Seq<String>,
) -> BuilderView {
    if fields.len() == 0 {
        st.write("NULL::json "@)
    } else {
        json_entries(st.write("JSON_BUILD_OBJECT("@), table, props, fields).write(") "@)
    }
}

/// The fields of a resource to return: none when the type is not asked for, those of its
/// sparse fieldset when there is one, else all of its properties.
pub open spec fn spec_json_fields(
    type_: CibouletteResourceType,
    query: CibouletteQueryParameters,
    with_data: bool,
) -> Seq<String> {
    if !with_data {
        Seq::empty()
    } else {
        match spec_find_key(query.sparse@, type_.name@) {
            Some(i) => query.sparse@[i].1@,
            None => spec_property_names(type_.properties@),
        }
    }
}

/// The identifier column of a table, as text and under the name `id`.
pub open spec fn id_select_text(t: TableView) -> Seq<char> {
    column_of(t.id_name, t) + seq![':', ':'] + "TEXT"@ + seq![' ', 'A', 'S', ' '] + quoted("id"@)
}

/// `, table.column` for each additional column.
pub open spec fn additional_view(st: BuilderView, table: TableView, names: Seq<Seq<char>>) -> BuilderView
    decreases names.len(),
{
    if names.len() == 0 {
        st
    } else {
        additional_view(st, table, names.drop_last()).write(", "@).write(column_of(names.last(), table))
    }
}

/// `SELECT id, $n::TEXT AS "type", `: the identifier of a resource as text, and its type.
pub open spec fn cte_prefix(st: BuilderView, table: TableView, type_: CibouletteResourceType) -> BuilderView {
    st.write("SELECT "@).write(id_select_text(table)).write(", "@).param(Ciboulette2SqlValue::Text(Some(type_.name))).write(
        "::TEXT AS \"type\", "@,
    )
}

/// What the selection of the resources of a type leaves written when a field to return
/// cannot be selected.
pub open spec fn cte_final_err_view(
    st: BuilderView,
    table: TableView,
    type_: CibouletteResourceType,
    query: CibouletteQueryParameters,
    with_data: bool,
) -> BuilderView {
    json_err_view(cte_prefix(st, table, type_), table, type_.properties@, spec_json_fields(type_, query, with_data))
}

/// `SELECT id, type, data, <additional fields> FROM table` for the resources of a type.
pub open spec fn cte_final_params_view(
    st: BuilderView,
    table: TableView,
    type_: CibouletteResourceType,
    query: CibouletteQueryParameters,
    with_data: bool,
    params: Seq<Seq<char>>,
) -> BuilderView {
    additional_view(
        json_object(
            cte_prefix(st, table, type_),
            table,
            type_.properties@,
            spec_json_fields(type_, query, with_data),
        ).write(" AS \"data\""@),
        table,
        params,
    ).write(" FROM "@).write(table_info(table))
}

/// `SELECT id, type, data FROM table` for the resources of a type.
pub open spec fn cte_final_view(
    st: BuilderView,
    table: TableView,
    type_: CibouletteResourceType,
    query: CibouletteQueryParameters,
    with_data: bool,
) -> BuilderView {
    cte_final_params_view(st, table, type_, query, with_data, Seq::empty())
}

/// Whether the fields to return of a type can all be selected.
pub open spec fn cte_final_ok(
    type_: CibouletteResourceType,
    query: CibouletteQueryParameters,
    with_data: bool,
) -> bool {
    json_fields_ok(type_.properties@, spec_json_fields(type_, query, with_data))
}

/// Whether `e` reports the first field to return of a type that cannot be selected.
pub open spec fn is_cte_final_error(
    e: Ciboulette2SqlError,
    type_: CibouletteResourceType,
    query: CibouletteQueryParameters,
    with_data: bool,
) -> bool {
    is_json_field_error(e, type_.name@, type_.properties@, spec_json_fields(type_, query, with_data))
}

/// `SELECT ... FROM table INNER JOIN main ON table.id = main.field`: the related resources
/// of a to-one relationship whose key is the column `field_id` of `main_table`, with their
/// data when `with_data`.
pub open spec fn cte_single_rel_view(
    st: BuilderView,
    table: TableView,
    type_: CibouletteResourceType,
    query: CibouletteQueryParameters,
    main_table: TableView,
    field_id: Seq<char>,
    with_data: bool,
) -> BuilderView {
    cte_final_view(st, table, type_, query, with_data).write(" INNER JOIN "@).write(table_info(main_table)).write(
        " ON "@,
    ).write(column_of(table.id_name, table)).write(" = "@).write(column_of(field_id, main_table))
}

/// `SELECT * FROM t1 UNION ALL SELECT * FROM t2 ...` over the given tables.
pub open spec fn union_view(st: BuilderView, tables: Seq<TableView>) -> BuilderView
    decreases tables.len(),
{
    if tables.len() == 0 {
        st
    } else {
        let prev = union_view(st, tables.drop_last());
        let sep = if tables.len() > 1 {
            prev.write(" UNION ALL "@)
        } else {
            prev
        };
        sep.write("SELECT * FROM "@).write(table_info(tables.last()))
    }
}

impl Ciboulette2PostgresBuilder {
    /// Appends a JSON object made of the given fields of a row of `table`, or a JSON null
    /// when no field is asked for. Stops at the first field that cannot be selected, with
    /// what was written before it.
    pub fn gen_json_builder_routine(
        &mut self,
        table: &Ciboulette2PostgresTableSettings,
        obj: &Vec<CibouletteSchemaProperty>,
        obj_name: &str,
        fields: &Vec<String>,
    ) -> (res: Result<(), Ciboulette2SqlError>)
        ensures
            res is Ok <==> json_fields_ok(obj@, fields@),
            res is Ok ==> final(self)@ == json_object(old(self)@, table@, obj@, fields@),
            res matches Err(e) ==> is_json_field_error(e, obj_name@, obj@, fields@),
            res is Err ==> final(self)@ == json_err_view(old(self)@, table@, obj@, fields@),
    {
        if fields.len() == 0 {
            self.write("NULL::json ");
            return Ok(());
        }
        let ghost st0 = self@;
        self.write("JSON_BUILD_OBJECT(");
        let ghost start = self@;
        let mut i: usize = 0;
        while i < fields.len()
            invariant
                i <= fields@.len(),
                st0 == old(self)@,
                start == st0.write("JSON_BUILD_OBJECT("@),
                forall|j: int| 0 <= j < i ==> !json_field_bad(obj@, #[trigger] fields@[j]@),
                self@ == json_entries(start, table@, obj@, fields@.take(i as int)),
            decreases fields@.len() - i,
        {
            let ghost before = self@;
            if i > 0 {
                self.write(", ");
            }
            let ghost sep = self@;
            proof {
                crate::model::lemma_find_property_bounds(obj@, fields@[i as int]@);
                assert(fields@.take(i + 1).drop_last() =~= fields@.take(i as int));
            }
            match find_property(obj, fields[i].as_str()) {
                None => {
                    let e = Ciboulette2SqlError::UnknownField(String::from_str(obj_name), fields[i].clone());
                    proof {
                        assert(json_field_bad(obj@, fields@[i as int]@));
                        lemma_first_bad_field(obj@, fields@, i as int);
                    }
                    return Err(e);
                },
                Some(k) => {
                    if obj[k].is_object {
                        self.write("NULL::json ");
                    } else {
                        self.insert_params(Ciboulette2SqlValue::Text(Some(fields[i].clone())));
                        self.write(", ");
                        match Ciboulette2PostgresSafeIdent::try_from_str(fields[i].as_str()) {
                            Ok(id) => {
                                let field = Ciboulette2PostgresTableField::plain(id);
                                proof {
                                    lemma_column_text(field.name, table@);
                                }
                                self.insert_ident(&field, table);
                            },
                            Err(e) => {
                                proof {
                                    assert(json_field_bad(obj@, fields@[i as int]@));
                                    lemma_first_bad_field(obj@, fields@, i as int);
                                }
                                return Err(e);
                            },
                        }
                    }
                },
            }
            i = i + 1;
        }
        proof {
            assert(fields@.take(i as int) =~= fields@);
        }
        self.write(") ");
        Ok(())
    }

    /// Appends the JSON object of the fields of a resource to return: none when the type is
    /// not asked for (a JSON null), those of its sparse fieldset when there is one (a JSON
    /// null when it is empty), else all of its properties.
    pub fn gen_json_builder(
        &mut self,
        table: &Ciboulette2PostgresTableSettings,
        type_: &CibouletteResourceType,
        query: &CibouletteQueryParameters,
        with_data: bool,
    ) -> (res: Result<(), Ciboulette2SqlError>)
        ensures
            res is Ok <==> cte_final_ok(*type_, *query, with_data),
            res is Ok ==> final(self)@ == json_object(
                old(self)@,
                table@,
                type_.properties@,
                spec_json_fields(*type_, *query, with_data),
            ),
            res matches Err(e) ==> is_cte_final_error(e, *type_, *query, with_data),
            res is Err ==> final(self)@ == json_err_view(
                old(self)@,
                table@,
                type_.properties@,
                spec_json_fields(*type_, *query, with_data),
            ),
            !with_data ==> res is Ok && final(self)@ == old(self)@.write("NULL::json "@),
            with_data && spec_find_key(query.sparse@, type_.name@) is None ==> spec_json_fields(
                *type_,
                *query,
                with_data,
            ) == spec_property_names(type_.properties@),
    {
        proof {
            crate::model::lemma_find_key_bounds(query.sparse@, type_.name@);
        }
        match find_key(&query.sparse, type_.name.as_str()) {
            Some(i) => {
                if with_data {
                    self.gen_json_builder_routine(
                        table,
                        &type_.properties,
                        type_.name.as_str(),
                        &query.sparse[i].1,
                    )
                } else {
                    self.gen_json_builder_routine(table, &type_.properties, type_.name.as_str(), &Vec::new())
                }
            },
            None => {
                if with_data {
                    self.gen_json_builder_routine(
                        table,
                        &type_.properties,
                        type_.name.as_str(),
                        &property_names(&type_.properties),
                    )
                } else {
                    self.gen_json_builder_routine(table, &type_.properties, type_.name.as_str(), &Vec::new())
                }
            },
        }
    }

    /// Appends `, table.column` for each additional field.
    pub fn handle_additionnal_params(
        &mut self,
        table: &Ciboulette2PostgresTableSettings,
        params: &[Ciboulette2SqlAdditionalField],
    )
        ensures
            final(self)@ == additional_view(old(self)@, table@, additional_names(params@)),
    {
        let ghost start = self@;
        let mut i: usize = 0;
        while i < params.len()
            invariant
                i <= params@.len(),
                self@ == additional_view(start, table@, additional_names(params@.take(i as int))),
            decreases params@.len() - i,
        {
            self.write(", ");
            let field = Ciboulette2PostgresTableField::plain(params[i].name.duplicate());
            proof {
                lemma_column_text(field.name, table@);
            }
            self.insert_ident(&field, table);
            proof {
                assert(additional_names(params@.take(i + 1)).drop_last() =~= additional_names(params@.take(i as int)));
            }
            i = i + 1;
        }
        proof {
            assert(params@.take(i as int) =~= params@);
        }
    }

    /// Appends the identifier column of a table, as text and under the name `id`.
    pub fn insert_id_as_text(&mut self, table: &Ciboulette2PostgresTableSettings)
        ensures
            final(self)@ == old(self)@.write(id_select_text(table@)),
    {
        proof {
            reveal_strlit("id");
            reveal_strlit("TEXT");
        }
        let id_alias = Ciboulette2PostgresSafeIdent::try_from_str("id");
        let text_cast = Ciboulette2PostgresSafeIdent::try_from_str("TEXT");
        match (id_alias, text_cast) {
            (Ok(id_alias), Ok(text_cast)) => {
                let field = Ciboulette2PostgresTableField::new(
                    table.id_name.duplicate(),
                    Some(id_alias),
                    Some(text_cast),
                );
                self.insert_ident(&field, table);
                proof {
                    assert(ident_text(field, table@) =~= id_select_text(table@));
                }
            },
            _ => {},
        }
    }

    /// Appends `SELECT id, type, data, <additional fields> FROM table`: the identifier as
    /// text, the type name as a parameter, the fields of the resource to return as a JSON
    /// object, then each additional field.
    pub fn gen_select_cte_final_with_params(
        &mut self,
        table: &Ciboulette2PostgresTableSettings,
        type_: &CibouletteResourceType,
        query: &CibouletteQueryParameters,
        with_data: bool,
        params: &[Ciboulette2SqlAdditionalField],
    ) -> (res: Result<(), Ciboulette2SqlError>)
        ensures
            res is Ok <==> cte_final_ok(*type_, *query, with_data),
            res is Ok ==> final(self)@ == cte_final_params_view(
                old(self)@,
                table@,
                *type_,
                *query,
                with_data,
                additional_names(params@),
            ),
            res matches Err(e) ==> is_cte_final_error(e, *type_, *query, with_data),
            res is Err ==> final(self)@ == cte_final_err_view(old(self)@, table@, *type_, *query, with_data),
    {
        self.write("SELECT ");
        self.insert_id_as_text(table);
        self.write(", ");
        self.insert_params(Ciboulette2SqlValue::Text(Some(type_.name.clone())));
        self.write("::TEXT AS \"type\", ");
        self.gen_json_builder(table, type_, query, with_data)?;
        self.write(" AS \"data\"");
        self.handle_additionnal_params(table, params);
        self.write(" FROM ");
        self.write_table_info(table);
        Ok(())
    }

    /// Appends `SELECT id, type, data FROM table`: the identifier as text, the type name as
    /// a parameter, and the fields of the resource to return as a JSON object.
    pub fn gen_select_cte_final(
        &mut self,
        table: &Ciboulette2PostgresTableSettings,
        type_: &CibouletteResourceType,
        query: &CibouletteQueryParameters,
        with_data: bool,
    ) -> (res: Result<(), Ciboulette2SqlError>)
        ensures
            res is Ok <==> cte_final_ok(*type_, *query, with_data),
            res is Ok ==> final(self)@ == cte_final_view(old(self)@, table@, *type_, *query, with_data),
            res matches Err(e) ==> is_cte_final_error(e, *type_, *query, with_data),
            res is Err ==> final(self)@ == cte_final_err_view(old(self)@, table@, *type_, *query, with_data),
    {
        let no_params: Vec<Ciboulette2SqlAdditionalField> = Vec::new();
        proof {
            assert(additional_names(no_params@) =~= Seq::<Seq<char>>::empty());
        }
        self.gen_select_cte_final_with_params(table, type_, query, with_data, no_params.as_slice())
    }

    /// Appends the selection of the related resources of a to-one relationship, joined to
    /// the main resources on the column `field_id` that holds their identifier; their data
    /// is returned when `requirement_type` asks for it.
    pub fn gen_select_cte_single_rel(
        &mut self,
        table: &Ciboulette2PostgresTableSettings,
        type_: &CibouletteResourceType,
        query: &CibouletteQueryParameters,
        main_table: &Ciboulette2PostgresTableSettings,
        field_id: &Ciboulette2PostgresSafeIdent,
        requirement_type: &Ciboulette2PostgresResponseType,
    ) -> (res: Result<(), Ciboulette2SqlError>)
        ensures
            res is Ok <==> cte_final_ok(*type_, *query, *requirement_type == Ciboulette2PostgresResponseType::Object),
            res is Ok ==> final(self)@ == cte_single_rel_view(
                old(self)@,
                table@,
                *type_,
                *query,
                main_table@,
                field_id@,
                *requirement_type == Ciboulette2PostgresResponseType::Object,
            ),
            res matches Err(e) ==> is_cte_final_error(
                e,
                *type_,
                *query,
                *requirement_type == Ciboulette2PostgresResponseType::Object,
            ),
            res is Err ==> final(self)@ == cte_final_err_view(
                old(self)@,
                table@,
                *type_,
                *query,
                *requirement_type == Ciboulette2PostgresResponseType::Object,
            ),
    {
        let with_data = match requirement_type {
            Ciboulette2PostgresResponseType::Object => true,
            Ciboulette2PostgresResponseType::Id => false,
        };
        self.gen_select_cte_final(table, type_, query, with_data)?;
        self.write(" INNER JOIN ");
        self.write_table_info(main_table);
        self.write(" ON ");
        let id_field = Ciboulette2PostgresTableField::plain(table.id_name.duplicate());
        let key_field = Ciboulette2PostgresTableField::plain(field_id.duplicate());
        proof {
            lemma_column_text(id_field.name, table@);
            lemma_column_text(key_field.name, main_table@);
        }
        self.compare_fields(table, &id_field, main_table, &key_field);
        Ok(())
    }

    /// Appends `SELECT * FROM t1 UNION ALL SELECT * FROM t2 ...` over the given tables.
    pub fn gen_union_select_all(&mut self, tables: &Vec<Ciboulette2PostgresTableSettings>)
        ensures
            final(self)@ == union_view(old(self)@, tables@.map_values(|t: Ciboulette2PostgresTableSettings| t@)),
    {
        let ghost start = self@;
        let mut i: usize = 0;
        while i < tables.len()
            invariant
                i <= tables@.len(),
                self@ == union_view(start, tables@.take(i as int).map_values(|t: Ciboulette2PostgresTableSettings| t@)),
            decreases tables@.len() - i,
        {
            if i > 0 {
                self.write(" UNION ALL ");
            }
            self.write("SELECT * FROM ");
            self.write_table_info(&tables[i]);
            proof {
                let f = |t: Ciboulette2PostgresTableSettings| t@;
                assert(tables@.take(i + 1).map_values(f).drop_last() =~= tables@.take(i as int).map_values(f));
            }
            i = i + 1;
        }
        proof {
            assert(tables@.take(i as int) =~= tables@);
        }
    }
}

} // verus!
