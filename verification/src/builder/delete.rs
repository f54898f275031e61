use vstd::prelude::*;
use crate::builder::select::{column_of, lemma_column_text};
use crate::builder::{field_text, table_info, BuilderView, Ciboulette2PostgresBuilder};
use crate::error::Ciboulette2SqlError;
use crate::ident::{quoted, Ciboulette2PostgresSafeIdent};
use crate::model::{
    spec_value_of_id, Ciboulette2SqlValue, CibouletteDeleteRequest, CibouletteId,
    CibouletteRelationshipOneToManyOption,
};
use crate::table::{
    is_unknown_table, spec_get_table, Ciboulette2PostgresTableField, Ciboulette2PostgresTableStore,
    TableView,
};

verus! {

/// `UPDATE many SET "key" = NULL WHERE many.id = $n`: the row `id` of the owned resources
/// is detached from its owner.
pub open spec fn delete_one_to_many_view(st: BuilderView, many: TableView, key: Seq<char>, id: CibouletteId) -> BuilderView {
    st.write("UPDATE "@).write(table_info(many)).write(" SET "@).write(quoted(key)).write(
        " = NULL WHERE "@,
    ).write(column_of(many.id_name, many)).write(" = "@).param(spec_value_of_id(id))
}

impl Ciboulette2PostgresBuilder {
    /// Appends the statement that detaches the owned resource of a one-to-many relationship
    /// that a delete request designates: its key column set to NULL. Fails when the owned
    /// type has no table, leaving the builder as it was, or when its key column holds a
    /// NUL, leaving `UPDATE table SET ` written.
    pub fn gen_delete_rel_one_to_many(
        &mut self,
        table_store: &Ciboulette2PostgresTableStore,
        query: &CibouletteDeleteRequest,
        rel_opt: &CibouletteRelationshipOneToManyOption,
    ) -> (res: Result<(), Ciboulette2SqlError>)
        ensures
            res is Ok <==> spec_get_table(*table_store, rel_opt.many_table@) is Some
                && !rel_opt.many_table_key@.contains('\0'),
            res is Ok ==> final(self)@ == delete_one_to_many_view(
                old(self)@,
                spec_get_table(*table_store, rel_opt.many_table@)->0@,
                rel_opt.many_table_key@,
                query.resource_id,
            ),
            res matches Err(e) ==> if spec_get_table(*table_store, rel_opt.many_table@) is None {
                is_unknown_table(e, rel_opt.many_table@)
            } else {
                e matches Ciboulette2SqlError::NullCharIdent(m) && m@ == rel_opt.many_table_key@
            },
            res is Err ==> final(self)@ == if spec_get_table(*table_store, rel_opt.many_table@) is None {
                old(self)@
            } else {
                old(self)@.write("UPDATE "@).write(table_info(spec_get_table(*table_store, rel_opt.many_table@)->0@)).write(
                    " SET "@,
                )
            },
    {
        let many_table = table_store.get(rel_opt.many_table.as_str())?;
        self.write("UPDATE ");
        self.write_table_info(many_table);
        self.write(" SET ");
        let key = Ciboulette2PostgresSafeIdent::try_from_str(rel_opt.many_table_key.as_str())?;
        let key_field = Ciboulette2PostgresTableField::plain(key);
        self.insert_ident_name(&key_field);
        self.write(" = NULL WHERE ");
        let id_field = Ciboulette2PostgresTableField::plain(many_table.id_name.duplicate());
        proof {
            assert(field_text(key_field) =~= quoted(rel_opt.many_table_key@));
            lemma_column_text(id_field.name, many_table@);
        }
        self.insert_ident(&id_field, many_table);
        self.write(" = ");
        self.insert_params(Ciboulette2SqlValue::from_id(&query.resource_id));
        Ok(())
    }
}

} // verus!
