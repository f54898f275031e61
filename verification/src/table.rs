use vstd::prelude::*;
use crate::error::Ciboulette2SqlError;
use crate::ident::Ciboulette2PostgresSafeIdent;
use crate::model::CibouletteIdType;
use crate::text::str_eq;

verus! {

/// A column as it is selected: its name, an optional alias and an optional cast.
pub struct Ciboulette2PostgresTableField {
    pub name: Ciboulette2PostgresSafeIdent,
    pub alias: Option<Ciboulette2PostgresSafeIdent>,
    pub cast: Option<Ciboulette2PostgresSafeIdent>,
}

impl Ciboulette2PostgresTableField {
    pub fn new(
        name: Ciboulette2PostgresSafeIdent,
        alias: Option<Ciboulette2PostgresSafeIdent>,
        cast: Option<Ciboulette2PostgresSafeIdent>,
    ) -> (r: Self)
        ensures
            r.name == name,
            r.alias == alias,
            r.cast == cast,
    {
        Ciboulette2PostgresTableField { name, alias, cast }
    }

    /// A field made of a column name alone.
    pub fn plain(name: Ciboulette2PostgresSafeIdent) -> (r: Self)
        ensures
            r == (Ciboulette2PostgresTableField { name, alias: None, cast: None }),
    {
        Ciboulette2PostgresTableField { name, alias: None, cast: None }
    }
}

/// A column selected beside the data of a resource, such as the key that links it to a
/// resource of the type `ciboulette_type`.
pub struct Ciboulette2SqlAdditionalField {
    pub name: Ciboulette2PostgresSafeIdent,
    pub ciboulette_type: String,
}

/// The column names of additional fields.
pub open spec fn additional_names(params: Seq<Ciboulette2SqlAdditionalField>) -> Seq<Seq<char>> {
    params.map_values(|p: Ciboulette2SqlAdditionalField| p.name@)
}

/// The table, or common table expression, that holds the resources of one type.
pub struct Ciboulette2PostgresTableSettings {
    pub id_name: Ciboulette2PostgresSafeIdent,
    pub id_type: CibouletteIdType,
    pub schema: Option<Ciboulette2PostgresSafeIdent>,
    pub name: Ciboulette2PostgresSafeIdent,
    pub ciboulette_type: String,
}

/// What a table is: the names of its identifier column, of its schema and of itself, the
/// kind of its identifiers and the resource type it holds.
pub struct TableView {
    pub id_name: Seq<char>,
    pub id_type: CibouletteIdType,
    pub schema: Option<Seq<char>>,
    pub name: Seq<char>,
    pub ciboulette_type: Seq<char>,
}

impl View for Ciboulette2PostgresTableSettings {
    type V = TableView;

    open spec fn view(&self) -> TableView {
        TableView {
            id_name: self.id_name@,
            id_type: self.id_type,
            schema: match self.schema {
                Some(s) => Some(s@),
                None => None,
            },
            name: self.name@,
            ciboulette_type: self.ciboulette_type@,
        }
    }
}

/// The common table expression that stands for `table` under the name `name`: it has no
/// schema and keeps the identifier column and the resource type of `table`.
pub open spec fn spec_to_cte(table: TableView, name: Seq<char>) -> TableView {
    TableView { schema: None, name, ..table }
}

impl Ciboulette2PostgresTableSettings {
    /// A copy of the table settings.
    pub fn duplicate(&self) -> (r: Self)
        ensures
            r == *self,
    {
        Ciboulette2PostgresTableSettings {
            id_name: self.id_name.duplicate(),
            id_type: self.id_type,
            schema: match &self.schema {
                Some(s) => Some(s.duplicate()),
                None => None,
            },
            name: self.name.duplicate(),
            ciboulette_type: self.ciboulette_type.clone(),
        }
    }

    /// The common table expression named `name` that stands for this table.
    pub fn to_cte(&self, name: Ciboulette2PostgresSafeIdent) -> (r: Self)
        ensures
            r@ == spec_to_cte(self@, name@),
    {
        Ciboulette2PostgresTableSettings {
            id_name: self.id_name.duplicate(),
            id_type: self.id_type,
            schema: None,
            name,
            ciboulette_type: self.ciboulette_type.clone(),
        }
    }
}

/// The tables of every resource type.
pub struct Ciboulette2PostgresTableStore {
    pub tables: Vec<Ciboulette2PostgresTableSettings>,
}

/// The first index of a table of type `name`.
pub open spec fn spec_find_table(tables: Seq<Ciboulette2PostgresTableSettings>, name: Seq<char>) -> Option<int>
    decreases tables.len(),
{
    if tables.len() == 0 {
        None
    } else {
        match spec_find_table(tables.drop_last(), name) {
            Some(i) => Some(i),
            None => if tables.last().ciboulette_type@ == name {
                Some(tables.len() - 1)
            } else {
                None
            },
        }
    }
}

proof fn lemma_find_table_prefix(tables: Seq<Ciboulette2PostgresTableSettings>, name: Seq<char>, j: int)
    requires
        0 <= j <= tables.len(),
        spec_find_table(tables.take(j), name) is Some,
    ensures
        spec_find_table(tables, name) == spec_find_table(tables.take(j), name),
    decreases tables.len() - j,
{
    if j < tables.len() {
        assert(tables.take(j + 1).drop_last() =~= tables.take(j));
        lemma_find_table_prefix(tables, name, j + 1);
    } else {
        assert(tables.take(j) =~= tables);
    }
}

pub proof fn lemma_find_table_bounds(tables: Seq<Ciboulette2PostgresTableSettings>, name: Seq<char>)
    ensures
        spec_find_table(tables, name) matches Some(i) ==> 0 <= i < tables.len()
            && tables[i].ciboulette_type@ == name,
    decreases tables.len(),
{
    if tables.len() > 0 {
        lemma_find_table_bounds(tables.drop_last(), name);
    }
}

/// The table registered for type `name`, or the error that reports its absence.
pub open spec fn spec_get_table(store: Ciboulette2PostgresTableStore, name: Seq<char>) -> Option<Ciboulette2PostgresTableSettings> {
    match spec_find_table(store.tables@, name) {
        Some(i) => Some(store.tables@[i]),
        None => None,
    }
}

/// Whether `e` is the error that reports that no table is registered for `name`.
pub open spec fn is_unknown_table(e: Ciboulette2SqlError, name: Seq<char>) -> bool {
    e matches Ciboulette2SqlError::UnknownTable(n) && n@ == name
}

impl Ciboulette2PostgresTableStore {
    /// The table registered for the resource type `name`.
    pub fn get(&self, name: &str) -> (r: Result<&Ciboulette2PostgresTableSettings, Ciboulette2SqlError>)
        ensures
            r is Ok <==> spec_get_table(*self, name@) is Some,
            r matches Ok(t) ==> spec_get_table(*self, name@) == Some(*t),
            r matches Err(e) ==> is_unknown_table(e, name@),
    {
        let mut i: usize = 0;
        while i < self.tables.len()
            invariant
                i <= self.tables@.len(),
                spec_find_table(self.tables@.take(i as int), name@) is None,
            decreases self.tables@.len() - i,
        {
            proof {
                assert(self.tables@.take(i + 1).drop_last() =~= self.tables@.take(i as int));
            }
            if str_eq(self.tables[i].ciboulette_type.as_str(), name) {
                proof {
                    lemma_find_table_prefix(self.tables@, name@, i + 1);
                }
                return Ok(&self.tables[i]);
            }
            i = i + 1;
        }
        proof {
            assert(self.tables@.take(i as int) =~= self.tables@);
        }
        Err(Ciboulette2SqlError::UnknownTable(String::from_str(name)))
    }
}

} // verus!
