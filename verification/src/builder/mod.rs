use vstd::prelude::*;
use crate::ident::{quoted, Ciboulette2PostgresSafeIdent};
use crate::model::{Ciboulette2PostgresResponseType, Ciboulette2SqlValue};
use crate::table::{Ciboulette2PostgresTableField, Ciboulette2PostgresTableSettings, TableView};
use crate::text::{decimal, lemma_decimal_value, push_char, push_decimal, push_str};
use crate::builder::select::union_view;

pub mod delete;
pub mod select;
pub mod select_main;
pub mod select_rel;
pub mod update;
pub mod update_rel;
pub mod shape;

verus! {

/// A table to return at the end: the table of a resource type, the common table expression
/// that selects its resources, and whether their data or only their identifiers are
/// returned.
pub struct Ciboulette2PostgresWorkingTable {
    pub table: Ciboulette2PostgresTableSettings,
    pub cte: Ciboulette2PostgresTableSettings,
    pub requirement: Ciboulette2PostgresResponseType,
}

impl Ciboulette2PostgresWorkingTable {
    /// A copy of the table to return.
    pub fn duplicate(&self) -> (r: Self)
        ensures
            r == *self,
    {
        Ciboulette2PostgresWorkingTable {
            table: self.table.duplicate(),
            cte: self.cte.duplicate(),
            requirement: self.requirement,
        }
    }
}

/// What a table to return is.
pub struct WorkingTableView {
    pub table: TableView,
    pub cte: TableView,
    pub requirement: Ciboulette2PostgresResponseType,
}

impl View for Ciboulette2PostgresWorkingTable {
    type V = WorkingTableView;

    open spec fn view(&self) -> WorkingTableView {
        WorkingTableView { table: self.table@, cte: self.cte@, requirement: self.requirement }
    }
}

/// The common table expressions of the tables to return.
pub open spec fn ctes(tables: Seq<WorkingTableView>) -> Seq<TableView> {
    tables.map_values(|w: WorkingTableView| w.cte)
}

/// What a builder holds: the statement written so far, the values of its numbered
/// parameters, and the tables to return at the end.
pub struct BuilderView {
    pub buf: Seq<char>,
    pub params: Seq<Ciboulette2SqlValue>,
    pub tables: Seq<WorkingTableView>,
}

impl BuilderView {
    /// `t` appended to the statement.
    pub open spec fn write(self, t: Seq<char>) -> BuilderView {
        BuilderView { buf: self.buf + t, ..self }
    }

    /// `v` bound to the next parameter, whose placeholder is appended to the statement.
    pub open spec fn param(self, v: Ciboulette2SqlValue) -> BuilderView {
        BuilderView {
            buf: self.buf + placeholder((self.params.len() + 1) as nat),
            params: self.params.push(v),
            tables: self.tables,
        }
    }

    /// `t` added to the tables to return.
    pub open spec fn add_table(self, t: WorkingTableView) -> BuilderView {
        BuilderView { tables: self.tables.push(t), ..self }
    }

    /// `ts` added, in order, to the tables to return.
    pub open spec fn add_tables(self, ts: Seq<WorkingTableView>) -> BuilderView {
        BuilderView { tables: self.tables + ts, ..self }
    }
}

/// The placeholder of the `n`-th parameter: `$n`.
pub open spec fn placeholder(n: nat) -> Seq<char> {
    seq!['$'] + decimal(n)
}

/// Two parameters never share a placeholder: `$a` and `$b` differ whenever `a` and `b` do.
pub proof fn law_placeholders_distinct(a: nat, b: nat)
    requires
        a != b,
    ensures
        placeholder(a) != placeholder(b),
{
    if placeholder(a) == placeholder(b) {
        assert(placeholder(a).skip(1) =~= decimal(a));
        assert(placeholder(b).skip(1) =~= decimal(b));
        lemma_decimal_value(a);
        lemma_decimal_value(b);
    }
}

/// A table as it is named in a statement: `"schema"."name"`, or `"name"` without a schema.
pub open spec fn table_info(t: TableView) -> Seq<char> {
    match t.schema {
        Some(s) => quoted(s) + seq!['.'] + quoted(t.name),
        None => quoted(t.name),
    }
}

/// A field without its table: `"name"`, then `::cast` and ` AS "alias"` when present.
pub open spec fn field_text(f: Ciboulette2PostgresTableField) -> Seq<char> {
    quoted(f.name@) + match f.cast {
        Some(c) => seq![':', ':'] + c@,
        None => Seq::empty(),
    } + match f.alias {
        Some(a) => seq![' ', 'A', 'S', ' '] + quoted(a@),
        None => Seq::empty(),
    }
}

/// A field of a table: `"schema"."table"."name"`, with its cast and alias.
pub open spec fn ident_text(f: Ciboulette2PostgresTableField, t: TableView) -> Seq<char> {
    table_info(t) + seq!['.'] + field_text(f)
}

/// A column of a table, neither cast nor aliased.
pub open spec fn column_text(name: Ciboulette2PostgresSafeIdent, t: TableView) -> Seq<char> {
    ident_text(Ciboulette2PostgresTableField { name, alias: None, cast: None }, t)
}

/// Builds one SQL statement and the values of its parameters.
pub struct Ciboulette2PostgresBuilder {
    buf: String,
    params: Vec<Ciboulette2SqlValue>,
    working_tables: Vec<Ciboulette2PostgresWorkingTable>,
}

impl View for Ciboulette2PostgresBuilder {
    type V = BuilderView;

    closed spec fn view(&self) -> BuilderView {
        BuilderView {
            buf: self.buf@,
            params: self.params@,
            tables: self.working_tables@.map_values(|t: Ciboulette2PostgresWorkingTable| t@),
        }
    }
}

/// A builder that holds nothing yet.
pub open spec fn empty_view() -> BuilderView {
    BuilderView { buf: Seq::empty(), params: Seq::empty(), tables: Seq::empty() }
}

impl Ciboulette2PostgresBuilder {
    /// A builder that holds nothing yet.
    pub fn new() -> (r: Self)
        ensures
            r@ == empty_view(),
    {
        let r = Ciboulette2PostgresBuilder { buf: String::new(), params: Vec::new(), working_tables: Vec::new() };
        proof {
            assert(r@.tables =~= Seq::<WorkingTableView>::empty());
        }
        r
    }

    /// The statement written so far.
    pub fn buf(&self) -> (r: &str)
        ensures
            r@ == self@.buf,
    {
        self.buf.as_str()
    }

    /// The values of the parameters, the first one bound to `$1`.
    pub fn params(&self) -> (r: &Vec<Ciboulette2SqlValue>)
        ensures
            r@ == self@.params,
    {
        &self.params
    }

    /// The tables to return.
    pub fn working_tables(&self) -> (r: &Vec<Ciboulette2PostgresWorkingTable>)
        ensures
            r@.map_values(|t: Ciboulette2PostgresWorkingTable| t@) == self@.tables,
    {
        &self.working_tables
    }

    /// The statement and its parameters.
    pub fn build(self) -> (r: (String, Vec<Ciboulette2SqlValue>))
        ensures
            r.0@ == self@.buf,
            r.1@ == self@.params,
    {
        (self.buf, self.params)
    }

    /// Appends `s` to the statement.
    pub fn write(&mut self, s: &str)
        ensures
            final(self)@ == old(self)@.write(s@),
    {
        push_str(&mut self.buf, s);
    }

    /// Appends a table name, `"schema"."name"` or `"name"`.
    pub fn write_table_info(&mut self, table: &Ciboulette2PostgresTableSettings)
        ensures
            final(self)@ == old(self)@.write(table_info(table@)),
    {
        match &table.schema {
            Some(s) => {
                s.write_quoted(&mut self.buf);
                push_char(&mut self.buf, '.');
            },
            None => {},
        }
        table.name.write_quoted(&mut self.buf);
        proof {
            assert(self@.buf =~= old(self)@.buf + table_info(table@));
        }
    }

    fn write_field_tail(&mut self, field: &Ciboulette2PostgresTableField)
        ensures
            final(self)@ == old(self)@.write(field_text(*field)),
    {
        field.name.write_quoted(&mut self.buf);
        let ghost after_name = self.buf@;
        match &field.cast {
            Some(c) => {
                push_str(&mut self.buf, "::");
                push_str(&mut self.buf, c.as_str());
            },
            None => {},
        }
        let ghost after_cast = self.buf@;
        match &field.alias {
            Some(a) => {
                push_str(&mut self.buf, " AS ");
                a.write_quoted(&mut self.buf);
            },
            None => {},
        }
        proof {
            reveal_strlit("::");
            reveal_strlit(" AS ");
            assert(self@.buf =~= old(self)@.buf + field_text(*field));
        }
    }

    /// Appends a field of a table: `"schema"."table"."name"`, its cast and its alias.
    pub fn insert_ident(&mut self, field: &Ciboulette2PostgresTableField, table: &Ciboulette2PostgresTableSettings)
        ensures
            final(self)@ == old(self)@.write(ident_text(*field, table@)),
    {
        self.write_table_info(table);
        push_char(&mut self.buf, '.');
        self.write_field_tail(field);
        proof {
            assert(self@.buf =~= old(self)@.buf + ident_text(*field, table@));
        }
    }

    /// Appends a field without its table, as the target of an assignment.
    pub fn insert_ident_name(&mut self, field: &Ciboulette2PostgresTableField)
        ensures
            final(self)@ == old(self)@.write(field_text(*field)),
    {
        self.write_field_tail(field);
    }

    /// Binds `param` to the next parameter and appends its placeholder.
    pub fn insert_params(&mut self, param: Ciboulette2SqlValue)
        ensures
            final(self)@ == old(self)@.param(param),
    {
        self.params.push(param);
        push_char(&mut self.buf, '$');
        push_decimal(&mut self.buf, self.params.len());
        proof {
            assert(self@.buf =~= old(self)@.buf + placeholder((old(self)@.params.len() + 1) as nat));
        }
    }

    /// Appends `left = right`, two fields of two tables.
    pub fn compare_fields(
        &mut self,
        left_table: &Ciboulette2PostgresTableSettings,
        left: &Ciboulette2PostgresTableField,
        right_table: &Ciboulette2PostgresTableSettings,
        right: &Ciboulette2PostgresTableField,
    )
        ensures
            final(self)@ == old(self)@.write(ident_text(*left, left_table@)).write(" = "@).write(
                ident_text(*right, right_table@),
            ),
    {
        self.insert_ident(left, left_table);
        self.write(" = ");
        self.insert_ident(right, right_table);
    }

    /// Appends `SELECT * FROM t1 UNION ALL SELECT * FROM t2 ...` over the common table
    /// expressions of the tables to return, in the order they were added.
    pub fn gen_union_working_tables(&mut self)
        ensures
            final(self)@ == union_view(old(self)@, ctes(old(self)@.tables)),
    {
        let mut tables: Vec<Ciboulette2PostgresTableSettings> = Vec::new();
        let mut i: usize = 0;
        while i < self.working_tables.len()
            invariant
                i <= self.working_tables@.len(),
                tables@.len() == i,
                forall|j: int| 0 <= j < i ==> (#[trigger] tables@[j]) == self.working_tables@[j].cte,
            decreases self.working_tables@.len() - i,
        {
            tables.push(self.working_tables[i].cte.duplicate());
            i = i + 1;
        }
        proof {
            let f = |t: Ciboulette2PostgresTableSettings| t@;
            assert(tables@.map_values(f) =~= ctes(self@.tables));
        }
        self.gen_union_select_all(&tables);
    }

    /// Adds tables, in order, to those returned at the end.
    pub fn add_working_tables(&mut self, tables: &Vec<Ciboulette2PostgresWorkingTable>)
        ensures
            final(self)@ == old(self)@.add_tables(tables@.map_values(|t: Ciboulette2PostgresWorkingTable| t@)),
    {
        let ghost start = self.working_tables@;
        let mut i: usize = 0;
        while i < tables.len()
            invariant
                i <= tables@.len(),
                self.buf@ == old(self).buf@,
                self.params@ == old(self).params@,
                start == old(self).working_tables@,
                self.working_tables@ == start + tables@.take(i as int),
            decreases tables@.len() - i,
        {
            self.working_tables.push(tables[i].duplicate());
            proof {
                assert(self.working_tables@ =~= start + tables@.take(i + 1));
            }
            i = i + 1;
        }
        proof {
            let f = |t: Ciboulette2PostgresWorkingTable| t@;
            assert(tables@.take(i as int) =~= tables@);
            assert(self@.tables =~= old(self)@.tables + tables@.map_values(f));
        }
    }

    /// Adds a table to those returned at the end: the table of a resource type, the common
    /// table expression that selects its resources, and what is returned of them.
    pub fn add_working_table(
        &mut self,
        table: &Ciboulette2PostgresTableSettings,
        cte: Ciboulette2PostgresTableSettings,
        requirement: Ciboulette2PostgresResponseType,
    )
        ensures
            final(self)@ == old(self)@.add_table((WorkingTableView { table: table@, cte: cte@, requirement })),
    {
        self.working_tables.push(Ciboulette2PostgresWorkingTable { table: table.duplicate(), cte, requirement });
        proof {
            assert(self@.tables =~= old(self)@.tables.push(WorkingTableView { table: table@, cte: cte@, requirement }));
        }
    }
}

} // verus!
