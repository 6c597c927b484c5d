//! The database schema as the pipeline sees it: the user tables of the
//! catalog, each with its columns in declaration order, and their rendering
//! as prompt text.
use vstd::prelude::*;
use crate::text::{matches_at, occurs_at, to_chars};

verus! {

/// One column: its name and declared type.
#[derive(Debug)]
pub struct ColumnInfo {
    pub name: String,
    pub col_type: String,
}

/// One table with its columns in declaration order.
#[derive(Debug)]
pub struct TableSchema {
    pub name: String,
    pub columns: Vec<ColumnInfo>,
}

/// The prefix that marks the catalog's own tables.
pub open spec fn system_prefix() -> Seq<char> {
    "sqlite_"@
}

/// A table that belongs to the catalog rather than to the user.
pub open spec fn is_system_name(name: Seq<char>) -> bool {
    matches_at(name, system_prefix(), 0)
}

/// The user tables of `s`, in the order given.
pub open spec fn user_tables(s: Seq<TableSchema>) -> Seq<TableSchema>
    decreases s.len(),
{
    if s.len() == 0 {
        Seq::empty()
    } else if is_system_name(s.last().name@) {
        user_tables(s.drop_last())
    } else {
        user_tables(s.drop_last()).push(s.last())
    }
}

/// A schema snapshot holds exactly the user tables of the catalog: it is
/// the catalog filtered by "not a catalog table", so it keeps their order
/// and each table unchanged, columns included; no entry is a catalog table
/// and every user table of the catalog is an entry.
pub proof fn lemma_snapshot_is_user_tables(catalog: Seq<TableSchema>)
    ensures
        user_tables(catalog) == catalog.filter(|t: TableSchema| !is_system_name(t.name@)),
        forall|i: int|
            0 <= i < user_tables(catalog).len() ==> !is_system_name(
                #[trigger] user_tables(catalog)[i].name@,
            ),
        forall|i: int|
            0 <= i < catalog.len() && !is_system_name(catalog[i].name@) ==> user_tables(
                catalog,
            ).contains(#[trigger] catalog[i]),
    decreases catalog.len(),
{
    let pred = |t: TableSchema| !is_system_name(t.name@);
    reveal(Seq::filter);
    if catalog.len() > 0 {
        lemma_snapshot_is_user_tables(catalog.drop_last());
    }
    assert(user_tables(catalog) == catalog.filter(pred));
    broadcast use vstd::seq_lib::group_filter_ensures;

    assert forall|i: int|
        0 <= i < catalog.len() && !is_system_name(catalog[i].name@) implies user_tables(
            catalog,
        ).contains(#[trigger] catalog[i]) by {
        assert(pred(catalog[i]));
    }
}

/// `- <name> (<type>)` and a line break.
pub open spec fn column_text(c: ColumnInfo) -> Seq<char> {
    "- "@ + c.name@ + " ("@ + c.col_type@ + ")\n"@
}

pub open spec fn columns_text(cs: Seq<ColumnInfo>) -> Seq<char>
    decreases cs.len(),
{
    if cs.len() == 0 {
        Seq::empty()
    } else {
        columns_text(cs.drop_last()) + column_text(cs.last())
    }
}

/// `Table "<name>":`, one line per column, and an empty line.
pub open spec fn table_text(t: TableSchema) -> Seq<char> {
    "Table \""@ + t.name@ + "\":\n"@ + columns_text(t.columns@) + "\n"@
}

pub open spec fn schema_text(ts: Seq<TableSchema>) -> Seq<char>
    decreases ts.len(),
{
    if ts.len() == 0 {
        Seq::empty()
    } else {
        schema_text(ts.drop_last()) + table_text(ts.last())
    }
}

proof fn lemma_schema_text_concat(a: Seq<TableSchema>, b: Seq<TableSchema>)
    ensures
        schema_text(a + b) == schema_text(a) + schema_text(b),
    decreases b.len(),
{
    if b.len() == 0 {
        assert(a + b =~= a);
        assert(schema_text(a) + schema_text(b) =~= schema_text(a));
    } else {
        assert((a + b).drop_last() =~= a + b.drop_last());
        lemma_schema_text_concat(a, b.drop_last());
        assert(schema_text(a + b) =~= schema_text(a) + schema_text(b));
    }
}

proof fn lemma_columns_text_concat(a: Seq<ColumnInfo>, b: Seq<ColumnInfo>)
    ensures
        columns_text(a + b) == columns_text(a) + columns_text(b),
    decreases b.len(),
{
    if b.len() == 0 {
        assert(a + b =~= a);
        assert(columns_text(a) + columns_text(b) =~= columns_text(a));
    } else {
        assert((a + b).drop_last() =~= a + b.drop_last());
        lemma_columns_text_concat(a, b.drop_last());
        assert(columns_text(a + b) =~= columns_text(a) + columns_text(b));
    }
}

/// In the rendered schema each table has a section of its own, in
/// snapshot order: a header, then one line per column in declaration order,
/// then an empty line. Column `k` of table `i` stands between the lines of
/// the columns before it and those after it.
pub proof fn lemma_table_section(ts: Seq<TableSchema>, i: int, k: int)
    requires
        0 <= i < ts.len(),
        0 <= k < ts[i].columns@.len(),
    ensures
        schema_text(ts) == schema_text(ts.subrange(0, i)) + table_text(ts[i]) + schema_text(
            ts.subrange(i + 1, ts.len() as int),
        ),
        table_text(ts[i]) == "Table \""@ + ts[i].name@ + "\":\n"@ + columns_text(
            ts[i].columns@.subrange(0, k),
        ) + column_text(ts[i].columns@[k]) + columns_text(
            ts[i].columns@.subrange(k + 1, ts[i].columns@.len() as int),
        ) + "\n"@,
{
    let pre = ts.subrange(0, i);
    let post = ts.subrange(i + 1, ts.len() as int);
    let one = seq![ts[i]];
    assert(ts =~= pre + (one + post));
    lemma_schema_text_concat(pre, one + post);
    lemma_schema_text_concat(one, post);
    assert(one.last() == ts[i]);
    assert(schema_text(one.drop_last()) == Seq::<char>::empty());
    assert(schema_text(one) =~= table_text(ts[i]));
    assert(schema_text(ts) =~= schema_text(pre) + table_text(ts[i]) + schema_text(post));
    let cs = ts[i].columns@;
    let a = cs.subrange(0, k);
    let x = seq![cs[k]];
    let b = cs.subrange(k + 1, cs.len() as int);
    assert(cs =~= a + (x + b));
    lemma_columns_text_concat(a, x + b);
    lemma_columns_text_concat(x, b);
    assert(x.last() == cs[k]);
    assert(columns_text(x.drop_last()) == Seq::<char>::empty());
    assert(columns_text(x) =~= column_text(cs[k]));
    assert(table_text(ts[i]) =~= "Table \""@ + ts[i].name@ + "\":\n"@ + columns_text(a) + column_text(
        cs[k],
    ) + columns_text(b) + "\n"@);
}

/// The catalog query that lists every table by name.
pub fn catalog_query() -> (r: &'static str)
    ensures
        r@ == "SELECT name FROM sqlite_master WHERE type='table';"@,
{
    "SELECT name FROM sqlite_master WHERE type='table';"
}

/// `s` as the body of a quoted SQL string: each `'` doubled.
pub open spec fn quote_escaped(s: Seq<char>) -> Seq<char>
    decreases s.len(),
{
    if s.len() == 0 {
        Seq::empty()
    } else if s.last() == '\'' {
        quote_escaped(s.drop_last()) + seq!['\'', '\'']
    } else {
        quote_escaped(s.drop_last()).push(s.last())
    }
}

/// The query that lists the columns of `table` (name and type, in order);
/// the name is quoted, so any table name is accepted.
pub fn column_query(table: &str) -> (r: String)
    ensures
        r@ == "PRAGMA table_info('"@ + quote_escaped(table@) + "')"@,
{
    let mut q = String::from_str("PRAGMA table_info('");
    let ghost head = q@;
    let n = table.unicode_len();
    let mut i: usize = 0;
    while i < n
        invariant
            n == table@.len(),
            i <= n,
            q@ == head + quote_escaped(table@.subrange(0, i as int)),
        decreases n - i,
    {
        let c = table.get_char(i);
        assert(table@.subrange(0, i + 1).drop_last() =~= table@.subrange(0, i as int));
        if c == '\'' {
            q.append("''");
            proof {
                reveal_strlit("''");
            }
            assert("''"@ =~= seq!['\'', '\'']);
        } else {
            q.append(table.substring_char(i, i + 1));
        }
        assert(q@ =~= head + quote_escaped(table@.subrange(0, i + 1)));
        i = i + 1;
    }
    assert(table@.subrange(0, n as int) =~= table@);
    q.append("')");
    q
}

/// Whether `name` is a catalog table.
pub fn is_system_table(name: &str) -> (r: bool)
    ensures
        r == is_system_name(name@),
{
    occurs_at(&to_chars(name), &to_chars("sqlite_"), 0)
}

/// The schema snapshot of a catalog listing: exactly its user tables, in
/// catalog order, each with its columns as listed.
pub fn describe(catalog: Vec<TableSchema>) -> (r: Vec<TableSchema>)
    ensures
        r@ == user_tables(catalog@),
{
    let ghost orig = catalog@;
    let mut rest = catalog;
    let mut r: Vec<TableSchema> = Vec::new();
    let n = rest.len();
    let mut i: usize = 0;
    while i < n
        invariant
            n == orig.len(),
            i <= n,
            rest@ == orig.subrange(i as int, n as int),
            r@ == user_tables(orig.subrange(0, i as int)),
        decreases n - i,
    {
        let t = rest.remove(0);
        assert(orig.subrange(0, i + 1).drop_last() =~= orig.subrange(0, i as int));
        if !is_system_table(t.name.as_str()) {
            r.push(t);
        }
        i = i + 1;
        assert(rest@ =~= orig.subrange(i as int, n as int));
    }
    assert(orig.subrange(0, n as int) =~= orig);
    r
}

/// The schema as prompt text, table after table.
pub fn render_schema(tables: &Vec<TableSchema>) -> (r: String)
    ensures
        r@ == schema_text(tables@),
{
    let mut s = String::new();
    let mut i: usize = 0;
    while i < tables.len()
        invariant
            i <= tables@.len(),
            s@ == schema_text(tables@.subrange(0, i as int)),
        decreases tables@.len() - i,
    {
        let t = &tables[i];
        s.append("Table \"");
        s.append(t.name.as_str());
        s.append("\":\n");
        let mut j: usize = 0;
        let ghost head = s@;
        while j < t.columns.len()
            invariant
                j <= t.columns@.len(),
                s@ == head + columns_text(t.columns@.subrange(0, j as int)),
            decreases t.columns@.len() - j,
        {
            let c = &t.columns[j];
            s.append("- ");
            s.append(c.name.as_str());
            s.append(" (");
            s.append(c.col_type.as_str());
            s.append(")\n");
            assert(t.columns@.subrange(0, j + 1).drop_last() =~= t.columns@.subrange(0, j as int));
            j = j + 1;
        }
        s.append("\n");
        assert(t.columns@.subrange(0, j as int) =~= t.columns@);
        assert(tables@.subrange(0, i + 1).drop_last() =~= tables@.subrange(0, i as int));
        i = i + 1;
    }
    assert(tables@.subrange(0, i as int) =~= tables@);
    s
}

} // verus!
