//! Database tools: configuration, schemas and the SQL that recreates them,
//! entity-relationship diagrams, the query history and connection settings.
use vstd::prelude::*;
use crate::text::{owned, views};

pub mod er_diagram;
pub mod query_runner;
pub mod redis;
pub mod mongodb;
pub mod postgres;
pub mod sqlite;
pub mod manager;

verus! {

/// Database error, with its message.
#[derive(Debug)]
pub struct DatabaseError(pub String);

/// Database configuration. Paths are text.
#[derive(Debug)]
pub struct DatabaseConfig {
    pub connections_dir: String,
    pub query_history_size: usize,
    pub auto_complete: bool,
    pub syntax_highlighting: bool,
    pub max_query_timeout_secs: u64,
}

impl DatabaseConfig {
    /// The default configuration under a data directory (the current
    /// directory when there is none): connections in
    /// `<data>/parsec/database/connections`, 100 history entries, completion and
    /// highlighting on, 30-second query timeout.
    pub fn with_data_dir(data_dir: Option<&str>) -> (c: Self)
        ensures
            c.connections_dir@ == (match data_dir { Some(d) => d@, None => "."@ }) + "/parsec/database/connections"@,
            c.query_history_size == 100,
            c.auto_complete,
            c.syntax_highlighting,
            c.max_query_timeout_secs == 30,
    {
        let mut dir = match data_dir {
            Some(d) => owned(d),
            None => owned("."),
        };
        dir.append("/parsec/database/connections");
        DatabaseConfig {
            connections_dir: dir,
            query_history_size: 100,
            auto_complete: true,
            syntax_highlighting: true,
            max_query_timeout_secs: 30,
        }
    }
}

/// Database type.
#[derive(Debug)]
pub enum DatabaseType {
    PostgreSQL,
    MySQL,
    SQLite,
    MongoDB,
    Redis,
    Custom(String),
}

/// Table information. The creation time is in milliseconds since the Unix epoch.
#[derive(Debug)]
pub struct TableInfo {
    pub name: String,
    pub schema: Option<String>,
    pub row_count: Option<u64>,
    pub size_bytes: Option<u64>,
    pub created_at: Option<i64>,
}

/// Table schema.
#[derive(Debug)]
pub struct TableSchema {
    pub name: String,
    pub columns: Vec<ColumnInfo>,
    pub primary_key: Vec<String>,
    pub foreign_keys: Vec<ForeignKey>,
    pub indexes: Vec<IndexInfo>,
}

/// Column information.
#[derive(Debug)]
pub struct ColumnInfo {
    pub name: String,
    pub data_type: String,
    pub nullable: bool,
    pub default: Option<String>,
    pub is_primary_key: bool,
    pub is_unique: bool,
}

/// Foreign key constraint.
#[derive(Debug)]
pub struct ForeignKey {
    pub column: String,
    pub foreign_table: String,
    pub foreign_column: String,
    pub on_delete: Option<String>,
    pub on_update: Option<String>,
}

/// Index information.
#[derive(Debug)]
pub struct IndexInfo {
    pub name: String,
    pub columns: Vec<String>,
    pub is_unique: bool,
    pub is_primary: bool,
}

/// `parts` joined with `sep` between them.
pub open spec fn join(parts: Seq<Seq<char>>, sep: Seq<char>) -> Seq<char>
    decreases parts.len(),
{
    if parts.len() == 0 {
        Seq::empty()
    } else if parts.len() == 1 {
        parts[0]
    } else {
        join(parts.drop_last(), sep) + sep + parts.last()
    }
}

/// The definition of a column in CREATE TABLE.
pub open spec fn column_definition(c: ColumnInfo) -> Seq<char> {
    let base = "  "@ + c.name@ + " "@ + c.data_type@;
    let with_null = if !c.nullable { base + " NOT NULL"@ } else { base };
    match c.default {
        Some(d) => with_null + " DEFAULT "@ + d@,
        None => with_null,
    }
}

/// `t` ends with `suffix`.
pub open spec fn ends_with(t: Seq<char>, suffix: Seq<char>) -> bool {
    t.len() >= suffix.len() && t.subrange(t.len() - suffix.len(), t.len() as int) == suffix
}

/// A column's definition starts with its name and type, says NOT NULL right
/// after them exactly when the column is not nullable, and ends with
/// ` DEFAULT <value>` whenever the column has a default, nullable or not.
pub proof fn law_column_definition(c: ColumnInfo)
    ensures
        ("  "@ + c.name@ + " "@ + c.data_type@).is_prefix_of(column_definition(c)),
        !c.nullable ==> ("  "@ + c.name@ + " "@ + c.data_type@ + " NOT NULL"@).is_prefix_of(column_definition(c)),
        c.default matches Some(d) ==> ends_with(column_definition(c), " DEFAULT "@ + d@),
        c.default is None ==> !c.nullable ==> ends_with(column_definition(c), " NOT NULL"@),
        c.default is None ==> c.nullable ==> column_definition(c) == "  "@ + c.name@ + " "@ + c.data_type@,
{
    let base = "  "@ + c.name@ + " "@ + c.data_type@;
    let with_null = if !c.nullable { base + " NOT NULL"@ } else { base };
    let t = column_definition(c);
    assert(base.is_prefix_of(with_null)) by {
        assert(with_null.subrange(0, base.len() as int) =~= base);
    }
    match c.default {
        Some(d) => {
            assert(t == with_null + (" DEFAULT "@ + d@));
            assert(t.subrange(0, base.len() as int) =~= base);
            assert(t.subrange(t.len() - (" DEFAULT "@ + d@).len(), t.len() as int) =~= " DEFAULT "@ + d@);
            if !c.nullable {
                let bn = base + " NOT NULL"@;
                assert(t.subrange(0, bn.len() as int) =~= bn);
            }
        },
        None => {
            assert(t.subrange(0, base.len() as int) =~= base);
            if !c.nullable {
                assert(t.subrange(t.len() - " NOT NULL"@.len(), t.len() as int) =~= " NOT NULL"@);
                let bn = base + " NOT NULL"@;
                assert(t.subrange(0, bn.len() as int) =~= bn);
            }
        },
    }
}

/// The definitions of columns, in order.
pub open spec fn column_definitions(cs: Seq<ColumnInfo>) -> Seq<Seq<char>>
    decreases cs.len(),
{
    if cs.len() == 0 { Seq::empty() } else { column_definitions(cs.drop_last()).push(column_definition(cs.last())) }
}

/// The FOREIGN KEY clause of a constraint.
pub open spec fn foreign_key_clause(fk: ForeignKey) -> Seq<char> {
    "  FOREIGN KEY ("@ + fk.column@ + ") REFERENCES "@ + fk.foreign_table@ + "("@ + fk.foreign_column@ + ")"@
}

/// The FOREIGN KEY clauses, in order.
pub open spec fn foreign_key_clauses(fks: Seq<ForeignKey>) -> Seq<Seq<char>>
    decreases fks.len(),
{
    if fks.len() == 0 { Seq::empty() } else { foreign_key_clauses(fks.drop_last()).push(foreign_key_clause(fks.last())) }
}

/// The CREATE TABLE statement of a schema: column definitions, then the
/// primary key if any, then the foreign keys, one per line.
pub open spec fn create_table_sql(s: TableSchema) -> Seq<char> {
    let pk = if s.primary_key@.len() > 0 {
        seq!["  PRIMARY KEY ("@ + join(views(s.primary_key@), ", "@) + ")"@]
    } else {
        Seq::empty()
    };
    let items = column_definitions(s.columns@) + pk + foreign_key_clauses(s.foreign_keys@);
    "CREATE TABLE "@ + s.name@ + " (\n"@ + join(items, ",\n"@) + "\n);"@
}

pub fn join_strings(parts: &Vec<String>, sep: &str) -> (r: String)
    ensures r@ == join(views(parts@), sep@),
{
    let mut out = owned("");
    proof { reveal_strlit(""); }
    let mut i: usize = 0;
    while i < parts.len()
        invariant
            i <= parts@.len(),
            out@ == join(views(parts@).subrange(0, i as int), sep@),
        decreases parts.len() - i,
    {
        proof {
            let ps = views(parts@);
            assert(ps.subrange(0, i + 1).drop_last() =~= ps.subrange(0, i as int));
            assert(ps.subrange(0, i + 1).last() == parts@[i as int]@);
            if i == 0 {
                assert(ps.subrange(0, 1)[0] == parts@[0]@);
            }
        }
        if i > 0 {
            out.append(sep);
        }
        out.append(parts[i].as_str());
        proof {
            if i == 0 {
                assert(out@ =~= parts@[0]@);
            }
        }
        i = i + 1;
    }
    assert(views(parts@).subrange(0, parts@.len() as int) =~= views(parts@));
    out
}

/// The CREATE TABLE statement of a schema; see `create_table_sql`.
pub fn generate_create_table(schema: &TableSchema) -> (sql: String)
    ensures sql@ == create_table_sql(*schema),
{
    let mut items: Vec<String> = Vec::new();
    let mut i: usize = 0;
    while i < schema.columns.len()
        invariant
            i <= schema.columns@.len(),
            views(items@) == column_definitions(schema.columns@.subrange(0, i as int)),
        decreases schema.columns.len() - i,
    {
        proof { assert(schema.columns@.subrange(0, i + 1).drop_last() =~= schema.columns@.subrange(0, i as int)); }
        let col = &schema.columns[i];
        let mut def = owned("  ");
        def.append(col.name.as_str());
        def.append(" ");
        def.append(col.data_type.as_str());
        if !col.nullable {
            def.append(" NOT NULL");
        }
        match &col.default {
            Some(d) => {
                def.append(" DEFAULT ");
                def.append(d.as_str());
            },
            None => {},
        }
        items.push(def);
        assert(views(items@) =~= column_definitions(schema.columns@.subrange(0, i + 1)));
        i = i + 1;
    }
    assert(schema.columns@.subrange(0, schema.columns@.len() as int) =~= schema.columns@);
    let ghost n_cols = items@.len();
    if schema.primary_key.len() > 0 {
        let mut pk = owned("  PRIMARY KEY (");
        let joined = join_strings(&schema.primary_key, ", ");
        pk.append(joined.as_str());
        pk.append(")");
        items.push(pk);
    }
    let ghost before_fks = views(items@);
    let mut j: usize = 0;
    while j < schema.foreign_keys.len()
        invariant
            j <= schema.foreign_keys@.len(),
            views(items@) == before_fks + foreign_key_clauses(schema.foreign_keys@.subrange(0, j as int)),
        decreases schema.foreign_keys.len() - j,
    {
        proof { assert(schema.foreign_keys@.subrange(0, j + 1).drop_last() =~= schema.foreign_keys@.subrange(0, j as int)); }
        let fk = &schema.foreign_keys[j];
        let mut clause = owned("  FOREIGN KEY (");
        clause.append(fk.column.as_str());
        clause.append(") REFERENCES ");
        clause.append(fk.foreign_table.as_str());
        clause.append("(");
        clause.append(fk.foreign_column.as_str());
        clause.append(")");
        assert(clause@ == foreign_key_clause(*fk));
        let ghost prev = views(items@);
        items.push(clause);
        assert(views(items@) =~= prev.push(clause@));
        assert(views(items@) =~= before_fks + foreign_key_clauses(schema.foreign_keys@.subrange(0, j + 1)));
        j = j + 1;
    }
    assert(schema.foreign_keys@.subrange(0, schema.foreign_keys@.len() as int) =~= schema.foreign_keys@);
    let mut sql = owned("CREATE TABLE ");
    sql.append(schema.name.as_str());
    sql.append(" (\n");
    let body = join_strings(&items, ",\n");
    sql.append(body.as_str());
    sql.append("\n);");
    proof {
        let pk = if schema.primary_key@.len() > 0 {
            seq!["  PRIMARY KEY ("@ + join(views(schema.primary_key@), ", "@) + ")"@]
        } else {
            Seq::<Seq<char>>::empty()
        };
        assert(before_fks =~= column_definitions(schema.columns@) + pk);
    }
    sql
}

/// The SQL that recreates tables: each CREATE TABLE statement followed by a
/// blank line.
pub open spec fn export_sql(schemas: Seq<TableSchema>) -> Seq<char>
    decreases schemas.len(),
{
    if schemas.len() == 0 {
        Seq::empty()
    } else {
        export_sql(schemas.drop_last()) + create_table_sql(schemas.last()) + "\n\n"@
    }
}

/// The SQL that recreates the given tables; see `export_sql`.
pub fn export_database(schemas: &Vec<TableSchema>) -> (sql: String)
    ensures sql@ == export_sql(schemas@),
{
    let mut sql = owned("");
    proof { reveal_strlit(""); }
    let mut i: usize = 0;
    while i < schemas.len()
        invariant
            i <= schemas@.len(),
            sql@ == export_sql(schemas@.subrange(0, i as int)),
        decreases schemas.len() - i,
    {
        proof { assert(schemas@.subrange(0, i + 1).drop_last() =~= schemas@.subrange(0, i as int)); }
        let stmt = generate_create_table(&schemas[i]);
        sql.append(stmt.as_str());
        sql.append("\n\n");
        i = i + 1;
    }
    assert(schemas@.subrange(0, schemas@.len() as int) =~= schemas@);
    sql
}

} // verus!
