//! MongoDB connections: their settings, and the tables and schemas made of
//! what the server lists and samples. Talking to the server is outside the
//! library.
use vstd::prelude::*;
use crate::database::{ColumnInfo, DatabaseError, DatabaseType, TableInfo, TableSchema};
use crate::text::{owned, str_eq, views};

verus! {

/// The kind of a BSON value, as far as a schema tells them apart.
#[derive(Debug, Clone, Copy, PartialEq, Eq, Structural)]
pub enum BsonKind {
    Null,
    Boolean,
    Int32,
    Int64,
    Double,
    Text,
    Binary,
    Array,
    Document,
    Other,
}

/// The column type a BSON kind is listed as.
pub open spec fn bson_type_name(k: BsonKind) -> Seq<char> {
    match k {
        BsonKind::Null => "null"@,
        BsonKind::Boolean => "boolean"@,
        BsonKind::Int32 => "integer"@,
        BsonKind::Int64 => "integer"@,
        BsonKind::Double => "double"@,
        BsonKind::Text => "string"@,
        BsonKind::Binary => "binary"@,
        BsonKind::Array => "array"@,
        BsonKind::Document => "object"@,
        BsonKind::Other => "unknown"@,
    }
}

/// The column type a BSON kind is listed as; see `bson_type_name`.
pub fn bson_type(k: BsonKind) -> (s: String)
    ensures s@ == bson_type_name(k),
{
    match k {
        BsonKind::Null => owned("null"),
        BsonKind::Boolean => owned("boolean"),
        BsonKind::Int32 => owned("integer"),
        BsonKind::Int64 => owned("integer"),
        BsonKind::Double => owned("double"),
        BsonKind::Text => owned("string"),
        BsonKind::Binary => owned("binary"),
        BsonKind::Array => owned("array"),
        BsonKind::Document => owned("object"),
        BsonKind::Other => owned("unknown"),
    }
}

/// `c` is the column of a sampled document's field `key` of kind `k`:
/// nullable, without default, and the key and unique column when it is `_id`.
pub open spec fn sampled_column(c: ColumnInfo, key: Seq<char>, k: BsonKind) -> bool {
    &&& c.name@ == key
    &&& c.data_type@ == bson_type_name(k)
    &&& c.nullable && c.default is None
    &&& c.is_primary_key == (key == "_id"@)
    &&& c.is_unique == (key == "_id"@)
}

/// MongoDB connection: its name, connection string, database and whether it is
/// connected.
#[derive(Debug)]
pub struct MongoDBConnection {
    name: String,
    connection_string: String,
    database_name: String,
    connected: bool,
}

impl MongoDBConnection {
    pub closed spec fn name_spec(&self) -> Seq<char> { self.name@ }
    pub closed spec fn url_spec(&self) -> Seq<char> { self.connection_string@ }
    pub closed spec fn database_spec(&self) -> Seq<char> { self.database_name@ }
    pub closed spec fn connected_spec(&self) -> bool { self.connected }

    /// A connection to a database, not yet connected.
    pub fn new(name: String, connection_string: String, database_name: String) -> (c: Self)
        ensures
            c.name_spec() == name@,
            c.url_spec() == connection_string@,
            c.database_spec() == database_name@,
            !c.connected_spec(),
    {
        MongoDBConnection { name, connection_string, database_name, connected: false }
    }

    /// The database type.
    pub fn db_type(&self) -> (t: DatabaseType)
        ensures t is MongoDB,
    {
        DatabaseType::MongoDB
    }

    /// The connection's name.
    pub fn name(&self) -> (s: String)
        ensures s@ == self.name_spec(),
    {
        self.name.clone()
    }

    /// The connection string.
    pub fn connection_string(&self) -> (s: String)
        ensures s@ == self.url_spec(),
    {
        self.connection_string.clone()
    }

    /// The database's name.
    pub fn database_name(&self) -> (s: String)
        ensures s@ == self.database_spec(),
    {
        self.database_name.clone()
    }

    /// Whether connected.
    pub fn is_connected(&self) -> (b: bool)
        ensures b == self.connected_spec(),
    {
        self.connected
    }

    /// Record that the server answered and the connection is up.
    pub fn mark_connected(&mut self)
        ensures final(self).connected_spec(), final(self).name_spec() == old(self).name_spec(),
            final(self).url_spec() == old(self).url_spec(), final(self).database_spec() == old(self).database_spec(),
    {
        self.connected = true;
    }

    /// Disconnect.
    pub fn disconnect(&mut self)
        ensures !final(self).connected_spec(), final(self).name_spec() == old(self).name_spec(),
            final(self).url_spec() == old(self).url_spec(), final(self).database_spec() == old(self).database_spec(),
    {
        self.connected = false;
    }

    /// The tables of the database, one per collection the server lists, in
    /// order and with nothing else known of them; refused when not connected.
    pub fn list_tables(&self, collection_names: Vec<String>) -> (r: Result<Vec<TableInfo>, DatabaseError>)
        ensures
            !self.connected_spec() ==> (r matches Err(DatabaseError(m)) && m@ == "Not connected"@),
            self.connected_spec() ==> (r matches Ok(ts) && ts@.len() == collection_names@.len()
                && forall|i: int| 0 <= i < ts@.len() ==> (#[trigger] ts@[i]).name == collection_names@[i]
                    && ts@[i].schema is None && ts@[i].row_count is None && ts@[i].size_bytes is None
                    && ts@[i].created_at is None),
    {
        if !self.connected {
            return Err(DatabaseError(owned("Not connected")));
        }
        let mut ts: Vec<TableInfo> = Vec::new();
        let mut rest = collection_names;
        let ghost all = rest@;
        let n = rest.len();
        let mut i: usize = 0;
        while i < n
            invariant
                n == all.len(),
                i <= n,
                rest@ == all.subrange(i as int, n as int),
                ts@.len() == i,
                forall|j: int| 0 <= j < i ==> (#[trigger] ts@[j]).name == all[j] && ts@[j].schema is None
                    && ts@[j].row_count is None && ts@[j].size_bytes is None && ts@[j].created_at is None,
            decreases n - i,
        {
            let name = rest.remove(0);
            assert(rest@ =~= all.subrange(i + 1, n as int));
            ts.push(TableInfo { name, schema: None, row_count: None, size_bytes: None, created_at: None });
            i = i + 1;
        }
        Ok(ts)
    }

    /// The schema of a collection from one of its documents, sampled by the
    /// server (its fields and their kinds, in order): a nullable column per
    /// field, keyed by `_id`; without a document, no columns and no key.
    /// Refused when not connected.
    pub fn get_table_schema(&self, table: &str, sample: Option<Vec<(String, BsonKind)>>) -> (r: Result<TableSchema, DatabaseError>)
        ensures
            !self.connected_spec() ==> (r matches Err(DatabaseError(m)) && m@ == "Not connected"@),
            self.connected_spec() ==> (r matches Ok(t) && t.name@ == table@ && t.foreign_keys@.len() == 0
                && t.indexes@.len() == 0
                && match sample {
                    Some(fields) => t.columns@.len() == fields@.len()
                        && (forall|i: int| 0 <= i < fields@.len()
                            ==> sampled_column(#[trigger] t.columns@[i], fields@[i].0@, fields@[i].1))
                        && views(t.primary_key@) == seq!["_id"@],
                    None => t.columns@.len() == 0 && t.primary_key@.len() == 0,
                }),
    {
        if !self.connected {
            return Err(DatabaseError(owned("Not connected")));
        }
        let mut columns: Vec<ColumnInfo> = Vec::new();
        let mut primary_key: Vec<String> = Vec::new();
        match sample {
            Some(fields) => {
                let mut i: usize = 0;
                while i < fields.len()
                    invariant
                        i <= fields@.len(),
                        columns@.len() == i,
                        forall|j: int| 0 <= j < i ==> sampled_column(#[trigger] columns@[j], fields@[j].0@, fields@[j].1),
                    decreases fields.len() - i,
                {
                    let is_id = str_eq(fields[i].0.as_str(), "_id");
                    columns.push(ColumnInfo {
                        name: fields[i].0.clone(),
                        data_type: bson_type(fields[i].1),
                        nullable: true,
                        default: None,
                        is_primary_key: is_id,
                        is_unique: is_id,
                    });
                    i = i + 1;
                }
                primary_key.push(owned("_id"));
                assert(views(primary_key@) =~= seq!["_id"@]);
            },
            None => {},
        }
        Ok(TableSchema {
            name: owned(table),
            columns,
            primary_key,
            foreign_keys: Vec::new(),
            indexes: Vec::new(),
        })
    }
}

} // verus!
