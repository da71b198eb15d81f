//! The database manager: the registered connections, the query history of each
//! and the diagram generator. Talking to a database is the caller's: the
//! manager decides whether a query may run and records it once it has.
use vstd::prelude::*;
use crate::database::er_diagram::{diagram_edges, dot_graph, node_labels, ERDiagramGenerator};
use crate::database::query_runner::{QueryHistoryEntry, QueryRunner};
use crate::database::{DatabaseConfig, DatabaseError, DatabaseType, TableSchema};
use crate::strmap::{list_at, StrMap};
use crate::text::{concat2, owned};

verus! {

/// A registered connection: what kind of database it reaches and whether it
/// is connected.
#[derive(Debug)]
pub struct ConnectionRecord {
    pub db_type: DatabaseType,
    pub connected: bool,
}

/// The database manager.
pub struct DatabaseManager {
    connections: StrMap<ConnectionRecord>,
    query_runner: QueryRunner,
    er_diagram_generator: ERDiagramGenerator,
    config: DatabaseConfig,
}

impl DatabaseManager {
    pub closed spec fn wf(&self) -> bool {
        self.connections.wf() && self.query_runner.wf()
    }

    /// The connections by name.
    pub closed spec fn connections_view(&self) -> Map<Seq<char>, ConnectionRecord> {
        self.connections@
    }

    /// The connection names in the order first registered.
    pub closed spec fn connection_names(&self) -> Seq<Seq<char>> {
        self.connections.key_seq()
    }

    pub closed spec fn runner(&self) -> QueryRunner {
        self.query_runner
    }

    pub closed spec fn config_spec(&self) -> DatabaseConfig {
        self.config
    }

    /// A manager with no connections, keeping the configured number of history
    /// entries per connection (creating the connections directory is the
    /// caller's).
    pub fn new(config: DatabaseConfig) -> (m: Self)
        ensures
            m.wf(),
            m.connections_view() == Map::<Seq<char>, ConnectionRecord>::empty(),
            m.runner().max() == config.query_history_size,
            m.runner().history_view() == Map::<Seq<char>, Vec<QueryHistoryEntry>>::empty(),
            m.config_spec() == config,
    {
        let runner = QueryRunner::new(config.query_history_size);
        DatabaseManager {
            connections: StrMap::new(),
            query_runner: runner,
            er_diagram_generator: ERDiagramGenerator::new(),
            config,
        }
    }

    /// Register a connection under a name, replacing one of that name.
    pub fn add_connection(&mut self, name: String, connection: ConnectionRecord) -> (r: Result<(), DatabaseError>)
        requires old(self).wf(),
        ensures
            final(self).wf(),
            r is Ok,
            final(self).connections_view() == old(self).connections_view().insert(name@, connection),
            final(self).runner() == old(self).runner(),
    {
        self.connections.insert(name, connection);
        Ok(())
    }

    /// Record whether a registered connection is connected; unknown names are
    /// left alone.
    pub fn set_connected(&mut self, name: &str, connected: bool)
        requires old(self).wf(),
        ensures
            final(self).wf(),
            final(self).runner() == old(self).runner(),
            final(self).connections_view().dom() == old(self).connections_view().dom(),
            forall|k: Seq<char>| #[trigger] final(self).connections_view().contains_key(k) ==>
                final(self).connections_view()[k] == (if k == name@ {
                    ConnectionRecord { connected: connected, ..old(self).connections_view()[k] }
                } else {
                    old(self).connections_view()[k]
                }),
    {
        match self.connections.find(name) {
            Some(p) => {
                let ghost before = self.connections;
                proof { self.connections.lemma_index_of(p as int); }
                let c = self.connections.value_at_mut(p);
                c.connected = connected;
                proof {
                    StrMap::lemma_update_value(before, self.connections, p as int, self.connections.entries()[p as int].1);
                }
            },
            None => {},
        }
    }

    /// Forget a connection.
    pub fn remove_connection(&mut self, name: &str) -> (r: Result<(), DatabaseError>)
        requires old(self).wf(),
        ensures
            final(self).wf(),
            r is Ok,
            final(self).connections_view() == old(self).connections_view().remove(name@),
            final(self).runner() == old(self).runner(),
    {
        self.connections.remove(name);
        Ok(())
    }

    /// The connection names, in the order first registered.
    pub fn list_connections(&self) -> (r: Vec<String>)
        requires self.wf(),
        ensures
            r@.len() == self.connection_names().len(),
            forall|i: int| 0 <= i < r@.len() ==> #[trigger] r@[i]@ == self.connection_names()[i],
            self.connection_names().no_duplicates(),
            forall|k: Seq<char>| #[trigger] self.connections_view().contains_key(k) <==> self.connection_names().contains(k),
    {
        proof { self.connections.lemma_key_seq(); }
        self.connections.keys()
    }

    /// Whether a query may run on a connection: it must be registered and
    /// connected. The caller runs it and then reports it with `query_executed`.
    pub fn execute_query(&self, connection_name: &str, query: &str) -> (r: Result<(), DatabaseError>)
        requires self.wf(),
        ensures
            !self.connections_view().contains_key(connection_name@) ==>
                (r matches Err(DatabaseError(m)) && m@ == "Connection not found: "@ + connection_name@),
            self.connections_view().contains_key(connection_name@) && !self.connections_view()[connection_name@].connected ==>
                (r matches Err(DatabaseError(m)) && m@ == "Connection not connected"@),
            self.connections_view().contains_key(connection_name@) && self.connections_view()[connection_name@].connected ==>
                r is Ok,
    {
        match self.connections.get(connection_name) {
            Some(c) => {
                if c.connected {
                    Ok(())
                } else {
                    Err(DatabaseError(owned("Connection not connected")))
                }
            },
            None => Err(DatabaseError(concat2("Connection not found: ", connection_name))),
        }
    }

    /// A query ran on a connection in `execution_time_ms`: it enters that
    /// connection's history.
    pub fn query_executed(&mut self, connection_name: &str, query: &str, execution_time_ms: u64)
        requires old(self).wf(),
        ensures
            final(self).wf(),
            final(self).connections_view() == old(self).connections_view(),
            final(self).runner().max() == old(self).runner().max(),
            final(self).runner().history_view().dom() == old(self).runner().history_view().dom().insert(connection_name@),
            forall|k: Seq<char>| #[trigger] final(self).runner().history_view().contains_key(k) && k != connection_name@
                ==> final(self).runner().history_view()[k] == old(self).runner().history_view()[k],
            ({
                let before = list_at(old(self).runner().history_view(), connection_name@);
                let after = list_at(final(self).runner().history_view(), connection_name@);
                let n: int = if before.len() + 1 > old(self).runner().max() { before.len() as int } else { before.len() + 1int };
                &&& after.len() == n
                &&& n > 0 ==> (after[0].query@ == query@ && after[0].execution_time_ms == execution_time_ms
                    && after[0].success && after[0].rows_affected == 0)
                &&& forall|i: int| 1 <= i < n ==> #[trigger] after[i] == before[i - 1]
            }),
    {
        self.query_runner.record_query(connection_name, query, execution_time_ms);
    }

    /// Whether a connection can open a transaction (or list its tables, read a
    /// table's schema or give its statistics): it must be registered.
    pub fn execute_transaction(&self, connection_name: &str) -> (r: Result<(), DatabaseError>)
        requires self.wf(),
        ensures
            self.connections_view().contains_key(connection_name@) ==> r is Ok,
            !self.connections_view().contains_key(connection_name@) ==>
                (r matches Err(DatabaseError(m)) && m@ == "Connection not found: "@ + connection_name@),
    {
        if self.connections.contains_key(connection_name) {
            Ok(())
        } else {
            Err(DatabaseError(concat2("Connection not found: ", connection_name)))
        }
    }

    /// The history of a connection, newest first.
    pub fn get_query_history(&self, connection_name: &str) -> (r: Vec<QueryHistoryEntry>)
        requires self.wf(),
        ensures r@ == list_at(self.runner().history_view(), connection_name@),
    {
        self.query_runner.get_history(connection_name)
    }

    /// Forget every connection's history.
    pub fn clear_history(&mut self)
        requires old(self).wf(),
        ensures
            final(self).wf(),
            final(self).connections_view() == old(self).connections_view(),
            final(self).runner().max() == old(self).runner().max(),
            final(self).runner().history_view() == Map::<Seq<char>, Vec<QueryHistoryEntry>>::empty(),
    {
        self.query_runner.clear();
    }

    /// The Graphviz diagram of the schemas read from a connection.
    pub fn generate_er_diagram(&self, schemas: &[TableSchema]) -> (r: Result<String, DatabaseError>)
        ensures
            r matches Ok(s) && s@ == dot_graph(node_labels(schemas@), diagram_edges(schemas@, schemas@.len() as int)),
    {
        self.er_diagram_generator.generate(schemas)
    }
}

} // verus!
