use vstd::prelude::*;

verus! {

/// Connection coordinates and destination table name for a relational sink.
/// Construction only records them; opening the connection, creating the
/// table if missing and preparing the bulk-insert statement are the
/// surrounding process's I/O concern.
#[derive(Debug)]
pub struct Postgres {
    pub host: String,
    pub port: u16,
    pub user: String,
    pub password: String,
    pub db_name: String,
    pub table: String,
}

impl Postgres {
    /// Bundle the connection coordinates of the destination.
    pub fn new(
        host: String,
        port: u16,
        user: String,
        password: String,
        db_name: String,
        table: String,
    ) -> (p: Postgres)
        ensures
            p.host == host,
            p.port == port,
            p.user == user,
            p.password == password,
            p.db_name == db_name,
            p.table == table,
    {
        Postgres { host, port, user, password, db_name, table }
    }
}

} // verus!
