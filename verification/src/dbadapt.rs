//! Database access: the connection interface, its unconfigured stand-in, the
//! ODBC connection strings and the choice of the preview query.

use vstd::prelude::*;
use crate::configshandler::{Config, DBTypes};

verus! {

/// Why a database operation failed. `Odbc` carries the driver's message.
#[derive(Debug, PartialEq, Eq)]
pub enum DBError {
    NotConfigured,
    ConnectToNone,
    Odbc(String),
}

impl DBError {
    /// The message shown to the user.
    pub fn message(&self) -> (r: String)
        ensures
            r@ == match self {
                DBError::NotConfigured => "Baza danych nie zostala jeszcze skonfigurowana!"@,
                DBError::ConnectToNone => "Spróbowano połączyć się z bazą danych typu None!"@,
                DBError::Odbc(e) => "Blad ODBC: "@ + e@,
            },
    {
        match self {
            DBError::NotConfigured => "Baza danych nie zostala jeszcze skonfigurowana!".to_owned(),
            DBError::ConnectToNone => "Spróbowano połączyć się z bazą danych typu None!".to_owned(),
            DBError::Odbc(e) => {
                let mut m = "Blad ODBC: ".to_owned();
                m.append(e.as_str());
                m
            },
        }
    }
}

/// A database the application can run SQL on.
pub trait DBConnection {
    fn execute(&self, sql: &str) -> Result<(), DBError>;

    /// The column names and the rows, as text, of a query's result.
    fn query_rows(&self, sql: &str) -> Result<(Vec<String>, Vec<Vec<String>>), DBError>;

    fn list_tables(&self) -> Result<Vec<String>, DBError>;

    /// Whether a database is connected; unless an implementation says
    /// otherwise, it is not.
    fn is_configured(&self) -> (r: bool)
        default_ensures
            !r,
    {
        false
    }
}

/// The connection used while no database is configured: every operation
/// fails with `NotConfigured`.
pub struct NullConnection;

impl DBConnection for NullConnection {
    fn execute(&self, sql: &str) -> (r: Result<(), DBError>)
        ensures
            r == Err::<(), DBError>(DBError::NotConfigured),
    {
        Err(DBError::NotConfigured)
    }

    fn query_rows(&self, sql: &str) -> (r: Result<(Vec<String>, Vec<Vec<String>>), DBError>)
        ensures
            r == Err::<(Vec<String>, Vec<Vec<String>>), DBError>(DBError::NotConfigured),
    {
        Err(DBError::NotConfigured)
    }

    fn list_tables(&self) -> (r: Result<Vec<String>, DBError>)
        ensures
            r == Err::<Vec<String>, DBError>(DBError::NotConfigured),
    {
        Err(DBError::NotConfigured)
    }

    fn is_configured(&self) -> (r: bool)
        ensures
            !r,
    {
        false
    }
}

/// The connection used while no database is configured.
pub fn empty() -> Box<dyn DBConnection> {
    Box::new(NullConnection)
}

/// The ODBC connection string of an Access database file.
pub fn access_connection_string(path: &str) -> (r: String)
    ensures
        r@ == "Driver={Microsoft Access Driver (*.mdb, *.accdb)}; Dbq="@ + path@ + ";"@,
{
    let mut s = "Driver={Microsoft Access Driver (*.mdb, *.accdb)}; Dbq=".to_owned();
    s.append(path);
    s.append(";");
    s
}

/// The ODBC connection string of an SQLite database file.
pub fn sqlite_connection_string(path: &str) -> (r: String)
    ensures
        r@ == "Driver={SQLite3 ODBC Driver}; Database="@ + path@ + ";"@,
{
    let mut s = "Driver={SQLite3 ODBC Driver}; Database=".to_owned();
    s.append(path);
    s.append(";");
    s
}

/// The connection string for a database of the given type at `path`;
/// `ConnectToNone` for no database.
pub fn connection_string_for(db_type: DBTypes, path: &str) -> (r: Result<String, DBError>)
    ensures
        match db_type {
            DBTypes::Access => r matches Ok(s) && s@ == "Driver={Microsoft Access Driver (*.mdb, *.accdb)}; Dbq="@ + path@ + ";"@,
            DBTypes::SQLite => r matches Ok(s) && s@ == "Driver={SQLite3 ODBC Driver}; Database="@ + path@ + ";"@,
            DBTypes::NoDatabase => r == Err::<String, DBError>(DBError::ConnectToNone),
        },
{
    match db_type {
        DBTypes::Access => Ok(access_connection_string(path)),
        DBTypes::SQLite => Ok(sqlite_connection_string(path)),
        DBTypes::NoDatabase => Err(DBError::ConnectToNone),
    }
}

/// The connection string for the configured database: `NotConfigured` when
/// no file is set, then as `connection_string_for`.
pub fn connection_string(config: &Config) -> (r: Result<String, DBError>)
    ensures
        match config.db_path {
            None => r == Err::<String, DBError>(DBError::NotConfigured),
            Some(p) => match config.db_type {
                DBTypes::Access => r matches Ok(s) && s@ == "Driver={Microsoft Access Driver (*.mdb, *.accdb)}; Dbq="@ + p@ + ";"@,
                DBTypes::SQLite => r matches Ok(s) && s@ == "Driver={SQLite3 ODBC Driver}; Database="@ + p@ + ";"@,
                DBTypes::NoDatabase => r == Err::<String, DBError>(DBError::ConnectToNone),
            },
        },
{
    match &config.db_path {
        None => Err(DBError::NotConfigured),
        Some(p) => connection_string_for(config.db_type, p.as_str()),
    }
}

/// The query that previews a database: everything in its first table;
/// `ConnectToNone` when it has no table.
pub fn preview_sql(tables: &Vec<String>) -> (r: Result<String, DBError>)
    ensures
        tables@.len() == 0 ==> r == Err::<String, DBError>(DBError::ConnectToNone),
        tables@.len() > 0 ==> (r matches Ok(s) && s@ == "SELECT * FROM "@ + tables@[0]@),
{
    if tables.len() == 0 {
        return Err(DBError::ConnectToNone);
    }
    let mut s = "SELECT * FROM ".to_owned();
    s.append(tables[0].as_str());
    Ok(s)
}

/// Lists the tables of `conn`, then queries the first of them with
/// `preview_sql`. What the connection answers is not known here: the result
/// is stated over the answers its `list_tables` and `query_rows` gave. An
/// error of `list_tables` is passed on, no table is `ConnectToNone`, else the
/// result is what `query_rows` answered to the preview query.
pub fn load_preview<C: DBConnection>(conn: &C) -> (r: Result<(Vec<String>, Vec<Vec<String>>), DBError>)
    ensures
        exists|tables: Result<Vec<String>, DBError>|
            #![trigger call_ensures(C::list_tables, (conn,), tables)]
            call_ensures(C::list_tables, (conn,), tables) && match tables {
                Err(e) => r == Err::<(Vec<String>, Vec<Vec<String>>), DBError>(e),
                Ok(ts) => if ts@.len() == 0 {
                    r == Err::<(Vec<String>, Vec<Vec<String>>), DBError>(DBError::ConnectToNone)
                } else {
                    exists|sql: &str|
                        #![trigger call_ensures(C::query_rows, (conn, sql), r)]
                        sql@ == "SELECT * FROM "@ + ts@[0]@ && call_ensures(C::query_rows, (conn, sql), r)
                },
            },
{
    let list = C::list_tables;
    let tables = list(conn);
    let tables = match tables {
        Ok(t) => t,
        Err(e) => return Err(e),
    };
    let sql = match preview_sql(&tables) {
        Ok(s) => s,
        Err(e) => return Err(e),
    };
    let query = C::query_rows;
    query(conn, sql.as_str())
}

/// The cells of a fetched row as text, an absent value as the empty text.
pub fn row_texts(cells: &Vec<Option<String>>) -> (r: Vec<String>)
    ensures
        r@.len() == cells@.len(),
        forall|i: int|
            0 <= i < cells@.len() ==> #[trigger] r@[i]@ == match cells@[i] {
                Some(s) => s@,
                None => Seq::<char>::empty(),
            },
{
    let mut out: Vec<String> = Vec::new();
    let mut i: usize = 0;
    while i < cells.len()
        invariant
            i <= cells@.len(),
            out@.len() == i,
            forall|j: int|
                0 <= j < i ==> #[trigger] out@[j]@ == match cells@[j] {
                    Some(s) => s@,
                    None => Seq::<char>::empty(),
                },
        decreases cells@.len() - i,
    {
        match &cells[i] {
            Some(s) => out.push(s.clone()),
            None => out.push(String::new()),
        }
        i = i + 1;
    }
    out
}

/// The names that are present, in order, the absent ones left out.
pub fn present_names(names: &Vec<Option<String>>) -> (r: Vec<String>)
    ensures
        r@.map_values(|s: String| s@) == present_seq(names@),
{
    let mut out: Vec<String> = Vec::new();
    let mut i: usize = 0;
    assert(names@.take(0) =~= Seq::<Option<String>>::empty());
    while i < names.len()
        invariant
            i <= names@.len(),
            out@.map_values(|s: String| s@) == present_seq(names@.take(i as int)),
        decreases names@.len() - i,
    {
        assert(names@.take(i + 1).drop_last() =~= names@.take(i as int));
        assert(names@.take(i + 1).last() == names@[i as int]);
        let ghost before = out@;
        match &names[i] {
            Some(s) => {
                out.push(s.clone());
                assert(out@.map_values(|s: String| s@) =~= before.map_values(|s: String| s@).push(s@));
            },
            None => {},
        }
        i = i + 1;
    }
    assert(names@.take(names@.len() as int) =~= names@);
    out
}

/// The texts of the present names, in order.
pub open spec fn present_seq(names: Seq<Option<String>>) -> Seq<Seq<char>>
    decreases names.len(),
{
    if names.len() == 0 {
        Seq::empty()
    } else {
        let rest = present_seq(names.drop_last());
        match names.last() {
            Some(s) => rest.push(s@),
            None => rest,
        }
    }
}

} // verus!
