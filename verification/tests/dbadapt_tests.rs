use reservation_mailer::configshandler::{default_config, DBTypes};
use reservation_mailer::dbadapt::{
    access_connection_string, connection_string, connection_string_for, empty, load_preview,
    preview_sql, present_names, row_texts, sqlite_connection_string, DBConnection, DBError,
    NullConnection,
};

#[test]
fn error_messages() {
    assert_eq!(DBError::NotConfigured.message(), "Baza danych nie zostala jeszcze skonfigurowana!");
    assert_eq!(DBError::ConnectToNone.message(), "Spróbowano połączyć się z bazą danych typu None!");
    assert_eq!(DBError::Odbc("boom".to_string()).message(), "Blad ODBC: boom");
}

#[test]
fn null_connection_is_not_configured() {
    let c = NullConnection;
    assert_eq!(c.execute("SELECT 1"), Err(DBError::NotConfigured));
    assert_eq!(c.query_rows("SELECT 1"), Err(DBError::NotConfigured));
    assert_eq!(c.list_tables(), Err(DBError::NotConfigured));
    assert!(!c.is_configured());
    let b = empty();
    assert!(!b.is_configured());
    assert_eq!(b.list_tables(), Err(DBError::NotConfigured));
}

#[test]
fn connection_strings() {
    assert_eq!(
        access_connection_string("C:\\db.accdb"),
        "Driver={Microsoft Access Driver (*.mdb, *.accdb)}; Dbq=C:\\db.accdb;"
    );
    assert_eq!(sqlite_connection_string("/x.db"), "Driver={SQLite3 ODBC Driver}; Database=/x.db;");
    assert_eq!(connection_string_for(DBTypes::NoDatabase, "/x"), Err(DBError::ConnectToNone));
    assert_eq!(connection_string_for(DBTypes::SQLite, "/x").unwrap(), sqlite_connection_string("/x"));
}

#[test]
fn connection_string_of_config() {
    let mut c = default_config();
    assert_eq!(connection_string(&c), Err(DBError::NotConfigured));
    c.db_path = Some("/data/r.accdb".to_string());
    assert_eq!(connection_string(&c).unwrap(), access_connection_string("/data/r.accdb"));
    c.db_type = DBTypes::NoDatabase;
    assert_eq!(connection_string(&c), Err(DBError::ConnectToNone));
}

#[test]
fn preview_query() {
    assert_eq!(preview_sql(&vec![]), Err(DBError::ConnectToNone));
    assert_eq!(preview_sql(&vec!["Klienci".to_string(), "B".to_string()]).unwrap(), "SELECT * FROM Klienci");
}

struct FakeDb {
    tables: Vec<String>,
}

impl DBConnection for FakeDb {
    fn execute(&self, _sql: &str) -> Result<(), DBError> {
        Ok(())
    }
    fn query_rows(&self, sql: &str) -> Result<(Vec<String>, Vec<Vec<String>>), DBError> {
        Ok((vec!["sql".to_string()], vec![vec![sql.to_string()]]))
    }
    fn list_tables(&self) -> Result<Vec<String>, DBError> {
        Ok(self.tables.clone())
    }
}

#[test]
fn load_preview_queries_first_table() {
    let db = FakeDb { tables: vec!["T1".to_string(), "T2".to_string()] };
    let (headers, rows) = load_preview(&db).unwrap();
    assert_eq!(headers, vec!["sql".to_string()]);
    assert_eq!(rows, vec![vec!["SELECT * FROM T1".to_string()]]);
    assert_eq!(load_preview(&FakeDb { tables: vec![] }), Err(DBError::ConnectToNone));
    assert_eq!(load_preview(&NullConnection), Err(DBError::NotConfigured));
}

#[test]
fn row_and_table_texts() {
    let cells = vec![Some("a".to_string()), None, Some("".to_string())];
    assert_eq!(row_texts(&cells), vec!["a".to_string(), "".to_string(), "".to_string()]);
    assert_eq!(present_names(&cells), vec!["a".to_string(), "".to_string()]);
    assert!(present_names(&vec![None]).is_empty());
}
