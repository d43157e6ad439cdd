//! Trusted boundary to the embedded SQLite engine.
//!
//! Every item in this module either declares a rusqlite type or wraps one
//! rusqlite call; nothing else in the crate touches rusqlite directly.
//! Scores travel across this boundary as decimal text: they are bound
//! through `CAST(? AS REAL)` and read back as the shortest decimal text
//! that denotes the stored value.

use vstd::prelude::*;

use crate::almacen::lex_menor;

verus! {

#[verifier::external_type_specification]
#[verifier::external_body]
pub struct ExConnection(rusqlite::Connection);

#[verifier::external_type_specification]
#[verifier::external_body]
pub struct ExRusqliteError(rusqlite::Error);

/// A query failure, split by the call that raised it.
pub enum FalloConsulta {
    /// `Connection::prepare` failed: the statement is malformed.
    Preparacion(rusqlite::Error),
    /// Running the prepared statement failed.
    Ejecucion(rusqlite::Error),
}

/// One row of the history listing; `categoria` is `None` where the
/// competition has no category row (left-join semantics).
pub struct FilaHistorial {
    pub id: i64,
    pub nombre: String,
    pub fecha: String,
    pub area: String,
    pub categoria: Option<String>,
}

/// The header row of a competition detail lookup.
pub struct FilaCabecera {
    pub id: i64,
    pub nombre: String,
    pub fecha: String,
    pub area: String,
    pub categoria: Option<String>,
    pub categoria_id: Option<i64>,
}

/// One competitor row as stored, scores as decimal text.
pub struct FilaCompetidorDb {
    pub id: i64,
    pub nombre: String,
    pub edad: i32,
    pub puntaje_final: Option<String>,
    pub descalificado: bool,
    pub posicion: i32,
}

/// Relies on `rusqlite::Connection::execute_batch` to run the schema DDL:
/// the four tables (`competencias`, `categorias`, `competidores_kata`,
/// `puntajes_jueces`, each child cascading on delete of its owner), the
/// three indexes, and `PRAGMA foreign_keys = ON` for this connection.
/// Every object is created `IF NOT EXISTS`, so a rerun on an initialized
/// store changes nothing; the statements run in order, stopping at the
/// first failure.
#[verifier::external_body]
pub(crate) fn inicializar_esquema(conn: &rusqlite::Connection) -> Result<(), rusqlite::Error> {
    conn.execute_batch("PRAGMA foreign_keys = ON; CREATE TABLE IF NOT EXISTS competencias (id INTEGER PRIMARY KEY AUTOINCREMENT, nombre TEXT NOT NULL, fecha DATE NOT NULL, tipo TEXT CHECK(tipo IN ('kata', 'kumite')) NOT NULL, area TEXT, created_at TIMESTAMP DEFAULT CURRENT_TIMESTAMP); CREATE TABLE IF NOT EXISTS categorias (id INTEGER PRIMARY KEY AUTOINCREMENT, competencia_id INTEGER NOT NULL, nombre TEXT NOT NULL, titulo TEXT, FOREIGN KEY (competencia_id) REFERENCES competencias(id) ON DELETE CASCADE); CREATE TABLE IF NOT EXISTS competidores_kata (id INTEGER PRIMARY KEY AUTOINCREMENT, categoria_id INTEGER NOT NULL, nombre TEXT NOT NULL, edad INTEGER NOT NULL, puntaje_final REAL, descalificado BOOLEAN DEFAULT 0, posicion INTEGER, FOREIGN KEY (categoria_id) REFERENCES categorias(id) ON DELETE CASCADE); CREATE TABLE IF NOT EXISTS puntajes_jueces (id INTEGER PRIMARY KEY AUTOINCREMENT, competidor_id INTEGER NOT NULL, juez_numero INTEGER NOT NULL, puntaje REAL NOT NULL, FOREIGN KEY (competidor_id) REFERENCES competidores_kata(id) ON DELETE CASCADE); CREATE INDEX IF NOT EXISTS idx_competencias_fecha ON competencias(fecha); CREATE INDEX IF NOT EXISTS idx_competidores_categoria ON competidores_kata(categoria_id); CREATE INDEX IF NOT EXISTS idx_puntajes_competidor ON puntajes_jueces(competidor_id);")
}

/// Relies on `rusqlite::Connection::execute` with no parameters; used for
/// transaction control statements.
#[verifier::external_body]
pub(crate) fn exec_simple(conn: &rusqlite::Connection, sql: &str) -> Result<
    usize,
    rusqlite::Error,
> {
    conn.execute(sql, [])
}

/// Relies on `rusqlite::Connection::execute`: inserts one competition row
/// with the discipline fixed to `'kata'`. On success one row was inserted.
#[verifier::external_body]
pub(crate) fn exec_insertar_competencia(
    conn: &rusqlite::Connection,
    nombre: &str,
    fecha: &str,
    area: &str,
) -> (r: Result<usize, rusqlite::Error>)
    ensures
        r matches Ok(n) ==> n == 1,
{
    conn.execute(
        "INSERT INTO competencias (nombre, fecha, tipo, area) VALUES (?, ?, 'kata', ?)",
        (nombre, fecha, area),
    )
}

/// Relies on `rusqlite::Connection::execute`: inserts one category row
/// owned by the given competition. On success one row was inserted.
#[verifier::external_body]
pub(crate) fn exec_insertar_categoria(
    conn: &rusqlite::Connection,
    competencia_id: i64,
    nombre: &str,
    titulo: &str,
) -> (r: Result<usize, rusqlite::Error>)
    ensures
        r matches Ok(n) ==> n == 1,
{
    conn.execute(
        "INSERT INTO categorias (competencia_id, nombre, titulo) VALUES (?, ?, ?)",
        (competencia_id, nombre, titulo),
    )
}

/// Relies on `rusqlite::Connection::execute`: inserts one competitor row;
/// the final score is decimal text converted to REAL by SQLite (`NULL`
/// stays `NULL`). On success one row was inserted.
#[verifier::external_body]
pub(crate) fn exec_insertar_competidor(
    conn: &rusqlite::Connection,
    categoria_id: i64,
    nombre: &str,
    edad: i32,
    puntaje_final: &Option<String>,
    descalificado: bool,
    posicion: i32,
) -> (r: Result<usize, rusqlite::Error>)
    ensures
        r matches Ok(n) ==> n == 1,
{
    conn.execute(
        "INSERT INTO competidores_kata (categoria_id, nombre, edad, puntaje_final, descalificado, posicion)
         VALUES (?, ?, ?, CAST(? AS REAL), ?, ?)",
        (categoria_id, nombre, edad, puntaje_final.as_deref(), descalificado, posicion),
    )
}

/// Relies on `rusqlite::Connection::execute`: inserts one judge-score row;
/// the score is decimal text converted to REAL by SQLite. On success one
/// row was inserted.
#[verifier::external_body]
pub(crate) fn exec_insertar_puntaje(
    conn: &rusqlite::Connection,
    competidor_id: i64,
    juez_numero: i32,
    puntaje: &str,
) -> (r: Result<usize, rusqlite::Error>)
    ensures
        r matches Ok(n) ==> n == 1,
{
    conn.execute(
        "INSERT INTO puntajes_jueces (competidor_id, juez_numero, puntaje) VALUES (?, ?, CAST(? AS REAL))",
        (competidor_id, juez_numero, puntaje),
    )
}

/// Relies on `rusqlite::Connection::execute`: deletes the competition row
/// with the given id, if any; dependent rows cascade.
#[verifier::external_body]
pub(crate) fn exec_eliminar_competencia(
    conn: &rusqlite::Connection,
    competencia_id: i64,
) -> Result<usize, rusqlite::Error> {
    conn.execute("DELETE FROM competencias WHERE id = ?", (competencia_id,))
}

/// Relies on `rusqlite::Connection::last_insert_rowid`: the rowid of the
/// most recent successful insert on this connection.
#[verifier::external_body]
pub(crate) fn ultimo_id_insertado(conn: &rusqlite::Connection) -> i64 {
    conn.last_insert_rowid()
}

/// Relies on `rusqlite::Connection::prepare` and
/// `rusqlite::Statement::query_map`: the kata competitions left-joined with
/// their category name, newest date first, at most `limit` rows when
/// `limit` is non-negative (a negative SQL `LIMIT` means no limit). The
/// SQL orders by the date text descending under SQLite's default BINARY
/// collation — byte order on UTF-8 text, which is code-point order, the
/// order of [`lex_menor`] — and any row whose columns do not decode turns
/// the whole result into `Err`.
#[verifier::external_body]
pub(crate) fn consultar_historial(conn: &rusqlite::Connection, limit: i32) -> (r: Result<
    Vec<FilaHistorial>,
    FalloConsulta,
>)
    ensures
        limit >= 0 ==> (r matches Ok(v) ==> v@.len() <= limit as int),
        r matches Ok(v) ==> forall|i: int, j: int|
            0 <= i < j < v@.len() ==> !lex_menor((#[trigger] v@[i])@.fecha, (#[trigger] v@[j])@.fecha),
{
    let sql = "SELECT c.id, c.nombre, c.fecha, c.area, cat.nombre as categoria FROM competencias c LEFT JOIN categorias cat ON cat.competencia_id = c.id WHERE c.tipo = 'kata' ORDER BY c.fecha DESC LIMIT ?";
    let mut stmt = conn.prepare(sql).map_err(FalloConsulta::Preparacion)?;
    let filas = stmt.query_map([limit], |row| {
        Ok(FilaHistorial { id: row.get(0)?, nombre: row.get(1)?, fecha: row.get(2)?, area: row.get(3)?, categoria: row.get(4)? })
    }).map_err(FalloConsulta::Ejecucion)?;
    filas.collect::<Result<Vec<FilaHistorial>, rusqlite::Error>>().map_err(FalloConsulta::Ejecucion)
}

/// Relies on `rusqlite::Connection::prepare` and
/// `rusqlite::Statement::query_map`: the competition row with the given
/// id, left-joined with its category, or `None` if no competition matches.
/// Should a competition own several categories — the write path never
/// creates more than one — the first joined row is returned.
#[verifier::external_body]
pub(crate) fn consultar_competencia(conn: &rusqlite::Connection, competencia_id: i64) -> (r:
    Result<Option<FilaCabecera>, FalloConsulta>)
    ensures
        r matches Ok(Some(f)) ==> f.id == competencia_id,
{
    let sql = "SELECT c.id, c.nombre, c.fecha, c.area, cat.nombre as categoria, cat.id as categoria_id FROM competencias c LEFT JOIN categorias cat ON cat.competencia_id = c.id WHERE c.id = ?";
    let mut stmt = conn.prepare(sql).map_err(FalloConsulta::Preparacion)?;
    let filas = stmt.query_map([competencia_id], |row| {
        Ok(FilaCabecera { id: row.get(0)?, nombre: row.get(1)?, fecha: row.get(2)?, area: row.get(3)?, categoria: row.get(4)?, categoria_id: row.get(5)? })
    }).map_err(FalloConsulta::Ejecucion)?;
    let mut v = filas.collect::<Result<Vec<FilaCabecera>, rusqlite::Error>>().map_err(FalloConsulta::Ejecucion)?;
    Ok(if v.is_empty() { None } else { Some(v.remove(0)) })
}

/// Relies on `rusqlite::Connection::prepare` and
/// `rusqlite::Statement::query_map`: the competitors of the given
/// category, ordered by position; the stored REAL score is rendered as the
/// shortest decimal text denoting it, `NULL` as `None`.
#[verifier::external_body]
pub(crate) fn consultar_competidores(conn: &rusqlite::Connection, categoria_id: i64) -> (r: Result<
    Vec<FilaCompetidorDb>,
    FalloConsulta,
>)
    ensures
        r matches Ok(v) ==> forall|i: int, j: int|
            0 <= i < j < v@.len() ==> (#[trigger] v@[i]).posicion <= (#[trigger] v@[j]).posicion,
{
    let sql = "SELECT id, nombre, edad, puntaje_final, descalificado, posicion FROM competidores_kata WHERE categoria_id = ? ORDER BY posicion";
    let mut stmt = conn.prepare(sql).map_err(FalloConsulta::Preparacion)?;
    let filas = stmt.query_map([categoria_id], |row| {
        let p = match row.get_ref(3)? {
            rusqlite::types::ValueRef::Real(x) => Some(format!("{:?}", x)),
            rusqlite::types::ValueRef::Integer(n) => Some(format!("{}", n)),
            _ => None,
        };
        Ok(FilaCompetidorDb { id: row.get(0)?, nombre: row.get(1)?, edad: row.get(2)?, puntaje_final: p, descalificado: row.get(4)?, posicion: row.get(5)? })
    }).map_err(FalloConsulta::Ejecucion)?;
    filas.collect::<Result<Vec<FilaCompetidorDb>, rusqlite::Error>>().map_err(FalloConsulta::Ejecucion)
}

/// Relies on `rusqlite::Connection::prepare` and
/// `rusqlite::Statement::query_map`: the judge scores of the given
/// competitor, ordered by judge number, each rendered as the shortest
/// decimal text denoting the stored REAL value.
#[verifier::external_body]
pub(crate) fn consultar_puntajes(conn: &rusqlite::Connection, competidor_id: i64) -> Result<
    Vec<String>,
    FalloConsulta,
> {
    let sql = "SELECT puntaje FROM puntajes_jueces WHERE competidor_id = ? ORDER BY juez_numero";
    let mut stmt = conn.prepare(sql).map_err(FalloConsulta::Preparacion)?;
    let filas = stmt.query_map([competidor_id], |row| {
        Ok(match row.get_ref(0)? {
            rusqlite::types::ValueRef::Real(x) => format!("{:?}", x),
            rusqlite::types::ValueRef::Integer(n) => format!("{}", n),
            _ => String::new(),
        })
    }).map_err(FalloConsulta::Ejecucion)?;
    filas.collect::<Result<Vec<String>, rusqlite::Error>>().map_err(FalloConsulta::Ejecucion)
}

/// Relies on `std::string::ToString` through rusqlite's `Display` impl for
/// `rusqlite::Error`: a human-readable description of the error.
#[verifier::external_body]
pub(crate) fn texto_error(e: &rusqlite::Error) -> String {
    e.to_string()
}

} // verus!
