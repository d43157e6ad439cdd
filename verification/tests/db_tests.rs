//! Tests of the SQLite-backed engine, on in-memory databases.

use rusqlite::Connection;

use kata_history::errores::DbError;
use kata_history::modelos::{CompetidorKata, GuardarCompetenciaRequest};
use kata_history::{
    eliminar_competencia, guardar_competencia_kata, init_database, obtener_detalles_competencia,
    obtener_historial_competencias,
};

fn abrir() -> Connection {
    let conn = Connection::open_in_memory().unwrap();
    init_database(&conn).unwrap();
    conn
}

fn peticion(nombre: &str, fecha: &str, competidores: Vec<CompetidorKata>) -> GuardarCompetenciaRequest {
    GuardarCompetenciaRequest {
        nombre: nombre.to_string(),
        fecha: fecha.to_string(),
        area: "Dojo A".to_string(),
        categoria: "Kids U10".to_string(),
        competidores,
    }
}

fn competidor(nombre: &str, edad: i32, puntaje_final: Option<&str>, puntajes: &[&str]) -> CompetidorKata {
    CompetidorKata {
        nombre: nombre.to_string(),
        edad,
        puntaje_final: puntaje_final.map(|p| p.to_string()),
        puntajes_jueces: puntajes.iter().map(|p| p.to_string()).collect(),
        descalificado: false,
    }
}

fn contar(conn: &Connection, tabla: &str) -> i64 {
    conn.query_row(&format!("SELECT COUNT(*) FROM {}", tabla), [], |row| row.get(0)).unwrap()
}

#[test]
fn test_init_database() {
    let conn = Connection::open_in_memory().unwrap();
    assert!(init_database(&conn).is_ok());

    let table_count: i32 = conn
        .query_row(
            "SELECT COUNT(*) FROM sqlite_master WHERE type='table' AND name IN ('competencias', 'categorias', 'competidores_kata', 'puntajes_jueces')",
            [],
            |row| row.get(0),
        )
        .unwrap();

    assert_eq!(table_count, 4);
}

#[test]
fn init_database_es_idempotente() {
    let conn = Connection::open_in_memory().unwrap();
    assert!(init_database(&conn).is_ok());
    assert!(init_database(&conn).is_ok());
    let table_count: i32 = conn
        .query_row(
            "SELECT COUNT(*) FROM sqlite_master WHERE type='table' AND name IN ('competencias', 'categorias', 'competidores_kata', 'puntajes_jueces')",
            [],
            |row| row.get(0),
        )
        .unwrap();
    assert_eq!(table_count, 4);
}

#[test]
fn ejemplo_regional_open() {
    let conn = abrir();
    let req = peticion(
        "Regional Open",
        "2024-05-01",
        vec![competidor("Ana", 9, Some("8.5"), &["8.0", "9.0", "8.5"])],
    );
    let id = guardar_competencia_kata(&conn, &req).unwrap();
    assert_eq!(id, 1);

    let detalle = obtener_detalles_competencia(&conn, 1).unwrap();
    assert_eq!(detalle.id, Some(1));
    assert_eq!(detalle.nombre, "Regional Open");
    assert_eq!(detalle.fecha, "2024-05-01");
    assert_eq!(detalle.area, "Dojo A");
    assert_eq!(detalle.categoria, "Kids U10");
    assert_eq!(detalle.competidores.len(), 1);
    let ana = &detalle.competidores[0];
    assert_eq!(ana.nombre, "Ana");
    assert_eq!(ana.edad, 9);
    assert_eq!(ana.puntaje_final, Some("8.5".to_string()));
    assert_eq!(ana.puntajes_jueces, vec!["8.0", "9.0", "8.5"]);
    assert!(!ana.descalificado);
}

#[test]
fn viaje_redondo_varios_competidores() {
    let conn = abrir();
    let req = peticion(
        "Copa",
        "2024-06-10",
        vec![
            competidor("Ana", 9, Some("8.5"), &["8.0", "9.0", "8.5"]),
            competidor("Luis", 10, None, &["7.25", "7.75"]),
            CompetidorKata {
                nombre: "Mar".to_string(),
                edad: 8,
                puntaje_final: Some("6.0".to_string()),
                puntajes_jueces: vec![],
                descalificado: true,
            },
        ],
    );
    let id = guardar_competencia_kata(&conn, &req).unwrap();
    let detalle = obtener_detalles_competencia(&conn, id).unwrap();
    assert_eq!(detalle.competidores.len(), 3);
    assert_eq!(detalle.competidores[0].nombre, "Ana");
    assert_eq!(detalle.competidores[1].nombre, "Luis");
    assert_eq!(detalle.competidores[1].puntaje_final, None);
    assert_eq!(detalle.competidores[1].puntajes_jueces, vec!["7.25", "7.75"]);
    assert_eq!(detalle.competidores[2].nombre, "Mar");
    assert!(detalle.competidores[2].descalificado);
    assert!(detalle.competidores[2].puntajes_jueces.is_empty());

    // stored positions follow request order, judge numbers submission order
    let posiciones: Vec<i32> = {
        let mut stmt = conn
            .prepare("SELECT posicion FROM competidores_kata ORDER BY id")
            .unwrap();
        let filas = stmt.query_map([], |row| row.get(0)).unwrap();
        filas.map(|r| r.unwrap()).collect()
    };
    assert_eq!(posiciones, vec![1, 2, 3]);
    let jueces: Vec<i32> = {
        let mut stmt = conn
            .prepare("SELECT juez_numero FROM puntajes_jueces WHERE competidor_id = 1 ORDER BY id")
            .unwrap();
        let filas = stmt.query_map([], |row| row.get(0)).unwrap();
        filas.map(|r| r.unwrap()).collect()
    };
    assert_eq!(jueces, vec![1, 2, 3]);
}

#[test]
fn historial_respeta_limite_y_orden() {
    let conn = abrir();
    guardar_competencia_kata(&conn, &peticion("A", "2024-01-01", vec![])).unwrap();
    guardar_competencia_kata(&conn, &peticion("B", "2024-03-01", vec![])).unwrap();
    guardar_competencia_kata(&conn, &peticion("C", "2024-02-01", vec![])).unwrap();

    let todos = obtener_historial_competencias(&conn, -1).unwrap();
    let nombres: Vec<&str> = todos.iter().map(|c| c.nombre.as_str()).collect();
    assert_eq!(nombres, vec!["B", "C", "A"]);
    assert!(todos.iter().all(|c| c.competidores.is_empty()));

    let dos = obtener_historial_competencias(&conn, 2).unwrap();
    assert_eq!(dos.len(), 2);
    assert_eq!(dos[0].nombre, "B");
    assert_eq!(dos[1].nombre, "C");
}

#[test]
fn historial_sin_categoria_y_sin_kumite() {
    let conn = abrir();
    // a competition saved without competitors still appears
    guardar_competencia_kata(&conn, &peticion("normal", "2024-01-05", vec![])).unwrap();
    // a raw competition without any category row: empty label
    conn.execute(
        "INSERT INTO competencias (nombre, fecha, tipo, area) VALUES ('suelta', '2024-01-01', 'kata', 'B')",
        [],
    )
    .unwrap();
    // a kumite competition is not part of the kata history
    conn.execute(
        "INSERT INTO competencias (nombre, fecha, tipo, area) VALUES ('pelea', '2024-01-02', 'kumite', 'B')",
        [],
    )
    .unwrap();

    let todos = obtener_historial_competencias(&conn, -1).unwrap();
    let nombres: Vec<&str> = todos.iter().map(|c| c.nombre.as_str()).collect();
    assert_eq!(nombres, vec!["normal", "suelta"]);
    assert_eq!(todos[0].categoria, "Kids U10");
    assert_eq!(todos[1].categoria, "");
}

#[test]
fn guardado_fallido_no_deja_filas() {
    let conn = abrir();
    guardar_competencia_kata(
        &conn,
        &peticion("previa", "2024-01-01", vec![competidor("Ana", 9, None, &["8.0"])]),
    )
    .unwrap();

    // force the insert of the competitor at index 1 (position 2) to fail
    conn.execute_batch(
        "CREATE TRIGGER falla_segundo BEFORE INSERT ON competidores_kata
         WHEN NEW.posicion = 2 BEGIN SELECT RAISE(ABORT, 'fallo forzado'); END;",
    )
    .unwrap();

    let r = guardar_competencia_kata(
        &conn,
        &peticion(
            "rota",
            "2024-02-01",
            vec![
                competidor("Uno", 9, None, &["8.0", "7.0"]),
                competidor("Dos", 10, None, &["6.0"]),
            ],
        ),
    );
    assert!(matches!(r, Err(DbError::QueryExecution { .. })));

    // nothing of the failed save is visible: only the first save remains
    assert_eq!(contar(&conn, "competencias"), 1);
    assert_eq!(contar(&conn, "categorias"), 1);
    assert_eq!(contar(&conn, "competidores_kata"), 1);
    assert_eq!(contar(&conn, "puntajes_jueces"), 1);

    // and the connection is usable again: the transaction was abandoned
    let id = guardar_competencia_kata(&conn, &peticion("sana", "2024-03-01", vec![])).unwrap();
    assert!(id > 1);
}

#[test]
fn eliminar_borra_en_cascada_y_tolera_inexistentes() {
    let conn = abrir();
    let id1 = guardar_competencia_kata(
        &conn,
        &peticion("uno", "2024-01-01", vec![competidor("Ana", 9, Some("8.5"), &["8.0", "9.0"])]),
    )
    .unwrap();
    guardar_competencia_kata(
        &conn,
        &peticion("dos", "2024-02-01", vec![competidor("Luis", 11, None, &["7.0"])]),
    )
    .unwrap();

    eliminar_competencia(&conn, id1).unwrap();
    assert_eq!(contar(&conn, "competencias"), 1);
    assert_eq!(contar(&conn, "categorias"), 1);
    assert_eq!(contar(&conn, "competidores_kata"), 1);
    assert_eq!(contar(&conn, "puntajes_jueces"), 1);

    // deleting an id that does not exist is a success, not an error
    assert!(eliminar_competencia(&conn, 9999).is_ok());
    assert_eq!(contar(&conn, "competencias"), 1);
}

#[test]
fn detalle_inexistente_not_found_en_db() {
    let conn = abrir();
    let r = obtener_detalles_competencia(&conn, 42);
    assert!(matches!(r, Err(DbError::NotFound)));
}

#[test]
fn consulta_sobre_esquema_roto_informa_preparacion() {
    let conn = abrir();
    conn.execute_batch("DROP TABLE puntajes_jueces; DROP TABLE competidores_kata; DROP TABLE categorias; DROP TABLE competencias;").unwrap();
    let r = obtener_historial_competencias(&conn, 5);
    assert!(matches!(r, Err(DbError::QueryPreparation { .. })));
}

#[test]
fn esquema_sobre_base_de_solo_lectura_falla() {
    let flags = rusqlite::OpenFlags::SQLITE_OPEN_READ_ONLY;
    let conn = Connection::open_in_memory_with_flags(flags).unwrap();
    let r = init_database(&conn);
    assert!(matches!(r, Err(DbError::Schema { .. })));
}
