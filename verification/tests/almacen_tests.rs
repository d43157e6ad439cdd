//! Tests of the in-memory store: the verified model of the engine.

use kata_history::almacen::Almacen;
use kata_history::errores::{DbError, Paso};
use kata_history::modelos::{CompetidorKata, GuardarCompetenciaRequest};

fn peticion(nombre: &str, fecha: &str, competidores: Vec<CompetidorKata>) -> GuardarCompetenciaRequest {
    GuardarCompetenciaRequest {
        nombre: nombre.to_string(),
        fecha: fecha.to_string(),
        area: "Area 1".to_string(),
        categoria: "Juvenil".to_string(),
        competidores,
    }
}

fn competidor(nombre: &str, edad: i32, puntaje_final: Option<&str>, puntajes: &[&str]) -> CompetidorKata {
    CompetidorKata {
        nombre: nombre.to_string(),
        edad,
        puntaje_final: puntaje_final.map(|p| p.to_string()),
        puntajes_jueces: puntajes.iter().map(|p| p.to_string()).collect(),
        descalificado: false,
    }
}

#[test]
fn viaje_redondo_modelo() {
    let mut a = Almacen::new();
    let req = peticion(
        "Regional Open",
        "2024-05-01",
        vec![
            competidor("Ana", 9, Some("8.5"), &["8.0", "9.0", "8.5"]),
            competidor("Luis", 10, None, &["7.5", "7.0"]),
        ],
    );
    let id = a.guardar_competencia_kata(&req).unwrap();
    assert_eq!(id, 1);

    let detalle = a.obtener_detalles_competencia(id).unwrap();
    assert_eq!(detalle.id, Some(1));
    assert_eq!(detalle.nombre, "Regional Open");
    assert_eq!(detalle.fecha, "2024-05-01");
    assert_eq!(detalle.area, "Area 1");
    assert_eq!(detalle.categoria, "Juvenil");
    assert_eq!(detalle.competidores.len(), 2);
    assert_eq!(detalle.competidores[0].nombre, "Ana");
    assert_eq!(detalle.competidores[0].edad, 9);
    assert_eq!(detalle.competidores[0].puntaje_final, Some("8.5".to_string()));
    assert_eq!(detalle.competidores[0].puntajes_jueces, vec!["8.0", "9.0", "8.5"]);
    assert!(!detalle.competidores[0].descalificado);
    assert_eq!(detalle.competidores[1].nombre, "Luis");
    assert_eq!(detalle.competidores[1].puntaje_final, None);
    assert_eq!(detalle.competidores[1].puntajes_jueces, vec!["7.5", "7.0"]);
}

#[test]
fn detalle_inexistente_es_not_found() {
    let a = Almacen::new();
    let r = a.obtener_detalles_competencia(7);
    assert!(matches!(r, Err(DbError::NotFound)));
}

#[test]
fn historial_ordena_por_fecha_descendente_con_limite() {
    let mut a = Almacen::new();
    a.guardar_competencia_kata(&peticion("A", "2024-01-01", vec![])).unwrap();
    a.guardar_competencia_kata(&peticion("B", "2024-03-01", vec![])).unwrap();
    a.guardar_competencia_kata(&peticion("C", "2024-02-01", vec![])).unwrap();

    let todos = a.obtener_historial_competencias(-1);
    let nombres: Vec<&str> = todos.iter().map(|c| c.nombre.as_str()).collect();
    assert_eq!(nombres, vec!["B", "C", "A"]);
    assert!(todos.iter().all(|c| c.competidores.is_empty()));
    assert!(todos.iter().all(|c| c.categoria == "Juvenil"));

    let dos = a.obtener_historial_competencias(2);
    let nombres: Vec<&str> = dos.iter().map(|c| c.nombre.as_str()).collect();
    assert_eq!(nombres, vec!["B", "C"]);

    let cero = a.obtener_historial_competencias(0);
    assert!(cero.is_empty());
}

#[test]
fn historial_fecha_igual_conserva_orden_de_guardado() {
    let mut a = Almacen::new();
    a.guardar_competencia_kata(&peticion("primera", "2024-01-01", vec![])).unwrap();
    a.guardar_competencia_kata(&peticion("segunda", "2024-01-01", vec![])).unwrap();
    let todos = a.obtener_historial_competencias(-1);
    let nombres: Vec<&str> = todos.iter().map(|c| c.nombre.as_str()).collect();
    assert_eq!(nombres, vec!["primera", "segunda"]);
}

#[test]
fn competencia_sin_categoria_lista_etiqueta_vacia() {
    // a raw store state with one competition that owns no category
    let mut a = Almacen::new();
    a.guardar_competencia_kata(&peticion("con", "2024-01-02", vec![])).unwrap();
    // drop the category table by hand, as the schema permits
    a.categorias.clear();
    let todos = a.obtener_historial_competencias(-1);
    assert_eq!(todos.len(), 1);
    assert_eq!(todos[0].nombre, "con");
    assert_eq!(todos[0].categoria, "");
    let detalle = a.obtener_detalles_competencia(1).unwrap();
    assert_eq!(detalle.categoria, "");
    assert!(detalle.competidores.is_empty());
}

#[test]
fn guardar_sin_espacio_no_cambia_nada() {
    let mut a = Almacen::new();
    a.prox_competidor = i64::MAX;
    let req = peticion("X", "2024-01-01", vec![competidor("Ana", 9, None, &["8.0"])]);
    let r = a.guardar_competencia_kata(&req);
    assert!(matches!(r, Err(DbError::QueryExecution { .. })));
    assert!(a.competencias.is_empty());
    assert!(a.categorias.is_empty());
    assert!(a.competidores.is_empty());
    assert!(a.puntajes.is_empty());
    assert_eq!(a.prox_competencia, 1);
    assert_eq!(a.prox_categoria, 1);
    assert_eq!(a.prox_puntaje, 1);
}

#[test]
fn eliminar_borra_descendientes_y_preserva_el_resto() {
    let mut a = Almacen::new();
    let id1 = a
        .guardar_competencia_kata(&peticion(
            "uno",
            "2024-01-01",
            vec![competidor("Ana", 9, Some("8.5"), &["8.0", "9.0"])],
        ))
        .unwrap();
    let id2 = a
        .guardar_competencia_kata(&peticion(
            "dos",
            "2024-02-01",
            vec![competidor("Luis", 11, None, &["7.0"])],
        ))
        .unwrap();

    a.eliminar_competencia(id1).unwrap();
    assert_eq!(a.competencias.len(), 1);
    assert_eq!(a.categorias.len(), 1);
    assert_eq!(a.competidores.len(), 1);
    assert_eq!(a.puntajes.len(), 1);
    assert_eq!(a.competidores[0].nombre, "Luis");

    // deleting an id that is not stored succeeds and changes nothing
    a.eliminar_competencia(999).unwrap();
    assert_eq!(a.competencias.len(), 1);
    let detalle = a.obtener_detalles_competencia(id2).unwrap();
    assert_eq!(detalle.nombre, "dos");
}

#[test]
fn descripcion_de_errores() {
    assert_eq!(DbError::NotFound.descripcion(), "Competencia no encontrada");
    let e = DbError::Schema { detalle: "tabla corrupta".to_string() };
    assert_eq!(e.descripcion(), "Error inicializando esquema: tabla corrupta");
    let e = DbError::QueryExecution {
        paso: Paso::InsertarCompetidor,
        detalle: "disco lleno".to_string(),
    };
    assert_eq!(e.descripcion(), "Error insertando competidor: disco lleno");
    let e = DbError::QueryPreparation {
        paso: Paso::ConsultarHistorial,
        detalle: "sin tabla".to_string(),
    };
    assert_eq!(e.descripcion(), "Error preparando consulta (consultando historial): sin tabla");
}
