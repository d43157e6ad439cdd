//! Closed error taxonomy of the persistence engine.
//!
//! Every storage failure is reported as a tagged kind carrying the logical
//! step at which it arose and a context string, so callers can branch on
//! the kind instead of parsing text.

use vstd::prelude::*;
use vstd::string::StringExecFns;

verus! {

/// The logical step of the engine at which a storage error arose.
#[derive(Clone, Copy, PartialEq, Eq, Structural, Debug)]
pub enum Paso {
    IniciarTransaccion,
    InsertarCompetencia,
    InsertarCategoria,
    InsertarCompetidor,
    InsertarPuntaje,
    ConfirmarTransaccion,
    ConsultarHistorial,
    ConsultarCompetencia,
    ConsultarCompetidores,
    ConsultarPuntajes,
    EliminarCompetencia,
}

/// A persistence failure.
#[derive(Debug)]
pub enum DbError {
    /// The shared database handle could not be acquired.
    Connection,
    /// Startup DDL failed; the store is unusable.
    Schema { detalle: String },
    /// A statement could not be prepared.
    QueryPreparation { paso: Paso, detalle: String },
    /// A statement failed while running.
    QueryExecution { paso: Paso, detalle: String },
    /// A detail lookup named an id that is not stored.
    NotFound,
}

/// The step's name as it appears in error descriptions.
pub open spec fn nombre_de_paso(p: Paso) -> Seq<char> {
    match p {
        Paso::IniciarTransaccion => "iniciando transaccion"@,
        Paso::InsertarCompetencia => "insertando competencia"@,
        Paso::InsertarCategoria => "insertando categoria"@,
        Paso::InsertarCompetidor => "insertando competidor"@,
        Paso::InsertarPuntaje => "insertando puntaje de juez"@,
        Paso::ConfirmarTransaccion => "confirmando transaccion"@,
        Paso::ConsultarHistorial => "consultando historial"@,
        Paso::ConsultarCompetencia => "obteniendo competencia"@,
        Paso::ConsultarCompetidores => "consultando competidores"@,
        Paso::ConsultarPuntajes => "consultando puntajes"@,
        Paso::EliminarCompetencia => "eliminando competencia"@,
    }
}

impl Paso {
    /// The step's name, for error descriptions.
    pub fn nombre(&self) -> (r: &'static str)
        ensures
            r@ == nombre_de_paso(*self),
    {
        match self {
            Paso::IniciarTransaccion => "iniciando transaccion",
            Paso::InsertarCompetencia => "insertando competencia",
            Paso::InsertarCategoria => "insertando categoria",
            Paso::InsertarCompetidor => "insertando competidor",
            Paso::InsertarPuntaje => "insertando puntaje de juez",
            Paso::ConfirmarTransaccion => "confirmando transaccion",
            Paso::ConsultarHistorial => "consultando historial",
            Paso::ConsultarCompetencia => "obteniendo competencia",
            Paso::ConsultarCompetidores => "consultando competidores",
            Paso::ConsultarPuntajes => "consultando puntajes",
            Paso::EliminarCompetencia => "eliminando competencia",
        }
    }
}

impl DbError {
    /// A human-readable description of the failure, naming the logical
    /// step at which it arose.
    pub fn descripcion(&self) -> (r: String)
        ensures
            match self {
                DbError::Connection => r@ == "Error de conexion a la base de datos"@,
                DbError::Schema { detalle } => r@ == "Error inicializando esquema: "@ + detalle@,
                DbError::QueryPreparation { paso, detalle } => r@ == "Error preparando consulta ("@
                    + nombre_de_paso(*paso) + "): "@ + detalle@,
                DbError::QueryExecution { paso, detalle } => r@ == "Error "@ + nombre_de_paso(
                    *paso,
                ) + ": "@ + detalle@,
                DbError::NotFound => r@ == "Competencia no encontrada"@,
            },
    {
        match self {
            DbError::Connection => "Error de conexion a la base de datos".to_owned(),
            DbError::Schema { detalle } => "Error inicializando esquema: ".to_owned().concat(
                detalle.as_str(),
            ),
            DbError::QueryPreparation { paso, detalle } => "Error preparando consulta ("
                .to_owned()
                .concat(paso.nombre())
                .concat("): ")
                .concat(detalle.as_str()),
            DbError::QueryExecution { paso, detalle } => "Error ".to_owned().concat(
                paso.nombre(),
            ).concat(": ").concat(detalle.as_str()),
            DbError::NotFound => "Competencia no encontrada".to_owned(),
        }
    }
}

} // verus!
