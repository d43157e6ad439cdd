//! Persistence core for a kata-competition scoring history.
//!
//! A competition owns one category; the category owns ranked competitors;
//! each competitor owns an ordered list of judge scores.  The crate offers
//! two faces of the same engine:
//!
//! - [`almacen`]: a verified in-memory relational store whose operations
//!   carry exact contracts (atomic save, ordered history, hierarchical
//!   detail, cascading delete); [`leyes`] proves the laws that relate
//!   those operations;
//! - [`db`]: the same operations against an embedded SQLite database,
//!   where each SQL statement runs behind a trusted wrapper and every
//!   decision around the statements is verified.

pub mod almacen;
pub mod db;
pub mod errores;
pub mod leyes;
pub mod modelos;
pub mod sql;

pub use db::eliminar_competencia;
pub use db::guardar_competencia_kata;
pub use db::init_database;
pub use db::obtener_detalles_competencia;
pub use db::obtener_historial_competencias;
