//! The persistence engine against an embedded SQLite database.
//!
//! Each operation mirrors its counterpart on [`crate::almacen::Almacen`],
//! which is the verified model of what these operations mean; here the
//! statements run through the trusted wrappers of [`crate::sql`], and
//! everything around the statements — rank positions, judge numbers,
//! transaction control, row assembly — is verified.

use vstd::prelude::*;

use crate::almacen::{lex_menor, vista_textos};
use crate::errores::{DbError, Paso};
use crate::modelos::{CompetenciaKata, CompetidorKata, GuardarCompetenciaRequest};
use crate::sql::exec_eliminar_competencia;
use crate::sql::exec_insertar_categoria;
use crate::sql::exec_insertar_competencia;
use crate::sql::exec_insertar_competidor;
use crate::sql::exec_insertar_puntaje;
use crate::sql::exec_simple;
use crate::sql::inicializar_esquema;
use crate::sql::consultar_competencia;
use crate::sql::consultar_competidores;
use crate::sql::consultar_historial;
use crate::sql::consultar_puntajes;
use crate::sql::texto_error;
use crate::sql::ultimo_id_insertado;
use crate::sql::FalloConsulta;
use crate::sql::FilaCabecera;
use crate::sql::FilaCompetidorDb;
use crate::sql::FilaHistorial;

verus! {

/// Abstract value of a history row.
#[verifier::ext_equal]
pub ghost struct FilaHistorialVista {
    pub id: int,
    pub nombre: Seq<char>,
    pub fecha: Seq<char>,
    pub area: Seq<char>,
    pub categoria: Option<Seq<char>>,
}

impl View for FilaHistorial {
    type V = FilaHistorialVista;

    open spec fn view(&self) -> FilaHistorialVista {
        FilaHistorialVista {
            id: self.id as int,
            nombre: self.nombre@,
            fecha: self.fecha@,
            area: self.area@,
            categoria: match self.categoria {
                Some(c) => Some(c@),
                None => None,
            },
        }
    }
}

/// Abstract value of a detail header row.
#[verifier::ext_equal]
pub ghost struct FilaCabeceraVista {
    pub id: int,
    pub nombre: Seq<char>,
    pub fecha: Seq<char>,
    pub area: Seq<char>,
    pub categoria: Option<Seq<char>>,
    pub categoria_id: Option<int>,
}

impl View for FilaCabecera {
    type V = FilaCabeceraVista;

    open spec fn view(&self) -> FilaCabeceraVista {
        FilaCabeceraVista {
            id: self.id as int,
            nombre: self.nombre@,
            fecha: self.fecha@,
            area: self.area@,
            categoria: match self.categoria {
                Some(c) => Some(c@),
                None => None,
            },
            categoria_id: match self.categoria_id {
                Some(g) => Some(g as int),
                None => None,
            },
        }
    }
}

/// Abstract value of a fetched competitor row.
#[verifier::ext_equal]
pub ghost struct FilaCompetidorDbVista {
    pub id: int,
    pub nombre: Seq<char>,
    pub edad: int,
    pub puntaje_final: Option<Seq<char>>,
    pub descalificado: bool,
    pub posicion: int,
}

impl View for FilaCompetidorDb {
    type V = FilaCompetidorDbVista;

    open spec fn view(&self) -> FilaCompetidorDbVista {
        FilaCompetidorDbVista {
            id: self.id as int,
            nombre: self.nombre@,
            edad: self.edad as int,
            puntaje_final: match self.puntaje_final {
                Some(p) => Some(p@),
                None => None,
            },
            descalificado: self.descalificado,
            posicion: self.posicion as int,
        }
    }
}

/// Ensures the four tables and three indexes exist; the DDL text stands
/// fixed inside the trusted [`crate::sql::inicializar_esquema`], creates
/// every object only if missing, and so is a no-op on an initialized
/// store and safe on every process start. A DDL failure is a distinct,
/// fatal `Schema` error, never another kind.
pub fn init_database(conn: &rusqlite::Connection) -> (r: Result<(), DbError>)
    ensures
        r matches Err(e) ==> e is Schema,
{
    match inicializar_esquema(conn) {
        Ok(_) => Ok(()),
        Err(e) => Err(DbError::Schema { detalle: texto_error(&e) }),
    }
}

/// Saves one competition with its single category, its competitors in
/// request order (position 1..N) and their judge scores in submission
/// order (judge number 1..M), all in one transaction: either every row
/// becomes visible or, after any failure, none. Returns the generated
/// competition id.
pub fn guardar_competencia_kata(
    conn: &rusqlite::Connection,
    request: &GuardarCompetenciaRequest,
) -> (r: Result<i64, DbError>)
    ensures
        r matches Err(e) ==> (e matches DbError::QueryExecution { paso, detalle: _ } && (paso
            == Paso::IniciarTransaccion || paso == Paso::InsertarCompetencia || paso
            == Paso::InsertarCategoria || paso == Paso::InsertarCompetidor || paso
            == Paso::InsertarPuntaje || paso == Paso::ConfirmarTransaccion)),
        request.competidores@.len() > i32::MAX ==> r is Err,
        r is Ok ==> request.competidores@.len() <= i32::MAX && (forall|m: int|
            0 <= m < request.competidores@.len() ==> (
            #[trigger] request.competidores@[m]).puntajes_jueces@.len() <= i32::MAX),
{
    if request.competidores.len() > (i32::MAX as usize) {
        return Err(
            DbError::QueryExecution {
                paso: Paso::InsertarCompetidor,
                detalle: "demasiados competidores".to_owned(),
            },
        );
    }
    let mut j: usize = 0;
    while j < request.competidores.len()
        invariant
            j <= request.competidores@.len(),
            forall|m: int|
                0 <= m < j ==> (#[trigger] request.competidores@[m]).puntajes_jueces@.len()
                    <= i32::MAX,
        decreases request.competidores@.len() - j,
    {
        if request.competidores[j].puntajes_jueces.len() > (i32::MAX as usize) {
            return Err(
                DbError::QueryExecution {
                    paso: Paso::InsertarPuntaje,
                    detalle: "demasiados puntajes de jueces".to_owned(),
                },
            );
        }
        j += 1;
    }

    if let Err(e) = exec_simple(conn, "BEGIN TRANSACTION") {
        return Err(
            DbError::QueryExecution {
                paso: Paso::IniciarTransaccion,
                detalle: texto_error(&e),
            },
        );
    }
    if let Err(e) = exec_insertar_competencia(
        conn,
        request.nombre.as_str(),
        request.fecha.as_str(),
        request.area.as_str(),
    ) {
        let _ = exec_simple(conn, "ROLLBACK");
        return Err(
            DbError::QueryExecution {
                paso: Paso::InsertarCompetencia,
                detalle: texto_error(&e),
            },
        );
    }
    let competencia_id = ultimo_id_insertado(conn);

    if let Err(e) = exec_insertar_categoria(
        conn,
        competencia_id,
        request.categoria.as_str(),
        request.categoria.as_str(),
    ) {
        let _ = exec_simple(conn, "ROLLBACK");
        return Err(
            DbError::QueryExecution {
                paso: Paso::InsertarCategoria,
                detalle: texto_error(&e),
            },
        );
    }
    let categoria_id = ultimo_id_insertado(conn);

    let mut i: usize = 0;
    while i < request.competidores.len()
        invariant
            i <= request.competidores@.len(),
            request.competidores@.len() <= i32::MAX,
            forall|m: int|
                0 <= m < request.competidores@.len() ==> (
                #[trigger] request.competidores@[m]).puntajes_jueces@.len() <= i32::MAX,
        decreases request.competidores@.len() - i,
    {
        let comp = &request.competidores[i];
        if let Err(e) = exec_insertar_competidor(
            conn,
            categoria_id,
            comp.nombre.as_str(),
            comp.edad,
            &comp.puntaje_final,
            comp.descalificado,
            (i + 1) as i32,
        ) {
            let _ = exec_simple(conn, "ROLLBACK");
            return Err(
                DbError::QueryExecution {
                    paso: Paso::InsertarCompetidor,
                    detalle: texto_error(&e),
                },
            );
        }
        let competidor_id = ultimo_id_insertado(conn);

        let mut k: usize = 0;
        while k < comp.puntajes_jueces.len()
            invariant
                k <= comp.puntajes_jueces@.len(),
                comp.puntajes_jueces@.len() <= i32::MAX,
            decreases comp.puntajes_jueces@.len() - k,
        {
            if let Err(e) = exec_insertar_puntaje(
                conn,
                competidor_id,
                (k + 1) as i32,
                comp.puntajes_jueces[k].as_str(),
            ) {
                let _ = exec_simple(conn, "ROLLBACK");
                return Err(
                    DbError::QueryExecution {
                        paso: Paso::InsertarPuntaje,
                        detalle: texto_error(&e),
                    },
                );
            }
            k += 1;
        }
        i += 1;
    }

    match exec_simple(conn, "COMMIT") {
        Ok(_) => Ok(competencia_id),
        Err(e) => {
            let _ = exec_simple(conn, "ROLLBACK");
            Err(
                DbError::QueryExecution {
                    paso: Paso::ConfirmarTransaccion,
                    detalle: texto_error(&e),
                },
            )
        },
    }
}

/// Turns one history row into a competition summary: a missing category
/// becomes the empty label, and a summary carries no competitors.
pub fn resumen_de_fila(fila: FilaHistorial) -> (r: CompetenciaKata)
    ensures
        r@.id == Some(fila@.id),
        r@.nombre == fila@.nombre,
        r@.fecha == fila@.fecha,
        r@.area == fila@.area,
        r@.categoria == match fila@.categoria {
            Some(c) => c,
            None => Seq::<char>::empty(),
        },
        r@.competidores.len() == 0,
{
    let categoria = match fila.categoria {
        Some(c) => c,
        None => String::new(),
    };
    CompetenciaKata {
        id: Some(fila.id),
        nombre: fila.nombre,
        fecha: fila.fecha,
        area: fila.area,
        categoria,
        competidores: Vec::new(),
    }
}

/// Lists the stored kata competitions as summaries, newest date first,
/// capped at `limit` rows when `limit` is non-negative. A competition
/// without a category appears with an empty category label.
#[verifier::loop_isolation(false)]
pub fn obtener_historial_competencias(conn: &rusqlite::Connection, limit: i32) -> (r: Result<
    Vec<CompetenciaKata>,
    DbError,
>)
    ensures
        r matches Ok(v) ==> {
            &&& limit >= 0 ==> v@.len() <= limit as int
            &&& forall|i: int| 0 <= i < v@.len() ==> (#[trigger] v@[i])@.competidores.len() == 0
            &&& forall|i: int, j: int|
                0 <= i < j < v@.len() ==> !lex_menor(
                    (#[trigger] v@[i])@.fecha,
                    (#[trigger] v@[j])@.fecha,
                )
        },
        r matches Err(e) ==> (e matches DbError::QueryPreparation {
            paso: Paso::ConsultarHistorial,
            detalle: _,
        } || e matches DbError::QueryExecution { paso: Paso::ConsultarHistorial, detalle: _ }),
{
    let mut filas = match consultar_historial(conn, limit) {
        Ok(f) => f,
        Err(FalloConsulta::Preparacion(e)) => {
            return Err(
                DbError::QueryPreparation {
                    paso: Paso::ConsultarHistorial,
                    detalle: texto_error(&e),
                },
            );
        },
        Err(FalloConsulta::Ejecucion(e)) => {
            return Err(
                DbError::QueryExecution {
                    paso: Paso::ConsultarHistorial,
                    detalle: texto_error(&e),
                },
            );
        },
    };
    let ghost filas0 = filas@;
    let mut out: Vec<CompetenciaKata> = Vec::new();
    while filas.len() > 0
        invariant
            out@.len() + filas@.len() == filas0.len(),
            filas@ == filas0.skip(out@.len() as int),
            forall|i: int| 0 <= i < out@.len() ==> (#[trigger] out@[i])@.competidores.len() == 0,
            forall|i: int|
                0 <= i < out@.len() ==> (#[trigger] out@[i])@.fecha == filas0[i]@.fecha,
        decreases filas@.len(),
    {
        let ghost hechos = out@.len() as int;
        let ghost antes = filas@;
        let fila = filas.remove(0);
        proof {
            assert(antes[0] == filas0[hechos]);
            assert(filas@ =~= filas0.skip(hechos + 1));
        }
        let resumen = resumen_de_fila(fila);
        out.push(resumen);
    }
    proof {
        assert forall|i: int, j: int|
            0 <= i < j < out@.len() implies !lex_menor(
            (#[trigger] out@[i])@.fecha,
            (#[trigger] out@[j])@.fecha,
        ) by {
            assert(!lex_menor(filas0[i]@.fecha, filas0[j]@.fecha));
        }
    }
    Ok(out)
}

/// Assembles the fetched rows of one competition detail: the header's
/// fields with a missing category as the empty label, and the `j`-th
/// competitor row paired with its `j`-th score list, in the fetched
/// order.
#[verifier::loop_isolation(false)]
pub fn armar_detalle(
    cabecera: FilaCabecera,
    filas: Vec<FilaCompetidorDb>,
    puntajes: Vec<Vec<String>>,
) -> (r: CompetenciaKata)
    requires
        filas@.len() == puntajes@.len(),
    ensures
        r@.id == Some(cabecera@.id),
        r@.nombre == cabecera@.nombre,
        r@.fecha == cabecera@.fecha,
        r@.area == cabecera@.area,
        r@.categoria == match cabecera@.categoria {
            Some(c) => c,
            None => Seq::<char>::empty(),
        },
        r@.competidores.len() == filas@.len(),
        forall|j: int|
            0 <= j < filas@.len() ==> {
                &&& (#[trigger] r@.competidores[j]).nombre == filas@[j]@.nombre
                &&& r@.competidores[j].edad == filas@[j]@.edad
                &&& r@.competidores[j].puntaje_final == filas@[j]@.puntaje_final
                &&& r@.competidores[j].descalificado == filas@[j]@.descalificado
                &&& r@.competidores[j].puntajes_jueces == vista_textos(puntajes@[j]@)
            },
{
    let mut filas = filas;
    let mut puntajes = puntajes;
    let ghost filas0 = filas@;
    let ghost punt0 = puntajes@;
    let mut comps: Vec<CompetidorKata> = Vec::new();
    while filas.len() > 0
        invariant
            comps@.len() + filas@.len() == filas0.len(),
            puntajes@.len() == filas@.len(),
            filas@ == filas0.skip(comps@.len() as int),
            puntajes@ == punt0.skip(comps@.len() as int),
            forall|j: int|
                0 <= j < comps@.len() ==> {
                    &&& ((#[trigger] comps@[j])@).nombre == filas0[j]@.nombre
                    &&& comps@[j]@.edad == filas0[j]@.edad
                    &&& comps@[j]@.puntaje_final == filas0[j]@.puntaje_final
                    &&& comps@[j]@.descalificado == filas0[j]@.descalificado
                    &&& comps@[j]@.puntajes_jueces == vista_textos(punt0[j]@)
                },
        decreases filas@.len(),
    {
        let ghost hechos = comps@.len() as int;
        let ghost filas_antes = filas@;
        let ghost punt_antes = puntajes@;
        let fila = filas.remove(0);
        let lista = puntajes.remove(0);
        proof {
            assert(filas_antes[0] == filas0[hechos]);
            assert(punt_antes[0] == punt0[hechos]);
            assert(filas@ =~= filas0.skip(hechos + 1));
            assert(puntajes@ =~= punt0.skip(hechos + 1));
        }
        let nuevo = CompetidorKata {
            nombre: fila.nombre,
            edad: fila.edad,
            puntaje_final: fila.puntaje_final,
            puntajes_jueces: lista,
            descalificado: fila.descalificado,
        };
        proof {
            assert(nuevo@.puntajes_jueces =~= vista_textos(punt0[hechos]@));
        }
        comps.push(nuevo);
    }
    let categoria = match cabecera.categoria {
        Some(c) => c,
        None => String::new(),
    };
    let r = CompetenciaKata {
        id: Some(cabecera.id),
        nombre: cabecera.nombre,
        fecha: cabecera.fecha,
        area: cabecera.area,
        categoria,
        competidores: comps,
    };
    r
}

/// Fetches the full detail of one competition: its category label, its
/// competitors in stored rank order and each competitor's judge scores in
/// judge-number order, assembled by [`armar_detalle`]. Fails with
/// `NotFound` when no competition has the given id; a competition without
/// a category has no competitors; every failure is a lookup error, never
/// another kind.
#[verifier::loop_isolation(false)]
pub fn obtener_detalles_competencia(conn: &rusqlite::Connection, competencia_id: i64) -> (r:
    Result<CompetenciaKata, DbError>)
    ensures
        r matches Ok(c) ==> c@.id == Some(competencia_id as int),
        r matches Err(e) ==> match e {
            DbError::NotFound => true,
            DbError::QueryPreparation { paso, detalle: _ } => paso == Paso::ConsultarCompetencia
                || paso == Paso::ConsultarCompetidores || paso == Paso::ConsultarPuntajes,
            DbError::QueryExecution { paso, detalle: _ } => paso == Paso::ConsultarCompetencia
                || paso == Paso::ConsultarCompetidores || paso == Paso::ConsultarPuntajes,
            _ => false,
        },
{
    let cabecera = match consultar_competencia(conn, competencia_id) {
        Ok(c) => c,
        Err(FalloConsulta::Preparacion(e)) => {
            return Err(
                DbError::QueryPreparation {
                    paso: Paso::ConsultarCompetencia,
                    detalle: texto_error(&e),
                },
            );
        },
        Err(FalloConsulta::Ejecucion(e)) => {
            return Err(
                DbError::QueryExecution {
                    paso: Paso::ConsultarCompetencia,
                    detalle: texto_error(&e),
                },
            );
        },
    };
    let cabecera = match cabecera {
        Some(c) => c,
        None => {
            return Err(DbError::NotFound);
        },
    };
    let mut filas: Vec<FilaCompetidorDb> = Vec::new();
    let mut puntajes: Vec<Vec<String>> = Vec::new();
    if let Some(categoria_id) = cabecera.categoria_id {
        filas = match consultar_competidores(conn, categoria_id) {
            Ok(f) => f,
            Err(FalloConsulta::Preparacion(e)) => {
                return Err(
                    DbError::QueryPreparation {
                        paso: Paso::ConsultarCompetidores,
                        detalle: texto_error(&e),
                    },
                );
            },
            Err(FalloConsulta::Ejecucion(e)) => {
                return Err(
                    DbError::QueryExecution {
                        paso: Paso::ConsultarCompetidores,
                        detalle: texto_error(&e),
                    },
                );
            },
        };
        let mut t: usize = 0;
        while t < filas.len()
            invariant
                puntajes@.len() == t,
                t <= filas@.len(),
            decreases filas@.len() - t,
        {
            let lista = match consultar_puntajes(conn, filas[t].id) {
                Ok(p) => p,
                Err(FalloConsulta::Preparacion(e)) => {
                    return Err(
                        DbError::QueryPreparation {
                            paso: Paso::ConsultarPuntajes,
                            detalle: texto_error(&e),
                        },
                    );
                },
                Err(FalloConsulta::Ejecucion(e)) => {
                    return Err(
                        DbError::QueryExecution {
                            paso: Paso::ConsultarPuntajes,
                            detalle: texto_error(&e),
                        },
                    );
                },
            };
            puntajes.push(lista);
            t += 1;
        }
    }
    Ok(armar_detalle(cabecera, filas, puntajes))
}

/// Deletes the competition with the given id; its category, competitors
/// and judge scores cascade away. Deleting an id that is not stored
/// succeeds, since the intended end state — absence — already holds.
pub fn eliminar_competencia(conn: &rusqlite::Connection, competencia_id: i64) -> (r: Result<
    (),
    DbError,
>)
    ensures
        r matches Err(e) ==> (e matches DbError::QueryExecution {
            paso: Paso::EliminarCompetencia,
            detalle: _,
        }),
{
    match exec_eliminar_competencia(conn, competencia_id) {
        Ok(_) => Ok(()),
        Err(e) => Err(
            DbError::QueryExecution {
                paso: Paso::EliminarCompetencia,
                detalle: texto_error(&e),
            },
        ),
    }
}

} // verus!
