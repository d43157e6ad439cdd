//! The laws that relate the store's operations, each proved from the
//! model functions that the operations' own contracts are stated over.

use vstd::prelude::*;

use crate::almacen::{
    bloque_puntajes, cabe, categoria_eliminada, competidor_eliminado, competidores_de, cuantas,
    detalle_de_filas, detalle_modelo, eliminar_modelo, fila_categoria_nueva,
    fila_competencia_nueva, filas_competidores_nuevas, filas_puntajes_nuevas, filtrar,
    funcion_detalle, guardar_modelo, lema_filtrar_contenido, lema_filtrar_mantiene,
    lema_filtrar_nada, lema_filtrar_suma, lema_filtrar_todo, lema_fpn_caracter,
    lema_posicion_insercion, lex_menor, posicion_insercion, pred_categoria_queda,
    pred_competencia_queda, pred_competidor_queda, pred_competidores_de, pred_puntaje_queda,
    existe_categoria, existe_competencia, existe_competidor, pred_puntajes_de,
    primera_categoria, primera_competencia, puntajes_de, resumen_modelo,
    AlmacenVista, FilaCategoriaVista, FilaCompetenciaVista,
};
use crate::modelos::{CompetidorVista, PeticionVista};

verus! {

/// The history listing respects the limit and is ordered by date, newest
/// first: in a well-formed store the listed prefix is pairwise ordered
/// with no later date after an earlier one, and a non-negative limit
/// caps the count.
pub proof fn lema_historial_ordenado(s: AlmacenVista, limit: int)
    requires
        s.wf(),
    ensures
        cuantas(limit, s.competencias.len() as int) <= s.competencias.len(),
        limit >= 0 ==> cuantas(limit, s.competencias.len() as int) <= limit,
        forall|i: int, j: int|
            0 <= i < j < cuantas(limit, s.competencias.len() as int) ==> !lex_menor(
                resumen_modelo(s, #[trigger] s.competencias[i]).fecha,
                resumen_modelo(s, #[trigger] s.competencias[j]).fecha,
            ),
{
}

/// A competition with no category is still listed, with an empty
/// category label.
pub proof fn lema_resumen_sin_categoria(s: AlmacenVista, f: FilaCompetenciaVista)
    requires
        primera_categoria(s.categorias, f.id) is None,
    ensures
        resumen_modelo(s, f).categoria == Seq::<char>::empty(),
        resumen_modelo(s, f).competidores.len() == 0,
{
}

/// Deleting a competition removes every descendant row — its categories,
/// their competitors, and their judge scores — and touches nothing that
/// belongs to another competition.
pub proof fn lema_eliminacion_en_cascada(s: AlmacenVista, borrar: int)
    requires
        s.wf(),
    ensures
        forall|k: int|
            0 <= k < eliminar_modelo(s, borrar).competencias.len() ==> (
            #[trigger] eliminar_modelo(s, borrar).competencias[k]).id != borrar,
        forall|k: int|
            0 <= k < eliminar_modelo(s, borrar).categorias.len() ==> (
            #[trigger] eliminar_modelo(s, borrar).categorias[k]).competencia_id != borrar,
        forall|k: int|
            0 <= k < eliminar_modelo(s, borrar).competidores.len() ==> !categoria_eliminada(
                s.categorias,
                borrar,
                (#[trigger] eliminar_modelo(s, borrar).competidores[k]).categoria_id,
            ),
        forall|k: int|
            0 <= k < eliminar_modelo(s, borrar).puntajes.len() ==> !competidor_eliminado(
                s.competidores,
                s.categorias,
                borrar,
                (#[trigger] eliminar_modelo(s, borrar).puntajes[k]).competidor_id,
            ),
        forall|k: int|
            0 <= k < s.competencias.len() && (#[trigger] s.competencias[k]).id != borrar
                ==> eliminar_modelo(s, borrar).competencias.contains(s.competencias[k]),
        forall|k: int|
            0 <= k < s.categorias.len() && (#[trigger] s.categorias[k]).competencia_id != borrar
                ==> eliminar_modelo(s, borrar).categorias.contains(s.categorias[k]),
        forall|k: int|
            0 <= k < s.competidores.len() && !categoria_eliminada(
                s.categorias,
                borrar,
                (#[trigger] s.competidores[k]).categoria_id,
            ) ==> eliminar_modelo(s, borrar).competidores.contains(s.competidores[k]),
        forall|k: int|
            0 <= k < s.puntajes.len() && !competidor_eliminado(
                s.competidores,
                s.categorias,
                borrar,
                (#[trigger] s.puntajes[k]).competidor_id,
            ) ==> eliminar_modelo(s, borrar).puntajes.contains(s.puntajes[k]),
{
    lema_filtrar_contenido(s.competencias, pred_competencia_queda(borrar));
    lema_filtrar_contenido(s.categorias, pred_categoria_queda(borrar));
    lema_filtrar_contenido(s.competidores, pred_competidor_queda(s.categorias, borrar));
    lema_filtrar_contenido(s.puntajes, pred_puntaje_queda(s.competidores, s.categorias, borrar));
    lema_filtrar_mantiene(s.competencias, pred_competencia_queda(borrar));
    lema_filtrar_mantiene(s.categorias, pred_categoria_queda(borrar));
    lema_filtrar_mantiene(s.competidores, pred_competidor_queda(s.categorias, borrar));
    lema_filtrar_mantiene(s.puntajes, pred_puntaje_queda(s.competidores, s.categorias, borrar));
}

/// Deleting an id that no competition carries changes nothing: the end
/// state — absence — already holds.
pub proof fn lema_eliminar_ausente(s: AlmacenVista, borrar: int)
    requires
        s.wf(),
        !existe_competencia(s.competencias, borrar),
    ensures
        eliminar_modelo(s, borrar) == s,
{
    assert forall|k: int|
        0 <= k < s.competencias.len() implies (#[trigger] s.competencias[k]).id != borrar by {}
    assert forall|k: int|
        0 <= k < s.categorias.len() implies (#[trigger] s.categorias[k]).competencia_id
        != borrar by {
        if s.categorias[k].competencia_id == borrar {
            assert(existe_competencia(s.competencias, s.categorias[k].competencia_id));
            let m = choose|m: int|
                0 <= m < s.competencias.len() && (#[trigger] s.competencias[m]).id
                    == s.categorias[k].competencia_id;
            assert(false);
        }
    }
    assert forall|x: int| !(#[trigger] categoria_eliminada(s.categorias, borrar, x)) by {
        if categoria_eliminada(s.categorias, borrar, x) {
            let k = choose|k: int|
                0 <= k < s.categorias.len() && (#[trigger] s.categorias[k]).competencia_id
                    == borrar && s.categorias[k].id == x;
            assert(false);
        }
    }
    assert forall|x: int|
        !(#[trigger] competidor_eliminado(s.competidores, s.categorias, borrar, x)) by {
        if competidor_eliminado(s.competidores, s.categorias, borrar, x) {
            let k = choose|k: int|
                0 <= k < s.competidores.len() && (#[trigger] s.competidores[k]).id == x
                    && categoria_eliminada(s.categorias, borrar, s.competidores[k].categoria_id);
            assert(false);
        }
    }
    lema_filtrar_todo(s.competencias, pred_competencia_queda(borrar));
    lema_filtrar_todo(s.categorias, pred_categoria_queda(borrar));
    lema_filtrar_todo(s.competidores, pred_competidor_queda(s.categorias, borrar));
    lema_filtrar_todo(s.puntajes, pred_puntaje_queda(s.competidores, s.categorias, borrar));
    assert(eliminar_modelo(s, borrar) =~= s);
}

proof fn lema_primera_en_insercion(s: Seq<FilaCompetenciaVista>, pos: int, f: FilaCompetenciaVista)
    requires
        0 <= pos <= s.len(),
        forall|k: int| 0 <= k < s.len() ==> (#[trigger] s[k]).id != f.id,
    ensures
        primera_competencia(s.insert(pos, f), f.id) == Some(f),
    decreases pos,
{
    if pos == 0 {
        assert(s.insert(0, f)[0] == f);
    } else {
        assert(s.insert(pos, f)[0] == s[0]);
        assert(s.insert(pos, f).drop_first() =~= s.drop_first().insert(pos - 1, f));
        assert forall|k: int| 0 <= k < s.drop_first().len() implies (
        #[trigger] s.drop_first()[k]).id != f.id by {
            assert(s.drop_first()[k] == s[k + 1]);
        }
        lema_primera_en_insercion(s.drop_first(), pos - 1, f);
    }
}

proof fn lema_primera_categoria_al_final(s: Seq<FilaCategoriaVista>, g: FilaCategoriaVista)
    requires
        forall|k: int| 0 <= k < s.len() ==> (#[trigger] s[k]).competencia_id != g.competencia_id,
    ensures
        primera_categoria(s.push(g), g.competencia_id) == Some(g),
    decreases s.len(),
{
    if s.len() == 0 {
        assert(s.push(g)[0] == g);
    } else {
        assert(s.push(g)[0] == s[0]);
        assert(s.push(g).drop_first() =~= s.drop_first().push(g));
        assert forall|k: int| 0 <= k < s.drop_first().len() implies (
        #[trigger] s.drop_first()[k]).competencia_id != g.competencia_id by {
            assert(s.drop_first()[k] == s[k + 1]);
        }
        lema_primera_categoria_al_final(s.drop_first(), g);
    }
}

proof fn lema_puntajes_del_bloque(c: Seq<CompetidorVista>, bc: int, bp: int, j: int)
    requires
        0 <= j < c.len(),
    ensures
        puntajes_de(filas_puntajes_nuevas(c, bc, bp), bc + j) == c[j].puntajes_jueces,
    decreases j,
{
    let bloque = bloque_puntajes(c[0].puntajes_jueces, bc, bp);
    let resto = filas_puntajes_nuevas(
        c.drop_first(),
        bc + 1,
        bp + c[0].puntajes_jueces.len(),
    );
    assert(filas_puntajes_nuevas(c, bc, bp) == bloque + resto);
    lema_fpn_caracter(c.drop_first(), bc + 1, bp + c[0].puntajes_jueces.len());
    lema_filtrar_suma(bloque, resto, pred_puntajes_de(bc + j));
    if j == 0 {
        lema_filtrar_todo(bloque, pred_puntajes_de(bc));
        lema_filtrar_nada(resto, pred_puntajes_de(bc));
        assert(filtrar(bloque, pred_puntajes_de(bc)) + filtrar(resto, pred_puntajes_de(bc))
            =~= bloque);
        assert(puntajes_de(filas_puntajes_nuevas(c, bc, bp), bc) =~= c[0].puntajes_jueces);
    } else {
        lema_filtrar_nada(bloque, pred_puntajes_de(bc + j));
        lema_puntajes_del_bloque(
            c.drop_first(),
            bc + 1,
            bp + c[0].puntajes_jueces.len(),
            j - 1,
        );
        assert(c.drop_first()[j - 1] == c[j]);
        assert(filtrar(bloque, pred_puntajes_de(bc + j)) + filtrar(resto, pred_puntajes_de(bc + j))
            =~= filtrar(resto, pred_puntajes_de(bc + j)));
        assert(puntajes_de(filas_puntajes_nuevas(c, bc, bp), bc + j) =~= puntajes_de(
            resto,
            bc + j,
        ));
    }
}

/// Round trip: saving a fitting request into a well-formed store and then
/// fetching the detail of the returned id yields the competition's
/// scalars unchanged, its competitors in submission order with stored
/// positions `1..N`, and each competitor's judge scores in submission
/// order.
pub proof fn lema_viaje_redondo(s: AlmacenVista, p: PeticionVista)
    requires
        s.wf(),
        cabe(s, p),
    ensures
        ({
            let s2 = guardar_modelo(s, p).0;
            let cid = guardar_modelo(s, p).1;
            detalle_modelo(s2, cid) matches Some(c) && {
                &&& c.id == Some(cid)
                &&& c.nombre == p.nombre
                &&& c.fecha == p.fecha
                &&& c.area == p.area
                &&& c.categoria == p.categoria
                &&& c.competidores.len() == p.competidores.len()
                &&& forall|j: int|
                    0 <= j < p.competidores.len() ==> {
                        &&& (#[trigger] c.competidores[j]).nombre == p.competidores[j].nombre
                        &&& c.competidores[j].edad == p.competidores[j].edad
                        &&& c.competidores[j].puntaje_final == p.competidores[j].puntaje_final
                        &&& c.competidores[j].descalificado == p.competidores[j].descalificado
                        &&& c.competidores[j].puntajes_jueces == p.competidores[
                            j
                        ].puntajes_jueces
                    }
                &&& forall|j: int|
                    0 <= j < p.competidores.len() ==> (#[trigger] competidores_de(
                        s2.competidores,
                        s.prox_categoria,
                    )[j]).posicion == j + 1
            }
        }),
{
    let s2 = guardar_modelo(s, p).0;
    let cid = s.prox_competencia;
    let gid = s.prox_categoria;
    let bc = s.prox_competidor;
    let bp = s.prox_puntaje;
    let nueva = fila_competencia_nueva(p, cid);
    let nueva_cat = fila_categoria_nueva(p, gid, cid);
    let nc = filas_competidores_nuevas(p, bc, gid);
    let np = filas_puntajes_nuevas(p.competidores, bc, bp);
    let pos = posicion_insercion(s.competencias, p.fecha);
    lema_posicion_insercion(s.competencias, p.fecha);

    lema_primera_en_insercion(s.competencias, pos, nueva);
    assert(primera_competencia(s2.competencias, cid) == Some(nueva));

    assert forall|k: int| 0 <= k < s.categorias.len() implies (
    #[trigger] s.categorias[k]).competencia_id != nueva_cat.competencia_id by {}
    lema_primera_categoria_al_final(s.categorias, nueva_cat);
    assert(primera_categoria(s2.categorias, cid) == Some(nueva_cat));

    lema_filtrar_suma(s.competidores, nc, pred_competidores_de(gid));
    lema_filtrar_nada(s.competidores, pred_competidores_de(gid));
    lema_filtrar_todo(nc, pred_competidores_de(gid));
    assert(filtrar(s.competidores, pred_competidores_de(gid)) + filtrar(
        nc,
        pred_competidores_de(gid),
    ) =~= nc);
    assert(competidores_de(s2.competidores, gid) == nc);

    assert forall|j: int| 0 <= j < p.competidores.len() implies puntajes_de(
        s2.puntajes,
        bc + j,
    ) == p.competidores[j].puntajes_jueces by {
        lema_filtrar_suma(s.puntajes, np, pred_puntajes_de(bc + j));
        lema_filtrar_nada(s.puntajes, pred_puntajes_de(bc + j));
        lema_puntajes_del_bloque(p.competidores, bc, bp, j);
        assert(filtrar(s.puntajes, pred_puntajes_de(bc + j)) + filtrar(
            np,
            pred_puntajes_de(bc + j),
        ) =~= filtrar(np, pred_puntajes_de(bc + j)));
        assert(puntajes_de(s2.puntajes, bc + j) =~= puntajes_de(np, bc + j));
    }

    let c = detalle_modelo(s2, cid).unwrap();
    assert(c.competidores == detalle_de_filas(s2, nc));
    assert forall|j: int| 0 <= j < p.competidores.len() implies {
        &&& (#[trigger] c.competidores[j]).nombre == p.competidores[j].nombre
        &&& c.competidores[j].edad == p.competidores[j].edad
        &&& c.competidores[j].puntaje_final == p.competidores[j].puntaje_final
        &&& c.competidores[j].descalificado == p.competidores[j].descalificado
        &&& c.competidores[j].puntajes_jueces == p.competidores[j].puntajes_jueces
    } by {
        assert(c.competidores[j] == funcion_detalle(s2)(nc[j]));
        assert(nc[j].id == bc + j);
    }
}

} // verus!
