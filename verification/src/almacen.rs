//! The verified model of the persistence engine: an in-memory relational
//! store with the same four tables as the database schema, the same
//! monotonically assigned per-table ids, and exact contracts for every
//! operation. [`crate::db`] runs the same operations against SQLite.

use vstd::prelude::*;

use crate::errores::{DbError, Paso};
use crate::modelos::{
    CompetenciaKata, CompetenciaVista, CompetidorKata, CompetidorVista, GuardarCompetenciaRequest,
    PeticionVista,
};

verus! {

// ---------------------------------------------------------------------
// Table rows and their abstract values
// ---------------------------------------------------------------------

/// Abstract value of one row of the competitions table.
#[verifier::ext_equal]
pub ghost struct FilaCompetenciaVista {
    pub id: int,
    pub nombre: Seq<char>,
    pub fecha: Seq<char>,
    pub tipo: Seq<char>,
    pub area: Seq<char>,
}

/// One row of the competitions table.
pub struct FilaCompetencia {
    pub id: i64,
    pub nombre: String,
    pub fecha: String,
    pub tipo: String,
    pub area: String,
}

impl View for FilaCompetencia {
    type V = FilaCompetenciaVista;

    open spec fn view(&self) -> FilaCompetenciaVista {
        FilaCompetenciaVista {
            id: self.id as int,
            nombre: self.nombre@,
            fecha: self.fecha@,
            tipo: self.tipo@,
            area: self.area@,
        }
    }
}

/// Abstract value of one row of the categories table.
#[verifier::ext_equal]
pub ghost struct FilaCategoriaVista {
    pub id: int,
    pub competencia_id: int,
    pub nombre: Seq<char>,
    pub titulo: Seq<char>,
}

/// One row of the categories table.
pub struct FilaCategoria {
    pub id: i64,
    pub competencia_id: i64,
    pub nombre: String,
    pub titulo: String,
}

impl View for FilaCategoria {
    type V = FilaCategoriaVista;

    open spec fn view(&self) -> FilaCategoriaVista {
        FilaCategoriaVista {
            id: self.id as int,
            competencia_id: self.competencia_id as int,
            nombre: self.nombre@,
            titulo: self.titulo@,
        }
    }
}

/// Abstract value of one row of the competitors table.
#[verifier::ext_equal]
pub ghost struct FilaCompetidorVista {
    pub id: int,
    pub categoria_id: int,
    pub nombre: Seq<char>,
    pub edad: int,
    pub puntaje_final: Option<Seq<char>>,
    pub descalificado: bool,
    pub posicion: int,
}

/// One row of the competitors table.
pub struct FilaCompetidor {
    pub id: i64,
    pub categoria_id: i64,
    pub nombre: String,
    pub edad: i32,
    pub puntaje_final: Option<String>,
    pub descalificado: bool,
    pub posicion: i32,
}

impl View for FilaCompetidor {
    type V = FilaCompetidorVista;

    open spec fn view(&self) -> FilaCompetidorVista {
        FilaCompetidorVista {
            id: self.id as int,
            categoria_id: self.categoria_id as int,
            nombre: self.nombre@,
            edad: self.edad as int,
            puntaje_final: match self.puntaje_final {
                Some(p) => Some(p@),
                None => None,
            },
            descalificado: self.descalificado,
            posicion: self.posicion as int,
        }
    }
}

/// Abstract value of one row of the judge-scores table.
#[verifier::ext_equal]
pub ghost struct FilaPuntajeVista {
    pub id: int,
    pub competidor_id: int,
    pub juez_numero: int,
    pub puntaje: Seq<char>,
}

/// One row of the judge-scores table.
pub struct FilaPuntaje {
    pub id: i64,
    pub competidor_id: i64,
    pub juez_numero: i32,
    pub puntaje: String,
}

impl View for FilaPuntaje {
    type V = FilaPuntajeVista;

    open spec fn view(&self) -> FilaPuntajeVista {
        FilaPuntajeVista {
            id: self.id as int,
            competidor_id: self.competidor_id as int,
            juez_numero: self.juez_numero as int,
            puntaje: self.puntaje@,
        }
    }
}

// ---------------------------------------------------------------------
// The store
// ---------------------------------------------------------------------

/// Abstract value of the whole store.
#[verifier::ext_equal]
pub ghost struct AlmacenVista {
    pub prox_competencia: int,
    pub prox_categoria: int,
    pub prox_competidor: int,
    pub prox_puntaje: int,
    pub competencias: Seq<FilaCompetenciaVista>,
    pub categorias: Seq<FilaCategoriaVista>,
    pub competidores: Seq<FilaCompetidorVista>,
    pub puntajes: Seq<FilaPuntajeVista>,
}

/// The in-memory store: four tables and the next id of each. The
/// competitions table is kept ordered for listing: newest date first,
/// earlier saves ahead of later ones on an equal date.
pub struct Almacen {
    pub prox_competencia: i64,
    pub prox_categoria: i64,
    pub prox_competidor: i64,
    pub prox_puntaje: i64,
    pub competencias: Vec<FilaCompetencia>,
    pub categorias: Vec<FilaCategoria>,
    pub competidores: Vec<FilaCompetidor>,
    pub puntajes: Vec<FilaPuntaje>,
}

impl View for Almacen {
    type V = AlmacenVista;

    open spec fn view(&self) -> AlmacenVista {
        AlmacenVista {
            prox_competencia: self.prox_competencia as int,
            prox_categoria: self.prox_categoria as int,
            prox_competidor: self.prox_competidor as int,
            prox_puntaje: self.prox_puntaje as int,
            competencias: self.competencias@.map_values(|f: FilaCompetencia| f@),
            categorias: self.categorias@.map_values(|f: FilaCategoria| f@),
            competidores: self.competidores@.map_values(|f: FilaCompetidor| f@),
            puntajes: self.puntajes@.map_values(|f: FilaPuntaje| f@),
        }
    }
}

// ---------------------------------------------------------------------
// Lexicographic order on date text
// ---------------------------------------------------------------------

/// Strict lexicographic order on text by code point; on ISO `YYYY-MM-DD`
/// dates this is chronological order.
pub open spec fn lex_menor(a: Seq<char>, b: Seq<char>) -> bool
    decreases a.len(),
{
    if b.len() == 0 {
        false
    } else if a.len() == 0 {
        true
    } else if a[0] == b[0] {
        lex_menor(a.drop_first(), b.drop_first())
    } else {
        (a[0] as u32) < (b[0] as u32)
    }
}

pub proof fn lema_lex_menor_trans(a: Seq<char>, b: Seq<char>, c: Seq<char>)
    requires
        lex_menor(a, b),
        lex_menor(b, c),
    ensures
        lex_menor(a, c),
    decreases a.len(),
{
    if a.len() > 0 && b.len() > 0 && c.len() > 0 && a[0] == b[0] && b[0] == c[0] {
        lema_lex_menor_trans(a.drop_first(), b.drop_first(), c.drop_first());
    }
}

pub proof fn lema_lex_menor_irrefl(a: Seq<char>)
    ensures
        !lex_menor(a, a),
    decreases a.len(),
{
    if a.len() > 0 {
        lema_lex_menor_irrefl(a.drop_first());
    }
}

/// Compares two strings in the order of [`lex_menor`].
pub fn texto_menor(a: &str, b: &str) -> (r: bool)
    ensures
        r == lex_menor(a@, b@),
{
    let na = a.unicode_len();
    let nb = b.unicode_len();
    let mut i: usize = 0;
    proof {
        assert(a@.skip(0) =~= a@);
        assert(b@.skip(0) =~= b@);
    }
    loop
        invariant
            i <= na,
            i <= nb,
            na == a@.len(),
            nb == b@.len(),
            lex_menor(a@, b@) == lex_menor(a@.skip(i as int), b@.skip(i as int)),
        decreases na - i,
    {
        if i == nb {
            assert(b@.skip(i as int).len() == 0);
            return false;
        }
        if i == na {
            assert(a@.skip(i as int).len() == 0 && b@.skip(i as int).len() > 0);
            return true;
        }
        let ca = a.get_char(i);
        let cb = b.get_char(i);
        proof {
            assert(a@.skip(i as int)[0] == a@[i as int]);
            assert(b@.skip(i as int)[0] == b@[i as int]);
        }
        if ca != cb {
            return (ca as u32) < (cb as u32);
        }
        proof {
            assert(a@.skip(i as int).drop_first() =~= a@.skip(i + 1));
            assert(b@.skip(i as int).drop_first() =~= b@.skip(i + 1));
        }
        i = i + 1;
    }
}

// ---------------------------------------------------------------------
// Well-formedness
// ---------------------------------------------------------------------

/// Some competition row carries the given id.
pub open spec fn existe_competencia(s: Seq<FilaCompetenciaVista>, id: int) -> bool {
    exists|k: int| 0 <= k < s.len() && (#[trigger] s[k]).id == id
}

/// Some category row carries the given id.
pub open spec fn existe_categoria(s: Seq<FilaCategoriaVista>, id: int) -> bool {
    exists|k: int| 0 <= k < s.len() && (#[trigger] s[k]).id == id
}

/// Some competitor row carries the given id.
pub open spec fn existe_competidor(s: Seq<FilaCompetidorVista>, id: int) -> bool {
    exists|k: int| 0 <= k < s.len() && (#[trigger] s[k]).id == id
}

impl AlmacenVista {
    /// Every id lies below its table's next id, ids are unique per table,
    /// every owning reference names a stored row of the owning table, the
    /// competitions are ordered newest date first, and within one category
    /// (respectively one competitor) positions (respectively judge
    /// numbers) strictly increase along the table.
    pub open spec fn wf(self) -> bool {
        &&& 1 <= self.prox_competencia
        &&& 1 <= self.prox_categoria
        &&& 1 <= self.prox_competidor
        &&& 1 <= self.prox_puntaje
        &&& forall|i: int|
            0 <= i < self.competencias.len() ==> 1 <= (#[trigger] self.competencias[i]).id
                < self.prox_competencia && self.competencias[i].tipo == "kata"@
        &&& forall|i: int, j: int|
            0 <= i < j < self.competencias.len() ==> (#[trigger] self.competencias[i]).id != (
            #[trigger] self.competencias[j]).id
        &&& forall|i: int, j: int|
            0 <= i < j < self.competencias.len() ==> !lex_menor(
                (#[trigger] self.competencias[i]).fecha,
                (#[trigger] self.competencias[j]).fecha,
            )
        &&& forall|i: int|
            0 <= i < self.categorias.len() ==> 1 <= (#[trigger] self.categorias[i]).id
                < self.prox_categoria && 1 <= self.categorias[i].competencia_id
                < self.prox_competencia
        &&& forall|i: int, j: int|
            0 <= i < j < self.categorias.len() ==> (#[trigger] self.categorias[i]).id != (
            #[trigger] self.categorias[j]).id
        &&& forall|i: int|
            0 <= i < self.competidores.len() ==> 1 <= (#[trigger] self.competidores[i]).id
                < self.prox_competidor && 1 <= self.competidores[i].categoria_id
                < self.prox_categoria
        &&& forall|i: int, j: int|
            0 <= i < j < self.competidores.len() ==> (#[trigger] self.competidores[i]).id != (
            #[trigger] self.competidores[j]).id
        &&& forall|i: int, j: int|
            0 <= i < j < self.competidores.len() && (#[trigger] self.competidores[i]).categoria_id
                == (#[trigger] self.competidores[j]).categoria_id
                ==> self.competidores[i].posicion < self.competidores[j].posicion
        &&& forall|i: int|
            0 <= i < self.puntajes.len() ==> 1 <= (#[trigger] self.puntajes[i]).id
                < self.prox_puntaje && 1 <= self.puntajes[i].competidor_id < self.prox_competidor
        &&& forall|i: int, j: int|
            0 <= i < j < self.puntajes.len() && (#[trigger] self.puntajes[i]).competidor_id == (
            #[trigger] self.puntajes[j]).competidor_id ==> self.puntajes[i].juez_numero
                < self.puntajes[j].juez_numero
        &&& forall|i: int|
            0 <= i < self.categorias.len() ==> existe_competencia(
                self.competencias,
                (#[trigger] self.categorias[i]).competencia_id,
            )
        &&& forall|i: int|
            0 <= i < self.competidores.len() ==> existe_categoria(
                self.categorias,
                (#[trigger] self.competidores[i]).categoria_id,
            )
        &&& forall|i: int|
            0 <= i < self.puntajes.len() ==> existe_competidor(
                self.competidores,
                (#[trigger] self.puntajes[i]).competidor_id,
            )
    }
}

// ---------------------------------------------------------------------
// The meaning of a save
// ---------------------------------------------------------------------

/// The competition row a save request creates.
pub open spec fn fila_competencia_nueva(p: PeticionVista, id: int) -> FilaCompetenciaVista {
    FilaCompetenciaVista { id, nombre: p.nombre, fecha: p.fecha, tipo: "kata"@, area: p.area }
}

/// The category row a save request creates: its name and title are both
/// the request's category label.
pub open spec fn fila_categoria_nueva(p: PeticionVista, id: int, competencia_id: int)
    -> FilaCategoriaVista {
    FilaCategoriaVista { id, competencia_id, nombre: p.categoria, titulo: p.categoria }
}

/// The competitor rows a save request creates: ids run from `base` in
/// request order, and the position of the `j`-th competitor is `j + 1`.
pub open spec fn filas_competidores_nuevas(p: PeticionVista, base: int, categoria_id: int)
    -> Seq<FilaCompetidorVista> {
    Seq::new(
        p.competidores.len(),
        |j: int| FilaCompetidorVista {
            id: base + j,
            categoria_id,
            nombre: p.competidores[j].nombre,
            edad: p.competidores[j].edad,
            puntaje_final: p.competidores[j].puntaje_final,
            descalificado: p.competidores[j].descalificado,
            posicion: j + 1,
        },
    )
}

/// The judge-score rows of one competitor: ids run from `base` in
/// submission order, and the judge number of the `k`-th score is `k + 1`.
pub open spec fn bloque_puntajes(puntajes: Seq<Seq<char>>, competidor_id: int, base: int)
    -> Seq<FilaPuntajeVista> {
    Seq::new(
        puntajes.len(),
        |k: int| FilaPuntajeVista {
            id: base + k,
            competidor_id,
            juez_numero: k + 1,
            puntaje: puntajes[k],
        },
    )
}

/// How many judge scores a request holds in total.
pub open spec fn total_puntajes(comps: Seq<CompetidorVista>) -> int
    decreases comps.len(),
{
    if comps.len() == 0 {
        0
    } else {
        comps[0].puntajes_jueces.len() + total_puntajes(comps.drop_first())
    }
}

/// The judge-score rows a save request creates, flattened in request
/// order: competitor ids run from `base_competidor`, row ids from
/// `base_puntaje`.
pub open spec fn filas_puntajes_nuevas(
    comps: Seq<CompetidorVista>,
    base_competidor: int,
    base_puntaje: int,
) -> Seq<FilaPuntajeVista>
    decreases comps.len(),
{
    if comps.len() == 0 {
        Seq::empty()
    } else {
        bloque_puntajes(comps[0].puntajes_jueces, base_competidor, base_puntaje)
            + filas_puntajes_nuevas(
            comps.drop_first(),
            base_competidor + 1,
            base_puntaje + comps[0].puntajes_jueces.len(),
        )
    }
}

/// Where a new competition with the given date is inserted: before the
/// first stored entry with a strictly older date, so the listing stays
/// ordered newest first and equal dates stay in save order.
pub open spec fn posicion_insercion(s: Seq<FilaCompetenciaVista>, fecha: Seq<char>) -> int
    decreases s.len(),
{
    if s.len() == 0 {
        0
    } else if lex_menor(s[0].fecha, fecha) {
        0
    } else {
        1 + posicion_insercion(s.drop_first(), fecha)
    }
}

/// The request fits the machine limits of the store: one more competition
/// and category id, one competitor id per competitor, one score id per
/// score, and positions and judge numbers that fit an `i32`.
pub open spec fn cabe(s: AlmacenVista, p: PeticionVista) -> bool {
    &&& s.prox_competencia + 1 <= i64::MAX
    &&& s.prox_categoria + 1 <= i64::MAX
    &&& s.prox_competidor + p.competidores.len() <= i64::MAX
    &&& s.prox_puntaje + total_puntajes(p.competidores) <= i64::MAX
    &&& p.competidores.len() <= i32::MAX
    &&& forall|j: int|
        0 <= j < p.competidores.len() ==> (#[trigger] p.competidores[j]).puntajes_jueces.len()
            <= i32::MAX
}

/// What a save does: one competition row inserted at its date-ordered
/// position, one category row, the competitor rows in request order, the
/// judge-score rows in submission order, and every next id advanced.
/// Returns the new store and the generated competition id.
pub open spec fn guardar_modelo(s: AlmacenVista, p: PeticionVista) -> (AlmacenVista, int) {
    let cid = s.prox_competencia;
    let gid = s.prox_categoria;
    let nueva = fila_competencia_nueva(p, cid);
    (
        AlmacenVista {
            prox_competencia: cid + 1,
            prox_categoria: gid + 1,
            prox_competidor: s.prox_competidor + p.competidores.len(),
            prox_puntaje: s.prox_puntaje + total_puntajes(p.competidores),
            competencias: s.competencias.insert(posicion_insercion(s.competencias, p.fecha), nueva),
            categorias: s.categorias.push(fila_categoria_nueva(p, gid, cid)),
            competidores: s.competidores + filas_competidores_nuevas(p, s.prox_competidor, gid),
            puntajes: s.puntajes + filas_puntajes_nuevas(
                p.competidores,
                s.prox_competidor,
                s.prox_puntaje,
            ),
        },
        cid,
    )
}

// ---------------------------------------------------------------------
// Supporting lemmas
// ---------------------------------------------------------------------

pub proof fn lema_posicion_insercion(s: Seq<FilaCompetenciaVista>, fecha: Seq<char>)
    ensures
        0 <= posicion_insercion(s, fecha) <= s.len(),
        forall|k: int|
            0 <= k < posicion_insercion(s, fecha) ==> !lex_menor(
                (#[trigger] s[k]).fecha,
                fecha,
            ),
        posicion_insercion(s, fecha) < s.len() ==> lex_menor(
            s[posicion_insercion(s, fecha)].fecha,
            fecha,
        ),
    decreases s.len(),
{
    if s.len() > 0 && !lex_menor(s[0].fecha, fecha) {
        lema_posicion_insercion(s.drop_first(), fecha);
        let pos = posicion_insercion(s, fecha);
        assert forall|k: int| 0 <= k < pos implies !lex_menor((#[trigger] s[k]).fecha, fecha) by {
            if k > 0 {
                assert(s.drop_first()[k - 1] == s[k]);
            }
        }
        if pos < s.len() {
            assert(s.drop_first()[pos - 1] == s[pos]);
        }
    }
}

pub proof fn lema_total_no_negativo(c: Seq<CompetidorVista>)
    ensures
        total_puntajes(c) >= 0,
    decreases c.len(),
{
    if c.len() > 0 {
        lema_total_no_negativo(c.drop_first());
    }
}

pub proof fn lema_total_paso(c: Seq<CompetidorVista>, j: int)
    requires
        0 <= j < c.len(),
    ensures
        total_puntajes(c.take(j + 1)) == total_puntajes(c.take(j))
            + c[j].puntajes_jueces.len(),
    decreases j,
{
    if j == 0 {
        assert(c.take(1).drop_first() =~= c.take(0));
        assert(c.take(1)[0] == c[0]);
    } else {
        lema_total_paso(c.drop_first(), j - 1);
        assert(c.take(j + 1).drop_first() =~= c.drop_first().take(j));
        assert(c.take(j).drop_first() =~= c.drop_first().take(j - 1));
        assert(c.take(j + 1)[0] == c[0]);
        assert(c.take(j)[0] == c[0]);
        assert(c.drop_first()[j - 1] == c[j]);
    }
}

pub proof fn lema_total_cota(c: Seq<CompetidorVista>, j: int)
    requires
        0 <= j <= c.len(),
    ensures
        total_puntajes(c.take(j)) <= total_puntajes(c),
    decreases c.len() - j,
{
    if j < c.len() {
        lema_total_paso(c, j);
        lema_total_cota(c, j + 1);
    } else {
        assert(c.take(j) =~= c);
    }
}

pub proof fn lema_fpn_paso(c: Seq<CompetidorVista>, j: int, bc: int, bp: int)
    requires
        0 <= j < c.len(),
    ensures
        filas_puntajes_nuevas(c.take(j + 1), bc, bp) == filas_puntajes_nuevas(c.take(j), bc, bp)
            + bloque_puntajes(c[j].puntajes_jueces, bc + j, bp + total_puntajes(c.take(j))),
    decreases j,
{
    if j == 0 {
        let s1 = c.take(1);
        assert(s1[0] == c[0]);
        assert(s1.drop_first() =~= c.take(0));
        assert(total_puntajes(c.take(0)) == 0);
        assert(filas_puntajes_nuevas(
            c.take(0),
            bc + 1,
            bp + c[0].puntajes_jueces.len(),
        ).len() == 0);
        assert(filas_puntajes_nuevas(c.take(0), bc, bp).len() == 0);
        assert(filas_puntajes_nuevas(s1, bc, bp) =~= filas_puntajes_nuevas(c.take(0), bc, bp)
            + bloque_puntajes(c[0].puntajes_jueces, bc, bp + total_puntajes(c.take(0))));
    } else {
        let cd = c.drop_first();
        lema_fpn_paso(cd, j - 1, bc + 1, bp + c[0].puntajes_jueces.len());
        lema_total_paso(c, j);
        assert(c.take(j + 1).drop_first() =~= cd.take(j));
        assert(c.take(j).drop_first() =~= cd.take(j - 1));
        assert(c.take(j + 1)[0] == c[0]);
        assert(c.take(j)[0] == c[0]);
        assert(cd[j - 1] == c[j]);
        assert(c.take(j).drop_first() =~= cd.take(j - 1));
        // total of the prefix, seen through the tail
        assert(total_puntajes(c.take(j)) == c[0].puntajes_jueces.len() + total_puntajes(
            cd.take(j - 1),
        )) by {
            assert(c.take(j)[0] == c[0]);
            assert(c.take(j).drop_first() =~= cd.take(j - 1));
        }
        assert(filas_puntajes_nuevas(c.take(j + 1), bc, bp) =~= filas_puntajes_nuevas(
            c.take(j),
            bc,
            bp,
        ) + bloque_puntajes(c[j].puntajes_jueces, bc + j, bp + total_puntajes(c.take(j))));
    }
}

pub proof fn lema_fpn_largo(c: Seq<CompetidorVista>, bc: int, bp: int)
    ensures
        filas_puntajes_nuevas(c, bc, bp).len() == total_puntajes(c),
    decreases c.len(),
{
    if c.len() > 0 {
        lema_fpn_largo(c.drop_first(), bc + 1, bp + c[0].puntajes_jueces.len());
    }
}

/// Every flattened judge-score row carries a competitor id in
/// `[bc, bc + c.len())`, a row id in `[bp, bp + total)`, a judge number of
/// at least 1, and rows of one competitor keep strictly increasing judge
/// numbers while competitor ids never decrease along the sequence.
pub proof fn lema_fpn_caracter(c: Seq<CompetidorVista>, bc: int, bp: int)
    ensures
        forall|t: int|
            0 <= t < filas_puntajes_nuevas(c, bc, bp).len() ==> {
                let q = #[trigger] filas_puntajes_nuevas(c, bc, bp)[t];
                bc <= q.competidor_id < bc + c.len() && bp <= q.id < bp + total_puntajes(c)
                    && 1 <= q.juez_numero
            },
        forall|t: int, u: int|
            0 <= t < u < filas_puntajes_nuevas(c, bc, bp).len() ==> {
                let q = #[trigger] filas_puntajes_nuevas(c, bc, bp)[t];
                let w = #[trigger] filas_puntajes_nuevas(c, bc, bp)[u];
                q.competidor_id < w.competidor_id || (q.competidor_id == w.competidor_id
                    && q.juez_numero < w.juez_numero)
            },
    decreases c.len(),
{
    if c.len() > 0 {
        let m = c[0].puntajes_jueces.len() as int;
        let bloque = bloque_puntajes(c[0].puntajes_jueces, bc, bp);
        let resto = filas_puntajes_nuevas(c.drop_first(), bc + 1, bp + m);
        lema_fpn_caracter(c.drop_first(), bc + 1, bp + m);
        lema_total_no_negativo(c.drop_first());
        lema_fpn_largo(c.drop_first(), bc + 1, bp + m);
        assert(filas_puntajes_nuevas(c, bc, bp) == bloque + resto);
    }
}


// ---------------------------------------------------------------------
// Generic filtering of a table
// ---------------------------------------------------------------------

/// The rows of `s` satisfying `pred`, in table order.
pub open spec fn filtrar<A>(s: Seq<A>, pred: spec_fn(A) -> bool) -> Seq<A>
    decreases s.len(),
{
    if s.len() == 0 {
        Seq::empty()
    } else {
        let resto = filtrar(s.drop_last(), pred);
        if pred(s.last()) {
            resto.push(s.last())
        } else {
            resto
        }
    }
}

/// Every filtered row satisfies the predicate and occurs in the table.
pub proof fn lema_filtrar_contenido<A>(s: Seq<A>, pred: spec_fn(A) -> bool)
    ensures
        filtrar(s, pred).len() <= s.len(),
        forall|t: int|
            0 <= t < filtrar(s, pred).len() ==> pred(#[trigger] filtrar(s, pred)[t])
                && exists|k: int| 0 <= k < s.len() && s[k] == filtrar(s, pred)[t],
    decreases s.len(),
{
    if s.len() > 0 {
        lema_filtrar_contenido(s.drop_last(), pred);
        let f = filtrar(s, pred);
        let fd = filtrar(s.drop_last(), pred);
        assert forall|t: int|
            0 <= t < f.len() implies pred(#[trigger] f[t]) && exists|k: int|
            0 <= k < s.len() && s[k] == f[t] by {
            if t < fd.len() {
                assert(f[t] == fd[t]);
                let k = choose|k: int| 0 <= k < s.drop_last().len() && s.drop_last()[k] == fd[t];
                assert(s[k] == f[t]);
            } else {
                assert(f[t] == s.last());
                assert(s[s.len() - 1] == f[t]);
            }
        }
    }
}

/// Filtering keeps any property that held of every ordered pair of rows.
pub proof fn lema_filtrar_pares<A>(s: Seq<A>, pred: spec_fn(A) -> bool, rel: spec_fn(A, A) -> bool)
    requires
        forall|i: int, j: int| 0 <= i < j < s.len() ==> rel(#[trigger] s[i], #[trigger] s[j]),
    ensures
        forall|i: int, j: int|
            0 <= i < j < filtrar(s, pred).len() ==> rel(
                #[trigger] filtrar(s, pred)[i],
                #[trigger] filtrar(s, pred)[j],
            ),
    decreases s.len(),
{
    if s.len() > 0 {
        let sd = s.drop_last();
        assert forall|i: int, j: int| 0 <= i < j < sd.len() implies rel(
            #[trigger] sd[i],
            #[trigger] sd[j],
        ) by {
            assert(sd[i] == s[i] && sd[j] == s[j]);
        }
        lema_filtrar_pares(sd, pred, rel);
        lema_filtrar_contenido(sd, pred);
        let f = filtrar(s, pred);
        let fd = filtrar(sd, pred);
        assert forall|i: int, j: int| 0 <= i < j < f.len() implies rel(
            #[trigger] f[i],
            #[trigger] f[j],
        ) by {
            if j < fd.len() {
                assert(f[i] == fd[i] && f[j] == fd[j]);
            } else if pred(s.last()) && j == fd.len() {
                assert(f[i] == fd[i]);
                assert(f[j] == s.last());
                let k = choose|k: int| 0 <= k < sd.len() && sd[k] == fd[i];
                assert(s[k] == fd[i]);
                assert(rel(s[k], s[s.len() - 1]));
            }
        }
    }
}

/// A row that satisfies the predicate is still there after filtering.
pub proof fn lema_filtrar_mantiene<A>(s: Seq<A>, pred: spec_fn(A) -> bool)
    ensures
        forall|k: int|
            0 <= k < s.len() && pred(#[trigger] s[k]) ==> filtrar(s, pred).contains(s[k]),
    decreases s.len(),
{
    if s.len() > 0 {
        let sd = s.drop_last();
        lema_filtrar_mantiene(sd, pred);
        let f = filtrar(s, pred);
        let fd = filtrar(sd, pred);
        assert forall|k: int| 0 <= k < s.len() && pred(#[trigger] s[k]) implies f.contains(
            s[k],
        ) by {
            if k < s.len() - 1 {
                assert(sd[k] == s[k]);
                assert(fd.contains(s[k]));
                let t = choose|t: int| 0 <= t < fd.len() && fd[t] == s[k];
                assert(f[t] == s[k]);
            } else {
                assert(f[f.len() - 1] == s[k]);
            }
        }
    }
}

/// Filtering distributes over concatenation.
pub proof fn lema_filtrar_suma<A>(a: Seq<A>, b: Seq<A>, pred: spec_fn(A) -> bool)
    ensures
        filtrar(a + b, pred) == filtrar(a, pred) + filtrar(b, pred),
    decreases b.len(),
{
    if b.len() == 0 {
        assert(a + b =~= a);
        assert(filtrar(b, pred).len() == 0);
        assert(filtrar(a, pred) + filtrar(b, pred) =~= filtrar(a, pred));
    } else {
        lema_filtrar_suma(a, b.drop_last(), pred);
        assert((a + b).drop_last() =~= a + b.drop_last());
        assert((a + b).last() == b.last());
        if pred(b.last()) {
            assert(filtrar(a + b, pred) =~= filtrar(a, pred) + filtrar(b, pred));
        } else {
            assert(filtrar(a + b, pred) =~= filtrar(a, pred) + filtrar(b, pred));
        }
    }
}

/// A table none of whose rows satisfies the predicate filters to nothing.
pub proof fn lema_filtrar_nada<A>(s: Seq<A>, pred: spec_fn(A) -> bool)
    requires
        forall|k: int| 0 <= k < s.len() ==> !pred(#[trigger] s[k]),
    ensures
        filtrar(s, pred).len() == 0,
    decreases s.len(),
{
    if s.len() > 0 {
        let sd = s.drop_last();
        assert forall|k: int| 0 <= k < sd.len() implies !pred(#[trigger] sd[k]) by {
            assert(sd[k] == s[k]);
        }
        lema_filtrar_nada(sd, pred);
        assert(!pred(s[s.len() - 1]));
    }
}

/// A table every one of whose rows satisfies the predicate is unchanged.
pub proof fn lema_filtrar_todo<A>(s: Seq<A>, pred: spec_fn(A) -> bool)
    requires
        forall|k: int| 0 <= k < s.len() ==> pred(#[trigger] s[k]),
    ensures
        filtrar(s, pred) == s,
    decreases s.len(),
{
    if s.len() > 0 {
        let sd = s.drop_last();
        assert forall|k: int| 0 <= k < sd.len() implies pred(#[trigger] sd[k]) by {
            assert(sd[k] == s[k]);
        }
        lema_filtrar_todo(sd, pred);
        assert(pred(s[s.len() - 1]));
        assert(filtrar(s, pred) =~= s);
    }
}

// ---------------------------------------------------------------------
// The meaning of the read operations
// ---------------------------------------------------------------------

/// The first competition row with the given id, in table order.
pub open spec fn primera_competencia(s: Seq<FilaCompetenciaVista>, id: int) -> Option<
    FilaCompetenciaVista,
>
    decreases s.len(),
{
    if s.len() == 0 {
        None
    } else if s[0].id == id {
        Some(s[0])
    } else {
        primera_competencia(s.drop_first(), id)
    }
}

/// The first category row owned by the given competition, in table order.
pub open spec fn primera_categoria(s: Seq<FilaCategoriaVista>, competencia_id: int) -> Option<
    FilaCategoriaVista,
>
    decreases s.len(),
{
    if s.len() == 0 {
        None
    } else if s[0].competencia_id == competencia_id {
        Some(s[0])
    } else {
        primera_categoria(s.drop_first(), competencia_id)
    }
}

pub open spec fn pred_competidores_de(categoria_id: int) -> spec_fn(FilaCompetidorVista) -> bool {
    |f: FilaCompetidorVista| f.categoria_id == categoria_id
}

pub open spec fn pred_puntajes_de(competidor_id: int) -> spec_fn(FilaPuntajeVista) -> bool {
    |q: FilaPuntajeVista| q.competidor_id == competidor_id
}

/// The competitors of one category, in table order — by well-formedness,
/// that is rank order.
pub open spec fn competidores_de(s: Seq<FilaCompetidorVista>, categoria_id: int) -> Seq<
    FilaCompetidorVista,
> {
    filtrar(s, pred_competidores_de(categoria_id))
}

/// The judge scores of one competitor, in table order — by
/// well-formedness, that is judge-number order.
pub open spec fn puntajes_de(s: Seq<FilaPuntajeVista>, competidor_id: int) -> Seq<Seq<char>> {
    filtrar(s, pred_puntajes_de(competidor_id)).map_values(|q: FilaPuntajeVista| q.puntaje)
}

/// How one stored competitor row is returned in a detail lookup.
pub open spec fn funcion_detalle(s: AlmacenVista) -> spec_fn(FilaCompetidorVista)
    -> CompetidorVista {
    |f: FilaCompetidorVista| CompetidorVista {
        nombre: f.nombre,
        edad: f.edad,
        puntaje_final: f.puntaje_final,
        puntajes_jueces: puntajes_de(s.puntajes, f.id),
        descalificado: f.descalificado,
    }
}

/// The competitors of a detail lookup, row by row.
pub open spec fn detalle_de_filas(s: AlmacenVista, filas: Seq<FilaCompetidorVista>) -> Seq<
    CompetidorVista,
> {
    filas.map_values(funcion_detalle(s))
}

/// The abstract values of a vector of competitor records.
pub open spec fn vista_competidores(v: Seq<CompetidorKata>) -> Seq<CompetidorVista> {
    v.map_values(|c: CompetidorKata| c@)
}

/// The abstract values of a vector of score texts.
pub open spec fn vista_textos(v: Seq<String>) -> Seq<Seq<char>> {
    v.map_values(|q: String| q@)
}

/// What a detail lookup returns: `None` when no competition has the id;
/// otherwise the competition with its category label (empty when it has
/// no category) and its competitors with their judge scores.
pub open spec fn detalle_modelo(s: AlmacenVista, id: int) -> Option<CompetenciaVista> {
    match primera_competencia(s.competencias, id) {
        None => None,
        Some(f) => Some(
            CompetenciaVista {
                id: Some(f.id),
                nombre: f.nombre,
                fecha: f.fecha,
                area: f.area,
                categoria: match primera_categoria(s.categorias, id) {
                    Some(g) => g.nombre,
                    None => Seq::empty(),
                },
                competidores: match primera_categoria(s.categorias, id) {
                    Some(g) => detalle_de_filas(s, competidores_de(s.competidores, g.id)),
                    None => Seq::empty(),
                },
            },
        ),
    }
}

/// How one stored competition row is returned in the history listing: a
/// summary with its category label (empty when it has no category) and no
/// competitors.
pub open spec fn resumen_modelo(s: AlmacenVista, f: FilaCompetenciaVista) -> CompetenciaVista {
    CompetenciaVista {
        id: Some(f.id),
        nombre: f.nombre,
        fecha: f.fecha,
        area: f.area,
        categoria: match primera_categoria(s.categorias, f.id) {
            Some(g) => g.nombre,
            None => Seq::empty(),
        },
        competidores: Seq::empty(),
    }
}

/// How many rows a listing with the given limit returns: all of them for
/// a negative limit, else at most `limit`.
pub open spec fn cuantas(limit: int, total: int) -> int {
    if limit < 0 {
        total
    } else if limit < total {
        limit
    } else {
        total
    }
}

// ---------------------------------------------------------------------
// The meaning of a delete
// ---------------------------------------------------------------------

/// The given category id belongs to a category owned by the competition
/// being deleted.
pub open spec fn categoria_eliminada(
    cats: Seq<FilaCategoriaVista>,
    borrar: int,
    categoria_id: int,
) -> bool {
    exists|k: int|
        0 <= k < cats.len() && (#[trigger] cats[k]).competencia_id == borrar && cats[k].id
            == categoria_id
}

/// The given competitor id belongs to a competitor of a category owned by
/// the competition being deleted.
pub open spec fn competidor_eliminado(
    comps: Seq<FilaCompetidorVista>,
    cats: Seq<FilaCategoriaVista>,
    borrar: int,
    competidor_id: int,
) -> bool {
    exists|k: int|
        0 <= k < comps.len() && (#[trigger] comps[k]).id == competidor_id && categoria_eliminada(
            cats,
            borrar,
            comps[k].categoria_id,
        )
}

pub open spec fn pred_competencia_queda(borrar: int) -> spec_fn(FilaCompetenciaVista) -> bool {
    |f: FilaCompetenciaVista| f.id != borrar
}

pub open spec fn pred_categoria_queda(borrar: int) -> spec_fn(FilaCategoriaVista) -> bool {
    |g: FilaCategoriaVista| g.competencia_id != borrar
}

pub open spec fn pred_competidor_queda(cats: Seq<FilaCategoriaVista>, borrar: int) -> spec_fn(
    FilaCompetidorVista,
) -> bool {
    |f: FilaCompetidorVista| !categoria_eliminada(cats, borrar, f.categoria_id)
}

pub open spec fn pred_puntaje_queda(
    comps: Seq<FilaCompetidorVista>,
    cats: Seq<FilaCategoriaVista>,
    borrar: int,
) -> spec_fn(FilaPuntajeVista) -> bool {
    |q: FilaPuntajeVista| !competidor_eliminado(comps, cats, borrar, q.competidor_id)
}

/// What a delete does: the competition row goes, and with it every
/// category it owned, every competitor of those categories, and every
/// judge score of those competitors. Next ids do not move.
pub open spec fn eliminar_modelo(s: AlmacenVista, borrar: int) -> AlmacenVista {
    AlmacenVista {
        prox_competencia: s.prox_competencia,
        prox_categoria: s.prox_categoria,
        prox_competidor: s.prox_competidor,
        prox_puntaje: s.prox_puntaje,
        competencias: filtrar(s.competencias, pred_competencia_queda(borrar)),
        categorias: filtrar(s.categorias, pred_categoria_queda(borrar)),
        competidores: filtrar(s.competidores, pred_competidor_queda(s.categorias, borrar)),
        puntajes: filtrar(
            s.puntajes,
            pred_puntaje_queda(s.competidores, s.categorias, borrar),
        ),
    }
}



// ---------------------------------------------------------------------
// A save preserves well-formedness
// ---------------------------------------------------------------------

/// Saving a fitting request into a well-formed store yields a well-formed
/// store.
pub proof fn lema_guardar_wf(s: AlmacenVista, p: PeticionVista)
    requires
        s.wf(),
        cabe(s, p),
    ensures
        guardar_modelo(s, p).0.wf(),
{
    let t = guardar_modelo(s, p).0;
    let cid = s.prox_competencia;
    let gid = s.prox_categoria;
    let bc = s.prox_competidor;
    let bp = s.prox_puntaje;
    let nueva = fila_competencia_nueva(p, cid);
    let pos = posicion_insercion(s.competencias, p.fecha);
    lema_posicion_insercion(s.competencias, p.fecha);
    lema_total_no_negativo(p.competidores);
    let nc = filas_competidores_nuevas(p, bc, gid);
    let np = filas_puntajes_nuevas(p.competidores, bc, bp);
    lema_fpn_largo(p.competidores, bc, bp);
    lema_fpn_caracter(p.competidores, bc, bp);

    let tc = t.competencias;
    let vc = s.competencias;
    assert forall|i: int|
        0 <= i < tc.len() implies 1 <= (#[trigger] tc[i]).id < t.prox_competencia && tc[i].tipo
        == "kata"@ by {
        if i < pos {
            assert(tc[i] == vc[i]);
        } else if i > pos {
            assert(tc[i] == vc[i - 1]);
        }
    }
    assert forall|i: int, j: int|
        0 <= i < j < tc.len() implies (#[trigger] tc[i]).id != (#[trigger] tc[j]).id by {
        if i < pos {
            assert(tc[i] == vc[i]);
        } else if i > pos {
            assert(tc[i] == vc[i - 1]);
        }
        if j < pos {
            assert(tc[j] == vc[j]);
        } else if j > pos {
            assert(tc[j] == vc[j - 1]);
        }
    }
    assert forall|i: int, j: int|
        0 <= i < j < tc.len() implies !lex_menor(
        (#[trigger] tc[i]).fecha,
        (#[trigger] tc[j]).fecha,
    ) by {
        if j < pos {
            assert(tc[i] == vc[i] && tc[j] == vc[j]);
        } else if j == pos {
            assert(tc[i] == vc[i]);
        } else {
            let w = vc[j - 1];
            assert(tc[j] == w);
            if i < pos {
                assert(tc[i] == vc[i]);
            } else if i == pos {
                assert(pos < vc.len());
                if lex_menor(nueva.fecha, w.fecha) {
                    lema_lex_menor_trans(vc[pos].fecha, p.fecha, w.fecha);
                    if pos == j - 1 {
                        lema_lex_menor_irrefl(vc[pos].fecha);
                    }
                    assert(false);
                }
            } else {
                assert(tc[i] == vc[i - 1]);
            }
        }
    }

    let tg = t.categorias;
    assert forall|i: int|
        0 <= i < tg.len() implies 1 <= (#[trigger] tg[i]).id < t.prox_categoria && 1 <= tg[i].competencia_id
        < t.prox_competencia by {
        if i < s.categorias.len() {
            assert(tg[i] == s.categorias[i]);
        } else {
            assert(tg[i] == fila_categoria_nueva(p, gid, cid));
        }
    }
    assert forall|i: int, j: int|
        0 <= i < j < tg.len() implies (#[trigger] tg[i]).id != (#[trigger] tg[j]).id by {
        if i < s.categorias.len() {
            assert(tg[i] == s.categorias[i]);
        }
        if j < s.categorias.len() {
            assert(tg[j] == s.categorias[j]);
        }
    }

    let td = t.competidores;
    let vd = s.competidores;
    assert forall|i: int|
        0 <= i < td.len() implies 1 <= (#[trigger] td[i]).id < t.prox_competidor && 1 <= td[i].categoria_id
        < t.prox_categoria by {
        if i < vd.len() {
            assert(td[i] == vd[i]);
        } else {
            assert(td[i] == nc[i - vd.len()]);
        }
    }
    assert forall|i: int, j: int|
        0 <= i < j < td.len() implies (#[trigger] td[i]).id != (#[trigger] td[j]).id by {
        if i < vd.len() {
            assert(td[i] == vd[i]);
        } else {
            assert(td[i] == nc[i - vd.len()]);
        }
        if j < vd.len() {
            assert(td[j] == vd[j]);
        } else {
            assert(td[j] == nc[j - vd.len()]);
        }
    }
    assert forall|i: int, j: int|
        0 <= i < j < td.len() && (#[trigger] td[i]).categoria_id == (
        #[trigger] td[j]).categoria_id implies td[i].posicion < td[j].posicion by {
        if i < vd.len() {
            assert(td[i] == vd[i]);
        } else {
            assert(td[i] == nc[i - vd.len()]);
        }
        if j < vd.len() {
            assert(td[j] == vd[j]);
        } else {
            assert(td[j] == nc[j - vd.len()]);
        }
    }

    let tp = t.puntajes;
    let vp = s.puntajes;
    assert forall|i: int|
        0 <= i < tp.len() implies 1 <= (#[trigger] tp[i]).id < t.prox_puntaje && 1 <= tp[i].competidor_id
        < t.prox_competidor by {
        if i < vp.len() {
            assert(tp[i] == vp[i]);
        } else {
            assert(tp[i] == np[i - vp.len()]);
        }
    }
    assert forall|i: int, j: int|
        0 <= i < j < tp.len() && (#[trigger] tp[i]).competidor_id == (
        #[trigger] tp[j]).competidor_id implies tp[i].juez_numero < tp[j].juez_numero by {
        if i < vp.len() {
            assert(tp[i] == vp[i]);
        } else {
            assert(tp[i] == np[i - vp.len()]);
        }
        if j < vp.len() {
            assert(tp[j] == vp[j]);
        } else {
            assert(tp[j] == np[j - vp.len()]);
        }
    }

    // every owning reference still names a stored row
    assert forall|i: int| 0 <= i < tg.len() implies existe_competencia(
        tc,
        (#[trigger] tg[i]).competencia_id,
    ) by {
        if i < s.categorias.len() {
            assert(tg[i] == s.categorias[i]);
            assert(existe_competencia(vc, s.categorias[i].competencia_id));
            let k0 = choose|k0: int|
                0 <= k0 < vc.len() && (#[trigger] vc[k0]).id == s.categorias[i].competencia_id;
            if k0 < pos {
                assert(tc[k0] == vc[k0]);
            } else {
                assert(tc[k0 + 1] == vc[k0]);
            }
        } else {
            assert(tg[i] == fila_categoria_nueva(p, gid, cid));
            assert(tc[pos] == nueva);
        }
    }
    assert forall|i: int| 0 <= i < td.len() implies existe_categoria(
        tg,
        (#[trigger] td[i]).categoria_id,
    ) by {
        if i < vd.len() {
            assert(td[i] == vd[i]);
            assert(existe_categoria(s.categorias, vd[i].categoria_id));
            let k0 = choose|k0: int|
                0 <= k0 < s.categorias.len() && (#[trigger] s.categorias[k0]).id
                    == vd[i].categoria_id;
            assert(tg[k0] == s.categorias[k0]);
        } else {
            assert(td[i] == nc[i - vd.len()]);
            assert(tg[tg.len() - 1] == fila_categoria_nueva(p, gid, cid));
        }
    }
    assert forall|i: int| 0 <= i < tp.len() implies existe_competidor(
        td,
        (#[trigger] tp[i]).competidor_id,
    ) by {
        if i < vp.len() {
            assert(tp[i] == vp[i]);
            assert(existe_competidor(vd, vp[i].competidor_id));
            let k0 = choose|k0: int|
                0 <= k0 < vd.len() && (#[trigger] vd[k0]).id == vp[i].competidor_id;
            assert(td[k0] == vd[k0]);
        } else {
            assert(tp[i] == np[i - vp.len()]);
            let j2 = tp[i].competidor_id - bc;
            assert(bc <= tp[i].competidor_id < bc + p.competidores.len());
            assert(td[vd.len() + j2] == nc[j2]);
            assert(nc[j2].id == bc + j2);
        }
    }
}

// ---------------------------------------------------------------------
// The operations
// ---------------------------------------------------------------------

impl Almacen {
    /// An empty store: no rows, every next id 1.
    pub fn new() -> (r: Almacen)
        ensures
            r@.wf(),
            r@.competencias.len() == 0,
            r@.categorias.len() == 0,
            r@.competidores.len() == 0,
            r@.puntajes.len() == 0,
            r@.prox_competencia == 1,
            r@.prox_categoria == 1,
            r@.prox_competidor == 1,
            r@.prox_puntaje == 1,
    {
        Almacen {
            prox_competencia: 1,
            prox_categoria: 1,
            prox_competidor: 1,
            prox_puntaje: 1,
            competencias: Vec::new(),
            categorias: Vec::new(),
            competidores: Vec::new(),
            puntajes: Vec::new(),
        }
    }

    /// Saves one competition as one atomic unit. On success the store
    /// holds exactly the rows of [`guardar_modelo`] — one competition,
    /// one category, the competitors with positions `1..N` in request
    /// order, their judge scores with judge numbers `1..M` in submission
    /// order — and the generated competition id is returned. On failure
    /// (the request does not fit the machine limits of the id space)
    /// nothing changes.
    #[verifier::loop_isolation(false)]
    pub fn guardar_competencia_kata(&mut self, request: &GuardarCompetenciaRequest) -> (r: Result<
        i64,
        DbError,
    >)
        requires
            old(self)@.wf(),
        ensures
            final(self)@.wf(),
            r is Ok <==> cabe(old(self)@, request@),
            r matches Ok(id) ==> final(self)@ == guardar_modelo(old(self)@, request@).0 && id
                == guardar_modelo(old(self)@, request@).1,
            r matches Err(e) ==> final(self)@ == old(self)@ && e is QueryExecution,
    {
        let ghost p = request@;
        let ghost viejo = self@;
        let n = request.competidores.len();
        if n > (i32::MAX as usize) {
            return Err(
                DbError::QueryExecution {
                    paso: Paso::InsertarCompetidor,
                    detalle: "sin espacio para mas competidores".to_owned(),
                },
            );
        }
        if self.prox_competencia >= i64::MAX {
            return Err(
                DbError::QueryExecution {
                    paso: Paso::InsertarCompetencia,
                    detalle: "sin espacio de identificadores".to_owned(),
                },
            );
        }
        if self.prox_categoria >= i64::MAX {
            return Err(
                DbError::QueryExecution {
                    paso: Paso::InsertarCategoria,
                    detalle: "sin espacio de identificadores".to_owned(),
                },
            );
        }
        let n_i = n as i64;
        if n_i > i64::MAX - self.prox_competidor {
            return Err(
                DbError::QueryExecution {
                    paso: Paso::InsertarCompetidor,
                    detalle: "sin espacio de identificadores".to_owned(),
                },
            );
        }
        let mut total: i64 = 0;
        let mut j: usize = 0;
        while j < n
            invariant
                j <= n,
                n == p.competidores.len(),
                n <= i32::MAX,
                total == total_puntajes(p.competidores.take(j as int)),
                0 <= total <= (j as int) * 2147483648,
                forall|m: int|
                    0 <= m < j ==> (#[trigger] p.competidores[m]).puntajes_jueces.len()
                        <= i32::MAX,
            decreases n - j,
        {
            let m = request.competidores[j].puntajes_jueces.len();
            if m > (i32::MAX as usize) {
                return Err(
                    DbError::QueryExecution {
                        paso: Paso::InsertarPuntaje,
                        detalle: "sin espacio para mas puntajes de jueces".to_owned(),
                    },
                );
            }
            proof {
                assert(p.competidores[j as int] == request.competidores@[j as int]@);
                assert(p.competidores[j as int].puntajes_jueces.len() == m as int);
                lema_total_paso(p.competidores, j as int);
            }
            total = total + (m as i64);
            j += 1;
        }
        proof {
            assert(p.competidores.take(n as int) =~= p.competidores);
        }
        if total > i64::MAX - self.prox_puntaje {
            return Err(
                DbError::QueryExecution {
                    paso: Paso::InsertarPuntaje,
                    detalle: "sin espacio de identificadores".to_owned(),
                },
            );
        }
        assert(cabe(viejo, p));
        let ghost meta = guardar_modelo(viejo, p).0;
        proof {
            lema_guardar_wf(viejo, p);
        }

        let competencia_id = self.prox_competencia;
        let categoria_id = self.prox_categoria;
        let base_competidor = self.prox_competidor;
        let base_puntaje = self.prox_puntaje;

        let fila = FilaCompetencia {
            id: competencia_id,
            nombre: request.nombre.clone(),
            fecha: request.fecha.clone(),
            tipo: "kata".to_owned(),
            area: request.area.clone(),
        };
        proof {
            assert(fila@ =~= fila_competencia_nueva(p, viejo.prox_competencia));
        }
        let mut pos: usize = 0;
        while pos < self.competencias.len() && !texto_menor(
            self.competencias[pos].fecha.as_str(),
            request.fecha.as_str(),
        )
            invariant
                pos <= viejo.competencias.len(),
                self@ == viejo,
                forall|k: int|
                    0 <= k < pos ==> !lex_menor(
                        (#[trigger] viejo.competencias[k]).fecha,
                        p.fecha,
                    ),
            decreases viejo.competencias.len() - pos,
        {
            proof {
                assert(viejo.competencias[pos as int] == self.competencias@[pos as int]@);
            }
            pos += 1;
        }
        proof {
            lema_posicion_insercion(viejo.competencias, p.fecha);
            let pi = posicion_insercion(viejo.competencias, p.fecha);
            if (pos as int) < pi {
                assert(lex_menor(viejo.competencias[pos as int].fecha, p.fecha));
                assert(false);
            }
            if pi < pos as int {
                assert(!lex_menor(viejo.competencias[pi].fecha, p.fecha));
                assert(false);
            }
        }
        self.competencias.insert(pos, fila);
        proof {
            assert(self@.competencias =~= meta.competencias);
        }

        self.categorias.push(
            FilaCategoria {
                id: categoria_id,
                competencia_id,
                nombre: request.categoria.clone(),
                titulo: request.categoria.clone(),
            },
        );
        proof {
            assert(self@.categorias =~= meta.categorias);
        }

        let ghost nc = filas_competidores_nuevas(
            p,
            base_competidor as int,
            categoria_id as int,
        );
        let mut sig_puntaje = base_puntaje;
        let mut i: usize = 0;
        proof {
            assert(nc.take(0) =~= Seq::<FilaCompetidorVista>::empty());
            assert(self@.competidores =~= viejo.competidores + nc.take(0));
            assert(p.competidores.take(0) =~= Seq::<CompetidorVista>::empty());
            assert(filas_puntajes_nuevas(p.competidores.take(0), base_competidor as int, base_puntaje as int).len() == 0);
            assert(self@.puntajes =~= viejo.puntajes + filas_puntajes_nuevas(
                p.competidores.take(0),
                base_competidor as int,
                base_puntaje as int,
            ));
        }
        while i < n
            invariant
                i <= n,
                n == p.competidores.len(),
                n <= i32::MAX,
                cabe(viejo, p),
                forall|m: int|
                    0 <= m < n ==> (#[trigger] p.competidores[m]).puntajes_jueces.len()
                        <= i32::MAX,
                self.prox_competencia == competencia_id,
                self.prox_categoria == categoria_id,
                self.prox_competidor == base_competidor,
                self.prox_puntaje == base_puntaje,
                competencia_id as int == viejo.prox_competencia,
                categoria_id as int == viejo.prox_categoria,
                base_competidor as int == viejo.prox_competidor,
                base_puntaje as int == viejo.prox_puntaje,
                nc == filas_competidores_nuevas(p, base_competidor as int, categoria_id as int),
                self@.competencias == meta.competencias,
                self@.categorias == meta.categorias,
                self@.competidores == viejo.competidores + nc.take(i as int),
                self@.puntajes == viejo.puntajes + filas_puntajes_nuevas(
                    p.competidores.take(i as int),
                    base_competidor as int,
                    base_puntaje as int,
                ),
                sig_puntaje as int == base_puntaje as int + total_puntajes(
                    p.competidores.take(i as int),
                ),
            decreases n - i,
        {
            let comp = &request.competidores[i];
            proof {
                assert(comp@ == p.competidores[i as int]);
                assert(comp.puntajes_jueces@.len() == p.competidores[i as int].puntajes_jueces.len());
                lema_total_paso(p.competidores, i as int);
                lema_total_cota(p.competidores, i as int + 1);
                lema_total_no_negativo(p.competidores.take(i as int));
            }
            let fila_c = FilaCompetidor {
                id: base_competidor + (i as i64),
                categoria_id,
                nombre: comp.nombre.clone(),
                edad: comp.edad,
                puntaje_final: match &comp.puntaje_final {
                    Some(q) => Some(q.clone()),
                    None => None,
                },
                descalificado: comp.descalificado,
                posicion: (i + 1) as i32,
            };
            proof {
                assert(fila_c@ =~= nc[i as int]);
            }
            let ghost antes_comp = self.competidores@;
            self.competidores.push(fila_c);
            proof {
                assert(self@.competidores =~= antes_comp.map_values(
                    |f: FilaCompetidor| f@,
                ).push(nc[i as int]));
                assert(nc.take(i as int + 1) =~= nc.take(i as int).push(nc[i as int]));
                assert(self@.competidores =~= viejo.competidores + nc.take(i as int + 1));
            }
            let ghost competidores_actuales = self@.competidores;
            let ghost bloque = bloque_puntajes(
                p.competidores[i as int].puntajes_jueces,
                base_competidor as int + i as int,
                base_puntaje as int + total_puntajes(p.competidores.take(i as int)),
            );
            let m = comp.puntajes_jueces.len();
            proof {
                assert(bloque.take(0) =~= Seq::<FilaPuntajeVista>::empty());
                assert(self@.puntajes =~= viejo.puntajes + filas_puntajes_nuevas(
                    p.competidores.take(i as int),
                    base_competidor as int,
                    base_puntaje as int,
                ) + bloque.take(0));
            }
            let mut k: usize = 0;
            while k < m
                invariant
                    k <= m,
                    i < n,
                    n == p.competidores.len(),
                    m == p.competidores[i as int].puntajes_jueces.len(),
                    m <= i32::MAX,
                    self.prox_competencia == competencia_id,
                    self.prox_categoria == categoria_id,
                    self.prox_competidor == base_competidor,
                    self.prox_puntaje == base_puntaje,
                    base_competidor as int == viejo.prox_competidor,
                    base_competidor as int + (n as int) <= i64::MAX,
                    bloque == bloque_puntajes(
                        p.competidores[i as int].puntajes_jueces,
                        base_competidor as int + i as int,
                        base_puntaje as int + total_puntajes(p.competidores.take(i as int)),
                    ),
                    self@.competencias == meta.competencias,
                    self@.categorias == meta.categorias,
                    self@.competidores == competidores_actuales,
                    self@.puntajes == viejo.puntajes + filas_puntajes_nuevas(
                        p.competidores.take(i as int),
                        base_competidor as int,
                        base_puntaje as int,
                    ) + bloque.take(k as int),
                    sig_puntaje as int == base_puntaje as int + total_puntajes(
                        p.competidores.take(i as int),
                    ) + k,
                    sig_puntaje as int + (m - k) <= i64::MAX,
                decreases m - k,
            {
                let fila_p = FilaPuntaje {
                    id: sig_puntaje,
                    competidor_id: base_competidor + (i as i64),
                    juez_numero: (k + 1) as i32,
                    puntaje: comp.puntajes_jueces[k].clone(),
                };
                proof {
                    assert(comp.puntajes_jueces@[k as int]@ == p.competidores[
                        i as int
                    ].puntajes_jueces[k as int]);
                    assert(fila_p@ =~= bloque[k as int]);
                }
                let ghost antes_punt = self.puntajes@;
                self.puntajes.push(fila_p);
                sig_puntaje = sig_puntaje + 1;
                proof {
                    assert(self@.puntajes =~= antes_punt.map_values(
                        |f: FilaPuntaje| f@,
                    ).push(bloque[k as int]));
                    assert(bloque.take(k as int + 1) =~= bloque.take(k as int).push(
                        bloque[k as int],
                    ));
                    assert(self@.puntajes =~= viejo.puntajes + filas_puntajes_nuevas(
                        p.competidores.take(i as int),
                        base_competidor as int,
                        base_puntaje as int,
                    ) + bloque.take(k as int + 1));
                }
                k += 1;
            }
            proof {
                assert(bloque.take(m as int) =~= bloque);
                lema_fpn_paso(
                    p.competidores,
                    i as int,
                    base_competidor as int,
                    base_puntaje as int,
                );
                assert(self@.puntajes =~= viejo.puntajes + filas_puntajes_nuevas(
                    p.competidores.take(i as int + 1),
                    base_competidor as int,
                    base_puntaje as int,
                ));
            }
            i += 1;
        }
        proof {
            assert(p.competidores.take(n as int) =~= p.competidores);
            assert(nc.take(n as int) =~= nc);
        }
        self.prox_competencia = competencia_id + 1;
        self.prox_categoria = categoria_id + 1;
        self.prox_competidor = base_competidor + n_i;
        self.prox_puntaje = sig_puntaje;
        proof {
            assert(self@ =~= meta);
        }
        Ok(competencia_id)
    }
}


/// Whether a vector of ids holds the given id.
fn contiene(v: &Vec<i64>, x: i64) -> (r: bool)
    ensures
        r == v@.contains(x),
{
    let mut t: usize = 0;
    while t < v.len()
        invariant
            t <= v@.len(),
            forall|k: int| 0 <= k < t ==> v@[k] != x,
        decreases v@.len() - t,
    {
        if v[t] == x {
            assert(v@[t as int] == x);
            return true;
        }
        t += 1;
    }
    false
}

impl Almacen {
    /// The table index of the first competition row with the given id.
    #[verifier::loop_isolation(false)]
    fn buscar_competencia(&self, competencia_id: i64) -> (r: Option<usize>)
        ensures
            match r {
                Some(t) => t < self.competencias@.len() && primera_competencia(
                    self@.competencias,
                    competencia_id as int,
                ) == Some(self@.competencias[t as int]),
                None => primera_competencia(self@.competencias, competencia_id as int) is None,
            },
    {
        let nn = self.competencias.len();
        let mut t: usize = 0;
        proof {
            assert(self@.competencias.skip(0) =~= self@.competencias);
        }
        while t < nn
            invariant
                t <= nn,
                primera_competencia(self@.competencias, competencia_id as int)
                    == primera_competencia(
                    self@.competencias.skip(t as int),
                    competencia_id as int,
                ),
            decreases nn - t,
        {
            proof {
                assert(self@.competencias.skip(t as int)[0] == self@.competencias[t as int]);
            }
            if self.competencias[t].id == competencia_id {
                return Some(t);
            }
            proof {
                assert(self@.competencias.skip(t as int).drop_first() =~= self@.competencias.skip(
                    t as int + 1,
                ));
            }
            t += 1;
        }
        proof {
            assert(self@.competencias.skip(nn as int).len() == 0);
        }
        None
    }

    /// The table index of the first category row owned by the given
    /// competition.
    #[verifier::loop_isolation(false)]
    fn buscar_categoria(&self, competencia_id: i64) -> (r: Option<usize>)
        ensures
            match r {
                Some(t) => t < self.categorias@.len() && primera_categoria(
                    self@.categorias,
                    competencia_id as int,
                ) == Some(self@.categorias[t as int]),
                None => primera_categoria(self@.categorias, competencia_id as int) is None,
            },
    {
        let nn = self.categorias.len();
        let mut t: usize = 0;
        proof {
            assert(self@.categorias.skip(0) =~= self@.categorias);
        }
        while t < nn
            invariant
                t <= nn,
                primera_categoria(self@.categorias, competencia_id as int) == primera_categoria(
                    self@.categorias.skip(t as int),
                    competencia_id as int,
                ),
            decreases nn - t,
        {
            proof {
                assert(self@.categorias.skip(t as int)[0] == self@.categorias[t as int]);
            }
            if self.categorias[t].competencia_id == competencia_id {
                return Some(t);
            }
            proof {
                assert(self@.categorias.skip(t as int).drop_first() =~= self@.categorias.skip(
                    t as int + 1,
                ));
            }
            t += 1;
        }
        proof {
            assert(self@.categorias.skip(nn as int).len() == 0);
        }
        None
    }

    /// The judge scores of one competitor, in judge-number order.
    #[verifier::loop_isolation(false)]
    fn puntajes_de_competidor(&self, competidor_id: i64) -> (r: Vec<String>)
        ensures
            vista_textos(r@) == puntajes_de(self@.puntajes, competidor_id as int),
    {
        let mut out: Vec<String> = Vec::new();
        let np = self.puntajes.len();
        let mut t: usize = 0;
        proof {
            assert(self@.puntajes.subrange(0, 0) =~= Seq::<FilaPuntajeVista>::empty());
            assert(vista_textos(out@) =~= puntajes_de(
                self@.puntajes.subrange(0, 0),
                competidor_id as int,
            ));
        }
        while t < np
            invariant
                t <= np,
                vista_textos(out@) == puntajes_de(
                    self@.puntajes.subrange(0, t as int),
                    competidor_id as int,
                ),
            decreases np - t,
        {
            let f = &self.puntajes[t];
            proof {
                assert(f@ == self@.puntajes[t as int]);
                assert(self@.puntajes.subrange(0, t as int + 1).drop_last() =~= self@.puntajes
                    .subrange(0, t as int));
                assert(self@.puntajes.subrange(0, t as int + 1).last() == f@);
            }
            if f.competidor_id == competidor_id {
                let ghost antes = out@;
                out.push(f.puntaje.clone());
                proof {
                    assert(filtrar(
                        self@.puntajes.subrange(0, t as int + 1),
                        pred_puntajes_de(competidor_id as int),
                    ) =~= filtrar(
                        self@.puntajes.subrange(0, t as int),
                        pred_puntajes_de(competidor_id as int),
                    ).push(f@));
                    assert(puntajes_de(
                        self@.puntajes.subrange(0, t as int + 1),
                        competidor_id as int,
                    ) =~= puntajes_de(
                        self@.puntajes.subrange(0, t as int),
                        competidor_id as int,
                    ).push(f@.puntaje));
                    assert(vista_textos(out@) =~= vista_textos(antes).push(f@.puntaje));
                    assert(vista_textos(out@) =~= puntajes_de(
                        self@.puntajes.subrange(0, t as int + 1),
                        competidor_id as int,
                    ));
                }
            } else {
                proof {
                    assert(puntajes_de(
                        self@.puntajes.subrange(0, t as int + 1),
                        competidor_id as int,
                    ) =~= puntajes_de(self@.puntajes.subrange(0, t as int), competidor_id as int));
                }
            }
            t += 1;
        }
        proof {
            assert(self@.puntajes.subrange(0, np as int) =~= self@.puntajes);
        }
        out
    }

    /// Lists the stored competitions as summaries, newest date first
    /// and ties on the date in save order; a negative limit means no
    /// limit, any other limit caps the count. Each summary carries the
    /// competition's category label — empty when it has no category —
    /// and no competitors.
    #[verifier::loop_isolation(false)]
    pub fn obtener_historial_competencias(&self, limit: i32) -> (r: Vec<CompetenciaKata>)
        requires
            self@.wf(),
        ensures
            r@.len() == cuantas(limit as int, self@.competencias.len() as int),
            forall|j: int|
                0 <= j < r@.len() ==> (#[trigger] r@[j])@ == resumen_modelo(
                    self@,
                    self@.competencias[j],
                ),
    {
        let nn = self.competencias.len();
        let tope: usize = if limit < 0 {
            nn
        } else if (limit as usize) < nn {
            limit as usize
        } else {
            nn
        };
        let mut out: Vec<CompetenciaKata> = Vec::new();
        let mut j: usize = 0;
        while j < tope
            invariant
                j <= tope,
                out@.len() == j,
                forall|t: int|
                    0 <= t < j ==> (#[trigger] out@[t])@ == resumen_modelo(
                        self@,
                        self@.competencias[t],
                    ),
            decreases tope - j,
        {
            let fila = &self.competencias[j];
            proof {
                assert(fila@ == self@.competencias[j as int]);
            }
            let categoria = match self.buscar_categoria(fila.id) {
                Some(t) => self.categorias[t].nombre.clone(),
                None => String::new(),
            };
            let resumen = CompetenciaKata {
                id: Some(fila.id),
                nombre: fila.nombre.clone(),
                fecha: fila.fecha.clone(),
                area: fila.area.clone(),
                categoria,
                competidores: Vec::new(),
            };
            proof {
                assert(resumen@.competidores =~= Seq::<CompetidorVista>::empty());
                assert(resumen@ =~= resumen_modelo(self@, self@.competencias[j as int]));
            }
            out.push(resumen);
            j += 1;
        }
        out
    }

    /// Fetches the full detail of one competition: its category label,
    /// its competitors in rank order, and each competitor's judge scores
    /// in judge-number order. Fails with `NotFound` exactly when no
    /// competition has the given id; a competition without a category has
    /// an empty label and no competitors.
    #[verifier::loop_isolation(false)]
    pub fn obtener_detalles_competencia(&self, competencia_id: i64) -> (r: Result<
        CompetenciaKata,
        DbError,
    >)
        requires
            self@.wf(),
        ensures
            r matches Ok(c) ==> detalle_modelo(self@, competencia_id as int) == Some(c@),
            r matches Err(e) ==> (detalle_modelo(self@, competencia_id as int) is None
                && e is NotFound),
    {
        let idx = match self.buscar_competencia(competencia_id) {
            Some(t) => t,
            None => {
                return Err(DbError::NotFound);
            },
        };
        let fila = &self.competencias[idx];
        proof {
            assert(fila@ == self@.competencias[idx as int]);
        }
        match self.buscar_categoria(competencia_id) {
            None => {
                let c = CompetenciaKata {
                    id: Some(fila.id),
                    nombre: fila.nombre.clone(),
                    fecha: fila.fecha.clone(),
                    area: fila.area.clone(),
                    categoria: String::new(),
                    competidores: Vec::new(),
                };
                proof {
                    assert(c@.competidores =~= Seq::<CompetidorVista>::empty());
                    assert(detalle_modelo(self@, competencia_id as int) matches Some(cv)
                        && cv =~= c@);
                }
                Ok(c)
            },
            Some(tcat) => {
                let gid = self.categorias[tcat].id;
                let nombre_cat = self.categorias[tcat].nombre.clone();
                proof {
                    assert(self@.categorias[tcat as int].id == gid as int);
                }
                let mut comps: Vec<CompetidorKata> = Vec::new();
                let nd = self.competidores.len();
                let mut t: usize = 0;
                proof {
                    assert(self@.competidores.subrange(0, 0)
                        =~= Seq::<FilaCompetidorVista>::empty());
                    assert(vista_competidores(comps@) =~= detalle_de_filas(
                        self@,
                        competidores_de(self@.competidores.subrange(0, 0), gid as int),
                    ));
                }
                while t < nd
                    invariant
                        t <= nd,
                        vista_competidores(comps@) == detalle_de_filas(
                            self@,
                            competidores_de(self@.competidores.subrange(0, t as int), gid as int),
                        ),
                    decreases nd - t,
                {
                    let f = &self.competidores[t];
                    proof {
                        assert(f@ == self@.competidores[t as int]);
                        assert(self@.competidores.subrange(0, t as int + 1).drop_last()
                            =~= self@.competidores.subrange(0, t as int));
                        assert(self@.competidores.subrange(0, t as int + 1).last() == f@);
                    }
                    if f.categoria_id == gid {
                        let puntajes = self.puntajes_de_competidor(f.id);
                        let nuevo = CompetidorKata {
                            nombre: f.nombre.clone(),
                            edad: f.edad,
                            puntaje_final: match &f.puntaje_final {
                                Some(q) => Some(q.clone()),
                                None => None,
                            },
                            puntajes_jueces: puntajes,
                            descalificado: f.descalificado,
                        };
                        proof {
                            assert(nuevo@ =~= funcion_detalle(self@)(f@));
                        }
                        let ghost antes = comps@;
                        comps.push(nuevo);
                        proof {
                            assert(competidores_de(
                                self@.competidores.subrange(0, t as int + 1),
                                gid as int,
                            ) =~= competidores_de(
                                self@.competidores.subrange(0, t as int),
                                gid as int,
                            ).push(f@));
                            assert(detalle_de_filas(
                                self@,
                                competidores_de(
                                    self@.competidores.subrange(0, t as int + 1),
                                    gid as int,
                                ),
                            ) =~= detalle_de_filas(
                                self@,
                                competidores_de(
                                    self@.competidores.subrange(0, t as int),
                                    gid as int,
                                ),
                            ).push(funcion_detalle(self@)(f@)));
                            assert(vista_competidores(comps@) =~= vista_competidores(antes).push(
                                nuevo@,
                            ));
                            assert(vista_competidores(comps@) =~= detalle_de_filas(
                                self@,
                                competidores_de(
                                    self@.competidores.subrange(0, t as int + 1),
                                    gid as int,
                                ),
                            ));
                        }
                    } else {
                        proof {
                            assert(competidores_de(
                                self@.competidores.subrange(0, t as int + 1),
                                gid as int,
                            ) =~= competidores_de(
                                self@.competidores.subrange(0, t as int),
                                gid as int,
                            ));
                        }
                    }
                    t += 1;
                }
                proof {
                    assert(self@.competidores.subrange(0, nd as int) =~= self@.competidores);
                }
                let c = CompetenciaKata {
                    id: Some(fila.id),
                    nombre: fila.nombre.clone(),
                    fecha: fila.fecha.clone(),
                    area: fila.area.clone(),
                    categoria: nombre_cat,
                    competidores: comps,
                };
                proof {
                    assert(c@.competidores =~= vista_competidores(comps@));
                    assert(detalle_modelo(self@, competencia_id as int) matches Some(cv)
                        && cv =~= c@);
                }
                Ok(c)
            },
        }
    }
}


impl Almacen {
    /// Deletes the competition with the given id together with every
    /// category it owns, every competitor of those categories and every
    /// judge score of those competitors. Deleting an id that is not
    /// stored succeeds and changes nothing, since the intended end state
    /// — absence — already holds.
    #[verifier::loop_isolation(false)]
    #[verifier::rlimit(50)]
    pub fn eliminar_competencia(&mut self, competencia_id: i64) -> (r: Result<(), DbError>)
        requires
            old(self)@.wf(),
        ensures
            r is Ok,
            final(self)@ == eliminar_modelo(old(self)@, competencia_id as int),
            final(self)@.wf(),
    {
        let ghost viejo = self@;
        let ghost borrar = competencia_id as int;

        // competitions
        let mut quedan_comp: Vec<FilaCompetencia> = Vec::new();
        let ghost mut g: int = 0;
        proof {
            assert(viejo.competencias.take(0).len() == 0);
            assert(filtrar(viejo.competencias.take(0), pred_competencia_queda(borrar)).len()
                == 0);
            assert(self.competencias@.map_values(|f: FilaCompetencia| f@) =~= viejo.competencias);
            assert(viejo.competencias.skip(0) =~= viejo.competencias);
        }
        while self.competencias.len() > 0
            invariant
                0 <= g <= viejo.competencias.len(),
                self.competencias@.map_values(|f: FilaCompetencia| f@) == viejo.competencias.skip(
                    g,
                ),
                quedan_comp@.map_values(|f: FilaCompetencia| f@) == filtrar(
                    viejo.competencias.take(g),
                    pred_competencia_queda(borrar),
                ),
                self.categorias@ == old(self).categorias@,
                self.competidores@ == old(self).competidores@,
                self.puntajes@ == old(self).puntajes@,
                self.prox_competencia == old(self).prox_competencia,
                self.prox_categoria == old(self).prox_categoria,
                self.prox_competidor == old(self).prox_competidor,
                self.prox_puntaje == old(self).prox_puntaje,
            decreases self.competencias@.len(),
    {
            let ghost antes_vec = self.competencias@;
            let quitada = self.competencias.remove(0);
            proof {
                assert(viejo.competencias.skip(g)[0] == viejo.competencias[g]);
                assert(antes_vec.map_values(|f: FilaCompetencia| f@)[0] == viejo.competencias.skip(
                    g,
                )[0]);
                assert(quitada@ == viejo.competencias[g]);
                assert forall|i2: int|
                    0 <= i2 < self.competencias@.len() implies self.competencias@.map_values(
                    |f: FilaCompetencia| f@,
                )[i2] == #[trigger] viejo.competencias.skip(g + 1)[i2] by {
                    assert(antes_vec.map_values(|f: FilaCompetencia| f@)[i2 + 1] == viejo.competencias.skip(
                        g,
                    )[i2 + 1]);
                    assert(self.competencias@[i2] == antes_vec[i2 + 1]);
                }
                assert(self.competencias@.map_values(|f: FilaCompetencia| f@)
                    =~= viejo.competencias.skip(g + 1));
                assert(viejo.competencias.take(g + 1).drop_last() =~= viejo.competencias.take(g));
                assert(viejo.competencias.take(g + 1).last() == viejo.competencias[g]);
            }
            if quitada.id != competencia_id {
                let ghost antes = quedan_comp@;
                quedan_comp.push(quitada);
                proof {
                    assert(quedan_comp@.map_values(|f: FilaCompetencia| f@)
                        =~= antes.map_values(|f: FilaCompetencia| f@).push(
                        viejo.competencias[g],
                    ));
                    assert(quedan_comp@.map_values(|f: FilaCompetencia| f@) =~= filtrar(
                        viejo.competencias.take(g + 1),
                        pred_competencia_queda(borrar),
                    ));
                }
            } else {
                proof {
                    assert(filtrar(viejo.competencias.take(g + 1), pred_competencia_queda(borrar))
                        =~= filtrar(viejo.competencias.take(g), pred_competencia_queda(borrar)));
                }
            }
            proof {
                g = g + 1;
            }
        }
        self.competencias = quedan_comp;
        proof {
            assert(viejo.competencias.take(g) =~= viejo.competencias);
            assert(self@.competencias == filtrar(
                viejo.competencias,
                pred_competencia_queda(borrar),
            ));
        }

        // categories, collecting the ids of the deleted ones
        let mut quedan_cat: Vec<FilaCategoria> = Vec::new();
        let mut cat_borradas: Vec<i64> = Vec::new();
        let ghost mut h: int = 0;
        proof {
            assert(filtrar(viejo.categorias.take(0), pred_categoria_queda(borrar)).len() == 0);
            assert(self.categorias@.map_values(|f: FilaCategoria| f@) =~= viejo.categorias);
            assert(viejo.categorias.skip(0) =~= viejo.categorias);
        }
        while self.categorias.len() > 0
            invariant
                0 <= h <= viejo.categorias.len(),
                self.categorias@.map_values(|f: FilaCategoria| f@) == viejo.categorias.skip(h),
                quedan_cat@.map_values(|f: FilaCategoria| f@) == filtrar(
                    viejo.categorias.take(h),
                    pred_categoria_queda(borrar),
                ),
                forall|x: i64|
                    #[trigger] cat_borradas@.contains(x) <==> categoria_eliminada(
                        viejo.categorias.take(h),
                        borrar,
                        x as int,
                    ),
                self@.competencias == filtrar(viejo.competencias, pred_competencia_queda(borrar)),
                self.competidores@ == old(self).competidores@,
                self.puntajes@ == old(self).puntajes@,
                self.prox_competencia == old(self).prox_competencia,
                self.prox_categoria == old(self).prox_categoria,
                self.prox_competidor == old(self).prox_competidor,
                self.prox_puntaje == old(self).prox_puntaje,
            decreases self.categorias@.len(),
        {
            let ghost antes_vec = self.categorias@;
            let quitada = self.categorias.remove(0);
            proof {
                assert(viejo.categorias.skip(h)[0] == viejo.categorias[h]);
                assert(antes_vec.map_values(|f: FilaCategoria| f@)[0] == viejo.categorias.skip(
                    h,
                )[0]);
                assert(quitada@ == viejo.categorias[h]);
                assert forall|i2: int|
                    0 <= i2 < self.categorias@.len() implies self.categorias@.map_values(
                    |f: FilaCategoria| f@,
                )[i2] == #[trigger] viejo.categorias.skip(h + 1)[i2] by {
                    assert(antes_vec.map_values(|f: FilaCategoria| f@)[i2 + 1] == viejo.categorias.skip(
                        h,
                    )[i2 + 1]);
                    assert(self.categorias@[i2] == antes_vec[i2 + 1]);
                }
                assert(self.categorias@.map_values(|f: FilaCategoria| f@)
                    =~= viejo.categorias.skip(h + 1));
                assert(viejo.categorias.take(h + 1).drop_last() =~= viejo.categorias.take(h));
                assert(viejo.categorias.take(h + 1).last() == viejo.categorias[h]);
            }
            if quitada.competencia_id != competencia_id {
                let ghost antes = quedan_cat@;
                quedan_cat.push(quitada);
                proof {
                    assert(quedan_cat@.map_values(|f: FilaCategoria| f@)
                        =~= antes.map_values(|f: FilaCategoria| f@).push(viejo.categorias[h]));
                    assert(quedan_cat@.map_values(|f: FilaCategoria| f@) =~= filtrar(
                        viejo.categorias.take(h + 1),
                        pred_categoria_queda(borrar),
                    ));
                    assert forall|x: i64|
                        #[trigger] cat_borradas@.contains(x) <==> categoria_eliminada(
                            viejo.categorias.take(h + 1),
                            borrar,
                            x as int,
                        ) by {
                        if categoria_eliminada(viejo.categorias.take(h + 1), borrar, x as int) {
                            let k = choose|k: int|
                                0 <= k < viejo.categorias.take(h + 1).len() && (
                                #[trigger] viejo.categorias.take(h + 1)[k]).competencia_id
                                    == borrar && viejo.categorias.take(h + 1)[k].id == x as int;
                            if k < h {
                                assert(viejo.categorias.take(h)[k] == viejo.categorias.take(
                                    h + 1,
                                )[k]);
                            } else {
                                assert(viejo.categorias[h].competencia_id == borrar);
                                assert(false);
                            }
                        }
                        if categoria_eliminada(viejo.categorias.take(h), borrar, x as int) {
                            let k = choose|k: int|
                                0 <= k < viejo.categorias.take(h).len() && (
                                #[trigger] viejo.categorias.take(h)[k]).competencia_id == borrar
                                    && viejo.categorias.take(h)[k].id == x as int;
                            assert(viejo.categorias.take(h + 1)[k] == viejo.categorias.take(h)[k]);
                        }
                    }
                }
            } else {
                let ghost antes_ids = cat_borradas@;
                cat_borradas.push(quitada.id);
                proof {
                    assert(filtrar(viejo.categorias.take(h + 1), pred_categoria_queda(borrar))
                        =~= filtrar(viejo.categorias.take(h), pred_categoria_queda(borrar)));
                    assert forall|x: i64|
                        #[trigger] cat_borradas@.contains(x) <==> categoria_eliminada(
                            viejo.categorias.take(h + 1),
                            borrar,
                            x as int,
                        ) by {
                        if cat_borradas@.contains(x) {
                            let k = choose|k: int|
                                0 <= k < cat_borradas@.len() && cat_borradas@[k] == x;
                            if k < antes_ids.len() {
                                assert(antes_ids[k] == x);
                                assert(antes_ids.contains(x));
                                let k2 = choose|k2: int|
                                    0 <= k2 < viejo.categorias.take(h).len() && (
                                    #[trigger] viejo.categorias.take(h)[k2]).competencia_id
                                        == borrar && viejo.categorias.take(h)[k2].id == x as int;
                                assert(viejo.categorias.take(h + 1)[k2] == viejo.categorias.take(
                                    h,
                                )[k2]);
                            } else {
                                assert(viejo.categorias.take(h + 1)[h] == viejo.categorias[h]);
                                assert(viejo.categorias[h].id == x as int);
                            }
                        }
                        if categoria_eliminada(viejo.categorias.take(h + 1), borrar, x as int) {
                            let k = choose|k: int|
                                0 <= k < viejo.categorias.take(h + 1).len() && (
                                #[trigger] viejo.categorias.take(h + 1)[k]).competencia_id
                                    == borrar && viejo.categorias.take(h + 1)[k].id == x as int;
                            if k < h {
                                assert(viejo.categorias.take(h)[k] == viejo.categorias.take(
                                    h + 1,
                                )[k]);
                                assert(antes_ids.contains(x));
                                let k3 = choose|k3: int|
                                    0 <= k3 < antes_ids.len() && antes_ids[k3] == x;
                                assert(cat_borradas@[k3] == x);
                            } else {
                                assert(cat_borradas@[cat_borradas@.len() - 1] == x);
                            }
                        }
                    }
                }
            }
            proof {
                h = h + 1;
            }
        }
        self.categorias = quedan_cat;
        proof {
            assert(viejo.categorias.take(h) =~= viejo.categorias);
            assert(self@.categorias == filtrar(viejo.categorias, pred_categoria_queda(borrar)));
        }

        // competitors, collecting the ids of the deleted ones
        let mut quedan_d: Vec<FilaCompetidor> = Vec::new();
        let mut comp_borrados: Vec<i64> = Vec::new();
        let ghost mut w: int = 0;
        proof {
            assert(filtrar(
                viejo.competidores.take(0),
                pred_competidor_queda(viejo.categorias, borrar),
            ).len() == 0);
            assert(self.competidores@.map_values(|f: FilaCompetidor| f@) =~= viejo.competidores);
            assert(viejo.competidores.skip(0) =~= viejo.competidores);
        }
        while self.competidores.len() > 0
            invariant
                0 <= w <= viejo.competidores.len(),
                self.competidores@.map_values(|f: FilaCompetidor| f@) == viejo.competidores.skip(
                    w,
                ),
                quedan_d@.map_values(|f: FilaCompetidor| f@) == filtrar(
                    viejo.competidores.take(w),
                    pred_competidor_queda(viejo.categorias, borrar),
                ),
                forall|x: i64|
                    #[trigger] comp_borrados@.contains(x) <==> competidor_eliminado(
                        viejo.competidores.take(w),
                        viejo.categorias,
                        borrar,
                        x as int,
                    ),
                forall|x: i64|
                    #[trigger] cat_borradas@.contains(x) <==> categoria_eliminada(
                        viejo.categorias,
                        borrar,
                        x as int,
                    ),
                self@.competencias == filtrar(viejo.competencias, pred_competencia_queda(borrar)),
                self@.categorias == filtrar(viejo.categorias, pred_categoria_queda(borrar)),
                self.puntajes@ == old(self).puntajes@,
                self.prox_competencia == old(self).prox_competencia,
                self.prox_categoria == old(self).prox_categoria,
                self.prox_competidor == old(self).prox_competidor,
                self.prox_puntaje == old(self).prox_puntaje,
            decreases self.competidores@.len(),
        {
            let ghost antes_vec = self.competidores@;
            let quitada = self.competidores.remove(0);
            proof {
                assert(viejo.competidores.skip(w)[0] == viejo.competidores[w]);
                assert(antes_vec.map_values(|f: FilaCompetidor| f@)[0] == viejo.competidores.skip(
                    w,
                )[0]);
                assert(quitada@ == viejo.competidores[w]);
                assert forall|i2: int|
                    0 <= i2 < self.competidores@.len() implies self.competidores@.map_values(
                    |f: FilaCompetidor| f@,
                )[i2] == #[trigger] viejo.competidores.skip(w + 1)[i2] by {
                    assert(antes_vec.map_values(|f: FilaCompetidor| f@)[i2 + 1] == viejo.competidores.skip(
                        w,
                    )[i2 + 1]);
                    assert(self.competidores@[i2] == antes_vec[i2 + 1]);
                }
                assert(self.competidores@.map_values(|f: FilaCompetidor| f@)
                    =~= viejo.competidores.skip(w + 1));
                assert(viejo.competidores.take(w + 1).drop_last() =~= viejo.competidores.take(w));
                assert(viejo.competidores.take(w + 1).last() == viejo.competidores[w]);
            }
            let eliminada = contiene(&cat_borradas, quitada.categoria_id);
            proof {
                assert(eliminada == categoria_eliminada(
                    viejo.categorias,
                    borrar,
                    quitada@.categoria_id,
                ));
            }
            if !eliminada {
                let ghost antes = quedan_d@;
                quedan_d.push(quitada);
                proof {
                    assert(quedan_d@.map_values(|f: FilaCompetidor| f@)
                        =~= antes.map_values(|f: FilaCompetidor| f@).push(
                        viejo.competidores[w],
                    ));
                    assert(quedan_d@.map_values(|f: FilaCompetidor| f@) =~= filtrar(
                        viejo.competidores.take(w + 1),
                        pred_competidor_queda(viejo.categorias, borrar),
                    ));
                    assert forall|x: i64|
                        #[trigger] comp_borrados@.contains(x) <==> competidor_eliminado(
                            viejo.competidores.take(w + 1),
                            viejo.categorias,
                            borrar,
                            x as int,
                        ) by {
                        if competidor_eliminado(
                            viejo.competidores.take(w + 1),
                            viejo.categorias,
                            borrar,
                            x as int,
                        ) {
                            let k = choose|k: int|
                                0 <= k < viejo.competidores.take(w + 1).len() && (
                                #[trigger] viejo.competidores.take(w + 1)[k]).id == x as int
                                    && categoria_eliminada(
                                    viejo.categorias,
                                    borrar,
                                    viejo.competidores.take(w + 1)[k].categoria_id,
                                );
                            if k < w {
                                assert(viejo.competidores.take(w)[k] == viejo.competidores.take(
                                    w + 1,
                                )[k]);
                            } else {
                                assert(false);
                            }
                        }
                        if competidor_eliminado(
                            viejo.competidores.take(w),
                            viejo.categorias,
                            borrar,
                            x as int,
                        ) {
                            let k = choose|k: int|
                                0 <= k < viejo.competidores.take(w).len() && (
                                #[trigger] viejo.competidores.take(w)[k]).id == x as int
                                    && categoria_eliminada(
                                    viejo.categorias,
                                    borrar,
                                    viejo.competidores.take(w)[k].categoria_id,
                                );
                            assert(viejo.competidores.take(w + 1)[k] == viejo.competidores.take(
                                w,
                            )[k]);
                        }
                    }
                }
            } else {
                let ghost antes_ids = comp_borrados@;
                comp_borrados.push(quitada.id);
                proof {
                    assert(filtrar(
                        viejo.competidores.take(w + 1),
                        pred_competidor_queda(viejo.categorias, borrar),
                    ) =~= filtrar(
                        viejo.competidores.take(w),
                        pred_competidor_queda(viejo.categorias, borrar),
                    ));
                    assert forall|x: i64|
                        #[trigger] comp_borrados@.contains(x) <==> competidor_eliminado(
                            viejo.competidores.take(w + 1),
                            viejo.categorias,
                            borrar,
                            x as int,
                        ) by {
                        if comp_borrados@.contains(x) {
                            let k = choose|k: int|
                                0 <= k < comp_borrados@.len() && comp_borrados@[k] == x;
                            if k < antes_ids.len() {
                                assert(antes_ids[k] == x);
                                assert(antes_ids.contains(x));
                                let k2 = choose|k2: int|
                                    0 <= k2 < viejo.competidores.take(w).len() && (
                                    #[trigger] viejo.competidores.take(w)[k2]).id == x as int
                                        && categoria_eliminada(
                                        viejo.categorias,
                                        borrar,
                                        viejo.competidores.take(w)[k2].categoria_id,
                                    );
                                assert(viejo.competidores.take(w + 1)[k2]
                                    == viejo.competidores.take(w)[k2]);
                            } else {
                                assert(viejo.competidores.take(w + 1)[w]
                                    == viejo.competidores[w]);
                                assert(viejo.competidores[w].id == x as int);
                            }
                        }
                        if competidor_eliminado(
                            viejo.competidores.take(w + 1),
                            viejo.categorias,
                            borrar,
                            x as int,
                        ) {
                            let k = choose|k: int|
                                0 <= k < viejo.competidores.take(w + 1).len() && (
                                #[trigger] viejo.competidores.take(w + 1)[k]).id == x as int
                                    && categoria_eliminada(
                                    viejo.categorias,
                                    borrar,
                                    viejo.competidores.take(w + 1)[k].categoria_id,
                                );
                            if k < w {
                                assert(viejo.competidores.take(w)[k] == viejo.competidores.take(
                                    w + 1,
                                )[k]);
                                assert(antes_ids.contains(x));
                                let k3 = choose|k3: int|
                                    0 <= k3 < antes_ids.len() && antes_ids[k3] == x;
                                assert(comp_borrados@[k3] == x);
                            } else {
                                assert(comp_borrados@[comp_borrados@.len() - 1] == x);
                            }
                        }
                    }
                }
            }
            proof {
                w = w + 1;
            }
        }
        self.competidores = quedan_d;
        proof {
            assert(viejo.competidores.take(w) =~= viejo.competidores);
            assert(self@.competidores == filtrar(
                viejo.competidores,
                pred_competidor_queda(viejo.categorias, borrar),
            ));
        }

        // judge scores
        let mut quedan_p: Vec<FilaPuntaje> = Vec::new();
        let ghost mut v: int = 0;
        proof {
            assert(filtrar(
                viejo.puntajes.take(0),
                pred_puntaje_queda(viejo.competidores, viejo.categorias, borrar),
            ).len() == 0);
            assert(self.puntajes@.map_values(|f: FilaPuntaje| f@) =~= viejo.puntajes);
            assert(viejo.puntajes.skip(0) =~= viejo.puntajes);
        }
        while self.puntajes.len() > 0
            invariant
                0 <= v <= viejo.puntajes.len(),
                self.puntajes@.map_values(|f: FilaPuntaje| f@) == viejo.puntajes.skip(v),
                quedan_p@.map_values(|f: FilaPuntaje| f@) == filtrar(
                    viejo.puntajes.take(v),
                    pred_puntaje_queda(viejo.competidores, viejo.categorias, borrar),
                ),
                forall|x: i64|
                    #[trigger] comp_borrados@.contains(x) <==> competidor_eliminado(
                        viejo.competidores,
                        viejo.categorias,
                        borrar,
                        x as int,
                    ),
                self@.competencias == filtrar(viejo.competencias, pred_competencia_queda(borrar)),
                self@.categorias == filtrar(viejo.categorias, pred_categoria_queda(borrar)),
                self@.competidores == filtrar(
                    viejo.competidores,
                    pred_competidor_queda(viejo.categorias, borrar),
                ),
                self.prox_competencia == old(self).prox_competencia,
                self.prox_categoria == old(self).prox_categoria,
                self.prox_competidor == old(self).prox_competidor,
                self.prox_puntaje == old(self).prox_puntaje,
            decreases self.puntajes@.len(),
        {
            let ghost antes_vec = self.puntajes@;
            let quitada = self.puntajes.remove(0);
            proof {
                assert(viejo.puntajes.skip(v)[0] == viejo.puntajes[v]);
                assert(antes_vec.map_values(|f: FilaPuntaje| f@)[0] == viejo.puntajes.skip(v)[0]);
                assert(quitada@ == viejo.puntajes[v]);
                assert forall|i2: int|
                    0 <= i2 < self.puntajes@.len() implies self.puntajes@.map_values(
                    |f: FilaPuntaje| f@,
                )[i2] == #[trigger] viejo.puntajes.skip(v + 1)[i2] by {
                    assert(antes_vec.map_values(|f: FilaPuntaje| f@)[i2 + 1] == viejo.puntajes.skip(
                        v,
                    )[i2 + 1]);
                    assert(self.puntajes@[i2] == antes_vec[i2 + 1]);
                }
                assert(self.puntajes@.map_values(|f: FilaPuntaje| f@) =~= viejo.puntajes.skip(
                    v + 1,
                ));
                assert(viejo.puntajes.take(v + 1).drop_last() =~= viejo.puntajes.take(v));
                assert(viejo.puntajes.take(v + 1).last() == viejo.puntajes[v]);
            }
            let eliminado = contiene(&comp_borrados, quitada.competidor_id);
            proof {
                assert(eliminado == competidor_eliminado(
                    viejo.competidores,
                    viejo.categorias,
                    borrar,
                    quitada@.competidor_id,
                ));
            }
            if !eliminado {
                let ghost antes = quedan_p@;
                quedan_p.push(quitada);
                proof {
                    assert(quedan_p@.map_values(|f: FilaPuntaje| f@)
                        =~= antes.map_values(|f: FilaPuntaje| f@).push(viejo.puntajes[v]));
                    assert(quedan_p@.map_values(|f: FilaPuntaje| f@) =~= filtrar(
                        viejo.puntajes.take(v + 1),
                        pred_puntaje_queda(viejo.competidores, viejo.categorias, borrar),
                    ));
                }
            } else {
                proof {
                    assert(filtrar(
                        viejo.puntajes.take(v + 1),
                        pred_puntaje_queda(viejo.competidores, viejo.categorias, borrar),
                    ) =~= filtrar(
                        viejo.puntajes.take(v),
                        pred_puntaje_queda(viejo.competidores, viejo.categorias, borrar),
                    ));
                }
            }
            proof {
                v = v + 1;
            }
        }
        self.puntajes = quedan_p;
        proof {
            assert(viejo.puntajes.take(v) =~= viejo.puntajes);
            assert(self@.puntajes == filtrar(
                viejo.puntajes,
                pred_puntaje_queda(viejo.competidores, viejo.categorias, borrar),
            ));
            assert(self@ =~= eliminar_modelo(viejo, borrar));
            lema_eliminar_wf(viejo, borrar);
        }
        Ok(())
    }
}

/// Deleting from a well-formed store yields a well-formed store.
pub proof fn lema_eliminar_wf(s: AlmacenVista, borrar: int)
    requires
        s.wf(),
    ensures
        eliminar_modelo(s, borrar).wf(),
{
    let t = eliminar_modelo(s, borrar);
    lema_filtrar_contenido(s.competencias, pred_competencia_queda(borrar));
    lema_filtrar_contenido(s.categorias, pred_categoria_queda(borrar));
    lema_filtrar_contenido(s.competidores, pred_competidor_queda(s.categorias, borrar));
    lema_filtrar_contenido(s.puntajes, pred_puntaje_queda(s.competidores, s.categorias, borrar));
    lema_filtrar_pares(
        s.competencias,
        pred_competencia_queda(borrar),
        |a: FilaCompetenciaVista, b: FilaCompetenciaVista| a.id != b.id,
    );
    lema_filtrar_pares(
        s.competencias,
        pred_competencia_queda(borrar),
        |a: FilaCompetenciaVista, b: FilaCompetenciaVista| !lex_menor(a.fecha, b.fecha),
    );
    lema_filtrar_pares(
        s.categorias,
        pred_categoria_queda(borrar),
        |a: FilaCategoriaVista, b: FilaCategoriaVista| a.id != b.id,
    );
    lema_filtrar_pares(
        s.competidores,
        pred_competidor_queda(s.categorias, borrar),
        |a: FilaCompetidorVista, b: FilaCompetidorVista| a.id != b.id,
    );
    lema_filtrar_pares(
        s.competidores,
        pred_competidor_queda(s.categorias, borrar),
        |a: FilaCompetidorVista, b: FilaCompetidorVista|
            a.categoria_id == b.categoria_id ==> a.posicion < b.posicion,
    );
    lema_filtrar_pares(
        s.puntajes,
        pred_puntaje_queda(s.competidores, s.categorias, borrar),
        |a: FilaPuntajeVista, b: FilaPuntajeVista|
            a.competidor_id == b.competidor_id ==> a.juez_numero < b.juez_numero,
    );
    assert forall|i: int|
        0 <= i < t.competencias.len() implies 1 <= (#[trigger] t.competencias[i]).id
        < t.prox_competencia && t.competencias[i].tipo == "kata"@ by {
        let k = choose|k: int|
            0 <= k < s.competencias.len() && s.competencias[k] == t.competencias[i];
    }
    assert forall|i: int|
        0 <= i < t.categorias.len() implies 1 <= (#[trigger] t.categorias[i]).id
        < t.prox_categoria && 1 <= t.categorias[i].competencia_id < t.prox_competencia by {
        let k = choose|k: int| 0 <= k < s.categorias.len() && s.categorias[k] == t.categorias[i];
    }
    assert forall|i: int|
        0 <= i < t.competidores.len() implies 1 <= (#[trigger] t.competidores[i]).id
        < t.prox_competidor && 1 <= t.competidores[i].categoria_id < t.prox_categoria by {
        let k = choose|k: int|
            0 <= k < s.competidores.len() && s.competidores[k] == t.competidores[i];
    }
    assert forall|i: int|
        0 <= i < t.puntajes.len() implies 1 <= (#[trigger] t.puntajes[i]).id < t.prox_puntaje
        && 1 <= t.puntajes[i].competidor_id < t.prox_competidor by {
        let k = choose|k: int| 0 <= k < s.puntajes.len() && s.puntajes[k] == t.puntajes[i];
    }

    // every owning reference still names a stored row
    lema_filtrar_mantiene(s.competencias, pred_competencia_queda(borrar));
    lema_filtrar_mantiene(s.categorias, pred_categoria_queda(borrar));
    lema_filtrar_mantiene(s.competidores, pred_competidor_queda(s.categorias, borrar));
    assert forall|i: int| 0 <= i < t.categorias.len() implies existe_competencia(
        t.competencias,
        (#[trigger] t.categorias[i]).competencia_id,
    ) by {
        let g = t.categorias[i];
        let m = choose|m: int| 0 <= m < s.categorias.len() && s.categorias[m] == g;
        assert(existe_competencia(s.competencias, g.competencia_id));
        let k0 = choose|k0: int|
            0 <= k0 < s.competencias.len() && (#[trigger] s.competencias[k0]).id
                == g.competencia_id;
        assert(t.competencias.contains(s.competencias[k0]));
        let k = choose|k: int|
            0 <= k < t.competencias.len() && t.competencias[k] == s.competencias[k0];
        assert(t.competencias[k].id == g.competencia_id);
    }
    assert forall|i: int| 0 <= i < t.competidores.len() implies existe_categoria(
        t.categorias,
        (#[trigger] t.competidores[i]).categoria_id,
    ) by {
        let f = t.competidores[i];
        let m = choose|m: int| 0 <= m < s.competidores.len() && s.competidores[m] == f;
        assert(existe_categoria(s.categorias, f.categoria_id));
        let k0 = choose|k0: int|
            0 <= k0 < s.categorias.len() && (#[trigger] s.categorias[k0]).id == f.categoria_id;
        if s.categorias[k0].competencia_id == borrar {
            assert(categoria_eliminada(s.categorias, borrar, f.categoria_id));
            assert(false);
        }
        assert(t.categorias.contains(s.categorias[k0]));
        let k = choose|k: int| 0 <= k < t.categorias.len() && t.categorias[k] == s.categorias[k0];
        assert(t.categorias[k].id == f.categoria_id);
    }
    assert forall|i: int| 0 <= i < t.puntajes.len() implies existe_competidor(
        t.competidores,
        (#[trigger] t.puntajes[i]).competidor_id,
    ) by {
        let q = t.puntajes[i];
        let m = choose|m: int| 0 <= m < s.puntajes.len() && s.puntajes[m] == q;
        assert(existe_competidor(s.competidores, q.competidor_id));
        let k0 = choose|k0: int|
            0 <= k0 < s.competidores.len() && (#[trigger] s.competidores[k0]).id
                == q.competidor_id;
        if categoria_eliminada(s.categorias, borrar, s.competidores[k0].categoria_id) {
            assert(competidor_eliminado(s.competidores, s.categorias, borrar, q.competidor_id));
            assert(false);
        }
        assert(t.competidores.contains(s.competidores[k0]));
        let k = choose|k: int|
            0 <= k < t.competidores.len() && t.competidores[k] == s.competidores[k0];
        assert(t.competidores[k].id == q.competidor_id);
    }
}

} // verus!
