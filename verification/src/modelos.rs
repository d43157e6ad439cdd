//! Data model of a kata competition: the competition, its single category,
//! its ranked competitors and each competitor's ordered judge scores.
//!
//! Scores are carried as decimal text, exactly as submitted: the engine
//! stores and returns them without rounding or validation.

use vstd::prelude::*;

verus! {

/// Abstract value of one competitor record.
#[verifier::ext_equal]
pub ghost struct CompetidorVista {
    pub nombre: Seq<char>,
    pub edad: int,
    pub puntaje_final: Option<Seq<char>>,
    pub puntajes_jueces: Seq<Seq<char>>,
    pub descalificado: bool,
}

/// One competitor of a kata category, with its 1-based rank implied by its
/// place in the surrounding list.
pub struct CompetidorKata {
    pub nombre: String,
    pub edad: i32,
    pub puntaje_final: Option<String>,
    pub puntajes_jueces: Vec<String>,
    pub descalificado: bool,
}

impl View for CompetidorKata {
    type V = CompetidorVista;

    open spec fn view(&self) -> CompetidorVista {
        CompetidorVista {
            nombre: self.nombre@,
            edad: self.edad as int,
            puntaje_final: match self.puntaje_final {
                Some(p) => Some(p@),
                None => None,
            },
            puntajes_jueces: self.puntajes_jueces@.map_values(|p: String| p@),
            descalificado: self.descalificado,
        }
    }
}

/// Abstract value of a stored competition as returned to callers.
#[verifier::ext_equal]
pub ghost struct CompetenciaVista {
    pub id: Option<int>,
    pub nombre: Seq<char>,
    pub fecha: Seq<char>,
    pub area: Seq<char>,
    pub categoria: Seq<char>,
    pub competidores: Seq<CompetidorVista>,
}

/// A stored kata competition: a summary carries an empty competitor list,
/// a full detail carries the competitors in rank order.
pub struct CompetenciaKata {
    pub id: Option<i64>,
    pub nombre: String,
    pub fecha: String,
    pub area: String,
    pub categoria: String,
    pub competidores: Vec<CompetidorKata>,
}

impl View for CompetenciaKata {
    type V = CompetenciaVista;

    open spec fn view(&self) -> CompetenciaVista {
        CompetenciaVista {
            id: match self.id {
                Some(i) => Some(i as int),
                None => None,
            },
            nombre: self.nombre@,
            fecha: self.fecha@,
            area: self.area@,
            categoria: self.categoria@,
            competidores: self.competidores@.map_values(|c: CompetidorKata| c@),
        }
    }
}

/// Abstract value of a save request.
#[verifier::ext_equal]
pub ghost struct PeticionVista {
    pub nombre: Seq<char>,
    pub fecha: Seq<char>,
    pub area: Seq<char>,
    pub categoria: Seq<char>,
    pub competidores: Seq<CompetidorVista>,
}

/// A request to save one competition together with its category label and
/// its competitors, already ranked by their order in the list.
pub struct GuardarCompetenciaRequest {
    pub nombre: String,
    pub fecha: String,
    pub area: String,
    pub categoria: String,
    pub competidores: Vec<CompetidorKata>,
}

impl View for GuardarCompetenciaRequest {
    type V = PeticionVista;

    open spec fn view(&self) -> PeticionVista {
        PeticionVista {
            nombre: self.nombre@,
            fecha: self.fecha@,
            area: self.area@,
            categoria: self.categoria@,
            competidores: self.competidores@.map_values(|c: CompetidorKata| c@),
        }
    }
}

} // verus!
