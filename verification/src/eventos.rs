//! Survey points, and the events that mark the start and the end of the
//! occupation of each point.

use vstd::prelude::*;
use crate::decimal::Decimal;
use crate::epoca::Epoca;
use crate::mapa_ordenado::Clave;
use crate::record_parser_gps::{ATRecord, VistaAT};

verus! {

/// A surveyed point with the antenna that was in effect when it was taken.
#[derive(Debug, PartialEq, Eq)]
pub struct PuntoRelevado {
    pub station_id: String,
    pub latitude: Decimal,
    pub longitude: Decimal,
    pub elevation: Decimal,
    pub north: Decimal,
    pub east: Decimal,
    pub start_time: Epoca,
    pub end_time: Epoca,
    pub antenna: ATRecord,
}

/// A `PuntoRelevado` with its texts as sequences of characters.
pub struct VistaPunto {
    pub station_id: Seq<char>,
    pub latitude: Decimal,
    pub longitude: Decimal,
    pub elevation: Decimal,
    pub north: Decimal,
    pub east: Decimal,
    pub start_time: Epoca,
    pub end_time: Epoca,
    pub antenna: VistaAT,
}

impl View for PuntoRelevado {
    type V = VistaPunto;

    open spec fn view(&self) -> VistaPunto {
        VistaPunto {
            station_id: self.station_id@,
            latitude: self.latitude,
            longitude: self.longitude,
            elevation: self.elevation,
            north: self.north,
            east: self.east,
            start_time: self.start_time,
            end_time: self.end_time,
            antenna: self.antenna@,
        }
    }
}

impl Clone for PuntoRelevado {
    fn clone(&self) -> (r: Self)
        ensures
            r == *self,
    {
        PuntoRelevado {
            station_id: self.station_id.clone(),
            latitude: self.latitude,
            longitude: self.longitude,
            elevation: self.elevation,
            north: self.north,
            east: self.east,
            start_time: self.start_time,
            end_time: self.end_time,
            antenna: self.antenna.clone(),
        }
    }
}

/// Which end of an occupation an event marks. The end of one occupation
/// comes before the start of another at the same instant.
#[derive(Debug, Clone, Copy, PartialEq, Eq, PartialOrd, Ord, Hash, Structural)]
pub enum TipoDeEvento {
    /// The antenna leaves the point.
    FinDeOcupacion,
    /// The antenna has arrived at a new point.
    InicioDeOcupacion,
}

/// The key of an event: its instant and which end of an occupation it marks.
#[derive(Debug, Clone, Copy, PartialEq, Eq, PartialOrd, Ord, Hash, Structural)]
pub struct ClaveDeEvento {
    pub epoca: Epoca,
    pub tipo: TipoDeEvento,
}

impl Clave for ClaveDeEvento {
    open spec fn rango(self) -> int {
        2 * self.epoca + if self.tipo == TipoDeEvento::InicioDeOcupacion {
            1int
        } else {
            0int
        }
    }

    proof fn rango_distingue(a: Self, b: Self) {
    }

    fn antes_de(&self, otra: &Self) -> (r: bool) {
        if self.epoca < otra.epoca {
            true
        } else if self.epoca == otra.epoca {
            match (self.tipo, otra.tipo) {
                (TipoDeEvento::FinDeOcupacion, TipoDeEvento::InicioDeOcupacion) => true,
                _ => false,
            }
        } else {
            false
        }
    }
}

/// What an event carries.
#[derive(Debug, PartialEq, Eq)]
pub struct Evento {
    /// The name of the station.
    pub marker_name: Option<String>,
    /// Latitude, longitude and elevation of the point.
    pub ground_position: Option<(Decimal, Decimal, Decimal)>,
    /// The model of the antenna.
    pub antenna_model: Option<String>,
    /// The height of the antenna.
    pub antenna_height: Option<Decimal>,
}

/// An `Evento` with its texts as sequences of characters.
pub struct VistaEvento {
    pub marker_name: Option<Seq<char>>,
    pub ground_position: Option<(Decimal, Decimal, Decimal)>,
    pub antenna_model: Option<Seq<char>>,
    pub antenna_height: Option<Decimal>,
}

impl View for Evento {
    type V = VistaEvento;

    open spec fn view(&self) -> VistaEvento {
        VistaEvento {
            marker_name: match self.marker_name {
                Some(s) => Some(s@),
                None => None,
            },
            ground_position: self.ground_position,
            antenna_model: match self.antenna_model {
                Some(s) => Some(s@),
                None => None,
            },
            antenna_height: self.antenna_height,
        }
    }
}

/// The event that marks the start of the occupation of `p`: it names the
/// station, its position and the antenna.
pub open spec fn evento_de_inicio(p: VistaPunto) -> VistaEvento {
    VistaEvento {
        marker_name: Some(p.station_id),
        ground_position: Some((p.latitude, p.longitude, p.elevation)),
        antenna_model: Some(p.antenna.tipo),
        antenna_height: p.antenna.h_calculada,
    }
}

/// The event that marks the end of an occupation: it carries nothing.
pub open spec fn evento_de_fin() -> VistaEvento {
    VistaEvento { marker_name: None, ground_position: None, antenna_model: None, antenna_height: None }
}

impl Evento {
    /// The event that marks the start of the occupation of `p`.
    pub fn de_inicio(p: &PuntoRelevado) -> (e: Evento)
        ensures
            e@ == evento_de_inicio(p@),
    {
        Evento {
            marker_name: Some(p.station_id.clone()),
            ground_position: Some((p.latitude, p.longitude, p.elevation)),
            antenna_model: Some(p.antenna.tipo.clone()),
            antenna_height: p.antenna.h_calculada,
        }
    }

    /// The event that marks the end of an occupation.
    pub fn de_fin() -> (e: Evento)
        ensures
            e@ == evento_de_fin(),
    {
        Evento { marker_name: None, ground_position: None, antenna_model: None, antenna_height: None }
    }
}

} // verus!
