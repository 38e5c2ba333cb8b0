//! The records of a GNSS survey and the fusion of a record with the fragment
//! that follows it.

use vstd::prelude::*;
use crate::decimal::{decimal_en_rango, dista_mas, Decimal};
use crate::epoca::{epoca_de_semana_gps, instante_gps, Epoca};
use crate::errores::{vista_de, MergeError, ParseError, TipoDeLinea, VistaParseError};
use crate::texto::{
    cadena, cadena_tras, campos, caracteres, dividir, en_minusculas, entero, entre, es,
    lema_vistas, leer_i64, minusculas, quitar_prefijo, quitar_sufijo, quitar_un_sufijo, recortado,
    recortar, sin_prefijo, sin_sufijo, sin_un_sufijo, vistas,
};

verus! {

/// Two elevations that lie further apart than this, in billionths, count as
/// different readings.
pub const TOLERANCIA_DE_COTA: i64 = 1_000_000;

/// Whether two elevations lie further apart than the tolerance.
pub open spec fn cota_distinta(a: Decimal, b: Decimal) -> bool {
    dista_mas(a, b, Decimal { nanos: TOLERANCIA_DE_COTA })
}

/// How an antenna height was measured.
#[derive(Debug, Copy, Clone, PartialEq, Eq, Structural)]
pub enum TipoDeAltura {
    Vertical,
    Inclinada,
    AAltimetria,
}

/// The role of the receiver that an antenna belongs to.
#[derive(Debug, Copy, Clone, PartialEq, Eq, Structural)]
pub enum TipoDeReceptor {
    Base,
    Rotador,
}

/// The view of the outcome of a fusion: that of the record, or the error.
pub open spec fn vista_de_fusion<T: View>(r: Result<T, MergeError>) -> Result<T::V, MergeError> {
    match r {
        Ok(v) => Ok(v@),
        Err(e) => Err(e),
    }
}

/// The local grid position of a point.
#[derive(Debug, PartialEq, Eq)]
pub struct GSRecord {
    pub occupy_point: String,
    pub north: Decimal,
    pub east: Decimal,
    pub elevation: Decimal,
    pub note: String,
}

/// A `GSRecord` with its texts as sequences of characters.
pub struct VistaGS {
    pub occupy_point: Seq<char>,
    pub north: Decimal,
    pub east: Decimal,
    pub elevation: Decimal,
    pub note: Seq<char>,
}

impl View for GSRecord {
    type V = VistaGS;

    open spec fn view(&self) -> VistaGS {
        VistaGS {
            occupy_point: self.occupy_point@,
            north: self.north,
            east: self.east,
            elevation: self.elevation,
            note: self.note@,
        }
    }
}

impl Clone for GSRecord {
    fn clone(&self) -> (r: Self)
        ensures
            r == *self,
    {
        GSRecord {
            occupy_point: self.occupy_point.clone(),
            north: self.north,
            east: self.east,
            elevation: self.elevation,
            note: self.note.clone(),
        }
    }
}

/// The time window of the observation of a point.
#[derive(Debug, PartialEq, Eq)]
pub struct GTRecord {
    pub occupy_point: String,
    pub start: Epoca,
    pub end: Epoca,
}

/// A `GTRecord` with its text as a sequence of characters.
pub struct VistaGT {
    pub occupy_point: Seq<char>,
    pub start: Epoca,
    pub end: Epoca,
}

impl View for GTRecord {
    type V = VistaGT;

    open spec fn view(&self) -> VistaGT {
        VistaGT { occupy_point: self.occupy_point@, start: self.start, end: self.end }
    }
}

impl Clone for GTRecord {
    fn clone(&self) -> (r: Self)
        ensures
            r == *self,
    {
        GTRecord { occupy_point: self.occupy_point.clone(), start: self.start, end: self.end }
    }
}

/// A rod height.
#[derive(Debug, Copy, Clone, PartialEq, Eq, Structural)]
pub struct LSRecord {
    pub height_rod: Decimal,
}

impl View for LSRecord {
    type V = LSRecord;

    open spec fn view(&self) -> LSRecord {
        *self
    }
}

/// An antenna height as the operator entered it.
#[derive(Debug, Copy, Clone, PartialEq, Eq, Structural)]
pub struct EHRecord {
    pub modo: TipoDeReceptor,
    pub height_rod: Decimal,
    pub tipo: TipoDeAltura,
}

impl View for EHRecord {
    type V = EHRecord;

    open spec fn view(&self) -> EHRecord {
        *self
    }
}

/// A point reading, with what its fragments have added to it.
#[derive(Debug, PartialEq, Eq)]
pub struct GPSRecord {
    pub occupy_point: String,
    pub latitude: Decimal,
    pub longitude: Decimal,
    pub elevation: Decimal,
    /// The elevation reading that `elevation` does not hold, where the point
    /// and its local position disagreed.
    pub elevation_alt: Option<Decimal>,
    pub note: String,
    pub north: Option<Decimal>,
    pub east: Option<Decimal>,
    pub start_time: Option<Epoca>,
    pub end_time: Option<Epoca>,
}

/// A `GPSRecord` with its texts as sequences of characters.
pub struct VistaGPS {
    pub occupy_point: Seq<char>,
    pub latitude: Decimal,
    pub longitude: Decimal,
    pub elevation: Decimal,
    pub elevation_alt: Option<Decimal>,
    pub note: Seq<char>,
    pub north: Option<Decimal>,
    pub east: Option<Decimal>,
    pub start_time: Option<Epoca>,
    pub end_time: Option<Epoca>,
}

impl View for GPSRecord {
    type V = VistaGPS;

    open spec fn view(&self) -> VistaGPS {
        VistaGPS {
            occupy_point: self.occupy_point@,
            latitude: self.latitude,
            longitude: self.longitude,
            elevation: self.elevation,
            elevation_alt: self.elevation_alt,
            note: self.note@,
            north: self.north,
            east: self.east,
            start_time: self.start_time,
            end_time: self.end_time,
        }
    }
}

impl Clone for GPSRecord {
    fn clone(&self) -> (r: Self)
        ensures
            r == *self,
    {
        GPSRecord {
            occupy_point: self.occupy_point.clone(),
            latitude: self.latitude,
            longitude: self.longitude,
            elevation: self.elevation,
            elevation_alt: self.elevation_alt,
            note: self.note.clone(),
            north: self.north,
            east: self.east,
            start_time: self.start_time,
            end_time: self.end_time,
        }
    }
}

/// The point `g` with the local position `s` added to it. Where the two
/// elevations differ by more than the tolerance, the elevation of the local
/// position takes the place of the point's own, which is kept aside. The
/// fusion is lenient in this: it does not refuse readings that disagree,
/// though they may not belong to one point.
pub open spec fn gps_con_gs(g: VistaGPS, s: VistaGS) -> VistaGPS {
    if cota_distinta(g.elevation, s.elevation) {
        VistaGPS {
            elevation: s.elevation,
            elevation_alt: Some(g.elevation),
            north: Some(s.north),
            east: Some(s.east),
            ..g
        }
    } else {
        VistaGPS { north: Some(s.north), east: Some(s.east), ..g }
    }
}

/// The fusion of a point with a local position: refused when they name
/// different stations.
pub open spec fn fusion_gps_gs(g: VistaGPS, s: VistaGS) -> Result<VistaGPS, MergeError> {
    if g.occupy_point == s.occupy_point {
        Ok(gps_con_gs(g, s))
    } else {
        Err(MergeError::EstacionDistinta)
    }
}

/// The point `g` with the time window `t` added to it.
pub open spec fn gps_con_gt(g: VistaGPS, t: VistaGT) -> VistaGPS {
    VistaGPS { start_time: Some(t.start), end_time: Some(t.end), ..g }
}

/// The fusion of a point with a time window: refused when they name
/// different stations.
pub open spec fn fusion_gps_gt(g: VistaGPS, t: VistaGT) -> Result<VistaGPS, MergeError> {
    if g.occupy_point == t.occupy_point {
        Ok(gps_con_gt(g, t))
    } else {
        Err(MergeError::EstacionDistinta)
    }
}

impl GPSRecord {
    /// Adds the local position `gr` to this point.
    pub fn aplicar_gs(self, gr: GSRecord) -> (r: Result<GPSRecord, MergeError>)
        ensures
            vista_de_fusion(r) == fusion_gps_gs(self@, gr@),
    {
        if self.occupy_point != gr.occupy_point {
            Err(MergeError::EstacionDistinta)
        } else if self.elevation.dista_mas_de(gr.elevation, Decimal::de_nanos(TOLERANCIA_DE_COTA)) {
            Ok(
                GPSRecord {
                    occupy_point: self.occupy_point,
                    latitude: self.latitude,
                    longitude: self.longitude,
                    elevation: gr.elevation,
                    elevation_alt: Some(self.elevation),
                    note: self.note,
                    north: Some(gr.north),
                    east: Some(gr.east),
                    start_time: self.start_time,
                    end_time: self.end_time,
                },
            )
        } else {
            Ok(
                GPSRecord {
                    occupy_point: self.occupy_point,
                    latitude: self.latitude,
                    longitude: self.longitude,
                    elevation: self.elevation,
                    elevation_alt: self.elevation_alt,
                    note: self.note,
                    north: Some(gr.north),
                    east: Some(gr.east),
                    start_time: self.start_time,
                    end_time: self.end_time,
                },
            )
        }
    }

    /// Adds the time window `gt` to this point.
    pub fn aplicar_gt(self, gt: GTRecord) -> (r: Result<GPSRecord, MergeError>)
        ensures
            vista_de_fusion(r) == fusion_gps_gt(self@, gt@),
    {
        if self.occupy_point != gt.occupy_point {
            Err(MergeError::EstacionDistinta)
        } else {
            Ok(
                GPSRecord {
                    occupy_point: self.occupy_point,
                    latitude: self.latitude,
                    longitude: self.longitude,
                    elevation: self.elevation,
                    elevation_alt: self.elevation_alt,
                    note: self.note,
                    north: self.north,
                    east: self.east,
                    start_time: Some(gt.start),
                    end_time: Some(gt.end),
                },
            )
        }
    }
}

/// A base point reading, with what its fragments have added to it.
#[derive(Debug, PartialEq, Eq)]
pub struct BPRecord {
    pub occupy_point: String,
    pub latitude: Decimal,
    pub longitude: Decimal,
    pub elevation: Decimal,
    pub antenna_ground: Decimal,
    pub phase_antenna: Decimal,
    /// The elevation reading that `elevation` does not hold.
    pub elevation_alt: Option<Decimal>,
    pub note: String,
    pub north: Option<Decimal>,
    pub east: Option<Decimal>,
    pub start_time: Option<Epoca>,
    pub end_time: Option<Epoca>,
}

/// A `BPRecord` with its texts as sequences of characters.
pub struct VistaBP {
    pub occupy_point: Seq<char>,
    pub latitude: Decimal,
    pub longitude: Decimal,
    pub elevation: Decimal,
    pub antenna_ground: Decimal,
    pub phase_antenna: Decimal,
    pub elevation_alt: Option<Decimal>,
    pub note: Seq<char>,
    pub north: Option<Decimal>,
    pub east: Option<Decimal>,
    pub start_time: Option<Epoca>,
    pub end_time: Option<Epoca>,
}

impl View for BPRecord {
    type V = VistaBP;

    open spec fn view(&self) -> VistaBP {
        VistaBP {
            occupy_point: self.occupy_point@,
            latitude: self.latitude,
            longitude: self.longitude,
            elevation: self.elevation,
            antenna_ground: self.antenna_ground,
            phase_antenna: self.phase_antenna,
            elevation_alt: self.elevation_alt,
            note: self.note@,
            north: self.north,
            east: self.east,
            start_time: self.start_time,
            end_time: self.end_time,
        }
    }
}

impl Clone for BPRecord {
    fn clone(&self) -> (r: Self)
        ensures
            r == *self,
    {
        BPRecord {
            occupy_point: self.occupy_point.clone(),
            latitude: self.latitude,
            longitude: self.longitude,
            elevation: self.elevation,
            antenna_ground: self.antenna_ground,
            phase_antenna: self.phase_antenna,
            elevation_alt: self.elevation_alt,
            note: self.note.clone(),
            north: self.north,
            east: self.east,
            start_time: self.start_time,
            end_time: self.end_time,
        }
    }
}

/// The base point `b` with the local position `s` added to it. The elevation
/// that the record does not keep as its own is kept aside: that of the local
/// position where the two agree within the tolerance, the base point's own
/// where they do not and the local position's takes its place.
pub open spec fn bp_con_gs(b: VistaBP, s: VistaGS) -> VistaBP {
    if cota_distinta(b.elevation, s.elevation) {
        VistaBP {
            elevation: s.elevation,
            elevation_alt: Some(b.elevation),
            north: Some(s.north),
            east: Some(s.east),
            ..b
        }
    } else {
        VistaBP {
            elevation_alt: Some(s.elevation),
            north: Some(s.north),
            east: Some(s.east),
            ..b
        }
    }
}

/// The fusion of a base point with a local position: refused when they name
/// different stations.
pub open spec fn fusion_bp_gs(b: VistaBP, s: VistaGS) -> Result<VistaBP, MergeError> {
    if b.occupy_point == s.occupy_point {
        Ok(bp_con_gs(b, s))
    } else {
        Err(MergeError::EstacionDistinta)
    }
}

fn misma_cota(a: Option<Decimal>, b: Option<Decimal>) -> (r: bool)
    ensures
        r == (a == b),
{
    match (a, b) {
        (Some(x), Some(y)) => x.nanos == y.nanos,
        (None, None) => true,
        _ => false,
    }
}

fn misma_epoca(a: Option<Epoca>, b: Option<Epoca>) -> (r: bool)
    ensures
        r == (a == b),
{
    match (a, b) {
        (Some(x), Some(y)) => x == y,
        (None, None) => true,
        _ => false,
    }
}

impl Default for BPRecord {
    fn default() -> (r: Self)
        ensures
            r@ == (VistaBP {
                occupy_point: Seq::<char>::empty(),
                latitude: Decimal { nanos: 0 },
                longitude: Decimal { nanos: 0 },
                elevation: Decimal { nanos: 0 },
                antenna_ground: Decimal { nanos: 0 },
                phase_antenna: Decimal { nanos: 0 },
                elevation_alt: None,
                note: Seq::<char>::empty(),
                north: None,
                east: None,
                start_time: None,
                end_time: None,
            }),
    {
        BPRecord {
            occupy_point: String::new(),
            latitude: Decimal::cero(),
            longitude: Decimal::cero(),
            elevation: Decimal::cero(),
            antenna_ground: Decimal::cero(),
            phase_antenna: Decimal::cero(),
            elevation_alt: None,
            note: String::new(),
            north: None,
            east: None,
            start_time: None,
            end_time: None,
        }
    }
}

impl BPRecord {
    /// Adds the local position `gr` to this base point.
    pub fn aplicar_gs(self, gr: GSRecord) -> (r: Result<Self, MergeError>)
        ensures
            vista_de_fusion(r) == fusion_bp_gs(self@, gr@),
    {
        if self.occupy_point != gr.occupy_point {
            Err(MergeError::EstacionDistinta)
        } else if self.elevation.dista_mas_de(gr.elevation, Decimal::de_nanos(TOLERANCIA_DE_COTA)) {
            Ok(
                BPRecord {
                    occupy_point: self.occupy_point,
                    latitude: self.latitude,
                    longitude: self.longitude,
                    elevation: gr.elevation,
                    antenna_ground: self.antenna_ground,
                    phase_antenna: self.phase_antenna,
                    elevation_alt: Some(self.elevation),
                    note: self.note,
                    north: Some(gr.north),
                    east: Some(gr.east),
                    start_time: self.start_time,
                    end_time: self.end_time,
                },
            )
        } else {
            Ok(
                BPRecord {
                    occupy_point: self.occupy_point,
                    latitude: self.latitude,
                    longitude: self.longitude,
                    elevation: self.elevation,
                    antenna_ground: self.antenna_ground,
                    phase_antenna: self.phase_antenna,
                    elevation_alt: Some(gr.elevation),
                    note: self.note,
                    north: Some(gr.north),
                    east: Some(gr.east),
                    start_time: self.start_time,
                    end_time: self.end_time,
                },
            )
        }
    }

    /// Whether this record and `otro` hold the same values.
    pub fn igual(&self, otro: &BPRecord) -> (b: bool)
        ensures
            b == (self@ == otro@),
    {
        self.occupy_point == otro.occupy_point && self.latitude.nanos == otro.latitude.nanos
            && self.longitude.nanos == otro.longitude.nanos && self.elevation.nanos
            == otro.elevation.nanos && self.antenna_ground.nanos == otro.antenna_ground.nanos
            && self.phase_antenna.nanos == otro.phase_antenna.nanos && misma_cota(
            self.elevation_alt,
            otro.elevation_alt,
        ) && self.note == otro.note && misma_cota(self.north, otro.north) && misma_cota(
            self.east,
            otro.east,
        ) && misma_epoca(self.start_time, otro.start_time) && misma_epoca(
            self.end_time,
            otro.end_time,
        )
    }
}

/// The description of an antenna, with the heights that later fragments
/// have added to it.
#[derive(Debug, PartialEq, Eq)]
pub struct ATRecord {
    pub tipo: String,
    pub radio: Decimal,
    pub slant_h_mp: Decimal,
    pub l1h: Decimal,
    pub l2h: Decimal,
    pub h_ingresada: Option<Decimal>,
    pub h_tipo: Option<TipoDeAltura>,
    pub h_calculada: Option<Decimal>,
    pub modo: Option<TipoDeReceptor>,
}

/// An `ATRecord` with its text as a sequence of characters.
pub struct VistaAT {
    pub tipo: Seq<char>,
    pub radio: Decimal,
    pub slant_h_mp: Decimal,
    pub l1h: Decimal,
    pub l2h: Decimal,
    pub h_ingresada: Option<Decimal>,
    pub h_tipo: Option<TipoDeAltura>,
    pub h_calculada: Option<Decimal>,
    pub modo: Option<TipoDeReceptor>,
}

impl View for ATRecord {
    type V = VistaAT;

    open spec fn view(&self) -> VistaAT {
        VistaAT {
            tipo: self.tipo@,
            radio: self.radio,
            slant_h_mp: self.slant_h_mp,
            l1h: self.l1h,
            l2h: self.l2h,
            h_ingresada: self.h_ingresada,
            h_tipo: self.h_tipo,
            h_calculada: self.h_calculada,
            modo: self.modo,
        }
    }
}

impl Clone for ATRecord {
    fn clone(&self) -> (r: Self)
        ensures
            r == *self,
    {
        ATRecord {
            tipo: self.tipo.clone(),
            radio: self.radio,
            slant_h_mp: self.slant_h_mp,
            l1h: self.l1h,
            l2h: self.l2h,
            h_ingresada: self.h_ingresada,
            h_tipo: self.h_tipo,
            h_calculada: self.h_calculada,
            modo: self.modo,
        }
    }
}

impl Default for ATRecord {
    fn default() -> (r: Self)
        ensures
            r@ == (VistaAT {
                tipo: Seq::<char>::empty(),
                radio: Decimal { nanos: 0 },
                slant_h_mp: Decimal { nanos: 0 },
                l1h: Decimal { nanos: 0 },
                l2h: Decimal { nanos: 0 },
                h_ingresada: None,
                h_tipo: None,
                h_calculada: None,
                modo: None,
            }),
    {
        ATRecord {
            tipo: String::new(),
            radio: Decimal::cero(),
            slant_h_mp: Decimal::cero(),
            l1h: Decimal::cero(),
            l2h: Decimal::cero(),
            h_ingresada: None,
            h_tipo: None,
            h_calculada: None,
            modo: None,
        }
    }
}

/// The antenna `a` with the entered height `eh` added to it.
pub open spec fn at_con_eh(a: VistaAT, eh: EHRecord) -> VistaAT {
    VistaAT {
        h_ingresada: Some(eh.height_rod),
        h_tipo: Some(eh.tipo),
        modo: Some(eh.modo),
        ..a
    }
}

/// The antenna `a` with the rod height `ls` added to it.
pub open spec fn at_con_ls(a: VistaAT, ls: LSRecord) -> VistaAT {
    VistaAT { h_calculada: Some(ls.height_rod), ..a }
}

fn mismo_tipo_de_altura(a: Option<TipoDeAltura>, b: Option<TipoDeAltura>) -> (r: bool)
    ensures
        r == (a == b),
{
    match (a, b) {
        (Some(x), Some(y)) => x == y,
        (None, None) => true,
        _ => false,
    }
}

fn mismo_modo(a: Option<TipoDeReceptor>, b: Option<TipoDeReceptor>) -> (r: bool)
    ensures
        r == (a == b),
{
    match (a, b) {
        (Some(x), Some(y)) => x == y,
        (None, None) => true,
        _ => false,
    }
}

impl ATRecord {
    /// Adds the entered height `eh` to this antenna. Never fails.
    pub fn aplicar_eh(&self, eh: EHRecord) -> (r: Result<Self, MergeError>)
        ensures
            vista_de_fusion(r) == Ok::<VistaAT, MergeError>(at_con_eh(self@, eh)),
    {
        Ok(
            ATRecord {
                tipo: self.tipo.clone(),
                radio: self.radio,
                slant_h_mp: self.slant_h_mp,
                l1h: self.l1h,
                l2h: self.l2h,
                h_ingresada: Some(eh.height_rod),
                h_tipo: Some(eh.tipo),
                h_calculada: self.h_calculada,
                modo: Some(eh.modo),
            },
        )
    }

    /// Adds the rod height `ls` to this antenna. Never fails.
    pub fn aplicar_ls(&self, ls: LSRecord) -> (r: Result<Self, MergeError>)
        ensures
            vista_de_fusion(r) == Ok::<VistaAT, MergeError>(at_con_ls(self@, ls)),
    {
        Ok(
            ATRecord {
                tipo: self.tipo.clone(),
                radio: self.radio,
                slant_h_mp: self.slant_h_mp,
                l1h: self.l1h,
                l2h: self.l2h,
                h_ingresada: self.h_ingresada,
                h_tipo: self.h_tipo,
                h_calculada: Some(ls.height_rod),
                modo: self.modo,
            },
        )
    }

    /// Whether this record and `otro` hold the same values.
    pub fn igual(&self, otro: &ATRecord) -> (b: bool)
        ensures
            b == (self@ == otro@),
    {
        self.tipo == otro.tipo && self.radio.nanos == otro.radio.nanos && self.slant_h_mp.nanos
            == otro.slant_h_mp.nanos && self.l1h.nanos == otro.l1h.nanos && self.l2h.nanos
            == otro.l2h.nanos && misma_cota(self.h_ingresada, otro.h_ingresada)
            && mismo_tipo_de_altura(self.h_tipo, otro.h_tipo) && misma_cota(
            self.h_calculada,
            otro.h_calculada,
        ) && mismo_modo(self.modo, otro.modo)
    }
}

/// The note of a line: its field at position `n`, where that is its last
/// field, and the empty text otherwise.
pub open spec fn nota(p: Seq<Seq<char>>, n: int) -> Seq<char> {
    if p.len() == n + 1 {
        p[n]
    } else {
        Seq::empty()
    }
}

/// Reads the note of a line that was cut into the fields `p`.
pub(crate) fn leer_nota(p: &Vec<Vec<char>>, n: usize) -> (r: String)
    requires
        n < usize::MAX,
    ensures
        r@ == nota(vistas(p@), n as int),
{
    proof {
        lema_vistas(p@);
    }
    if p.len() == n + 1 {
        cadena(&p[n])
    } else {
        String::new()
    }
}

/// The point reading that a `GPS` line writes: station, latitude, longitude
/// and elevation in its second to fifth fields, and a note in the sixth
/// where that is the last.
pub open spec fn gps_de_linea(linea: Seq<char>) -> Result<VistaGPS, VistaParseError> {
    let p = campos(linea, ',');
    if p.len() >= 5 {
        match (
            decimal_en_rango(sin_prefijo(p[2], "LA"@)),
            decimal_en_rango(sin_prefijo(p[3], "LN"@)),
            decimal_en_rango(sin_prefijo(p[4], "EL"@)),
        ) {
            (Some(la), Some(lo), Some(el)) => Ok(
                VistaGPS {
                    occupy_point: sin_prefijo(p[1], "PN"@),
                    latitude: la,
                    longitude: lo,
                    elevation: el,
                    elevation_alt: None,
                    note: nota(p, 5),
                    north: None,
                    east: None,
                    start_time: None,
                    end_time: None,
                },
            ),
            _ => Err(VistaParseError::Valor(TipoDeLinea::GPS)),
        }
    } else {
        Err(VistaParseError::Estructura(TipoDeLinea::GPS))
    }
}

/// Reads a `GPS` line.
pub fn parse_gps_record(line: &str) -> (r: Result<GPSRecord, ParseError>)
    ensures
        vista_de(r) == gps_de_linea(line@),
{
    let parts = dividir(&caracteres(line), ',');
    proof {
        lema_vistas(parts@);
    }
    if parts.len() >= 5 {
        let la = Decimal::leer_tras(&parts[2], "LA");
        let lo = Decimal::leer_tras(&parts[3], "LN");
        let el = Decimal::leer_tras(&parts[4], "EL");
        match (la, lo, el) {
            (Some(la), Some(lo), Some(el)) => Ok(
                GPSRecord {
                    occupy_point: cadena_tras(&parts[1], "PN"),
                    latitude: la,
                    longitude: lo,
                    elevation: el,
                    elevation_alt: None,
                    note: leer_nota(&parts, 5),
                    north: None,
                    east: None,
                    start_time: None,
                    end_time: None,
                },
            ),
            _ => Err(ParseError::Valor(TipoDeLinea::GPS)),
        }
    } else {
        Err(ParseError::Estructura(TipoDeLinea::GPS))
    }
}

/// The base point reading that a `BP` line writes: station, latitude,
/// longitude, elevation, antenna height above ground and phase centre height
/// in its second to seventh fields, and a note in the tenth where that is
/// the last.
pub open spec fn bp_de_linea(linea: Seq<char>) -> Result<VistaBP, VistaParseError> {
    let p = campos(linea, ',');
    if p.len() >= 9 {
        match (
            decimal_en_rango(sin_prefijo(p[2], "LA"@)),
            decimal_en_rango(sin_prefijo(p[3], "LN"@)),
            decimal_en_rango(sin_prefijo(p[4], "ET"@)),
            decimal_en_rango(sin_prefijo(p[5], "AG"@)),
            decimal_en_rango(sin_prefijo(p[6], "PA"@)),
        ) {
            (Some(la), Some(lo), Some(el), Some(ag), Some(pa)) => Ok(
                VistaBP {
                    occupy_point: sin_prefijo(p[1], "PN"@),
                    latitude: la,
                    longitude: lo,
                    elevation: el,
                    antenna_ground: ag,
                    phase_antenna: pa,
                    elevation_alt: None,
                    note: nota(p, 9),
                    north: None,
                    east: None,
                    start_time: None,
                    end_time: None,
                },
            ),
            _ => Err(VistaParseError::Valor(TipoDeLinea::BP)),
        }
    } else {
        Err(VistaParseError::Estructura(TipoDeLinea::BP))
    }
}

/// Reads a `BP` line.
pub fn parse_bp_record(line: &str) -> (r: Result<BPRecord, ParseError>)
    ensures
        vista_de(r) == bp_de_linea(line@),
{
    let parts = dividir(&caracteres(line), ',');
    proof {
        lema_vistas(parts@);
    }
    if parts.len() >= 9 {
        let la = Decimal::leer_tras(&parts[2], "LA");
        let lo = Decimal::leer_tras(&parts[3], "LN");
        let el = Decimal::leer_tras(&parts[4], "ET");
        let ag = Decimal::leer_tras(&parts[5], "AG");
        let pa = Decimal::leer_tras(&parts[6], "PA");
        match (la, lo, el, ag, pa) {
            (Some(la), Some(lo), Some(el), Some(ag), Some(pa)) => Ok(
                BPRecord {
                    occupy_point: cadena_tras(&parts[1], "PN"),
                    latitude: la,
                    longitude: lo,
                    elevation: el,
                    antenna_ground: ag,
                    phase_antenna: pa,
                    elevation_alt: None,
                    note: leer_nota(&parts, 9),
                    north: None,
                    east: None,
                    start_time: None,
                    end_time: None,
                },
            ),
            _ => Err(ParseError::Valor(TipoDeLinea::BP)),
        }
    } else {
        Err(ParseError::Estructura(TipoDeLinea::BP))
    }
}

/// The local position that a `--GS` line writes: station, north, east and
/// elevation in its second to fifth fields, and a note in the sixth where
/// that is the last.
pub open spec fn gs_de_linea(linea: Seq<char>) -> Result<VistaGS, VistaParseError> {
    let p = campos(linea, ',');
    if p.len() >= 5 {
        match (
            decimal_en_rango(sin_prefijo(p[2], "N "@)),
            decimal_en_rango(sin_prefijo(p[3], "E "@)),
            decimal_en_rango(sin_prefijo(p[4], "EL"@)),
        ) {
            (Some(n), Some(e), Some(el)) => Ok(
                VistaGS {
                    occupy_point: sin_prefijo(p[1], "PN"@),
                    north: n,
                    east: e,
                    elevation: el,
                    note: nota(p, 5),
                },
            ),
            _ => Err(VistaParseError::Valor(TipoDeLinea::GS)),
        }
    } else {
        Err(VistaParseError::Estructura(TipoDeLinea::GS))
    }
}

/// Reads a `--GS` line.
pub fn parse_gs_record(line: &str) -> (r: Result<GSRecord, ParseError>)
    ensures
        vista_de(r) == gs_de_linea(line@),
{
    let parts = dividir(&caracteres(line), ',');
    proof {
        lema_vistas(parts@);
    }
    if parts.len() >= 5 {
        let n = Decimal::leer_tras(&parts[2], "N ");
        let e = Decimal::leer_tras(&parts[3], "E ");
        let el = Decimal::leer_tras(&parts[4], "EL");
        match (n, e, el) {
            (Some(n), Some(e), Some(el)) => Ok(
                GSRecord {
                    occupy_point: cadena_tras(&parts[1], "PN"),
                    north: n,
                    east: e,
                    elevation: el,
                    note: leer_nota(&parts, 5),
                },
            ),
            _ => Err(ParseError::Valor(TipoDeLinea::GS)),
        }
    } else {
        Err(ParseError::Estructura(TipoDeLinea::GS))
    }
}

/// The integer of 64 bits written in `campo` after the leading repetitions
/// of `prefijo`.
pub open spec fn entero_tras(campo: Seq<char>, prefijo: Seq<char>) -> Option<int> {
    entre(entero(sin_prefijo(campo, prefijo), true), i64::MIN as int, i64::MAX as int)
}

fn leer_entero_tras(campo: &Vec<char>, prefijo: &str) -> (r: Option<i64>)
    ensures
        match r {
            Some(v) => entero_tras(campo@, prefijo@) == Some(v as int),
            None => entero_tras(campo@, prefijo@) is None,
        },
{
    let resto = quitar_prefijo(campo, prefijo);
    leer_i64(&resto)
}

/// The time window that a `--GT` line writes. The line has six fields: the
/// station, then the GPS week and the milliseconds into it of the start, and
/// the same of the end.
pub open spec fn gt_de_linea(linea: Seq<char>) -> Result<VistaGT, VistaParseError> {
    let p = campos(linea, ',');
    if p.len() == 6 {
        match (
            entero_tras(p[2], "SW"@),
            entero_tras(p[3], "ST"@),
            entero_tras(p[4], "EW"@),
            entero_tras(p[5], "ET"@),
        ) {
            (Some(sw), Some(st), Some(ew), Some(et)) => match (
                instante_gps(sw, st),
                instante_gps(ew, et),
            ) {
                (Some(inicio), Some(fin)) => Ok(
                    VistaGT { occupy_point: sin_prefijo(p[1], "PN"@), start: inicio, end: fin },
                ),
                _ => Err(VistaParseError::Valor(TipoDeLinea::GT)),
            },
            _ => Err(VistaParseError::Valor(TipoDeLinea::GT)),
        }
    } else {
        Err(VistaParseError::Estructura(TipoDeLinea::GT))
    }
}

/// Reads a `--GT` line.
pub fn parse_gt_record(line: &str) -> (r: Result<GTRecord, ParseError>)
    ensures
        vista_de(r) == gt_de_linea(line@),
{
    let parts = dividir(&caracteres(line), ',');
    proof {
        lema_vistas(parts@);
    }
    if parts.len() == 6 {
        let sw = leer_entero_tras(&parts[2], "SW");
        let st = leer_entero_tras(&parts[3], "ST");
        let ew = leer_entero_tras(&parts[4], "EW");
        let et = leer_entero_tras(&parts[5], "ET");
        match (sw, st, ew, et) {
            (Some(sw), Some(st), Some(ew), Some(et)) => {
                let stime = epoca_de_semana_gps(sw, st);
                let etime = epoca_de_semana_gps(ew, et);
                match (stime, etime) {
                    (Some(stime), Some(etime)) => Ok(
                        GTRecord {
                            occupy_point: cadena_tras(&parts[1], "PN"),
                            start: stime,
                            end: etime,
                        },
                    ),
                    _ => Err(ParseError::Valor(TipoDeLinea::GT)),
                }
            },
            _ => Err(ParseError::Valor(TipoDeLinea::GT)),
        }
    } else {
        Err(ParseError::Estructura(TipoDeLinea::GT))
    }
}

/// The rod height that an `LS` line writes in its second and last field.
pub open spec fn ls_de_linea(linea: Seq<char>) -> Result<LSRecord, VistaParseError> {
    let p = campos(linea, ',');
    if p.len() == 2 {
        match decimal_en_rango(sin_prefijo(p[1], "HR"@)) {
            Some(hr) => Ok(LSRecord { height_rod: hr }),
            None => Err(VistaParseError::Valor(TipoDeLinea::LS)),
        }
    } else {
        Err(VistaParseError::Estructura(TipoDeLinea::LS))
    }
}

/// Reads an `LS` line with a rod height.
pub fn parse_ls_record(line: &str) -> (r: Result<LSRecord, ParseError>)
    ensures
        vista_de(r) == ls_de_linea(line@),
{
    let parts = dividir(&caracteres(line), ',');
    proof {
        lema_vistas(parts@);
    }
    if parts.len() == 2 {
        match Decimal::leer_tras(&parts[1], "HR") {
            Some(hr) => Ok(LSRecord { height_rod: hr }),
            None => Err(ParseError::Valor(TipoDeLinea::LS)),
        }
    } else {
        Err(ParseError::Estructura(TipoDeLinea::LS))
    }
}

/// The length in metres written in `campo` between the leading repetitions
/// of `prefijo` and the trailing repetitions of `m`.
pub open spec fn metros_tras(campo: Seq<char>, prefijo: Seq<char>) -> Option<Decimal> {
    decimal_en_rango(sin_sufijo(sin_prefijo(campo, prefijo), "m"@))
}

fn leer_metros_tras(campo: &Vec<char>, prefijo: &str) -> (r: Option<Decimal>)
    ensures
        r == metros_tras(campo@, prefijo@),
{
    let sin_p = quitar_prefijo(campo, prefijo);
    let sin_m = quitar_sufijo(&sin_p, "m");
    Decimal::leer(&sin_m)
}

/// The antenna that a `--Antenna Type` line describes. One colon parts the
/// line in two. What follows the colon has six fields: the model between
/// square brackets, then the radius, the slant height measuring point and
/// the two phase centre heights, each in metres, and a note.
pub open spec fn at_de_linea(linea: Seq<char>) -> Result<VistaAT, VistaParseError> {
    let partes = campos(linea, ':');
    if partes.len() == 2 {
        let p = campos(partes[1], ',');
        if p.len() == 6 {
            match (
                metros_tras(p[1], "RA"@),
                metros_tras(p[2], "SHMP"@),
                metros_tras(p[3], "L1"@),
                metros_tras(p[4], "L2"@),
            ) {
                (Some(ra), Some(shmp), Some(l1), Some(l2)) => Ok(
                    VistaAT {
                        tipo: sin_sufijo(sin_prefijo(recortar(p[0]), "["@), "]"@),
                        radio: ra,
                        slant_h_mp: shmp,
                        l1h: l1,
                        l2h: l2,
                        h_ingresada: None,
                        h_tipo: None,
                        h_calculada: None,
                        modo: None,
                    },
                ),
                _ => Err(VistaParseError::Valor(TipoDeLinea::AT)),
            }
        } else {
            Err(VistaParseError::Estructura(TipoDeLinea::AT))
        }
    } else {
        Err(VistaParseError::Partes(TipoDeLinea::AT))
    }
}

/// Reads a `--Antenna Type` line.
pub fn parse_antenna_type_record(line: &str) -> (r: Result<ATRecord, ParseError>)
    ensures
        vista_de(r) == at_de_linea(line@),
{
    let main_parts = dividir(&caracteres(line), ':');
    proof {
        lema_vistas(main_parts@);
    }
    if main_parts.len() != 2 {
        return Err(ParseError::Partes(TipoDeLinea::AT));
    }
    let parts = dividir(&main_parts[1], ',');
    proof {
        lema_vistas(parts@);
    }
    if parts.len() == 6 {
        let ra = leer_metros_tras(&parts[1], "RA");
        let shmp = leer_metros_tras(&parts[2], "SHMP");
        let l1 = leer_metros_tras(&parts[3], "L1");
        let l2 = leer_metros_tras(&parts[4], "L2");
        match (ra, shmp, l1, l2) {
            (Some(ra), Some(shmp), Some(l1), Some(l2)) => {
                let am = quitar_sufijo(&quitar_prefijo(&recortado(&parts[0]), "["), "]");
                Ok(
                    ATRecord {
                        tipo: cadena(&am),
                        radio: ra,
                        slant_h_mp: shmp,
                        l1h: l1,
                        l2h: l2,
                        h_ingresada: None,
                        h_tipo: None,
                        h_calculada: None,
                        modo: None,
                    },
                )
            },
            _ => Err(ParseError::Valor(TipoDeLinea::AT)),
        }
    } else {
        Err(ParseError::Estructura(TipoDeLinea::AT))
    }
}

/// The kind of height that `s` names, read without regard to the case of
/// its letters or to white space around it.
pub open spec fn tipo_de_altura(s: Seq<char>) -> Option<TipoDeAltura> {
    let t = minusculas(recortar(s));
    if t == "altura vertical"@ {
        Some(TipoDeAltura::Vertical)
    } else if t == "altura inclinada"@ {
        Some(TipoDeAltura::Inclinada)
    } else if t == "altura inclinada a altimetria"@ {
        Some(TipoDeAltura::AAltimetria)
    } else {
        None
    }
}

impl TipoDeAltura {
    /// Reads the name of a kind of height.
    pub fn leer(value: &Vec<char>) -> (r: Option<TipoDeAltura>)
        ensures
            r == tipo_de_altura(value@),
    {
        let t = en_minusculas(&recortado(value));
        if es(&t, "altura vertical") {
            Some(TipoDeAltura::Vertical)
        } else if es(&t, "altura inclinada") {
            Some(TipoDeAltura::Inclinada)
        } else if es(&t, "altura inclinada a altimetria") {
            Some(TipoDeAltura::AAltimetria)
        } else {
            None
        }
    }
}

/// The receiver that the opening of an entered height names: the second of
/// its words, `Base` or `Rover`.
pub open spec fn modo_de(cabeza: Seq<char>) -> Option<TipoDeReceptor> {
    let palabras = campos(cabeza, ' ');
    if palabras.len() >= 2 {
        if palabras[1] == "Base"@ {
            Some(TipoDeReceptor::Base)
        } else if palabras[1] == "Rover"@ {
            Some(TipoDeReceptor::Rotador)
        } else {
            None
        }
    } else {
        None
    }
}

/// Whether the line, read as an entered height, names a receiver that is
/// known. A line that one colon does not part in two names none and is
/// refused as a line, so it counts as well.
pub open spec fn modo_reconocible(linea: Seq<char>) -> bool {
    campos(linea, ':').len() == 2 ==> modo_de(campos(linea, ':')[0]) is Some
}

fn leer_modo(cabeza: &Vec<char>) -> (r: Option<TipoDeReceptor>)
    ensures
        r == modo_de(cabeza@),
{
    let palabras = dividir(cabeza, ' ');
    proof {
        lema_vistas(palabras@);
    }
    if palabras.len() >= 2 {
        if es(&palabras[1], "Base") {
            Some(TipoDeReceptor::Base)
        } else if es(&palabras[1], "Rover") {
            Some(TipoDeReceptor::Rotador)
        } else {
            None
        }
    } else {
        None
    }
}

/// Whether the line, read as an entered height, names a receiver that is
/// known.
pub fn modo_de_receptor_reconocible(line: &str) -> (b: bool)
    ensures
        b == modo_reconocible(line@),
{
    let main_parts = dividir(&caracteres(line), ':');
    proof {
        lema_vistas(main_parts@);
    }
    if main_parts.len() == 2 {
        leer_modo(&main_parts[0]).is_some()
    } else {
        true
    }
}

/// The height written in `campo` before its ending ` m`, with white space
/// around it left out.
pub open spec fn altura_en_metros(campo: Seq<char>) -> Option<Decimal> {
    match sin_un_sufijo(campo, " m"@) {
        Some(h) => decimal_en_rango(recortar(h)),
        None => None,
    }
}

/// The entered height that a `--Entered ... HR` line writes. One colon parts
/// the line in two. The second word before the colon names the receiver.
/// What follows the colon has two fields: the height in metres, and the kind
/// of height.
pub open spec fn eh_de_linea(linea: Seq<char>) -> Result<EHRecord, VistaParseError> {
    let partes = campos(linea, ':');
    if partes.len() == 2 {
        let p = campos(partes[1], ',');
        if p.len() == 2 {
            match (modo_de(partes[0]), altura_en_metros(p[0]), tipo_de_altura(p[1])) {
                (Some(mo), Some(hr), Some(ti)) => Ok(
                    EHRecord { modo: mo, height_rod: hr, tipo: ti },
                ),
                _ => Err(VistaParseError::Valor(TipoDeLinea::EH)),
            }
        } else {
            Err(VistaParseError::Estructura(TipoDeLinea::EH))
        }
    } else {
        Err(VistaParseError::Partes(TipoDeLinea::EH))
    }
}

/// Reads a `--Entered Rover HR` or `--Entered Base HR` line. The line must
/// name a receiver that is known.
pub fn parse_entered_height_record(line: &str) -> (r: Result<EHRecord, ParseError>)
    requires
        modo_reconocible(line@),
    ensures
        vista_de(r) == eh_de_linea(line@),
{
    let main_parts = dividir(&caracteres(line), ':');
    proof {
        lema_vistas(main_parts@);
    }
    if main_parts.len() != 2 {
        return Err(ParseError::Partes(TipoDeLinea::EH));
    }
    let mo = leer_modo(&main_parts[0]);
    let parts = dividir(&main_parts[1], ',');
    proof {
        lema_vistas(parts@);
    }
    if parts.len() == 2 {
        let hr = match quitar_un_sufijo(&parts[0], " m") {
            Some(h) => Decimal::leer(&recortado(&h)),
            None => None,
        };
        let ti = TipoDeAltura::leer(&parts[1]);
        match (mo, hr, ti) {
            (Some(mo), Some(hr), Some(ti)) => Ok(EHRecord { modo: mo, height_rod: hr, tipo: ti }),
            _ => Err(ParseError::Valor(TipoDeLinea::EH)),
        }
    } else {
        Err(ParseError::Estructura(TipoDeLinea::EH))
    }
}

impl<'a> TryFrom<&'a str> for TipoDeAltura {
    type Error = ParseError;

    /// Reads the name of a kind of height.
    fn try_from(value: &'a str) -> (r: Result<Self, ParseError>) {
        match TipoDeAltura::leer(&caracteres(value)) {
            Some(t) => Ok(t),
            None => Err(ParseError::Valor(TipoDeLinea::EH)),
        }
    }
}

impl<'a> vstd::std_specs::convert::TryFromSpecImpl<&'a str> for TipoDeAltura {
    open spec fn obeys_try_from_spec() -> bool {
        true
    }

    open spec fn try_from_spec(value: &'a str) -> Result<Self, ParseError> {
        match tipo_de_altura(value@) {
            Some(t) => Ok(t),
            None => Err(ParseError::Valor(TipoDeLinea::EH)),
        }
    }
}

impl TryFrom<String> for TipoDeAltura {
    type Error = ParseError;

    /// Reads the name of a kind of height.
    fn try_from(value: String) -> (r: Result<Self, ParseError>) {
        match TipoDeAltura::leer(&caracteres(value.as_str())) {
            Some(t) => Ok(t),
            None => Err(ParseError::Valor(TipoDeLinea::EH)),
        }
    }
}

impl vstd::std_specs::convert::TryFromSpecImpl<String> for TipoDeAltura {
    open spec fn obeys_try_from_spec() -> bool {
        true
    }

    open spec fn try_from_spec(value: String) -> Result<Self, ParseError> {
        match tipo_de_altura(value@) {
            Some(t) => Ok(t),
            None => Err(ParseError::Valor(TipoDeLinea::EH)),
        }
    }
}

/// Whether the date `a` comes before the date `b`. A date is a year, a
/// month and a day.
pub open spec fn fecha_anterior(a: (i32, u32, u32), b: (i32, u32, u32)) -> bool {
    a.0 < b.0 || (a.0 == b.0 && (a.1 < b.1 || (a.1 == b.1 && a.2 < b.2)))
}

/// The days at whose end a leap second was added to UTC since the start of
/// GPS time.
pub open spec fn dias_con_segundo_intercalar() -> Seq<(i32, u32, u32)> {
    seq![
        (1981i32, 6u32, 30u32),
        (1982i32, 6u32, 30u32),
        (1983i32, 6u32, 30u32),
        (1985i32, 6u32, 30u32),
        (1987i32, 12u32, 31u32),
        (1989i32, 12u32, 31u32),
        (1990i32, 12u32, 31u32),
        (1992i32, 6u32, 30u32),
        (1993i32, 6u32, 30u32),
        (1994i32, 6u32, 30u32),
        (1995i32, 12u32, 31u32),
        (1997i32, 6u32, 30u32),
        (1998i32, 12u32, 31u32),
        (2005i32, 12u32, 31u32),
        (2008i32, 12u32, 31u32),
        (2012i32, 6u32, 30u32),
        (2015i32, 6u32, 30u32),
        (2016i32, 12u32, 31u32),
    ]
}

/// How many of the first `k` dates of `dias` come before `fecha`.
pub open spec fn cuantos_antes_de(dias: Seq<(i32, u32, u32)>, fecha: (i32, u32, u32), k: int) -> nat
    decreases k,
{
    if k <= 0 {
        0
    } else {
        cuantos_antes_de(dias, fecha, k - 1) + if fecha_anterior(dias[k - 1], fecha) {
            1nat
        } else {
            0nat
        }
    }
}

/// How many leap seconds had been added to UTC, since the start of GPS
/// time, before the day `date` began.
pub fn count_leap_seconds(date: (i32, u32, u32)) -> (n: usize)
    ensures
        n == cuantos_antes_de(
            dias_con_segundo_intercalar(),
            date,
            dias_con_segundo_intercalar().len() as int,
        ),
{
    let leap_seconds_dates: Vec<(i32, u32, u32)> = vec![
        (1981i32, 6u32, 30u32),
        (1982i32, 6u32, 30u32),
        (1983i32, 6u32, 30u32),
        (1985i32, 6u32, 30u32),
        (1987i32, 12u32, 31u32),
        (1989i32, 12u32, 31u32),
        (1990i32, 12u32, 31u32),
        (1992i32, 6u32, 30u32),
        (1993i32, 6u32, 30u32),
        (1994i32, 6u32, 30u32),
        (1995i32, 12u32, 31u32),
        (1997i32, 6u32, 30u32),
        (1998i32, 12u32, 31u32),
        (2005i32, 12u32, 31u32),
        (2008i32, 12u32, 31u32),
        (2012i32, 6u32, 30u32),
        (2015i32, 6u32, 30u32),
        (2016i32, 12u32, 31u32),
    ];
    assert(leap_seconds_dates@ =~= dias_con_segundo_intercalar());
    let mut n: usize = 0;
    let mut i: usize = 0;
    while i < leap_seconds_dates.len()
        invariant
            i <= leap_seconds_dates.len(),
            leap_seconds_dates@ == dias_con_segundo_intercalar(),
            n == cuantos_antes_de(leap_seconds_dates@, date, i as int),
            n <= i,
        decreases leap_seconds_dates.len() - i,
    {
        let d = leap_seconds_dates[i];
        if d.0 < date.0 || (d.0 == date.0 && (d.1 < date.1 || (d.1 == date.1 && d.2 < date.2))) {
            n += 1;
        }
        i += 1;
    }
    n
}

} // verus!
