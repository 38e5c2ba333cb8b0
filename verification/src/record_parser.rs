//! Clock fragments, and the records of a conventional survey.

use vstd::prelude::*;
use crate::decimal::{decimal_en_rango, Decimal};
use crate::epoca::{epoca_cero, epoca_de_fecha, instante_gregoriano, Epoca, ORIGEN_GPST};
use crate::errores::{
    vista_de, CustomError, MergeError, ParseError, TipoDeLinea, VistaCustomError, VistaParseError,
};
use crate::record_parser_gps::{leer_nota, nota};
use crate::texto::{
    cadena, cadena_tras, campos, caracteres, comienza_con, dividir, empieza_con, entero, entre, es, lema_vistas,
    leer_i32, leer_u32, leer_u8, lineas, partido, partir, quitar_prefijo, recortado, recortar,
    separar_lineas, sin_prefijo, tramo, vistas,
};

verus! {

/// A reading of the clock: a date, a time of day, or both together with the
/// instant that they name.
#[derive(Debug, PartialEq, Eq, Clone, Copy)]
pub struct TRecord {
    /// Year, month and day.
    pub date: Option<(i32, u8, u8)>,
    /// Hour, minute and second.
    pub time: Option<(u8, u8, u8)>,
    /// The instant, once date and time are both known and name one.
    pub dt: Option<Epoca>,
}

impl View for TRecord {
    type V = TRecord;

    open spec fn view(&self) -> TRecord {
        *self
    }
}

impl Default for TRecord {
    fn default() -> (r: Self)
        ensures
            r == (TRecord { date: None, time: None, dt: None }),
    {
        TRecord { date: None, time: None, dt: None }
    }
}

/// The record `r` with its instant worked out, where it holds both a date
/// and a time. A date and a time that name no instant leave it without one:
/// a day that the calendar does not have, or a year outside its range.
pub open spec fn combinado(r: TRecord) -> TRecord {
    match (r.date, r.time) {
        (Some(d), Some(t)) => TRecord {
            date: r.date,
            time: r.time,
            dt: instante_gregoriano(d.0, d.1, d.2, t.0, t.1, t.2),
        },
        _ => r,
    }
}

/// The fusion of the clock fragment `a` with the fragment `b` that follows
/// it. A date and a time make a full reading. A fragment of the same kind
/// as `a`, or a full reading, takes the place of `a` when it agrees with it.
/// An empty `b` leaves `a` as it is. An `a` that is empty or already full
/// is not fused.
pub open spec fn fusion_t(a: TRecord, b: TRecord) -> Result<TRecord, MergeError> {
    match (a.date, a.time) {
        (Some(d), None) => match (b.date, b.time) {
            (None, Some(t)) => Ok(combinado(TRecord { date: Some(d), time: Some(t), dt: None })),
            (Some(d1), _) => if d1 == d {
                Ok(b)
            } else {
                Err(MergeError::FechasIncompatibles)
            },
            (None, None) => Ok(a),
        },
        (None, Some(t)) => match (b.date, b.time) {
            (Some(d), None) => Ok(combinado(TRecord { date: Some(d), time: Some(t), dt: None })),
            (_, Some(t1)) => if t1 == t {
                Ok(b)
            } else {
                Err(MergeError::HorasIncompatibles)
            },
            (None, None) => Ok(a),
        },
        (None, None) => Err(MergeError::NadaQueCombinar),
        (Some(_), Some(_)) => Err(MergeError::YaCombinado),
    }
}

/// The instant that the clock reading `r` stands for: its own, or the
/// origin of GPS time where it has none.
pub open spec fn instante_de(r: TRecord) -> Epoca {
    match r.dt {
        Some(v) => v,
        None => ORIGEN_GPST,
    }
}

fn misma_fecha(a: (i32, u8, u8), b: (i32, u8, u8)) -> (r: bool)
    ensures
        r == (a == b),
{
    a.0 == b.0 && a.1 == b.1 && a.2 == b.2
}

fn misma_hora(a: (u8, u8, u8), b: (u8, u8, u8)) -> (r: bool)
    ensures
        r == (a == b),
{
    a.0 == b.0 && a.1 == b.1 && a.2 == b.2
}

impl TRecord {
    /// This record with the date `t`.
    pub fn with_date(&self, t: (i32, u8, u8)) -> (r: TRecord)
        ensures
            r == (TRecord { date: Some(t), time: self.time, dt: self.dt }),
    {
        TRecord { date: Some(t), time: self.time, dt: self.dt }
    }

    /// This record with the time of day `t`.
    pub fn with_time(&self, t: (u8, u8, u8)) -> (r: TRecord)
        ensures
            r == (TRecord { date: self.date, time: Some(t), dt: self.dt }),
    {
        TRecord { date: self.date, time: Some(t), dt: self.dt }
    }

    /// This record with the instant `dt`, or with none.
    pub fn with_epoch(&self, dt: Option<Epoca>) -> (r: TRecord)
        ensures
            r == (TRecord { date: self.date, time: self.time, dt }),
    {
        TRecord { date: self.date, time: self.time, dt }
    }

    /// Works out the instant of a record that holds both a date and a time.
    /// A date and a time that name no instant leave the record without one.
    pub fn combine(self) -> (r: TRecord)
        ensures
            r == combinado(self),
    {
        match (self.date, self.time) {
            (Some(d), Some(t)) => self.with_epoch(epoca_de_fecha(d.0, d.1, d.2, t.0, t.1, t.2)),
            _ => self,
        }
    }

    /// Fuses this clock fragment with the fragment `other` that follows it.
    pub fn merge(self, other: TRecord) -> (r: Result<TRecord, MergeError>)
        ensures
            r == fusion_t(self, other),
    {
        match (self.date, self.time) {
            (Some(d), None) => match (other.date, other.time) {
                (None, Some(t)) => Ok(TRecord::default().with_time(t).with_date(d).combine()),
                (Some(d1), _) => if misma_fecha(d1, d) {
                    Ok(other)
                } else {
                    Err(MergeError::FechasIncompatibles)
                },
                (None, None) => Ok(self),
            },
            (None, Some(t)) => match (other.date, other.time) {
                (Some(d), None) => Ok(TRecord::default().with_time(t).with_date(d).combine()),
                (_, Some(t1)) => if misma_hora(t1, t) {
                    Ok(other)
                } else {
                    Err(MergeError::HorasIncompatibles)
                },
                (None, None) => Ok(self),
            },
            (None, None) => Err(MergeError::NadaQueCombinar),
            (Some(_), Some(_)) => Err(MergeError::YaCombinado),
        }
    }

    /// The instant that this clock reading stands for.
    pub fn get_epoch(&self) -> (r: Epoca)
        ensures
            r == instante_de(*self),
    {
        match self.dt {
            None => epoca_cero(),
            Some(v) => v,
        }
    }
}

/// The three numbers written in `pies` with `sep` between them. The first
/// two are read as integers of 8 bits without a sign; the third as one of 8
/// bits too, or, where `con_anio` holds, as a signed one of 32 bits.
pub open spec fn tres_numeros(pies: Seq<char>, sep: char, con_anio: bool) -> Result<
    (int, int, int),
    VistaParseError,
> {
    match partido(pies, sep) {
        Some((a, r)) => match partido(r, sep) {
            Some((b, c)) => match (
                entre(entero(a, false), 0, u8::MAX as int),
                entre(entero(b, false), 0, u8::MAX as int),
                if con_anio {
                    entre(entero(c, true), i32::MIN as int, i32::MAX as int)
                } else {
                    entre(entero(c, false), 0, u8::MAX as int)
                },
            ) {
                (Some(x), Some(y), Some(z)) => Ok((x, y, z)),
                _ => Err(VistaParseError::Valor(TipoDeLinea::T)),
            },
            None => Err(VistaParseError::Estructura(TipoDeLinea::T)),
        },
        None => Err(VistaParseError::Estructura(TipoDeLinea::T)),
    }
}

/// The clock fragment that a line writes: after `--DT`, month, day and year
/// with hyphens between them; after `--TM`, hour, minute and second with
/// colons between them.
pub open spec fn t_de_linea(linea: Seq<char>) -> Result<TRecord, VistaParseError> {
    if linea.len() >= 4 {
        let cabeza = linea.subrange(0, 4);
        let pies = linea.subrange(4, linea.len() as int);
        if cabeza == "--DT"@ {
            match tres_numeros(pies, '-', true) {
                Ok((mm, dd, yyyy)) => Ok(
                    TRecord { date: Some((yyyy as i32, mm as u8, dd as u8)), time: None, dt: None },
                ),
                Err(e) => Err(e),
            }
        } else if cabeza == "--TM"@ {
            match tres_numeros(pies, ':', false) {
                Ok((hh, mm, ss)) => Ok(
                    TRecord { date: None, time: Some((hh as u8, mm as u8, ss as u8)), dt: None },
                ),
                Err(e) => Err(e),
            }
        } else {
            Err(VistaParseError::Estructura(TipoDeLinea::T))
        }
    } else {
        Err(VistaParseError::Estructura(TipoDeLinea::T))
    }
}

/// Reads a `--DT` or `--TM` line.
pub fn parse_dt_record(line: &str) -> (r: Result<TRecord, ParseError>)
    ensures
        vista_de(r) == t_de_linea(line@),
{
    let l = caracteres(line);
    if l.len() < 4 {
        return Err(ParseError::Estructura(TipoDeLinea::T));
    }
    let cabeza = tramo(&l, 0, 4);
    let pies = tramo(&l, 4, l.len());
    let es_fecha = es(&cabeza, "--DT");
    let es_hora = es(&cabeza, "--TM");
    if !es_fecha && !es_hora {
        return Err(ParseError::Estructura(TipoDeLinea::T));
    }
    let sep = if es_fecha {
        '-'
    } else {
        ':'
    };
    let (a, r) = match partir(&pies, sep) {
        Some(v) => v,
        None => {
            return Err(ParseError::Estructura(TipoDeLinea::T));
        },
    };
    let (b, c) = match partir(&r, sep) {
        Some(v) => v,
        None => {
            return Err(ParseError::Estructura(TipoDeLinea::T));
        },
    };
    let x = leer_u8(&a);
    let y = leer_u8(&b);
    if es_fecha {
        match (x, y, leer_i32(&c)) {
            (Some(mm), Some(dd), Some(yyyy)) => Ok(
                TRecord::default().with_date((yyyy, mm, dd)).combine(),
            ),
            _ => Err(ParseError::Valor(TipoDeLinea::T)),
        }
    } else {
        match (x, y, leer_u8(&c)) {
            (Some(hh), Some(mm), Some(ss)) => Ok(
                TRecord::default().with_time((hh, mm, ss)).combine(),
            ),
            _ => Err(ParseError::Valor(TipoDeLinea::T)),
        }
    }
}

/// A backsight.
#[derive(Debug, PartialEq, Eq)]
pub struct BacksightRecord {
    pub op: String,
    pub bp: String,
    pub bs: Decimal,
    pub bc: Decimal,
}

/// A `BacksightRecord` with its texts as sequences of characters.
pub struct VistaBacksight {
    pub op: Seq<char>,
    pub bp: Seq<char>,
    pub bs: Decimal,
    pub bc: Decimal,
}

impl View for BacksightRecord {
    type V = VistaBacksight;

    open spec fn view(&self) -> VistaBacksight {
        VistaBacksight { op: self.op@, bp: self.bp@, bs: self.bs, bc: self.bc }
    }
}

/// The job that a log belongs to.
#[derive(Debug, PartialEq, Eq)]
pub struct JobRecord {
    pub nm: String,
    pub dt: String,
    pub tm: String,
}

/// A `JobRecord` with its texts as sequences of characters.
pub struct VistaJob {
    pub nm: Seq<char>,
    pub dt: Seq<char>,
    pub tm: Seq<char>,
}

impl View for JobRecord {
    type V = VistaJob;

    open spec fn view(&self) -> VistaJob {
        VistaJob { nm: self.nm@, dt: self.dt@, tm: self.tm@ }
    }
}

/// The heights of the instrument and of the rod.
#[derive(Debug, Clone, Copy, PartialEq, Eq)]
pub struct LineOfSightRecord {
    pub hi: Decimal,
    pub hr: Option<Decimal>,
}

impl View for LineOfSightRecord {
    type V = LineOfSightRecord;

    open spec fn view(&self) -> LineOfSightRecord {
        *self
    }
}

/// The setup of the collector.
#[derive(Debug, Clone, Copy, PartialEq, Eq)]
pub struct ModeSetupRecord {
    pub ad: u32,
    pub un: u32,
    pub sf: Decimal,
    pub ec: u32,
    pub eo: Decimal,
    pub au: u32,
}

impl View for ModeSetupRecord {
    type V = ModeSetupRecord;

    open spec fn view(&self) -> ModeSetupRecord {
        *self
    }
}

/// An occupied point.
#[derive(Debug, PartialEq, Eq)]
pub struct OccupyRecord {
    pub op: String,
    pub n: Decimal,
    pub e: Decimal,
    pub el: Decimal,
    pub note: String,
}

/// An `OccupyRecord` with its texts as sequences of characters.
pub struct VistaOccupy {
    pub op: Seq<char>,
    pub n: Decimal,
    pub e: Decimal,
    pub el: Decimal,
    pub note: Seq<char>,
}

impl View for OccupyRecord {
    type V = VistaOccupy;

    open spec fn view(&self) -> VistaOccupy {
        VistaOccupy { op: self.op@, n: self.n, e: self.e, el: self.el, note: self.note@ }
    }
}

/// An off-centre shot.
#[derive(Debug, Clone, Copy, PartialEq, Eq)]
pub struct OffCenterShotRecord {
    pub ar: Decimal,
    pub ze: Decimal,
    pub sd: Decimal,
}

impl View for OffCenterShotRecord {
    type V = OffCenterShotRecord;

    open spec fn view(&self) -> OffCenterShotRecord {
        *self
    }
}

/// A stored point.
#[derive(Debug, PartialEq, Eq)]
pub struct StorePointRecord {
    pub pn: String,
    pub n: Decimal,
    pub e: Decimal,
    pub el: Decimal,
    pub note: String,
}

/// A `StorePointRecord` with its texts as sequences of characters.
pub struct VistaStorePoint {
    pub pn: Seq<char>,
    pub n: Decimal,
    pub e: Decimal,
    pub el: Decimal,
    pub note: Seq<char>,
}

impl View for StorePointRecord {
    type V = VistaStorePoint;

    open spec fn view(&self) -> VistaStorePoint {
        VistaStorePoint { pn: self.pn@, n: self.n, e: self.e, el: self.el, note: self.note@ }
    }
}

/// A label.
#[derive(Debug, PartialEq, Eq)]
pub struct LabelRecord {
    pub label: String,
}

impl View for LabelRecord {
    type V = Seq<char>;

    open spec fn view(&self) -> Seq<char> {
        self.label@
    }
}

/// The horizontal angle of a traverse shot.
#[derive(Debug, Clone, Copy, PartialEq, Eq)]
pub enum AngleOption {
    Azimuth(Decimal),
    Bearing(Decimal),
    AngleRight(Decimal),
    AngleLeft(Decimal),
    DeflectionRight(Decimal),
    DeflectionLeft(Decimal),
}

/// The vertical angle of a traverse shot.
#[derive(Debug, Clone, Copy, PartialEq, Eq)]
pub enum ZenithOption {
    Zenith(Decimal),
    VerticalAngle(Decimal),
    ChangeElevation(Decimal),
}

/// The distance of a traverse shot.
#[derive(Debug, Clone, Copy, PartialEq, Eq)]
pub enum DistanceOption {
    SlopeDistance(Decimal),
    HorizontalDistance(Decimal),
}

/// A traverse shot.
#[derive(Debug, PartialEq, Eq)]
pub struct TraverseRecord {
    pub occupy_point: String,
    pub foresight_point: String,
    pub angle_option: AngleOption,
    pub zenith_option: ZenithOption,
    pub distance_option: DistanceOption,
    pub note: String,
}

/// A `TraverseRecord` with its texts as sequences of characters.
pub struct VistaTraverse {
    pub occupy_point: Seq<char>,
    pub foresight_point: Seq<char>,
    pub angle_option: AngleOption,
    pub zenith_option: ZenithOption,
    pub distance_option: DistanceOption,
    pub note: Seq<char>,
}

impl View for TraverseRecord {
    type V = VistaTraverse;

    open spec fn view(&self) -> VistaTraverse {
        VistaTraverse {
            occupy_point: self.occupy_point@,
            foresight_point: self.foresight_point@,
            angle_option: self.angle_option,
            zenith_option: self.zenith_option,
            distance_option: self.distance_option,
            note: self.note@,
        }
    }
}

/// The label that a line writes after its opening hyphens.
pub open spec fn etiqueta_de_linea(linea: Seq<char>) -> Result<Seq<char>, VistaParseError> {
    if empieza_con(linea, "--"@) {
        Ok(recortar(sin_prefijo(linea, "--"@)))
    } else {
        Err(VistaParseError::Estructura(TipoDeLinea::Etiqueta))
    }
}

/// Reads a label line.
pub fn parse_label_record(line: &str) -> (r: Result<LabelRecord, ParseError>)
    ensures
        vista_de(r) == etiqueta_de_linea(line@),
{
    let l = caracteres(line);
    if !comienza_con(&l, "--") {
        return Err(ParseError::Estructura(TipoDeLinea::Etiqueta));
    }
    let label = cadena(&recortado(&quitar_prefijo(&l, "--")));
    Ok(LabelRecord { label })
}

/// The backsight that a `BK` line writes in its second to fifth fields.
pub open spec fn backsight_de_linea(linea: Seq<char>) -> Result<VistaBacksight, VistaParseError> {
    let p = campos(linea, ',');
    if p.len() >= 5 {
        match (
            decimal_en_rango(sin_prefijo(p[3], "BS"@)),
            decimal_en_rango(sin_prefijo(p[4], "BC"@)),
        ) {
            (Some(bs), Some(bc)) => Ok(
                VistaBacksight {
                    op: sin_prefijo(p[1], "OP"@),
                    bp: sin_prefijo(p[2], "BP"@),
                    bs,
                    bc,
                },
            ),
            _ => Err(VistaParseError::Valor(TipoDeLinea::BK)),
        }
    } else {
        Err(VistaParseError::Estructura(TipoDeLinea::BK))
    }
}

/// Reads a `BK` line.
pub fn parse_backsight_record(line: &str) -> (r: Result<BacksightRecord, ParseError>)
    ensures
        vista_de(r) == backsight_de_linea(line@),
{
    let parts = dividir(&caracteres(line), ',');
    proof {
        lema_vistas(parts@);
    }
    if parts.len() >= 5 {
        let bs = Decimal::leer_tras(&parts[3], "BS");
        let bc = Decimal::leer_tras(&parts[4], "BC");
        match (bs, bc) {
            (Some(bs), Some(bc)) => Ok(
                BacksightRecord {
                    op: cadena_tras(&parts[1], "OP"),
                    bp: cadena_tras(&parts[2], "BP"),
                    bs,
                    bc,
                },
            ),
            _ => Err(ParseError::Valor(TipoDeLinea::BK)),
        }
    } else {
        Err(ParseError::Estructura(TipoDeLinea::BK))
    }
}

/// The job that a `JB` line writes in its second to fourth fields.
pub open spec fn job_de_linea(linea: Seq<char>) -> Result<VistaJob, VistaParseError> {
    let p = campos(linea, ',');
    if p.len() >= 4 {
        Ok(
            VistaJob {
                nm: sin_prefijo(p[1], "NM"@),
                dt: sin_prefijo(p[2], "DT"@),
                tm: sin_prefijo(p[3], "TM"@),
            },
        )
    } else {
        Err(VistaParseError::Estructura(TipoDeLinea::JB))
    }
}

/// Reads a `JB` line.
pub fn parse_job_record(line: &str) -> (r: Result<JobRecord, ParseError>)
    ensures
        vista_de(r) == job_de_linea(line@),
{
    let parts = dividir(&caracteres(line), ',');
    proof {
        lema_vistas(parts@);
    }
    if parts.len() >= 4 {
        Ok(
            JobRecord {
                nm: cadena_tras(&parts[1], "NM"),
                dt: cadena_tras(&parts[2], "DT"),
                tm: cadena_tras(&parts[3], "TM"),
            },
        )
    } else {
        Err(ParseError::Estructura(TipoDeLinea::JB))
    }
}

/// The heights that an `LS` line writes: that of the instrument in its
/// second field and, where it has a third, that of the rod.
pub open spec fn linea_de_vista_de_linea(linea: Seq<char>) -> Result<
    LineOfSightRecord,
    VistaParseError,
> {
    let p = campos(linea, ',');
    if p.len() >= 2 {
        match decimal_en_rango(sin_prefijo(p[1], "HI"@)) {
            Some(hi) => if p.len() >= 3 {
                match decimal_en_rango(sin_prefijo(p[2], "HR"@)) {
                    Some(hr) => Ok(LineOfSightRecord { hi, hr: Some(hr) }),
                    None => Err(VistaParseError::Valor(TipoDeLinea::LineaDeVista)),
                }
            } else {
                Ok(LineOfSightRecord { hi, hr: None })
            },
            None => Err(VistaParseError::Valor(TipoDeLinea::LineaDeVista)),
        }
    } else {
        Err(VistaParseError::Estructura(TipoDeLinea::LineaDeVista))
    }
}

/// Reads an `LS` line with an instrument height.
pub fn parse_line_of_sight_record(line: &str) -> (r: Result<LineOfSightRecord, ParseError>)
    ensures
        vista_de(r) == linea_de_vista_de_linea(line@),
{
    let parts = dividir(&caracteres(line), ',');
    proof {
        lema_vistas(parts@);
    }
    if parts.len() >= 2 {
        match Decimal::leer_tras(&parts[1], "HI") {
            Some(hi) => if parts.len() >= 3 {
                match Decimal::leer_tras(&parts[2], "HR") {
                    Some(hr) => Ok(LineOfSightRecord { hi, hr: Some(hr) }),
                    None => Err(ParseError::Valor(TipoDeLinea::LineaDeVista)),
                }
            } else {
                Ok(LineOfSightRecord { hi, hr: None })
            },
            None => Err(ParseError::Valor(TipoDeLinea::LineaDeVista)),
        }
    } else {
        Err(ParseError::Estructura(TipoDeLinea::LineaDeVista))
    }
}

/// The integer of 32 bits without a sign written in `campo` after the
/// leading repetitions of `prefijo`.
pub open spec fn natural_tras(campo: Seq<char>, prefijo: Seq<char>) -> Option<int> {
    entre(entero(sin_prefijo(campo, prefijo), false), 0, u32::MAX as int)
}

fn leer_natural_tras(campo: &Vec<char>, prefijo: &str) -> (r: Option<u32>)
    ensures
        match r {
            Some(v) => natural_tras(campo@, prefijo@) == Some(v as int),
            None => natural_tras(campo@, prefijo@) is None,
        },
{
    let resto = quitar_prefijo(campo, prefijo);
    leer_u32(&resto)
}

/// The setup that an `MO` line writes in its second to seventh fields.
pub open spec fn modo_de_linea(linea: Seq<char>) -> Result<ModeSetupRecord, VistaParseError> {
    let p = campos(linea, ',');
    if p.len() >= 7 {
        match (
            natural_tras(p[1], "AD"@),
            natural_tras(p[2], "UN"@),
            decimal_en_rango(sin_prefijo(p[3], "SF"@)),
            natural_tras(p[4], "EC"@),
            decimal_en_rango(sin_prefijo(p[5], "EO"@)),
            natural_tras(p[6], "AU"@),
        ) {
            (Some(ad), Some(un), Some(sf), Some(ec), Some(eo), Some(au)) => Ok(
                ModeSetupRecord {
                    ad: ad as u32,
                    un: un as u32,
                    sf,
                    ec: ec as u32,
                    eo,
                    au: au as u32,
                },
            ),
            _ => Err(VistaParseError::Valor(TipoDeLinea::MO)),
        }
    } else {
        Err(VistaParseError::Estructura(TipoDeLinea::MO))
    }
}

/// Reads an `MO` line.
pub fn parse_mode_setup_record(line: &str) -> (r: Result<ModeSetupRecord, ParseError>)
    ensures
        vista_de(r) == modo_de_linea(line@),
{
    let parts = dividir(&caracteres(line), ',');
    proof {
        lema_vistas(parts@);
    }
    if parts.len() >= 7 {
        let ad = leer_natural_tras(&parts[1], "AD");
        let un = leer_natural_tras(&parts[2], "UN");
        let sf = Decimal::leer_tras(&parts[3], "SF");
        let ec = leer_natural_tras(&parts[4], "EC");
        let eo = Decimal::leer_tras(&parts[5], "EO");
        let au = leer_natural_tras(&parts[6], "AU");
        match (ad, un, sf, ec, eo, au) {
            (Some(ad), Some(un), Some(sf), Some(ec), Some(eo), Some(au)) => Ok(
                ModeSetupRecord { ad, un, sf, ec, eo, au },
            ),
            _ => Err(ParseError::Valor(TipoDeLinea::MO)),
        }
    } else {
        Err(ParseError::Estructura(TipoDeLinea::MO))
    }
}

/// The occupied point that an `OC` line writes: point, north, east and
/// elevation in its second to fifth fields, and a note in the sixth where
/// that is the last.
pub open spec fn occupy_de_linea(linea: Seq<char>) -> Result<VistaOccupy, VistaParseError> {
    let p = campos(linea, ',');
    if p.len() >= 5 {
        match (
            decimal_en_rango(sin_prefijo(p[2], "N "@)),
            decimal_en_rango(sin_prefijo(p[3], "E "@)),
            decimal_en_rango(sin_prefijo(p[4], "EL"@)),
        ) {
            (Some(n), Some(e), Some(el)) => Ok(
                VistaOccupy { op: sin_prefijo(p[1], "OP"@), n, e, el, note: nota(p, 5) },
            ),
            _ => Err(VistaParseError::Valor(TipoDeLinea::OC)),
        }
    } else {
        Err(VistaParseError::Estructura(TipoDeLinea::OC))
    }
}

/// Reads an `OC` line.
pub fn parse_occupy_record(line: &str) -> (r: Result<OccupyRecord, ParseError>)
    ensures
        vista_de(r) == occupy_de_linea(line@),
{
    let parts = dividir(&caracteres(line), ',');
    proof {
        lema_vistas(parts@);
    }
    if parts.len() >= 5 {
        let n = Decimal::leer_tras(&parts[2], "N ");
        let e = Decimal::leer_tras(&parts[3], "E ");
        let el = Decimal::leer_tras(&parts[4], "EL");
        match (n, e, el) {
            (Some(n), Some(e), Some(el)) => Ok(
                OccupyRecord {
                    op: cadena_tras(&parts[1], "OP"),
                    n,
                    e,
                    el,
                    note: leer_nota(&parts, 5),
                },
            ),
            _ => Err(ParseError::Valor(TipoDeLinea::OC)),
        }
    } else {
        Err(ParseError::Estructura(TipoDeLinea::OC))
    }
}

/// The off-centre shot that an `OF` line writes in its second to fourth
/// fields.
pub open spec fn off_center_de_linea(linea: Seq<char>) -> Result<
    OffCenterShotRecord,
    VistaParseError,
> {
    let p = campos(linea, ',');
    if p.len() >= 4 {
        match (
            decimal_en_rango(sin_prefijo(p[1], "AR"@)),
            decimal_en_rango(sin_prefijo(p[2], "ZE"@)),
            decimal_en_rango(sin_prefijo(p[3], "SD"@)),
        ) {
            (Some(ar), Some(ze), Some(sd)) => Ok(OffCenterShotRecord { ar, ze, sd }),
            _ => Err(VistaParseError::Valor(TipoDeLinea::OF)),
        }
    } else {
        Err(VistaParseError::Estructura(TipoDeLinea::OF))
    }
}

/// Reads an `OF` line.
pub fn parse_off_center_shot_record(line: &str) -> (r: Result<OffCenterShotRecord, ParseError>)
    ensures
        vista_de(r) == off_center_de_linea(line@),
{
    let parts = dividir(&caracteres(line), ',');
    proof {
        lema_vistas(parts@);
    }
    if parts.len() >= 4 {
        let ar = Decimal::leer_tras(&parts[1], "AR");
        let ze = Decimal::leer_tras(&parts[2], "ZE");
        let sd = Decimal::leer_tras(&parts[3], "SD");
        match (ar, ze, sd) {
            (Some(ar), Some(ze), Some(sd)) => Ok(OffCenterShotRecord { ar, ze, sd }),
            _ => Err(ParseError::Valor(TipoDeLinea::OF)),
        }
    } else {
        Err(ParseError::Estructura(TipoDeLinea::OF))
    }
}

/// The stored point that an `SP` line writes: point, north, east and
/// elevation in its second to fifth fields, and a note in the sixth where
/// that is the last.
pub open spec fn store_point_de_linea(linea: Seq<char>) -> Result<
    VistaStorePoint,
    VistaParseError,
> {
    let p = campos(linea, ',');
    if p.len() >= 5 {
        match (
            decimal_en_rango(sin_prefijo(p[2], "N "@)),
            decimal_en_rango(sin_prefijo(p[3], "E "@)),
            decimal_en_rango(sin_prefijo(p[4], "EL"@)),
        ) {
            (Some(n), Some(e), Some(el)) => Ok(
                VistaStorePoint { pn: sin_prefijo(p[1], "PN"@), n, e, el, note: nota(p, 5) },
            ),
            _ => Err(VistaParseError::Valor(TipoDeLinea::SP)),
        }
    } else {
        Err(VistaParseError::Estructura(TipoDeLinea::SP))
    }
}

/// Reads an `SP` line.
pub fn parse_store_point_record(line: &str) -> (r: Result<StorePointRecord, ParseError>)
    ensures
        vista_de(r) == store_point_de_linea(line@),
{
    let parts = dividir(&caracteres(line), ',');
    proof {
        lema_vistas(parts@);
    }
    if parts.len() >= 5 {
        let n = Decimal::leer_tras(&parts[2], "N ");
        let e = Decimal::leer_tras(&parts[3], "E ");
        let el = Decimal::leer_tras(&parts[4], "EL");
        match (n, e, el) {
            (Some(n), Some(e), Some(el)) => Ok(
                StorePointRecord {
                    pn: cadena_tras(&parts[1], "PN"),
                    n,
                    e,
                    el,
                    note: leer_nota(&parts, 5),
                },
            ),
            _ => Err(ParseError::Valor(TipoDeLinea::SP)),
        }
    } else {
        Err(ParseError::Estructura(TipoDeLinea::SP))
    }
}

/// The error of a field that opens with a code that is not an option.
pub open spec fn opcion_invalida(mensaje: Seq<char>, campo: Seq<char>) -> VistaParseError {
    VistaParseError::Opcion(VistaCustomError { message: mensaje, field: campo })
}

/// The number written in `campo` after the leading repetitions of `codigo`.
pub open spec fn valor_de_opcion(campo: Seq<char>, codigo: Seq<char>) -> Result<
    Decimal,
    VistaParseError,
> {
    match decimal_en_rango(sin_prefijo(campo, codigo)) {
        Some(v) => Ok(v),
        None => Err(VistaParseError::Valor(TipoDeLinea::TR)),
    }
}

fn leer_valor_de_opcion(campo: &Vec<char>, codigo: &str) -> (r: Result<Decimal, ParseError>)
    ensures
        vista_de_valor(r) == valor_de_opcion(campo@, codigo@),
{
    match Decimal::leer_tras(campo, codigo) {
        Some(v) => Ok(v),
        None => Err(ParseError::Valor(TipoDeLinea::TR)),
    }
}

/// The outcome of reading a plain value, with the error as its view.
pub open spec fn vista_de_valor<T>(r: Result<T, ParseError>) -> Result<T, VistaParseError> {
    match r {
        Ok(v) => Ok(v),
        Err(e) => Err(e@),
    }
}

fn error_de_opcion(mensaje: &str, campo: &Vec<char>) -> (e: ParseError)
    ensures
        e@ == opcion_invalida(mensaje@, campo@),
{
    let texto = cadena(campo);
    ParseError::Opcion(CustomError::new(mensaje, texto.as_str()))
}

/// The horizontal angle that a field writes: a code of two letters, then
/// the angle.
pub open spec fn angulo_de(campo: Seq<char>) -> Result<AngleOption, VistaParseError> {
    if empieza_con(campo, "AZ"@) {
        match valor_de_opcion(campo, "AZ"@) {
            Ok(v) => Ok(AngleOption::Azimuth(v)),
            Err(e) => Err(e),
        }
    } else if empieza_con(campo, "BR"@) {
        match valor_de_opcion(campo, "BR"@) {
            Ok(v) => Ok(AngleOption::Bearing(v)),
            Err(e) => Err(e),
        }
    } else if empieza_con(campo, "AR"@) {
        match valor_de_opcion(campo, "AR"@) {
            Ok(v) => Ok(AngleOption::AngleRight(v)),
            Err(e) => Err(e),
        }
    } else if empieza_con(campo, "AL"@) {
        match valor_de_opcion(campo, "AL"@) {
            Ok(v) => Ok(AngleOption::AngleLeft(v)),
            Err(e) => Err(e),
        }
    } else if empieza_con(campo, "DR"@) {
        match valor_de_opcion(campo, "DR"@) {
            Ok(v) => Ok(AngleOption::DeflectionRight(v)),
            Err(e) => Err(e),
        }
    } else if empieza_con(campo, "DL"@) {
        match valor_de_opcion(campo, "DL"@) {
            Ok(v) => Ok(AngleOption::DeflectionLeft(v)),
            Err(e) => Err(e),
        }
    } else {
        Err(opcion_invalida("Invalid angle option"@, campo))
    }
}

fn leer_angulo(campo: &Vec<char>) -> (r: Result<AngleOption, ParseError>)
    ensures
        vista_de_valor(r) == angulo_de(campo@),
{
    if comienza_con(campo, "AZ") {
        match leer_valor_de_opcion(campo, "AZ") {
            Ok(v) => Ok(AngleOption::Azimuth(v)),
            Err(e) => Err(e),
        }
    } else if comienza_con(campo, "BR") {
        match leer_valor_de_opcion(campo, "BR") {
            Ok(v) => Ok(AngleOption::Bearing(v)),
            Err(e) => Err(e),
        }
    } else if comienza_con(campo, "AR") {
        match leer_valor_de_opcion(campo, "AR") {
            Ok(v) => Ok(AngleOption::AngleRight(v)),
            Err(e) => Err(e),
        }
    } else if comienza_con(campo, "AL") {
        match leer_valor_de_opcion(campo, "AL") {
            Ok(v) => Ok(AngleOption::AngleLeft(v)),
            Err(e) => Err(e),
        }
    } else if comienza_con(campo, "DR") {
        match leer_valor_de_opcion(campo, "DR") {
            Ok(v) => Ok(AngleOption::DeflectionRight(v)),
            Err(e) => Err(e),
        }
    } else if comienza_con(campo, "DL") {
        match leer_valor_de_opcion(campo, "DL") {
            Ok(v) => Ok(AngleOption::DeflectionLeft(v)),
            Err(e) => Err(e),
        }
    } else {
        Err(error_de_opcion("Invalid angle option", campo))
    }
}

/// The vertical angle that a field writes: a code of two letters, then the
/// angle.
pub open spec fn cenit_de(campo: Seq<char>) -> Result<ZenithOption, VistaParseError> {
    if empieza_con(campo, "ZE"@) {
        match valor_de_opcion(campo, "ZE"@) {
            Ok(v) => Ok(ZenithOption::Zenith(v)),
            Err(e) => Err(e),
        }
    } else if empieza_con(campo, "VA"@) {
        match valor_de_opcion(campo, "VA"@) {
            Ok(v) => Ok(ZenithOption::VerticalAngle(v)),
            Err(e) => Err(e),
        }
    } else if empieza_con(campo, "CE"@) {
        match valor_de_opcion(campo, "CE"@) {
            Ok(v) => Ok(ZenithOption::ChangeElevation(v)),
            Err(e) => Err(e),
        }
    } else {
        Err(opcion_invalida("Invalid zenith option"@, campo))
    }
}

fn leer_cenit(campo: &Vec<char>) -> (r: Result<ZenithOption, ParseError>)
    ensures
        vista_de_valor(r) == cenit_de(campo@),
{
    if comienza_con(campo, "ZE") {
        match leer_valor_de_opcion(campo, "ZE") {
            Ok(v) => Ok(ZenithOption::Zenith(v)),
            Err(e) => Err(e),
        }
    } else if comienza_con(campo, "VA") {
        match leer_valor_de_opcion(campo, "VA") {
            Ok(v) => Ok(ZenithOption::VerticalAngle(v)),
            Err(e) => Err(e),
        }
    } else if comienza_con(campo, "CE") {
        match leer_valor_de_opcion(campo, "CE") {
            Ok(v) => Ok(ZenithOption::ChangeElevation(v)),
            Err(e) => Err(e),
        }
    } else {
        Err(error_de_opcion("Invalid zenith option", campo))
    }
}

/// The distance that a field writes: a code of two letters, then the
/// distance.
pub open spec fn distancia_de(campo: Seq<char>) -> Result<DistanceOption, VistaParseError> {
    if empieza_con(campo, "SD"@) {
        match valor_de_opcion(campo, "SD"@) {
            Ok(v) => Ok(DistanceOption::SlopeDistance(v)),
            Err(e) => Err(e),
        }
    } else if empieza_con(campo, "HD"@) {
        match valor_de_opcion(campo, "HD"@) {
            Ok(v) => Ok(DistanceOption::HorizontalDistance(v)),
            Err(e) => Err(e),
        }
    } else {
        Err(opcion_invalida("Invalid distance option"@, campo))
    }
}

fn leer_distancia(campo: &Vec<char>) -> (r: Result<DistanceOption, ParseError>)
    ensures
        vista_de_valor(r) == distancia_de(campo@),
{
    if comienza_con(campo, "SD") {
        match leer_valor_de_opcion(campo, "SD") {
            Ok(v) => Ok(DistanceOption::SlopeDistance(v)),
            Err(e) => Err(e),
        }
    } else if comienza_con(campo, "HD") {
        match leer_valor_de_opcion(campo, "HD") {
            Ok(v) => Ok(DistanceOption::HorizontalDistance(v)),
            Err(e) => Err(e),
        }
    } else {
        Err(error_de_opcion("Invalid distance option", campo))
    }
}

/// The traverse shot that a line of seven fields writes: the occupied point
/// and the foresight point in the second and third, the horizontal angle,
/// the vertical angle and the distance in the next three, and a note in the
/// last. The first of these three that cannot be read gives the error.
pub open spec fn traverse_de_linea(linea: Seq<char>) -> Result<VistaTraverse, VistaParseError> {
    let p = campos(linea, ',');
    if p.len() == 7 {
        match angulo_de(p[3]) {
            Err(e) => Err(e),
            Ok(a) => match cenit_de(p[4]) {
                Err(e) => Err(e),
                Ok(z) => match distancia_de(p[5]) {
                    Err(e) => Err(e),
                    Ok(d) => Ok(
                        VistaTraverse {
                            occupy_point: sin_prefijo(p[1], "OP"@),
                            foresight_point: sin_prefijo(p[2], "FP"@),
                            angle_option: a,
                            zenith_option: z,
                            distance_option: d,
                            note: sin_prefijo(p[6], "--"@),
                        },
                    ),
                },
            },
        }
    } else {
        Err(VistaParseError::Estructura(TipoDeLinea::TR))
    }
}

/// Reads the line of a traverse shot.
pub fn parse_traverse_record(line: &str) -> (r: Result<TraverseRecord, ParseError>)
    ensures
        vista_de(r) == traverse_de_linea(line@),
{
    let fields = dividir(&caracteres(line), ',');
    proof {
        lema_vistas(fields@);
    }
    if fields.len() != 7 {
        return Err(ParseError::Estructura(TipoDeLinea::TR));
    }
    let angle_option = match leer_angulo(&fields[3]) {
        Ok(v) => v,
        Err(e) => {
            return Err(e);
        },
    };
    let zenith_option = match leer_cenit(&fields[4]) {
        Ok(v) => v,
        Err(e) => {
            return Err(e);
        },
    };
    let distance_option = match leer_distancia(&fields[5]) {
        Ok(v) => v,
        Err(e) => {
            return Err(e);
        },
    };
    Ok(
        TraverseRecord {
            occupy_point: cadena_tras(&fields[1], "OP"),
            foresight_point: cadena_tras(&fields[2], "FP"),
            angle_option,
            zenith_option,
            distance_option,
            note: cadena_tras(&fields[6], "--"),
        },
    )
}

/// Whether a reading succeeded, or else its error.
pub open spec fn sin_valor<T>(r: Result<T, VistaParseError>) -> Result<(), VistaParseError> {
    match r {
        Ok(_) => Ok(()),
        Err(e) => Err(e),
    }
}

/// The token that opens a line of a conventional survey: its first field,
/// without white space around it.
pub open spec fn tipo_de_registro(linea: Seq<char>) -> Seq<char> {
    recortar(campos(linea, ',')[0])
}

/// Whether `linea` can be read as the record that its opening token names.
/// An empty line is in order. A line that opens with a token that names no
/// record is not.
pub open spec fn validez_de_linea(linea: Seq<char>) -> Result<(), VistaParseError> {
    let t = tipo_de_registro(linea);
    if linea.len() == 0 {
        Ok(())
    } else if t == "JB"@ {
        sin_valor(job_de_linea(linea))
    } else if t == "MO"@ {
        sin_valor(modo_de_linea(linea))
    } else if t == "--SP"@ {
        sin_valor(store_point_de_linea(linea))
    } else if t == "OC"@ {
        sin_valor(occupy_de_linea(linea))
    } else if t == "OF"@ {
        sin_valor(off_center_de_linea(linea))
    } else if t == "BK"@ {
        sin_valor(backsight_de_linea(linea))
    } else if t == "LS"@ {
        sin_valor(linea_de_vista_de_linea(linea))
    } else if t == "SS"@ || t == "TR"@ || t == "BD"@ || t == "BR"@ || t == "FD"@ || t == "FR"@ {
        sin_valor(traverse_de_linea(linea))
    } else if t == "--"@ {
        sin_valor(etiqueta_de_linea(linea))
    } else {
        Err(VistaParseError::TipoDesconocido)
    }
}

/// The outcome of a check, with the error as its view.
pub open spec fn vista_de_validez(r: Result<(), ParseError>) -> Result<(), VistaParseError> {
    match r {
        Ok(_) => Ok(()),
        Err(e) => Err(e@),
    }
}

fn validar<T: View>(r: Result<T, ParseError>) -> (v: Result<(), ParseError>)
    ensures
        vista_de_validez(v) == sin_valor(vista_de(r)),
{
    match r {
        Ok(_) => Ok(()),
        Err(e) => Err(e),
    }
}

/// Checks that a line of a conventional survey can be read as the record
/// that its opening token names.
pub fn parse_record_line(line: &str) -> (r: Result<(), ParseError>)
    ensures
        vista_de_validez(r) == validez_de_linea(line@),
{
    if line.is_empty() {
        return Ok(());
    }
    let partes = dividir(&caracteres(line), ',');
    proof {
        lema_vistas(partes@);
    }
    let record_type = recortado(&partes[0]);
    if es(&record_type, "JB") {
        validar(parse_job_record(line))
    } else if es(&record_type, "MO") {
        validar(parse_mode_setup_record(line))
    } else if es(&record_type, "--SP") {
        validar(parse_store_point_record(line))
    } else if es(&record_type, "OC") {
        validar(parse_occupy_record(line))
    } else if es(&record_type, "OF") {
        validar(parse_off_center_shot_record(line))
    } else if es(&record_type, "BK") {
        validar(parse_backsight_record(line))
    } else if es(&record_type, "LS") {
        validar(parse_line_of_sight_record(line))
    } else if es(&record_type, "SS") || es(&record_type, "TR") || es(&record_type, "BD") || es(
        &record_type,
        "BR",
    ) || es(&record_type, "FD") || es(&record_type, "FR") {
        validar(parse_traverse_record(line))
    } else if es(&record_type, "--") {
        validar(parse_label_record(line))
    } else {
        Err(ParseError::TipoDesconocido)
    }
}

/// Whether every one of the lines `ls` can be read, or else the error of the
/// first that cannot.
pub open spec fn validez_de_lineas(ls: Seq<Seq<char>>) -> Result<(), VistaParseError>
    decreases ls.len(),
{
    if ls.len() == 0 {
        Ok(())
    } else {
        match validez_de_linea(ls[0]) {
            Err(e) => Err(e),
            Ok(_) => validez_de_lineas(ls.drop_first()),
        }
    }
}

/// Checks the text of a log of a conventional survey line by line, up to
/// the first line that cannot be read.
pub fn parse_rw5_file(input: &str) -> (r: Result<(), ParseError>)
    ensures
        vista_de_validez(r) == validez_de_lineas(lineas(input@)),
{
    let ls = separar_lineas(&caracteres(input));
    proof {
        lema_vistas(ls@);
    }
    let n = ls.len();
    let mut i: usize = 0;
    assert(lineas(input@).subrange(0, n as int) =~= lineas(input@));
    while i < n
        invariant
            i <= n == ls.len(),
            vistas(ls@) == lineas(input@),
            validez_de_lineas(lineas(input@)) == validez_de_lineas(
                lineas(input@).subrange(i as int, n as int),
            ),
        decreases n - i,
    {
        let linea = cadena(&ls[i]);
        proof {
            lema_vistas(ls@);
            let resto = lineas(input@).subrange(i as int, n as int);
            assert(resto[0] == linea@);
            assert(resto.drop_first() =~= lineas(input@).subrange(i + 1, n as int));
        }
        match parse_record_line(linea.as_str()) {
            Ok(_) => {},
            Err(e) => {
                return Err(e);
            },
        }
        i += 1;
    }
    Ok(())
}

} // verus!
