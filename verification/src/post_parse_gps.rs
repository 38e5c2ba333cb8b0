//! The fusion of adjacent fragments into complete records, and the
//! consolidation of a survey: which antenna and which base were in effect
//! when each point was taken.

use vstd::prelude::*;
use crate::epoca::{epoca_cero, Epoca, ORIGEN_GPST};
use crate::eventos::{
    evento_de_fin, evento_de_inicio, ClaveDeEvento, Evento, PuntoRelevado, TipoDeEvento,
    VistaEvento, VistaPunto,
};
use crate::file_parser::{vistas_de, Record, VistaRecord};
use crate::mapa_ordenado::{
    insertado, lema_vistas_de_insertado, lema_vistas_de_vigente, vigente_en, vistas_de_entradas,
    MapaOrdenado,
};
use crate::record_parser::{fusion_t, instante_de};
use crate::record_parser_gps::{
    at_con_eh, at_con_ls, fusion_bp_gs, fusion_gps_gs, fusion_gps_gt, ATRecord, BPRecord,
    GPSRecord, TipoDeReceptor, VistaAT, VistaBP, VistaGPS,
};
use crate::ventanas::ventanas_circulares;

verus! {

/// The record that takes the place of `a` when `a` is fused with the record
/// `b` that follows it, or `None` where the two are not of kinds that fuse
/// or their fusion fails.
pub open spec fn fusion(a: VistaRecord, b: VistaRecord) -> Option<VistaRecord> {
    match (a, b) {
        (VistaRecord::GPS(g), VistaRecord::GS(p)) => match fusion_gps_gs(g, p) {
            Ok(v) => Some(VistaRecord::GPS(v)),
            Err(_) => None,
        },
        (VistaRecord::GPS(g), VistaRecord::GT(p)) => match fusion_gps_gt(g, p) {
            Ok(v) => Some(VistaRecord::GPS(v)),
            Err(_) => None,
        },
        (VistaRecord::BP(g), VistaRecord::GS(p)) => match fusion_bp_gs(g, p) {
            Ok(v) => Some(VistaRecord::BP(v)),
            Err(_) => None,
        },
        (VistaRecord::AT(g), VistaRecord::LS(p)) => Some(VistaRecord::AT(at_con_ls(g, p))),
        (VistaRecord::EH(g), VistaRecord::AT(p)) => Some(VistaRecord::AT(at_con_eh(p, g))),
        (VistaRecord::T(g), VistaRecord::T(p)) => match fusion_t(g, p) {
            Ok(v) => Some(VistaRecord::T(v)),
            Err(_) => None,
        },
        _ => None,
    }
}

/// The view of a record that may be absent.
pub open spec fn vista_opcional(r: Option<Record>) -> Option<VistaRecord> {
    match r {
        Some(v) => Some(v@),
        None => None,
    }
}

/// Fuses `a` with the record `b` that follows it, where that can be done.
/// Neither record is changed.
pub fn fusionar(a: &Record, b: &Record) -> (r: Option<Record>)
    ensures
        vista_opcional(r) == fusion(a@, b@),
{
    match (a, b) {
        (Record::GPS(g), Record::GS(p)) => match g.clone().aplicar_gs(p.clone()) {
            Ok(v) => Some(Record::GPS(v)),
            Err(_) => None,
        },
        (Record::GPS(g), Record::GT(p)) => match g.clone().aplicar_gt(p.clone()) {
            Ok(v) => Some(Record::GPS(v)),
            Err(_) => None,
        },
        (Record::BP(g), Record::GS(p)) => match g.clone().aplicar_gs(p.clone()) {
            Ok(v) => Some(Record::BP(v)),
            Err(_) => None,
        },
        (Record::AT(g), Record::LS(p)) => match g.aplicar_ls(*p) {
            Ok(v) => Some(Record::AT(v)),
            Err(_) => None,
        },
        (Record::EH(g), Record::AT(p)) => match p.aplicar_eh(*g) {
            Ok(v) => Some(Record::AT(v)),
            Err(_) => None,
        },
        (Record::T(g), Record::T(p)) => match g.merge(*p) {
            Ok(v) => Some(Record::T(v)),
            Err(_) => None,
        },
        _ => None,
    }
}

/// The position that follows `i` in a circle of `n` positions.
pub open spec fn siguiente(n: int, i: int) -> int {
    (i + 1) % n
}

/// Whether, in one pass over `rs`, the record at `i` is fused with the one
/// that follows it: it was not itself taken up by the fusion of the record
/// before it, and the fusion succeeds.
pub open spec fn se_fusiona(rs: Seq<VistaRecord>, i: int) -> bool
    decreases i,
{
    if 0 <= i < rs.len() {
        !(i > 0 && se_fusiona(rs, i - 1)) && fusion(rs[i], rs[siguiente(rs.len() as int, i)])
            is Some
    } else {
        false
    }
}

/// Whether, in one pass over `rs`, the record at `i` is taken up by the
/// fusion of the record before it.
pub open spec fn consumido(rs: Seq<VistaRecord>, i: int) -> bool {
    i > 0 && se_fusiona(rs, i - 1)
}

/// What one pass has put out when it has gone over the first `k` records of
/// `rs`: nothing for a record that was taken up, the fused record for one
/// that fuses with its follower, the record itself otherwise.
pub open spec fn pasada(rs: Seq<VistaRecord>, k: int) -> Seq<VistaRecord>
    decreases k,
{
    if k <= 0 {
        Seq::empty()
    } else {
        let antes = pasada(rs, k - 1);
        let i = k - 1;
        if consumido(rs, i) {
            antes
        } else if se_fusiona(rs, i) {
            antes.push(fusion(rs[i], rs[siguiente(rs.len() as int, i)])->0)
        } else {
            antes.push(rs[i])
        }
    }
}

/// The outcome of one pass of fusion over `rs`, read as a circle: the record
/// that follows the last one is the first.
pub open spec fn combinacion(rs: Seq<VistaRecord>) -> Seq<VistaRecord> {
    pasada(rs, rs.len() as int)
}

/// One pass of fusion over the records. Each record that can be fused with
/// the one after it is replaced by the fusion, and the one after it is left
/// out. The first record counts as the one after the last.
pub fn combinar_registros(registros: Vec<Record>) -> (r: Vec<Record>)
    ensures
        vistas_de(r@) == combinacion(vistas_de(registros@)),
{
    let n = registros.len();
    let ventanas = ventanas_circulares(n);
    let ghost vs = vistas_de(registros@);
    let mut salida: Vec<Record> = Vec::new();
    let mut skip: usize = 0;
    let mut k: usize = 0;
    while k < n
        invariant
            k <= n == registros.len(),
            vs == vistas_de(registros@),
            ventanas@.len() == n,
            forall|i: int|
                0 <= i < n ==> #[trigger] ventanas@[i] == (
                    i as usize,
                    ((i + 1) % (n as int)) as usize,
                    ((i + 2) % (n as int)) as usize,
                ),
            skip <= 1,
            (skip == 1) == consumido(vs, k as int),
            vistas_de(salida@) == pasada(vs, k as int),
        decreases n - k,
    {
        let (i, j, _) = ventanas[k];
        assert(j == siguiente(n as int, k as int));
        if skip > 0 {
            skip -= 1;
        } else {
            let ghost antes = salida@;
            match fusionar(&registros[i], &registros[j]) {
                Some(v) => {
                    skip = 1;
                    salida.push(v);
                    assert(vistas_de(salida@) =~= vistas_de(antes).push(v@));
                },
                None => {
                    let c = registros[i].clone();
                    salida.push(c);
                    assert(vistas_de(salida@) =~= vistas_de(antes).push(c@));
                },
            }
        }
        k += 1;
    }
    salida
}

/// How many of the first `k` records of `rs` one pass takes up into the
/// fusion of the record before them.
pub open spec fn consumidos(rs: Seq<VistaRecord>, k: int) -> nat
    decreases k,
{
    if k <= 0 {
        0
    } else {
        consumidos(rs, k - 1) + if consumido(rs, k - 1) {
            1nat
        } else {
            0nat
        }
    }
}

/// A pass puts out one record for each record that it goes over, but for
/// those that were taken up by a fusion.
pub proof fn lema_largo_de_pasada(rs: Seq<VistaRecord>, k: int)
    requires
        0 <= k <= rs.len(),
    ensures
        pasada(rs, k).len() + consumidos(rs, k) == k,
        k > 0 ==> pasada(rs, k).len() > 0,
    decreases k,
{
    if k > 0 {
        lema_largo_de_pasada(rs, k - 1);
    }
}

/// The records that are left when passes of fusion are made over `rs` until
/// one of them takes no record away. It is the outcome of that last pass.
pub open spec fn estabilizado(rs: Seq<VistaRecord>) -> Seq<VistaRecord>
    decreases rs.len(),
{
    if rs.len() == 0 {
        rs
    } else {
        let sig = combinacion(rs);
        if sig.len() < rs.len() {
            estabilizado(sig)
        } else {
            sig
        }
    }
}

/// Makes passes of fusion over the records until a pass leaves their number
/// as it was.
pub fn combinar_hasta_estabilizar(registros: Vec<Record>) -> (r: Vec<Record>)
    ensures
        vistas_de(r@) == estabilizado(vistas_de(registros@)),
{
    let ghost inicial = vistas_de(registros@);
    let mut registros_gps = registros;
    let mut largo_n: usize = registros_gps.len();
    let mut largo_p: usize = 0;
    while largo_n != largo_p
        invariant
            largo_n == registros_gps.len(),
            largo_n != largo_p ==> estabilizado(inicial) == estabilizado(vistas_de(registros_gps@)),
            largo_n == largo_p ==> estabilizado(inicial) == vistas_de(registros_gps@),
        decreases
            largo_n + if largo_n != largo_p {
                1int
            } else {
                0int
            },
    {
        let ghost actual = vistas_de(registros_gps@);
        proof {
            lema_largo_de_pasada(actual, actual.len() as int);
        }
        largo_p = largo_n;
        registros_gps = combinar_registros(registros_gps);
        largo_n = registros_gps.len();
    }
    registros_gps
}

/// The point, the local position and the time window `a`, `b` and `c` fused
/// into one record, where they are of these kinds, in this order, and name
/// one station.
pub open spec fn fusion_de_tres(a: VistaRecord, b: VistaRecord, c: VistaRecord) -> Option<
    VistaRecord,
> {
    match (a, b, c) {
        (VistaRecord::GPS(g), VistaRecord::GS(p), VistaRecord::GT(t)) => match fusion_gps_gs(g, p) {
            Ok(v) => match fusion_gps_gt(v, t) {
                Ok(w) => Some(VistaRecord::GPS(w)),
                Err(_) => None,
            },
            Err(_) => None,
        },
        _ => None,
    }
}

/// Whether, in one pass over `rs` by threes, the record at `i` is fused with
/// the two that follow it.
pub open spec fn se_fusiona_de_tres(rs: Seq<VistaRecord>, i: int) -> bool
    decreases i,
{
    if 0 <= i < rs.len() {
        let n = rs.len() as int;
        !(i >= 1 && se_fusiona_de_tres(rs, i - 1)) && !(i >= 2 && se_fusiona_de_tres(rs, i - 2))
            && fusion_de_tres(rs[i], rs[(i + 1) % n], rs[(i + 2) % n]) is Some
    } else {
        false
    }
}

/// Whether, in one pass over `rs` by threes, the record at `i` is taken up
/// by a fusion that began one or two records before it.
pub open spec fn consumido_de_tres(rs: Seq<VistaRecord>, i: int) -> bool {
    (i >= 1 && se_fusiona_de_tres(rs, i - 1)) || (i >= 2 && se_fusiona_de_tres(rs, i - 2))
}

/// What one pass by threes has put out when it has gone over the first `k`
/// records of `rs`.
pub open spec fn pasada_de_tres(rs: Seq<VistaRecord>, k: int) -> Seq<VistaRecord>
    decreases k,
{
    if k <= 0 {
        Seq::empty()
    } else {
        let antes = pasada_de_tres(rs, k - 1);
        let i = k - 1;
        let n = rs.len() as int;
        if consumido_de_tres(rs, i) {
            antes
        } else if se_fusiona_de_tres(rs, i) {
            antes.push(fusion_de_tres(rs[i], rs[(i + 1) % n], rs[(i + 2) % n])->0)
        } else {
            antes.push(rs[i])
        }
    }
}

/// Fuses a point with the local position and the time window that follow it.
fn fusionar_tres(a: &Record, b: &Record, c: &Record) -> (r: Option<Record>)
    ensures
        vista_opcional(r) == fusion_de_tres(a@, b@, c@),
{
    match (a, b, c) {
        (Record::GPS(g), Record::GS(p), Record::GT(t)) => match g.clone().aplicar_gs(p.clone()) {
            Ok(v) => match v.aplicar_gt(t.clone()) {
                Ok(w) => Some(Record::GPS(w)),
                Err(_) => None,
            },
            Err(_) => None,
        },
        _ => None,
    }
}

/// One pass over the records that fuses each point with the local position
/// and the time window that follow it, in one step. The two fragments are
/// left out. A point whose fragments name another station stays as it is,
/// and so do its fragments.
pub fn gps_gs_gt_3(registros: Vec<Record>) -> (r: Vec<Record>)
    ensures
        vistas_de(r@) == pasada_de_tres(vistas_de(registros@), registros@.len() as int),
{
    let n = registros.len();
    let ventanas = ventanas_circulares(n);
    let ghost vs = vistas_de(registros@);
    let mut salida: Vec<Record> = Vec::new();
    let mut skip: usize = 0;
    let mut k: usize = 0;
    while k < n
        invariant
            k <= n == registros.len(),
            vs == vistas_de(registros@),
            ventanas@.len() == n,
            forall|i: int|
                0 <= i < n ==> #[trigger] ventanas@[i] == (
                    i as usize,
                    ((i + 1) % (n as int)) as usize,
                    ((i + 2) % (n as int)) as usize,
                ),
            skip <= 2,
            (skip == 2) == (k >= 1 && se_fusiona_de_tres(vs, k - 1)),
            (skip == 1) == (k >= 2 && se_fusiona_de_tres(vs, k - 2)),
            vistas_de(salida@) == pasada_de_tres(vs, k as int),
        decreases n - k,
    {
        let (i, j, l) = ventanas[k];
        if skip > 0 {
            skip -= 1;
        } else {
            let ghost antes = salida@;
            match fusionar_tres(&registros[i], &registros[j], &registros[l]) {
                Some(v) => {
                    skip = 2;
                    salida.push(v);
                    assert(vistas_de(salida@) =~= vistas_de(antes).push(v@));
                },
                None => {
                    let c = registros[i].clone();
                    salida.push(c);
                    assert(vistas_de(salida@) =~= vistas_de(antes).push(c@));
                },
            }
        }
        k += 1;
    }
    salida
}

/// Why a point was left out of the survey.
#[derive(Debug, Clone, Copy, PartialEq, Eq, Structural)]
pub enum MotivoDeSalteo {
    /// No rover antenna was in effect when the point was taken.
    SinAntena,
    /// The point was taken before the last reading of the clock.
    TiempoEnReversa,
}

/// A point that was left out of the survey: why, and when it was taken.
#[derive(Debug, Clone, Copy, PartialEq, Eq, Structural)]
pub struct Salteo {
    pub motivo: MotivoDeSalteo,
    pub inicio: Epoca,
}

/// A survey: its records, and what the consolidation has found in them.
pub struct RelevamientoGNSS {
    /// The records of the survey, fused.
    pub records: Vec<Record>,
    /// The base point and its antenna, by the instant from which they hold.
    pub bases: MapaOrdenado<Epoca, (BPRecord, ATRecord)>,
    /// The antenna of the base, by the instant from which it holds.
    pub antenas_b: MapaOrdenado<Epoca, ATRecord>,
    /// The antenna of the rover, by the instant from which it holds.
    pub antenas_r: MapaOrdenado<Epoca, ATRecord>,
    /// The surveyed points, by the instant at which their observation began.
    pub puntos: MapaOrdenado<Epoca, PuntoRelevado>,
}

/// Where the consolidation of the antennas stands: the clock, the two
/// registries, and the antenna that was last entered in each.
pub struct EstadoDeAntenas {
    pub reloj: Epoca,
    pub base: Seq<(Epoca, VistaAT)>,
    pub rover: Seq<(Epoca, VistaAT)>,
    pub ultima_base: Option<VistaAT>,
    pub ultima_rover: Option<VistaAT>,
}

/// The consolidation of the antennas after one more record. A clock reading
/// sets the clock. An antenna that differs from the last one entered for
/// its receiver is entered at the instant of the clock.
pub open spec fn paso_de_antenas(e: EstadoDeAntenas, r: VistaRecord) -> EstadoDeAntenas {
    match r {
        VistaRecord::T(t) => EstadoDeAntenas { reloj: instante_de(t), ..e },
        VistaRecord::AT(a) => match a.modo {
            Some(TipoDeReceptor::Base) => if e.ultima_base != Some(a) {
                EstadoDeAntenas {
                    base: insertado(e.base, e.reloj, a),
                    ultima_base: Some(a),
                    ..e
                }
            } else {
                e
            },
            Some(TipoDeReceptor::Rotador) => if e.ultima_rover != Some(a) {
                EstadoDeAntenas {
                    rover: insertado(e.rover, e.reloj, a),
                    ultima_rover: Some(a),
                    ..e
                }
            } else {
                e
            },
            None => e,
        },
        _ => e,
    }
}

/// The consolidation of the antennas after the first `k` records of `rs`.
pub open spec fn antenas_tras(e: EstadoDeAntenas, rs: Seq<VistaRecord>, k: int) -> EstadoDeAntenas
    decreases k,
{
    if k <= 0 {
        e
    } else {
        paso_de_antenas(antenas_tras(e, rs, k - 1), rs[k - 1])
    }
}

/// Where the consolidation of the bases stands: the clock, the registry,
/// and the base point and antenna that were last entered.
pub struct EstadoDeBases {
    pub reloj: Epoca,
    pub bases: Seq<(Epoca, (VistaBP, VistaAT))>,
    pub ultima: Option<(VistaBP, VistaAT)>,
}

/// The consolidation of the bases after one more record. A clock reading
/// sets the clock. A base point is joined with the base antenna in effect
/// at the instant of the clock; where there is one, and the pair differs
/// from the last pair entered, the pair is entered at that instant.
pub open spec fn paso_de_bases(
    antenas: Seq<(Epoca, VistaAT)>,
    e: EstadoDeBases,
    r: VistaRecord,
) -> EstadoDeBases {
    match r {
        VistaRecord::T(t) => EstadoDeBases { reloj: instante_de(t), ..e },
        VistaRecord::BP(bp) => match vigente_en(antenas, e.reloj) {
            Some((_, antena)) => if e.ultima != Some((bp, antena)) {
                EstadoDeBases {
                    bases: insertado(e.bases, e.reloj, (bp, antena)),
                    ultima: Some((bp, antena)),
                    ..e
                }
            } else {
                e
            },
            None => e,
        },
        _ => e,
    }
}

/// The consolidation of the bases after the first `k` records of `rs`.
pub open spec fn bases_tras(
    antenas: Seq<(Epoca, VistaAT)>,
    e: EstadoDeBases,
    rs: Seq<VistaRecord>,
    k: int,
) -> EstadoDeBases
    decreases k,
{
    if k <= 0 {
        e
    } else {
        paso_de_bases(antenas, bases_tras(antenas, e, rs, k - 1), rs[k - 1])
    }
}

/// Where the consolidation of the points stands: the clock, the points, and
/// the points that were left out.
pub struct EstadoDePuntos {
    pub reloj: Epoca,
    pub puntos: Seq<(Epoca, VistaPunto)>,
    pub informe: Seq<Salteo>,
}

/// The instant at which the observation of `g` began: that of its time
/// window, or the instant of the clock where it has none.
pub open spec fn inicio_de(g: VistaGPS, reloj: Epoca) -> Epoca {
    match g.start_time {
        Some(s) => s,
        None => reloj,
    }
}

/// The survey point made of the point reading `g`, taken from `inicio` on
/// with the antenna `a`, where `g` has its local position and the end of its
/// time window.
pub open spec fn punto_de(g: VistaGPS, inicio: Epoca, a: VistaAT) -> Option<VistaPunto> {
    match (g.north, g.east, g.end_time) {
        (Some(n), Some(e), Some(fin)) => Some(
            VistaPunto {
                station_id: g.occupy_point,
                latitude: g.latitude,
                longitude: g.longitude,
                elevation: g.elevation,
                north: n,
                east: e,
                start_time: inicio,
                end_time: fin,
                antenna: a,
            },
        ),
        _ => None,
    }
}

/// The consolidation of the points after one more record. A clock reading
/// sets the clock. A point reading is joined with the rover antenna in
/// effect when its observation began. It is left out, and reported, where
/// there is no such antenna, or where it began before the instant of the
/// clock. It is left out in silence where it lacks a fragment. Otherwise it
/// is entered at the instant at which it began.
pub open spec fn paso_de_puntos(
    antenas: Seq<(Epoca, VistaAT)>,
    e: EstadoDePuntos,
    r: VistaRecord,
) -> EstadoDePuntos {
    match r {
        VistaRecord::T(t) => EstadoDePuntos { reloj: instante_de(t), ..e },
        VistaRecord::GPS(g) => {
            let inicio = inicio_de(g, e.reloj);
            match vigente_en(antenas, inicio) {
                None => EstadoDePuntos {
                    informe: e.informe.push(Salteo { motivo: MotivoDeSalteo::SinAntena, inicio }),
                    ..e
                },
                Some((_, a)) => if inicio < e.reloj {
                    EstadoDePuntos {
                        informe: e.informe.push(
                            Salteo { motivo: MotivoDeSalteo::TiempoEnReversa, inicio },
                        ),
                        ..e
                    }
                } else {
                    match punto_de(g, inicio, a) {
                        Some(p) => EstadoDePuntos { puntos: insertado(e.puntos, inicio, p), ..e },
                        None => e,
                    }
                },
            }
        },
        _ => e,
    }
}

/// The consolidation of the points after the first `k` records of `rs`.
pub open spec fn puntos_tras(
    antenas: Seq<(Epoca, VistaAT)>,
    e: EstadoDePuntos,
    rs: Seq<VistaRecord>,
    k: int,
) -> EstadoDePuntos
    decreases k,
{
    if k <= 0 {
        e
    } else {
        paso_de_puntos(antenas, puntos_tras(antenas, e, rs, k - 1), rs[k - 1])
    }
}

/// The events of the first `k` points of `puntos`, entered into `eventos`:
/// for each point, in turn, the start of its occupation at the instant at
/// which it begins and the end of it at the instant at which it ends.
pub open spec fn eventos_tras(
    eventos: Seq<(ClaveDeEvento, VistaEvento)>,
    puntos: Seq<(Epoca, VistaPunto)>,
    k: int,
) -> Seq<(ClaveDeEvento, VistaEvento)>
    decreases k,
{
    if k <= 0 {
        eventos
    } else {
        let p = puntos[k - 1].1;
        insertado(
            insertado(
                eventos_tras(eventos, puntos, k - 1),
                ClaveDeEvento { epoca: p.start_time, tipo: TipoDeEvento::InicioDeOcupacion },
                evento_de_inicio(p),
            ),
            ClaveDeEvento { epoca: p.end_time, tipo: TipoDeEvento::FinDeOcupacion },
            evento_de_fin(),
        )
    }
}

/// The view of an antenna that may be absent.
pub open spec fn vista_de_antena(a: Option<ATRecord>) -> Option<VistaAT> {
    match a {
        Some(v) => Some(v@),
        None => None,
    }
}

/// The view of a base point and its antenna that may be absent.
pub open spec fn vista_de_base(b: Option<(BPRecord, ATRecord)>) -> Option<(VistaBP, VistaAT)> {
    match b {
        Some(v) => Some((v.0@, v.1@)),
        None => None,
    }
}

/// Makes the survey point of a point reading that has all its fragments.
fn ensamblar(g: &GPSRecord, inicio: Epoca, a: &ATRecord) -> (r: Option<PuntoRelevado>)
    ensures
        match r {
            Some(p) => punto_de(g@, inicio, a@) == Some(p@),
            None => punto_de(g@, inicio, a@) is None,
        },
{
    match (g.north, g.east, g.end_time) {
        (Some(n), Some(e), Some(fin)) => Some(
            PuntoRelevado {
                station_id: g.occupy_point.clone(),
                latitude: g.latitude,
                longitude: g.longitude,
                elevation: g.elevation,
                north: n,
                east: e,
                start_time: inicio,
                end_time: fin,
                antenna: a.clone(),
            },
        ),
        _ => None,
    }
}

impl Default for RelevamientoGNSS {
    fn default() -> (r: Self)
        ensures
            r.records@.len() == 0,
            r.bases@.len() == 0,
            r.antenas_b@.len() == 0,
            r.antenas_r@.len() == 0,
            r.puntos@.len() == 0,
    {
        RelevamientoGNSS {
            records: Vec::new(),
            bases: MapaOrdenado::new(),
            antenas_b: MapaOrdenado::new(),
            antenas_r: MapaOrdenado::new(),
            puntos: MapaOrdenado::new(),
        }
    }
}

impl RelevamientoGNSS {
    /// A survey of the given records, with nothing consolidated yet.
    pub fn new(records: &Vec<Record>) -> (r: RelevamientoGNSS)
        ensures
            r.records@ == records@,
            r.bases@.len() == 0,
            r.antenas_b@.len() == 0,
            r.antenas_r@.len() == 0,
            r.puntos@.len() == 0,
    {
        let mut rs: Vec<Record> = Vec::new();
        let mut i: usize = 0;
        while i < records.len()
            invariant
                i <= records.len(),
                rs@ == records@.take(i as int),
            decreases records.len() - i,
        {
            rs.push(records[i].clone());
            assert(records@.take(i + 1) =~= records@.take(i as int).push(records@[i as int]));
            i += 1;
        }
        assert(records@.take(records.len() as int) =~= records@);
        RelevamientoGNSS {
            records: rs,
            bases: MapaOrdenado::new(),
            antenas_b: MapaOrdenado::new(),
            antenas_r: MapaOrdenado::new(),
            puntos: MapaOrdenado::new(),
        }
    }

    /// Goes over the records once and enters each antenna into the registry
    /// of its receiver, at the instant that the clock showed, whenever it
    /// differs from the antenna entered last. Hands back the survey.
    pub fn consolidar_antenas(&mut self) -> (r: &Self)
        ensures
            *r == *final(self),
            final(self).records == old(self).records,
            final(self).bases == old(self).bases,
            final(self).puntos == old(self).puntos,
            ({
                let fin = antenas_tras(
                    EstadoDeAntenas {
                        reloj: ORIGEN_GPST,
                        base: vistas_de_entradas(old(self).antenas_b@),
                        rover: vistas_de_entradas(old(self).antenas_r@),
                        ultima_base: None,
                        ultima_rover: None,
                    },
                    vistas_de(old(self).records@),
                    old(self).records@.len() as int,
                );
                &&& vistas_de_entradas(final(self).antenas_b@) == fin.base
                &&& vistas_de_entradas(final(self).antenas_r@) == fin.rover
            }),
    {
        let ghost inicio = EstadoDeAntenas {
            reloj: ORIGEN_GPST,
            base: vistas_de_entradas(self.antenas_b@),
            rover: vistas_de_entradas(self.antenas_r@),
            ultima_base: None,
            ultima_rover: None,
        };
        let ghost vs = vistas_de(self.records@);
        let mut antena_b: Option<ATRecord> = None;
        let mut antena_r: Option<ATRecord> = None;
        let mut reloj: Epoca = epoca_cero();
        let n = self.records.len();
        let mut i: usize = 0;
        while i < n
            invariant
                i <= n == self.records.len(),
                self.records == old(self).records,
                self.bases == old(self).bases,
                self.puntos == old(self).puntos,
                vs == vistas_de(self.records@),
                antenas_tras(inicio, vs, i as int) == (EstadoDeAntenas {
                    reloj,
                    base: vistas_de_entradas(self.antenas_b@),
                    rover: vistas_de_entradas(self.antenas_r@),
                    ultima_base: vista_de_antena(antena_b),
                    ultima_rover: vista_de_antena(antena_r),
                }),
            decreases n - i,
        {
            let r = self.records[i].clone();
            assert(vs[i as int] == r@);
            match r {
                Record::T(rr) => {
                    reloj = rr.get_epoch();
                },
                Record::AT(rr) => {
                    match rr.modo {
                        Some(TipoDeReceptor::Base) => {
                            let distinta = match &antena_b {
                                Some(u) => !rr.igual(u),
                                None => true,
                            };
                            if distinta {
                                proof {
                                    lema_vistas_de_insertado(self.antenas_b@, reloj, rr);
                                }
                                self.antenas_b.insert(reloj, rr.clone());
                                antena_b = Some(rr);
                            }
                        },
                        Some(TipoDeReceptor::Rotador) => {
                            let distinta = match &antena_r {
                                Some(u) => !rr.igual(u),
                                None => true,
                            };
                            if distinta {
                                proof {
                                    lema_vistas_de_insertado(self.antenas_r@, reloj, rr);
                                }
                                self.antenas_r.insert(reloj, rr.clone());
                                antena_r = Some(rr);
                            }
                        },
                        None => {},
                    }
                },
                _ => {},
            }
            i += 1;
        }
        self
    }

    /// Goes over the records once and joins each base point with the base
    /// antenna in effect at the instant that the clock showed. The pair is
    /// entered at that instant whenever it differs from the pair entered
    /// last. A base point without an antenna in effect is passed over.
    /// Hands back the survey.
    pub fn consolidar_bases(&mut self) -> (r: &Self)
        ensures
            *r == *final(self),
            final(self).records == old(self).records,
            final(self).antenas_b == old(self).antenas_b,
            final(self).antenas_r == old(self).antenas_r,
            final(self).puntos == old(self).puntos,
            vistas_de_entradas(final(self).bases@) == bases_tras(
                vistas_de_entradas(old(self).antenas_b@),
                EstadoDeBases {
                    reloj: ORIGEN_GPST,
                    bases: vistas_de_entradas(old(self).bases@),
                    ultima: None,
                },
                vistas_de(old(self).records@),
                old(self).records@.len() as int,
            ).bases,
    {
        let ghost inicio = EstadoDeBases {
            reloj: ORIGEN_GPST,
            bases: vistas_de_entradas(self.bases@),
            ultima: None,
        };
        let ghost vs = vistas_de(self.records@);
        let ghost antenas = vistas_de_entradas(self.antenas_b@);
        let mut ultima: Option<(BPRecord, ATRecord)> = None;
        let mut reloj: Epoca = epoca_cero();
        let n = self.records.len();
        let mut i: usize = 0;
        while i < n
            invariant
                i <= n == self.records.len(),
                self.records == old(self).records,
                self.antenas_b == old(self).antenas_b,
                self.antenas_r == old(self).antenas_r,
                self.puntos == old(self).puntos,
                vs == vistas_de(self.records@),
                antenas == vistas_de_entradas(self.antenas_b@),
                bases_tras(antenas, inicio, vs, i as int) == (EstadoDeBases {
                    reloj,
                    bases: vistas_de_entradas(self.bases@),
                    ultima: vista_de_base(ultima),
                }),
            decreases n - i,
        {
            let r = self.records[i].clone();
            assert(vs[i as int] == r@);
            match r {
                Record::T(rr) => {
                    reloj = rr.get_epoch();
                },
                Record::BP(bp) => {
                    proof {
                        lema_vistas_de_vigente(self.antenas_b@, reloj);
                    }
                    match self.antenas_b.vigente(&reloj) {
                        Some(entrada) => {
                            let antena = entrada.1.clone();
                            let distinta = match &ultima {
                                Some(u) => !bp.igual(&u.0) || !antena.igual(&u.1),
                                None => true,
                            };
                            if distinta {
                                proof {
                                    lema_vistas_de_insertado(self.bases@, reloj, (bp, antena));
                                }
                                self.bases.insert(reloj, (bp.clone(), antena.clone()));
                                ultima = Some((bp, antena));
                            }
                        },
                        None => {},
                    }
                },
                _ => {},
            }
            i += 1;
        }
        self
    }

    /// Goes over the records once and joins each point reading with the
    /// rover antenna in effect when its observation began. Hands back the
    /// points that were left out for want of an antenna or because they
    /// were taken before the instant that the clock showed.
    pub fn consolidar_puntos(&mut self) -> (informe: Vec<Salteo>)
        ensures
            final(self).records == old(self).records,
            final(self).antenas_b == old(self).antenas_b,
            final(self).antenas_r == old(self).antenas_r,
            final(self).bases == old(self).bases,
            ({
                let fin = puntos_tras(
                    vistas_de_entradas(old(self).antenas_r@),
                    EstadoDePuntos {
                        reloj: ORIGEN_GPST,
                        puntos: vistas_de_entradas(old(self).puntos@),
                        informe: Seq::empty(),
                    },
                    vistas_de(old(self).records@),
                    old(self).records@.len() as int,
                );
                &&& vistas_de_entradas(final(self).puntos@) == fin.puntos
                &&& informe@ == fin.informe
            }),
    {
        let ghost inicio = EstadoDePuntos {
            reloj: ORIGEN_GPST,
            puntos: vistas_de_entradas(self.puntos@),
            informe: Seq::empty(),
        };
        let ghost vs = vistas_de(self.records@);
        let ghost antenas = vistas_de_entradas(self.antenas_r@);
        let mut informe: Vec<Salteo> = Vec::new();
        let mut reloj: Epoca = epoca_cero();
        let n = self.records.len();
        let mut i: usize = 0;
        while i < n
            invariant
                i <= n == self.records.len(),
                self.records == old(self).records,
                self.antenas_b == old(self).antenas_b,
                self.antenas_r == old(self).antenas_r,
                self.bases == old(self).bases,
                vs == vistas_de(self.records@),
                antenas == vistas_de_entradas(self.antenas_r@),
                puntos_tras(antenas, inicio, vs, i as int) == (EstadoDePuntos {
                    reloj,
                    puntos: vistas_de_entradas(self.puntos@),
                    informe: informe@,
                }),
            decreases n - i,
        {
            let r = self.records[i].clone();
            assert(vs[i as int] == r@);
            match r {
                Record::T(rr) => {
                    reloj = rr.get_epoch();
                },
                Record::GPS(gps) => {
                    let start_time = match gps.start_time {
                        Some(s) => s,
                        None => reloj,
                    };
                    proof {
                        lema_vistas_de_vigente(self.antenas_r@, start_time);
                    }
                    match self.antenas_r.vigente(&start_time) {
                        None => {
                            informe.push(
                                Salteo { motivo: MotivoDeSalteo::SinAntena, inicio: start_time },
                            );
                        },
                        Some(entrada) => {
                            if start_time < reloj {
                                informe.push(
                                    Salteo {
                                        motivo: MotivoDeSalteo::TiempoEnReversa,
                                        inicio: start_time,
                                    },
                                );
                            } else {
                                match ensamblar(&gps, start_time, &entrada.1) {
                                    Some(p) => {
                                        proof {
                                            lema_vistas_de_insertado(self.puntos@, start_time, p);
                                        }
                                        self.puntos.insert(start_time, p);
                                    },
                                    None => {},
                                }
                            }
                        },
                    }
                },
                _ => {},
            }
            i += 1;
        }
        informe
    }

    /// The events that mark the start and the end of the occupation of each
    /// surveyed point, by instant and kind. Of two events with one key, the
    /// one of the later point stays.
    pub fn puntos_a_eventos(&self) -> (eventos: MapaOrdenado<ClaveDeEvento, Evento>)
        ensures
            vistas_de_entradas(eventos@) == eventos_tras(
                Seq::empty(),
                vistas_de_entradas(self.puntos@),
                self.puntos@.len() as int,
            ),
    {
        let mut eventos: MapaOrdenado<ClaveDeEvento, Evento> = MapaOrdenado::new();
        let ghost puntos = vistas_de_entradas(self.puntos@);
        let n = self.puntos.len();
        let mut i: usize = 0;
        assert(vistas_de_entradas(eventos@) =~= Seq::empty());
        while i < n
            invariant
                i <= n == self.puntos@.len(),
                puntos == vistas_de_entradas(self.puntos@),
                vistas_de_entradas(eventos@) == eventos_tras(Seq::empty(), puntos, i as int),
            decreases n - i,
        {
            let p = &self.puntos.entrada(i).1;
            assert(puntos[i as int].1 == p@);
            let inicio = Evento::de_inicio(p);
            let clave_de_inicio = ClaveDeEvento {
                epoca: p.start_time,
                tipo: TipoDeEvento::InicioDeOcupacion,
            };
            proof {
                lema_vistas_de_insertado(eventos@, clave_de_inicio, inicio);
            }
            eventos.insert(clave_de_inicio, inicio);
            let fin = Evento::de_fin();
            let clave_de_fin = ClaveDeEvento {
                epoca: p.end_time,
                tipo: TipoDeEvento::FinDeOcupacion,
            };
            proof {
                lema_vistas_de_insertado(eventos@, clave_de_fin, fin);
            }
            eventos.insert(clave_de_fin, fin);
            i += 1;
        }
        eventos
    }
}

/// The antennas of the records `rs`, consolidated from empty registries.
pub open spec fn antenas_de(rs: Seq<VistaRecord>) -> EstadoDeAntenas {
    antenas_tras(
        EstadoDeAntenas {
            reloj: ORIGEN_GPST,
            base: Seq::empty(),
            rover: Seq::empty(),
            ultima_base: None,
            ultima_rover: None,
        },
        rs,
        rs.len() as int,
    )
}

/// The bases of the records `rs`, consolidated after their antennas.
pub open spec fn bases_de(rs: Seq<VistaRecord>) -> EstadoDeBases {
    bases_tras(
        antenas_de(rs).base,
        EstadoDeBases { reloj: ORIGEN_GPST, bases: Seq::empty(), ultima: None },
        rs,
        rs.len() as int,
    )
}

/// The points of the records `rs`, consolidated after their antennas.
pub open spec fn puntos_de(rs: Seq<VistaRecord>) -> EstadoDePuntos {
    puntos_tras(
        antenas_de(rs).rover,
        EstadoDePuntos { reloj: ORIGEN_GPST, puntos: Seq::empty(), informe: Seq::empty() },
        rs,
        rs.len() as int,
    )
}

/// The events of the points of the records `rs`.
pub open spec fn eventos_de(rs: Seq<VistaRecord>) -> Seq<(ClaveDeEvento, VistaEvento)> {
    eventos_tras(Seq::empty(), puntos_de(rs).puntos, puntos_de(rs).puntos.len() as int)
}

/// Consolidates the antennas, the bases and the points of the records, in
/// this order, and hands back the events of the points together with the
/// points that were left out and why.
pub fn consolidar_y_proyectar(registros_gps: Vec<Record>) -> (r: (
    MapaOrdenado<ClaveDeEvento, Evento>,
    Vec<Salteo>,
))
    ensures
        vistas_de_entradas(r.0@) == eventos_de(vistas_de(registros_gps@)),
        r.1@ == puntos_de(vistas_de(registros_gps@)).informe,
{
    let mut rel = RelevamientoGNSS::new(&registros_gps);
    assert(vistas_de_entradas(rel.antenas_b@) =~= Seq::empty());
    assert(vistas_de_entradas(rel.antenas_r@) =~= Seq::empty());
    assert(vistas_de_entradas(rel.bases@) =~= Seq::empty());
    assert(vistas_de_entradas(rel.puntos@) =~= Seq::empty());
    rel.consolidar_antenas();
    rel.consolidar_bases();
    let informe = rel.consolidar_puntos();
    (rel.puntos_a_eventos(), informe)
}

/// Consolidates the antennas, the bases and the points of the records, in
/// this order, and hands back the events of the points.
pub fn registros_a_eventos(registros_gps: Vec<Record>) -> (eventos: MapaOrdenado<
    ClaveDeEvento,
    Evento,
>)
    ensures
        vistas_de_entradas(eventos@) == eventos_de(vistas_de(registros_gps@)),
{
    consolidar_y_proyectar(registros_gps).0
}

} // verus!
