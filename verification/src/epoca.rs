//! Instants of time, counted in nanoseconds of TAI since the first of
//! January 1900 at midnight, which is how `hifitime` counts them.

use vstd::prelude::*;
use rinex::prelude::{Duration, Epoch};

verus! {

/// An instant: nanoseconds of TAI since 1900-01-01 00:00:00.
pub type Epoca = i128;

/// The nanoseconds of one day.
pub const NANOS_POR_DIA: i128 = 86_400_000_000_000;

/// The nanoseconds of one millisecond.
pub const NANOS_POR_MILISEGUNDO: i128 = 1_000_000;

/// The instant at which GPS time starts, 1980-01-06 00:00:19 TAI.
pub const ORIGEN_GPST: i128 = 2_524_953_619_000_000_000;

/// The longest stretch of GPS time, in nanoseconds and to either side of
/// its origin, that is turned into an instant.
pub const ALCANCE_GPST: i128 = 10_000_000_000_000_000_000_000;

/// The first year of the calendar whose dates are turned into instants.
pub const ANIO_MINIMO: i32 = -100_000;

/// The last year of the calendar whose dates are turned into instants.
pub const ANIO_MAXIMO: i32 = 100_000;

/// The instant that `Epoch::maybe_from_gregorian_tai` of `hifitime` gives to
/// a calendar date and a time of day read as TAI, or `None` where it
/// refuses them.
pub uninterp spec fn tai_gregoriano(
    anio: i32,
    mes: u8,
    dia: u8,
    hora: u8,
    minuto: u8,
    segundo: u8,
) -> Option<i128>;

/// Calls `Epoch::maybe_from_gregorian_tai` of `hifitime` with no nanoseconds
/// and hands back the instant as `Epoch::to_tai_duration` and
/// `Duration::total_nanoseconds` count it. Nothing is claimed of the value
/// but that it depends on the six numbers alone. For the last minute of a
/// year `hifitime` adds one to the year before it tests it, and it counts
/// the leap days year by year, so `requires` keeps the year within a range
/// in which that addition cannot overflow and the count stays far from the
/// ends of a duration.
#[verifier::external_body]
pub(crate) fn epoca_gregoriana(anio: i32, mes: u8, dia: u8, hora: u8, minuto: u8, segundo: u8) -> (r:
    Option<i128>)
    requires
        ANIO_MINIMO <= anio <= ANIO_MAXIMO,
    ensures
        r == tai_gregoriano(anio, mes, dia, hora, minuto, segundo),
{
    match Epoch::maybe_from_gregorian_tai(anio, mes, dia, hora, minuto, segundo, 0) {
        Ok(e) => Some(e.to_tai_duration().total_nanoseconds()),
        Err(_) => None,
    }
}

/// The instant that a calendar date and a time of day name when they are
/// read as TAI. A year outside the range of the calendar names none, and
/// neither does a date or a time that `hifitime` refuses.
pub open spec fn instante_gregoriano(
    anio: i32,
    mes: u8,
    dia: u8,
    hora: u8,
    minuto: u8,
    segundo: u8,
) -> Option<i128> {
    if ANIO_MINIMO <= anio <= ANIO_MAXIMO {
        tai_gregoriano(anio, mes, dia, hora, minuto, segundo)
    } else {
        None
    }
}

/// The instant that a calendar date and a time of day name when they are
/// read as TAI.
pub fn epoca_de_fecha(anio: i32, mes: u8, dia: u8, hora: u8, minuto: u8, segundo: u8) -> (r: Option<
    Epoca,
>)
    ensures
        r == instante_gregoriano(anio, mes, dia, hora, minuto, segundo),
{
    if ANIO_MINIMO <= anio && anio <= ANIO_MAXIMO {
        epoca_gregoriana(anio, mes, dia, hora, minuto, segundo)
    } else {
        None
    }
}

/// Calls `Epoch::from_gpst_duration` of `hifitime` on a duration of `nanos`
/// nanoseconds and hands back the instant in TAI. `hifitime` adds the TAI
/// duration of its GPS reference epoch, and does so exactly as long as the
/// sum stays far from the ends of its range, which `requires` sees to.
#[verifier::external_body]
pub(crate) fn epoca_gpst(nanos: i128) -> (r: i128)
    requires
        -ALCANCE_GPST <= nanos <= ALCANCE_GPST,
    ensures
        r == nanos + ORIGEN_GPST,
{
    Epoch::from_gpst_duration(Duration::from_total_nanoseconds(nanos)).to_tai_duration().total_nanoseconds()
}

/// The instant that lies `milisegundos` milliseconds after the start of the
/// GPS week `semana`, when it is within reach.
pub open spec fn instante_gps(semana: int, milisegundos: int) -> Option<i128> {
    let nanos = semana * 7 * NANOS_POR_DIA + milisegundos * NANOS_POR_MILISEGUNDO;
    if -ALCANCE_GPST <= nanos <= ALCANCE_GPST {
        Some((nanos + ORIGEN_GPST) as i128)
    } else {
        None
    }
}

/// The instant given by a GPS week and the milliseconds into it.
pub fn epoca_de_semana_gps(semana: i64, milisegundos: i64) -> (r: Option<Epoca>)
    ensures
        r == instante_gps(semana as int, milisegundos as int),
{
    let dias: i128 = semana as i128 * 7;
    let nanos: i128 = dias * NANOS_POR_DIA + milisegundos as i128 * NANOS_POR_MILISEGUNDO;
    if -ALCANCE_GPST <= nanos && nanos <= ALCANCE_GPST {
        Some(epoca_gpst(nanos))
    } else {
        None
    }
}

/// The instant that stands for "no clock seen yet": the origin of GPS time.
pub fn epoca_cero() -> (r: Epoca)
    ensures
        r == ORIGEN_GPST,
{
    epoca_gpst(0)
}

} // verus!
