//! Reading of survey logs in the RW5 line format.
//!
//! A GNSS data collector writes each observation as several lines: a point
//! with its position, its local grid coordinates and its time window; an
//! antenna with the height that was entered for it and its rod height; the
//! date and the time of day of the clock. This library reads the lines into
//! typed records (`file_parser`, `record_parser_gps`, `record_parser`),
//! fuses each record with the fragments that follow it until nothing more
//! fuses, and consolidates the survey: it works out which antenna and which
//! base were in effect when each point was taken, and hands back the points
//! in the order of time with the events that mark their occupation
//! (`post_parse_gps`, `eventos`). What holds of the fusion and of the
//! consolidation whatever the records are is proved in `leyes` and `grupos`.
//!
//! Numbers with a decimal point are held in fixed point (`decimal`) and
//! instants as nanoseconds of TAI (`epoca`). Texts are read as sequences of
//! characters (`texto`), and the registries of the consolidation are maps in
//! the order of their keys (`mapa_ordenado`).

pub mod decimal;
pub mod epoca;
pub mod errores;
pub mod eventos;
pub mod file_parser;
pub mod grupos;
pub mod leyes;
pub mod mapa_ordenado;
pub mod post_parse_gps;
pub mod record_parser;
pub mod record_parser_gps;
pub mod texto;
pub mod ventanas;

pub use crate::record_parser::parse_rw5_file;
