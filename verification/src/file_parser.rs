//! The records of a survey log as one type, and the reading of a log line
//! by line.

use vstd::prelude::*;
use crate::errores::{vista_de, ParseError, VistaParseError};
use crate::post_parse_gps::{combinar_hasta_estabilizar, estabilizado};
use crate::record_parser::{parse_dt_record, t_de_linea, TRecord};
use crate::record_parser_gps::{
    at_de_linea, bp_de_linea, eh_de_linea, gps_de_linea, gs_de_linea, gt_de_linea, ls_de_linea,
    modo_reconocible, parse_antenna_type_record, parse_bp_record, parse_entered_height_record,
    parse_gps_record, parse_gs_record, parse_gt_record, parse_ls_record, ATRecord, BPRecord,
    EHRecord, GPSRecord, GSRecord, GTRecord, LSRecord, VistaAT, VistaBP, VistaGPS, VistaGS,
    VistaGT,
};
use crate::texto::{
    cadena, campos, caracteres, dividir, es, lema_vistas, lineas, recortado, recortar,
    separar_lineas, tramo, vistas,
};

verus! {

/// One record of a GNSS survey log.
#[derive(Debug, PartialEq, Eq)]
pub enum Record {
    GPS(GPSRecord),
    GS(GSRecord),
    GT(GTRecord),
    BP(BPRecord),
    AT(ATRecord),
    EH(EHRecord),
    LS(LSRecord),
    T(TRecord),
}

/// A `Record` with its texts as sequences of characters.
pub enum VistaRecord {
    GPS(VistaGPS),
    GS(VistaGS),
    GT(VistaGT),
    BP(VistaBP),
    AT(VistaAT),
    EH(EHRecord),
    LS(LSRecord),
    T(TRecord),
}

impl View for Record {
    type V = VistaRecord;

    open spec fn view(&self) -> VistaRecord {
        match self {
            Record::GPS(r) => VistaRecord::GPS(r@),
            Record::GS(r) => VistaRecord::GS(r@),
            Record::GT(r) => VistaRecord::GT(r@),
            Record::BP(r) => VistaRecord::BP(r@),
            Record::AT(r) => VistaRecord::AT(r@),
            Record::EH(r) => VistaRecord::EH(*r),
            Record::LS(r) => VistaRecord::LS(*r),
            Record::T(r) => VistaRecord::T(*r),
        }
    }
}

impl Clone for Record {
    fn clone(&self) -> (r: Self)
        ensures
            r == *self,
    {
        match self {
            Record::GPS(r) => Record::GPS(r.clone()),
            Record::GS(r) => Record::GS(r.clone()),
            Record::GT(r) => Record::GT(r.clone()),
            Record::BP(r) => Record::BP(r.clone()),
            Record::AT(r) => Record::AT(r.clone()),
            Record::EH(r) => Record::EH(*r),
            Record::LS(r) => Record::LS(*r),
            Record::T(r) => Record::T(*r),
        }
    }
}

impl From<GPSRecord> for Record {
    fn from(r: GPSRecord) -> (v: Record) {
        Record::GPS(r)
    }
}

impl vstd::std_specs::convert::FromSpecImpl<GPSRecord> for Record {
    open spec fn obeys_from_spec() -> bool {
        true
    }

    open spec fn from_spec(r: GPSRecord) -> Record {
        Record::GPS(r)
    }
}

impl From<GSRecord> for Record {
    fn from(r: GSRecord) -> (v: Record) {
        Record::GS(r)
    }
}

impl vstd::std_specs::convert::FromSpecImpl<GSRecord> for Record {
    open spec fn obeys_from_spec() -> bool {
        true
    }

    open spec fn from_spec(r: GSRecord) -> Record {
        Record::GS(r)
    }
}

impl From<GTRecord> for Record {
    fn from(r: GTRecord) -> (v: Record) {
        Record::GT(r)
    }
}

impl vstd::std_specs::convert::FromSpecImpl<GTRecord> for Record {
    open spec fn obeys_from_spec() -> bool {
        true
    }

    open spec fn from_spec(r: GTRecord) -> Record {
        Record::GT(r)
    }
}

impl From<BPRecord> for Record {
    fn from(r: BPRecord) -> (v: Record) {
        Record::BP(r)
    }
}

impl vstd::std_specs::convert::FromSpecImpl<BPRecord> for Record {
    open spec fn obeys_from_spec() -> bool {
        true
    }

    open spec fn from_spec(r: BPRecord) -> Record {
        Record::BP(r)
    }
}

impl From<ATRecord> for Record {
    fn from(r: ATRecord) -> (v: Record) {
        Record::AT(r)
    }
}

impl vstd::std_specs::convert::FromSpecImpl<ATRecord> for Record {
    open spec fn obeys_from_spec() -> bool {
        true
    }

    open spec fn from_spec(r: ATRecord) -> Record {
        Record::AT(r)
    }
}

impl From<EHRecord> for Record {
    fn from(r: EHRecord) -> (v: Record) {
        Record::EH(r)
    }
}

impl vstd::std_specs::convert::FromSpecImpl<EHRecord> for Record {
    open spec fn obeys_from_spec() -> bool {
        true
    }

    open spec fn from_spec(r: EHRecord) -> Record {
        Record::EH(r)
    }
}

impl From<LSRecord> for Record {
    fn from(r: LSRecord) -> (v: Record) {
        Record::LS(r)
    }
}

impl vstd::std_specs::convert::FromSpecImpl<LSRecord> for Record {
    open spec fn obeys_from_spec() -> bool {
        true
    }

    open spec fn from_spec(r: LSRecord) -> Record {
        Record::LS(r)
    }
}

impl From<TRecord> for Record {
    fn from(r: TRecord) -> (v: Record) {
        Record::T(r)
    }
}

impl vstd::std_specs::convert::FromSpecImpl<TRecord> for Record {
    open spec fn obeys_from_spec() -> bool {
        true
    }

    open spec fn from_spec(r: TRecord) -> Record {
        Record::T(r)
    }
}

/// The views of a sequence of records.
pub open spec fn vistas_de(rs: Seq<Record>) -> Seq<VistaRecord> {
    rs.map_values(|r: Record| r@)
}

/// The token that opens a line of a GNSS survey: what comes before its
/// first comma or colon, without white space around it.
pub open spec fn tipo_de_linea(linea: Seq<char>) -> Seq<char> {
    recortar(campos(campos(linea, ',')[0], ':')[0])
}

/// Whether `t` opens the line of an entered height.
pub open spec fn es_altura_ingresada(t: Seq<char>) -> bool {
    t == "--Entered Rover HR"@ || t == "--Entered Base HR"@
}

/// Whether `t` opens the line of a date or of a time of day.
pub open spec fn es_reloj(t: Seq<char>) -> bool {
    t.len() >= 4 && (t.subrange(0, 4) == "--DT"@ || t.subrange(0, 4) == "--TM"@)
}

/// Whether `linea` may be handed to the readers: where it opens as an
/// entered height, it names a receiver that is known.
pub open spec fn linea_admisible(linea: Seq<char>) -> bool {
    es_altura_ingresada(tipo_de_linea(linea)) ==> modo_reconocible(linea)
}

/// The record that a line of a GNSS survey writes, as the reader for the
/// token that opens the line reads it.
pub open spec fn registro_de_linea(linea: Seq<char>) -> Result<VistaRecord, VistaParseError> {
    let t = tipo_de_linea(linea);
    if linea.len() == 0 {
        Err(VistaParseError::LineaVacia)
    } else if t == "GPS"@ {
        match gps_de_linea(linea) {
            Ok(v) => Ok(VistaRecord::GPS(v)),
            Err(e) => Err(e),
        }
    } else if t == "--GS"@ {
        match gs_de_linea(linea) {
            Ok(v) => Ok(VistaRecord::GS(v)),
            Err(e) => Err(e),
        }
    } else if t == "--GT"@ {
        match gt_de_linea(linea) {
            Ok(v) => Ok(VistaRecord::GT(v)),
            Err(e) => Err(e),
        }
    } else if t == "BP"@ {
        match bp_de_linea(linea) {
            Ok(v) => Ok(VistaRecord::BP(v)),
            Err(e) => Err(e),
        }
    } else if es_altura_ingresada(t) {
        match eh_de_linea(linea) {
            Ok(v) => Ok(VistaRecord::EH(v)),
            Err(e) => Err(e),
        }
    } else if t == "--Antenna Type"@ {
        match at_de_linea(linea) {
            Ok(v) => Ok(VistaRecord::AT(v)),
            Err(e) => Err(e),
        }
    } else if t == "LS"@ {
        match ls_de_linea(linea) {
            Ok(v) => Ok(VistaRecord::LS(v)),
            Err(e) => Err(e),
        }
    } else if es_reloj(t) {
        match t_de_linea(linea) {
            Ok(v) => Ok(VistaRecord::T(v)),
            Err(e) => Err(e),
        }
    } else {
        Err(VistaParseError::TipoDesconocido)
    }
}

/// Whether `linea` may be handed to the readers.
pub fn es_linea_admisible(line: &str) -> (b: bool)
    ensures
        b == linea_admisible(line@),
{
    let record_type = leer_tipo_de_linea(&caracteres(line));
    if es(&record_type, "--Entered Rover HR") || es(&record_type, "--Entered Base HR") {
        crate::record_parser_gps::modo_de_receptor_reconocible(line)
    } else {
        true
    }
}

fn leer_tipo_de_linea(l: &Vec<char>) -> (t: Vec<char>)
    ensures
        t@ == tipo_de_linea(l@),
{
    let por_comas = dividir(l, ',');
    proof {
        lema_vistas(por_comas@);
    }
    let por_puntos = dividir(&por_comas[0], ':');
    proof {
        lema_vistas(por_puntos@);
    }
    recortado(&por_puntos[0])
}

impl Record {
    /// Reads one line of a GNSS survey log.
    pub fn from_line(line: &str) -> (r: Result<Self, ParseError>)
        requires
            linea_admisible(line@),
        ensures
            vista_de(r) == registro_de_linea(line@),
    {
        if line.is_empty() {
            return Err(ParseError::LineaVacia);
        }
        let record_type = leer_tipo_de_linea(&caracteres(line));
        if es(&record_type, "GPS") {
            match parse_gps_record(line) {
                Ok(v) => Ok(Record::GPS(v)),
                Err(e) => Err(e),
            }
        } else if es(&record_type, "--GS") {
            match parse_gs_record(line) {
                Ok(v) => Ok(Record::GS(v)),
                Err(e) => Err(e),
            }
        } else if es(&record_type, "--GT") {
            match parse_gt_record(line) {
                Ok(v) => Ok(Record::GT(v)),
                Err(e) => Err(e),
            }
        } else if es(&record_type, "BP") {
            match parse_bp_record(line) {
                Ok(v) => Ok(Record::BP(v)),
                Err(e) => Err(e),
            }
        } else if es(&record_type, "--Entered Rover HR") || es(&record_type, "--Entered Base HR") {
            match parse_entered_height_record(line) {
                Ok(v) => Ok(Record::EH(v)),
                Err(e) => Err(e),
            }
        } else if es(&record_type, "--Antenna Type") {
            match parse_antenna_type_record(line) {
                Ok(v) => Ok(Record::AT(v)),
                Err(e) => Err(e),
            }
        } else if es(&record_type, "LS") {
            match parse_ls_record(line) {
                Ok(v) => Ok(Record::LS(v)),
                Err(e) => Err(e),
            }
        } else if record_type.len() >= 4 {
            let cabeza = tramo(&record_type, 0, 4);
            if es(&cabeza, "--DT") || es(&cabeza, "--TM") {
                match parse_dt_record(line) {
                    Ok(v) => Ok(Record::T(v)),
                    Err(e) => Err(e),
                }
            } else {
                Err(ParseError::TipoDesconocido)
            }
        } else {
            Err(ParseError::TipoDesconocido)
        }
    }
}

/// What the reading of the lines of a log gives: the records of the lines
/// that could be read, and each line that could not with its error.
#[derive(Debug)]
pub struct ResultadoDeParseo {
    pub registros: Vec<Record>,
    pub errores: Vec<(String, ParseError)>,
}

/// The views of lines given as string slices.
pub open spec fn vistas_de_lineas(ls: Seq<&str>) -> Seq<Seq<char>> {
    ls.map_values(|l: &str| l@)
}

/// The views of lines paired with their errors.
pub open spec fn vistas_de_errores(es: Seq<(String, ParseError)>) -> Seq<
    (Seq<char>, VistaParseError),
> {
    es.map_values(|e: (String, ParseError)| (e.0@, e.1@))
}

/// The records of the first `k` of the lines `ls`, in the order of the
/// lines. A line that cannot be read gives no record.
pub open spec fn registros_de(ls: Seq<Seq<char>>, k: int) -> Seq<VistaRecord>
    decreases k,
{
    if k <= 0 {
        Seq::empty()
    } else {
        match registro_de_linea(ls[k - 1]) {
            Ok(r) => registros_de(ls, k - 1).push(r),
            Err(_) => registros_de(ls, k - 1),
        }
    }
}

/// Those of the first `k` of the lines `ls` that cannot be read, each with
/// its error, in the order of the lines.
pub open spec fn errores_de(ls: Seq<Seq<char>>, k: int) -> Seq<(Seq<char>, VistaParseError)>
    decreases k,
{
    if k <= 0 {
        Seq::empty()
    } else {
        match registro_de_linea(ls[k - 1]) {
            Ok(_) => errores_de(ls, k - 1),
            Err(e) => errores_de(ls, k - 1).push((ls[k - 1], e)),
        }
    }
}

/// Whether every one of the lines `ls` may be handed to the readers.
pub open spec fn todas_admisibles(ls: Seq<Seq<char>>) -> bool {
    forall|i: int| 0 <= i < ls.len() ==> linea_admisible(#[trigger] ls[i])
}

/// Whether every one of the lines may be handed to the readers.
pub fn son_lineas_admisibles(lineas: &Vec<&str>) -> (b: bool)
    ensures
        b == todas_admisibles(vistas_de_lineas(lineas@)),
{
    let mut i: usize = 0;
    while i < lineas.len()
        invariant
            i <= lineas.len(),
            forall|j: int| 0 <= j < i ==> linea_admisible(#[trigger] vistas_de_lineas(lineas@)[j]),
        decreases lineas.len() - i,
    {
        assert(vistas_de_lineas(lineas@)[i as int] == lineas@[i as int]@);
        if !es_linea_admisible(lineas[i]) {
            return false;
        }
        i += 1;
    }
    true
}

/// Whether every line of the text may be handed to the readers.
pub fn es_contenido_admisible(contenido: &str) -> (b: bool)
    ensures
        b == todas_admisibles(lineas(contenido@)),
{
    let ls = separar_lineas(&caracteres(contenido));
    proof {
        lema_vistas(ls@);
    }
    let mut i: usize = 0;
    while i < ls.len()
        invariant
            i <= ls.len(),
            vistas(ls@) == lineas(contenido@),
            forall|j: int| 0 <= j < i ==> linea_admisible(#[trigger] lineas(contenido@)[j]),
        decreases ls.len() - i,
    {
        let linea = cadena(&ls[i]);
        proof {
            lema_vistas(ls@);
            assert(lineas(contenido@)[i as int] == linea@);
        }
        if !es_linea_admisible(linea.as_str()) {
            return false;
        }
        i += 1;
    }
    true
}

/// Reads the lines of a GNSS survey log. A line that cannot be read does
/// not stop the reading: it is set aside with its error. The reading as a
/// whole never fails.
pub fn lineas_a_registros(lineas: Vec<&str>) -> (r: Result<ResultadoDeParseo, ParseError>)
    requires
        todas_admisibles(vistas_de_lineas(lineas@)),
    ensures
        r is Ok,
        vistas_de(r->Ok_0.registros@) == registros_de(
            vistas_de_lineas(lineas@),
            lineas@.len() as int,
        ),
        vistas_de_errores(r->Ok_0.errores@) == errores_de(
            vistas_de_lineas(lineas@),
            lineas@.len() as int,
        ),
{
    let mut errores: Vec<(String, ParseError)> = Vec::new();
    let mut registros: Vec<Record> = Vec::new();
    let ghost ls = vistas_de_lineas(lineas@);
    let n = lineas.len();
    let mut i: usize = 0;
    assert(vistas_de(registros@) =~= Seq::empty());
    assert(vistas_de_errores(errores@) =~= Seq::empty());
    while i < n
        invariant
            i <= n == lineas.len(),
            ls == vistas_de_lineas(lineas@),
            todas_admisibles(ls),
            vistas_de(registros@) == registros_de(ls, i as int),
            vistas_de_errores(errores@) == errores_de(ls, i as int),
        decreases n - i,
    {
        let linea = lineas[i];
        assert(ls[i as int] == linea@);
        let ghost antes = registros@;
        let ghost errores_antes = errores@;
        match Record::from_line(linea) {
            Ok(v) => {
                registros.push(v);
                assert(vistas_de(registros@) =~= vistas_de(antes).push(v@));
            },
            Err(e) => {
                let texto = linea.to_owned();
                errores.push((texto, e));
                assert(vistas_de_errores(errores@) =~= vistas_de_errores(errores_antes).push(
                    (linea@, e@),
                ));
            },
        }
        i += 1;
    }
    Ok(ResultadoDeParseo { registros, errores })
}

/// Reads the text of a GNSS survey log, line by line.
pub fn parsear_contenido(contenido: &str) -> (r: ResultadoDeParseo)
    requires
        todas_admisibles(lineas(contenido@)),
    ensures
        vistas_de(r.registros@) == registros_de(lineas(contenido@), lineas(contenido@).len() as int),
        vistas_de_errores(r.errores@) == errores_de(
            lineas(contenido@),
            lineas(contenido@).len() as int,
        ),
{
    let ls = separar_lineas(&caracteres(contenido));
    proof {
        lema_vistas(ls@);
    }
    let mut errores: Vec<(String, ParseError)> = Vec::new();
    let mut registros: Vec<Record> = Vec::new();
    let n = ls.len();
    let mut i: usize = 0;
    assert(vistas_de(registros@) =~= Seq::empty());
    assert(vistas_de_errores(errores@) =~= Seq::empty());
    while i < n
        invariant
            i <= n == ls.len(),
            vistas(ls@) == lineas(contenido@),
            todas_admisibles(lineas(contenido@)),
            vistas_de(registros@) == registros_de(lineas(contenido@), i as int),
            vistas_de_errores(errores@) == errores_de(lineas(contenido@), i as int),
        decreases n - i,
    {
        let linea = cadena(&ls[i]);
        proof {
            lema_vistas(ls@);
            assert(lineas(contenido@)[i as int] == linea@);
        }
        let ghost antes = registros@;
        let ghost errores_antes = errores@;
        match Record::from_line(linea.as_str()) {
            Ok(v) => {
                registros.push(v);
                assert(vistas_de(registros@) =~= vistas_de(antes).push(v@));
            },
            Err(e) => {
                errores.push((linea, e));
                assert(vistas_de_errores(errores@) =~= vistas_de_errores(errores_antes).push(
                    (linea@, e@),
                ));
            },
        }
        i += 1;
    }
    ResultadoDeParseo { registros, errores }
}

/// Reads the text of a GNSS survey log and fuses its records until no pass
/// takes a record away. The lines that cannot be read are left out.
pub fn de_archivo_a_registros(contenido: &str) -> (r: Vec<Record>)
    requires
        todas_admisibles(lineas(contenido@)),
    ensures
        vistas_de(r@) == estabilizado(
            registros_de(lineas(contenido@), lineas(contenido@).len() as int),
        ),
{
    let result = parsear_contenido(contenido);
    combinar_hasta_estabilizar(result.registros)
}

} // verus!
