//! The ways in which reading a line or fusing two records can fail.

use vstd::prelude::*;
use vstd::string::StringExecFns;

verus! {

/// The kinds of line that the readers know, named after the token that
/// opens the line.
#[derive(Debug, Clone, Copy, PartialEq, Eq, Structural)]
pub enum TipoDeLinea {
    /// `GPS`: a point reading.
    GPS,
    /// `--GS`: the local grid position of a point.
    GS,
    /// `--GT`: the time window of an observation.
    GT,
    /// `BP`: a base point reading.
    BP,
    /// `--Entered Rover HR` or `--Entered Base HR`: an entered antenna height.
    EH,
    /// `--Antenna Type`: an antenna description.
    AT,
    /// `LS` with a rod height.
    LS,
    /// `--DT` or `--TM`: a date or a time of day.
    T,
    /// `JB`: the job.
    JB,
    /// `MO`: the mode setup.
    MO,
    /// `SP`: a stored point.
    SP,
    /// `OC`: an occupied point.
    OC,
    /// `OF`: an off-centre shot.
    OF,
    /// `BK`: a backsight.
    BK,
    /// `LS` with an instrument height.
    LineaDeVista,
    /// `TR`, `SS`, `BD`, `BR`, `FD` or `FR`: a traverse shot.
    TR,
    /// `--`: a label.
    Etiqueta,
}

/// An error that names the field it was found in.
#[derive(Debug, PartialEq, Eq)]
pub struct CustomError {
    pub message: String,
    pub field: String,
}

/// What a `CustomError` holds, with its texts as sequences of characters.
pub struct VistaCustomError {
    pub message: Seq<char>,
    pub field: Seq<char>,
}

impl View for CustomError {
    type V = VistaCustomError;

    open spec fn view(&self) -> VistaCustomError {
        VistaCustomError { message: self.message@, field: self.field@ }
    }
}

impl Clone for CustomError {
    fn clone(&self) -> (r: Self)
        ensures
            r == *self,
    {
        CustomError { message: self.message.clone(), field: self.field.clone() }
    }
}

impl CustomError {
    /// An error with the given message about the given field.
    pub fn new(message: &str, field: &str) -> (e: Self)
        ensures
            e.message@ == message@,
            e.field@ == field@,
    {
        CustomError { message: String::from_str(message), field: String::from_str(field) }
    }

    /// The error as one line of text.
    pub fn to_string(&self) -> (s: String)
        ensures
            s@ == "Error: "@ + self.message@ + ". Field: "@ + self.field@,
    {
        let mut s = String::from_str("Error: ");
        s.append(self.message.as_str());
        s.append(". Field: ");
        s.append(self.field.as_str());
        s
    }
}

/// Why a line could not be read as a record.
#[derive(Debug, PartialEq, Eq)]
pub enum ParseError {
    /// The line is empty.
    LineaVacia,
    /// The token that opens the line names no known kind of record.
    TipoDesconocido,
    /// The line has the wrong number of fields for its kind.
    Estructura(TipoDeLinea),
    /// The line is not made of two parts with one colon between them.
    Partes(TipoDeLinea),
    /// A field of the line does not hold a value of the type expected there.
    Valor(TipoDeLinea),
    /// A field of a traverse shot opens with a code that is not an option.
    Opcion(CustomError),
}

/// What a `ParseError` holds, with its texts as sequences of characters.
pub enum VistaParseError {
    LineaVacia,
    TipoDesconocido,
    Estructura(TipoDeLinea),
    Partes(TipoDeLinea),
    Valor(TipoDeLinea),
    Opcion(VistaCustomError),
}

impl View for ParseError {
    type V = VistaParseError;

    open spec fn view(&self) -> VistaParseError {
        match self {
            ParseError::LineaVacia => VistaParseError::LineaVacia,
            ParseError::TipoDesconocido => VistaParseError::TipoDesconocido,
            ParseError::Estructura(t) => VistaParseError::Estructura(*t),
            ParseError::Partes(t) => VistaParseError::Partes(*t),
            ParseError::Valor(t) => VistaParseError::Valor(*t),
            ParseError::Opcion(e) => VistaParseError::Opcion(e@),
        }
    }
}

impl Clone for ParseError {
    fn clone(&self) -> (r: Self)
        ensures
            r == *self,
    {
        match self {
            ParseError::LineaVacia => ParseError::LineaVacia,
            ParseError::TipoDesconocido => ParseError::TipoDesconocido,
            ParseError::Estructura(t) => ParseError::Estructura(*t),
            ParseError::Partes(t) => ParseError::Partes(*t),
            ParseError::Valor(t) => ParseError::Valor(*t),
            ParseError::Opcion(e) => ParseError::Opcion(e.clone()),
        }
    }
}

/// The view of a reading: that of the record, or that of the error.
pub open spec fn vista_de<T: View>(r: Result<T, ParseError>) -> Result<T::V, VistaParseError> {
    match r {
        Ok(v) => Ok(v@),
        Err(e) => Err(e@),
    }
}

/// Why two records could not be fused.
#[derive(Debug, Clone, Copy, PartialEq, Eq, Structural)]
pub enum MergeError {
    /// The two records name different stations.
    EstacionDistinta,
    /// The two clock fragments hold different dates.
    FechasIncompatibles,
    /// The two clock fragments hold different times of day.
    HorasIncompatibles,
    /// The clock fragment holds neither a date nor a time.
    NadaQueCombinar,
    /// The clock fragment holds both a date and a time already.
    YaCombinado,
}

impl MergeError {
    /// The error in words.
    pub fn mensaje(&self) -> (s: String)
        ensures
            s@ == (match *self {
                MergeError::EstacionDistinta => "No coinciden los registros"@,
                MergeError::FechasIncompatibles => "Fechas incompatibles"@,
                MergeError::HorasIncompatibles => "Horas incompatibles"@,
                MergeError::NadaQueCombinar => "Nada que combinar"@,
                MergeError::YaCombinado => "Ya está combinado"@,
            }),
    {
        match self {
            MergeError::EstacionDistinta => String::from_str("No coinciden los registros"),
            MergeError::FechasIncompatibles => String::from_str("Fechas incompatibles"),
            MergeError::HorasIncompatibles => String::from_str("Horas incompatibles"),
            MergeError::NadaQueCombinar => String::from_str("Nada que combinar"),
            MergeError::YaCombinado => String::from_str("Ya está combinado"),
        }
    }
}

} // verus!
