use rw5_file_parser::errores::{ParseError, TipoDeLinea};
use rw5_file_parser::file_parser::{
    de_archivo_a_registros, es_contenido_admisible, es_linea_admisible, lineas_a_registros,
    parsear_contenido, son_lineas_admisibles, Record,
};

fn registro_de_un_punto(i: usize) -> String {
    let mut s = String::new();
    s.push_str("--Entered Rover HR: 0.5000 m, Altura vertical\n");
    s.push_str("--Antenna Type: [HX-CSX049A],RA0.0645m,SHMP0.0925m,L10.0260m,L20.0222m,--\n");
    s.push_str("LS,HR0.6185\n");
    s.push_str(&format!("GPS,PN{},LA-35.02154763,LN-58.26577623,EL1.244110,--esq\n", i));
    s.push_str(&format!("--GS,PN{},N 6123196.6946,E 504619.0351,EL1.2441,--esq\n", i));
    s.push_str(&format!(
        "--GT,PN{},SW2205,ST{},EW2205,ET{}\n",
        i,
        242097000 + 101000 * i,
        242107000 + 101000 * i
    ));
    s.push_str("--DT04-12-2022\n");
    s.push_str(&format!("--TM16:{:02}:{:02}\n", 15 + (i * 10) / 60 % 40, (i * 10) % 60));
    s.push_str("--Valid Readings: 10 of 10\n");
    s.push_str("--Nor Min: 6123196.6893  Max: 6123196.7030\n");
    s
}

fn registro_de_una_base(i: usize) -> String {
    let mut s = String::new();
    s.push_str("--Entered Base HR: 1.5230 m, Altura vertical\n");
    s.push_str("--Antenna Type: [HX-CSX049A],RA0.0645m,SHMP0.0925m,L10.0260m,L20.0222m,--\n");
    s.push_str(&format!(
        "BP,PNB{},LA-35.02153129,LN-58.26579176,ET1.6280,AG1.5230,PA1.6278,ATAPC,SRBASE,--\n",
        i
    ));
    s.push_str(&format!("--GS,PNB{},N 6123201.7319,E 504615.1011,EL1.6280,--Base\n", i));
    s.push_str("--DT04-11-2022\n");
    s.push_str(&format!("--TM10:{:02}:00\n", i));
    s
}

fn relevamiento(n_gps: usize, n_bp: usize) -> String {
    let mut s = String::new();
    for i in 0..n_bp {
        s.push_str(&registro_de_una_base(i));
    }
    for i in 0..n_gps {
        s.push_str(&registro_de_un_punto(i));
    }
    s
}

#[test]
fn parse_y_es_gps() {
    let linea = "GPS,PN8,LA-35.02134388,LN-58.27006705,EL0.899195,--casa1";
    let r = Record::from_line(linea);

    match r {
        Ok(Record::GPS(_)) => assert!(true),
        _ => assert!(false, "{:?}", r),
    }
}

#[test]
fn parse_y_es_gs() {
    let linea = "--GS,PN8,N 6123259.5201,E 504545.3544,EL0.8992,--casa1";
    let r = Record::from_line(linea);

    match r {
        Ok(Record::GS(_)) => assert!(true),
        _ => assert!(false, "{:?}", r),
    }
}

#[test]
fn parse_y_es_gt() {
    let linea = "--GT,PN8,SW2205,ST244149000,EW2205,ET244150000";
    let r = Record::from_line(linea);

    match r {
        Ok(Record::GT(_)) => assert!(true),
        _ => assert!(false, "{:?}", r),
    }
}

#[test]
fn test_parse_rw5_string_gps() {
    let content = "\
BP,PN0,LA-35.02153129,LN-58.26579176,ET1.6280,AG1.5230,PA1.6278,ATAPC,SRBASE,--
--GS,PN0,N 6123201.7319,E 504615.1011,EL1.6280,--Base
--Entered Rover HR: 0.5000 m, Altura vertical
--Antenna Type: [HX-CSX049A],RA0.0645m,SHMP0.0925m,L10.0260m,L20.0222m,--
LS,HR0.6185
GPS,PN1,LA-35.02154763,LN-58.26577623,EL1.244110,--esq
--GS,PN1,N 6123196.6946,E 504619.0351,EL1.2441,--esq
--GT,PN1,SW2205,ST242097000,EW2205,ET242107000
--DT04-12-2022
--TM16:15:06
--Valid Readings: 10 of 10
--Fixed Readings: 10 of 10
--Nor Min: 6123196.6893  Max: 6123196.7030
--Eas Min: 504619.0294  Max: 504619.0410
--Elv Min: 1.2421  Max: 1.2456
--Nor Avg: 6123196.6946  SD: 0.0040
--Eas Avg: 504619.0351  SD: 0.0038
--Elv Avg: 1.2441  SD: 0.0011
--NRMS Avg: 0.0031 SD: 0.0004 Min: 0.0026 Max: 0.0036
--ERMS Avg: 0.0031 SD: 0.0004 Min: 0.0026 Max: 0.0036
--HSDV Avg: 0.0044 SD: 0.0005 Min: 0.0037 Max: 0.0051
--VSDV Avg: 0.0060 SD: 0.0006 Min: 0.0051 Max: 0.0068
--HDOP Avg: 0.5300 Min: 0.5300 Max: 0.5300
--VDOP Avg: 0.7300 Min: 0.7300 Max: 0.7300
--PDOP Avg: 0.9400 Min: 0.9400 Max: 0.9400
--AGE Avg: 1.0000 Min: 1.0000 Max: 1.0000
--Number of Satellites Avg: 20 Min: 20 Max: 20
--Entered Rover HR: 0.5000 m, Altura vertical
--Antenna Type: [HX-CSX049A],RA0.0645m,SHMP0.0925m,L10.0260m,L20.0222m,--
LS,HR0.6185
GPS,PN2,LA-35.02156271,LN-58.26590066,EL1.210150,--esq
--GS,PN2,N 6123192.0617,E 504587.4940,EL1.2102,--esq
--GT,PN2,SW2205,ST242198000,EW2205,ET242209000
--DT04-12-2022
--TM16:16:48
--Valid Readings: 10 of 10
--Fixed Readings: 10 of 10
--Nor Min: 6123192.0586  Max: 6123192.0650
--Eas Min: 504587.4891  Max: 504587.5012
--Elv Min: 1.2078  Max: 1.2131
--Nor Avg: 6123192.0617  SD: 0.0022
--Eas Avg: 504587.4940  SD: 0.0036
--Elv Avg: 1.2102  SD: 0.0015
--NRMS Avg: 0.0026 SD: 0.0002 Min: 0.0019 Max: 0.0029
--ERMS Avg: 0.0026 SD: 0.0002 Min: 0.0019 Max: 0.0029
--HSDV Avg: 0.0036 SD: 0.0004 Min: 0.0027 Max: 0.0041
--VSDV Avg: 0.0052 SD: 0.0005 Min: 0.0040 Max: 0.0060
--HDOP Avg: 0.5300 Min: 0.5300 Max: 0.5300
--VDOP Avg: 0.7300 Min: 0.7300 Max: 0.7300
--PDOP Avg: 0.9300 Min: 0.9300 Max: 0.9300
--AGE Avg: 1.0000 Min: 1.0000 Max: 1.0000
--Number of Satellites Avg: 20 Min: 20 Max: 20
--Entered Rover HR: 0.5000 m, Altura vertical
--Antenna Type: [HX-CSX049A],RA0.0645m,SHMP0.0925m,L10.0260m,L20.0222m,--
LS,HR0.6185
GPS,PN3,LA-35.02146494,LN-58.27023241,EL1.280220,--esq
--GS,PN3,N 6123222.2352,E 504503.4234,EL1.2802,--esq
--GT,PN3,SW2205,ST242756000,EW2205,ET242766000";

    let result = lineas_a_registros(content.lines().collect());
    assert!(result.is_ok());
    let result = result.unwrap();
    assert_eq!(result.registros.len(), 24);
    assert_eq!(result.errores.len(), 34);
    assert_eq!(result.errores[0].0, "--Valid Readings: 10 of 10");
    assert_eq!(result.errores[0].1, ParseError::TipoDesconocido);
}

#[test]
fn parse_archivo() {
    let contenido = relevamiento(555, 26);
    let result = parsear_contenido(&contenido);
    assert_eq!(result.registros.len(), 4596);
    assert_eq!(result.errores.len(), 2 * 555);
}

#[test]
fn lines_by_their_opening_token() {
    assert_eq!(Record::from_line(""), Err(ParseError::LineaVacia));
    assert_eq!(Record::from_line("XX,1"), Err(ParseError::TipoDesconocido));
    assert_eq!(Record::from_line("--D"), Err(ParseError::TipoDesconocido));
    assert_eq!(Record::from_line("--DX04-12-2022"), Err(ParseError::TipoDesconocido));
    assert_eq!(Record::from_line("GPS"), Err(ParseError::Estructura(TipoDeLinea::GPS)));
    assert_eq!(Record::from_line(" GPS ,PN1"), Err(ParseError::Estructura(TipoDeLinea::GPS)));
    assert_eq!(Record::from_line("--GS:x"), Err(ParseError::Estructura(TipoDeLinea::GS)));
    assert_eq!(Record::from_line("--GT"), Err(ParseError::Estructura(TipoDeLinea::GT)));
    assert_eq!(Record::from_line("BP,1"), Err(ParseError::Estructura(TipoDeLinea::BP)));
    assert_eq!(Record::from_line("LS"), Err(ParseError::Estructura(TipoDeLinea::LS)));
    assert_eq!(Record::from_line("--Antenna Type"), Err(ParseError::Partes(TipoDeLinea::AT)));
    assert_eq!(
        Record::from_line("--Antenna Type: [A],RA1m"),
        Err(ParseError::Estructura(TipoDeLinea::AT))
    );
    assert_eq!(
        Record::from_line("--Entered Rover HR"),
        Err(ParseError::Partes(TipoDeLinea::EH))
    );
    assert_eq!(
        Record::from_line("--Entered Base HR: 1 m"),
        Err(ParseError::Estructura(TipoDeLinea::EH))
    );
    assert_eq!(Record::from_line(" --DT04-12-2022"), Err(ParseError::Estructura(TipoDeLinea::T)));
    assert_eq!(Record::from_line("--TM16:15"), Err(ParseError::Estructura(TipoDeLinea::T)));
    assert!(matches!(Record::from_line("--DT04-12-2022"), Ok(Record::T(_))));
    assert!(matches!(Record::from_line("--TM16:15:06"), Ok(Record::T(_))));
    assert!(matches!(Record::from_line("LS,HR0.6185"), Ok(Record::LS(_))));
    assert!(matches!(
        Record::from_line("--Entered Base HR: 0.5000 m, Altura vertical"),
        Ok(Record::EH(_))
    ));
    assert!(matches!(
        Record::from_line(
            "--Antenna Type: [HX-CSX049A],RA0.0645m,SHMP0.0925m,L10.0260m,L20.0222m,--"
        ),
        Ok(Record::AT(_))
    ));
    assert!(matches!(
        Record::from_line(
            "BP,PN0,LA-35.02153129,LN-58.26579176,ET1.6280,AG1.5230,PA1.6278,ATAPC,SRBASE,--"
        ),
        Ok(Record::BP(_))
    ));
}

#[test]
fn lines_that_may_be_read() {
    assert!(es_linea_admisible(""));
    assert!(es_linea_admisible("GPS,PN1"));
    assert!(es_linea_admisible("--Entered Rover HR: 0.5000 m, Altura vertical"));
    assert!(es_linea_admisible("--Entered Base HR"));
    assert!(es_linea_admisible("--Entered Otro HR: 0.5000 m, Altura vertical"));
    assert!(!es_linea_admisible(" --Entered Rover HR: 0.5000 m, Altura vertical"));
    assert!(es_linea_admisible("--Entered Rover HR : 0.5000 m, Altura vertical"));
    assert!(es_linea_admisible("--Entered  Rover HR: 0.5000 m, Altura vertical"));
    assert!(es_linea_admisible("--Entered Rover HR,x:y"));
    assert!(!es_linea_admisible("  --Entered Base HR: 0.5000 m, Altura vertical"));
}

#[test]
fn logs_that_may_be_read() {
    let bien = "GPS,PN1\n--Entered Rover HR: 0.5000 m, Altura vertical\nnada";
    let mal = "GPS,PN1\n --Entered Rover HR: 0.5000 m, Altura vertical\nnada";
    assert!(es_contenido_admisible(bien));
    assert!(!es_contenido_admisible(mal));
    assert!(es_contenido_admisible(""));
    assert!(son_lineas_admisibles(&bien.lines().collect()));
    assert!(!son_lineas_admisibles(&mal.lines().collect()));
    assert!(son_lineas_admisibles(&Vec::new()));
    assert!(es_contenido_admisible(&relevamiento(5, 2)));
}

#[test]
fn lines_and_their_errors_keep_their_order() {
    let lineas = vec!["LS,HR1", "", "nada", "LS,HRx", "LS,HR2"];
    let r = lineas_a_registros(lineas).unwrap();
    assert_eq!(r.registros.len(), 2);
    assert_eq!(r.registros[0], Record::from_line("LS,HR1").unwrap());
    assert_eq!(r.registros[1], Record::from_line("LS,HR2").unwrap());
    assert_eq!(
        r.errores,
        vec![
            ("".to_string(), ParseError::LineaVacia),
            ("nada".to_string(), ParseError::TipoDesconocido),
            ("LS,HRx".to_string(), ParseError::Valor(TipoDeLinea::LS)),
        ]
    );
    let vacio = lineas_a_registros(Vec::new()).unwrap();
    assert!(vacio.registros.is_empty() && vacio.errores.is_empty());
}

#[test]
fn text_is_read_line_by_line() {
    let r = parsear_contenido("LS,HR1\r\nLS,HR2\n\nLS,HR3\r");
    assert_eq!(r.registros.len(), 2);
    assert_eq!(
        r.errores,
        vec![
            ("".to_string(), ParseError::LineaVacia),
            ("LS,HR3\r".to_string(), ParseError::Valor(TipoDeLinea::LS)),
        ]
    );
    let r = parsear_contenido("");
    assert!(r.registros.is_empty() && r.errores.is_empty());
    let r = parsear_contenido("\n");
    assert_eq!(r.errores, vec![("".to_string(), ParseError::LineaVacia)]);
}

#[test]
fn a_log_is_read_and_fused() {
    let registros = de_archivo_a_registros(&relevamiento(3, 1));
    assert_eq!(registros.len(), 3 * 4);
    assert_eq!(registros.iter().filter(|r| matches!(r, Record::GPS(_))).count(), 3);
    assert_eq!(registros.iter().filter(|r| matches!(r, Record::BP(_))).count(), 1);
    assert_eq!(registros.iter().filter(|r| matches!(r, Record::AT(_))).count(), 4);
    assert_eq!(registros.iter().filter(|r| matches!(r, Record::T(_))).count(), 4);
    assert!(de_archivo_a_registros("").is_empty());
}
