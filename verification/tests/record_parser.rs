use rinex::prelude::Epoch;
use rw5_file_parser::decimal::Decimal;
use rw5_file_parser::epoca::{epoca_de_fecha, ANIO_MAXIMO, ANIO_MINIMO, ORIGEN_GPST};
use rw5_file_parser::file_parser::{parsear_contenido, Record};
use rw5_file_parser::post_parse_gps::combinar_registros;
use rw5_file_parser::errores::{CustomError, MergeError, ParseError, TipoDeLinea};
use rw5_file_parser::parse_rw5_file;
use rw5_file_parser::record_parser::{
    parse_backsight_record, parse_dt_record, parse_job_record, parse_label_record,
    parse_line_of_sight_record, parse_mode_setup_record, parse_occupy_record,
    parse_off_center_shot_record, parse_record_line, parse_store_point_record,
    parse_traverse_record, AngleOption, DistanceOption, TRecord, TraverseRecord, ZenithOption,
};

fn en_coma_flotante(d: Decimal) -> f64 {
    d.nanos as f64 / 1e9
}

fn decimal(nanos: i64) -> Decimal {
    Decimal { nanos }
}

#[test]
fn test_parse_rw5_file_with_content() {
    let content = "\
JB,NMMY RW5 JOB,DT07-22-2004,TM13:13:51
MO,AD0,UN0,SF1.00000000,EC1,EO0.0,AU0
--SP,PN111,N 16556174.237,E 942130.662,EL16.404
--SP,PN108,N 16556174.237,E 942130.662,EL17.945
OC,OP111,N 16556174.237,E 942130.662,EL16.404
BK,OP111,BP108,BS0.00000,BC0.00000
LS,HI5.684,HR5.500
SS,OP111,FP108,AR0.00000,ZE0.00017,SD3.3566,--FENCE1";

    let result = parse_rw5_file(content);
    assert!(result.is_ok());
}

#[test]
fn test_parse_backsight_record() {
    let line = "BK,OP1,BP2,BS315.0000,BC0.0044";
    let result = parse_backsight_record(line);
    assert!(result.is_ok());
    let record = result.unwrap();
    assert_eq!(record.op, "1");
    assert_eq!(record.bp, "2");
    assert_eq!(en_coma_flotante(record.bs), 315.0);
    assert_eq!(en_coma_flotante(record.bc), 0.0044);
}

#[test]
fn test_parse_job_record() {
    let line = "JB,NMSAMPLE,DT06-27-2003,TM14:21:53";
    let result = parse_job_record(line);
    assert!(result.is_ok());
    let record = result.unwrap();
    assert_eq!(record.nm, "SAMPLE");
    assert_eq!(record.dt, "06-27-2003");
    assert_eq!(record.tm, "14:21:53");
}

#[test]
fn test_parse_line_of_sight_record() {
    let line1 = "LS,HI5.000000,HR6.000000";
    let line2 = "LS,HI5.000000";
    let result1 = parse_line_of_sight_record(line1);
    let result2 = parse_line_of_sight_record(line2);
    assert!(result1.is_ok());
    assert!(result2.is_ok());
    let record1 = result1.unwrap();
    let record2 = result2.unwrap();
    assert_eq!(en_coma_flotante(record1.hi), 5.0);
    assert_eq!(record1.hr.map(en_coma_flotante), Some(6.0));
    assert_eq!(en_coma_flotante(record2.hi), 5.0);
    assert_eq!(record2.hr.map(en_coma_flotante), None);
}

#[test]
fn test_parse_mode_setup_record() {
    let line = "MO,AD0,UN0,SF1.00000000,EC1,EO0.0,AU0";
    let result = parse_mode_setup_record(line);
    assert!(result.is_ok());
    let record = result.unwrap();
    assert_eq!(record.ad, 0);
    assert_eq!(record.un, 0);
    assert_eq!(en_coma_flotante(record.sf), 1.0);
    assert_eq!(record.ec, 1);
    assert_eq!(en_coma_flotante(record.eo), 0.0);
    assert_eq!(record.au, 0);
}

#[test]
fn test_parse_occupy_record() {
    let line = "OC,OP1,N 5000.00000,E 5000.00000,EL100.000,--CP";
    let result = parse_occupy_record(line);
    assert!(result.is_ok());
    let record = result.unwrap();
    assert_eq!(record.op, "1");
    assert_eq!(en_coma_flotante(record.n), 5000.0);
    assert_eq!(en_coma_flotante(record.e), 5000.0);
    assert_eq!(en_coma_flotante(record.el), 100.0);
    assert_eq!(record.note, "--CP");
}

#[test]
fn test_parse_off_center_shot_record() {
    let line = "OF,AR90.3333,ZE90.0000,SD25.550000";
    let result = parse_off_center_shot_record(line);
    assert!(result.is_ok());
    let record = result.unwrap();
    assert_eq!(en_coma_flotante(record.ar), 90.3333);
    assert_eq!(en_coma_flotante(record.ze), 90.0);
    assert_eq!(en_coma_flotante(record.sd), 25.55);
}

#[test]
fn test_parse_store_point_record() {
    let line = "SP,PN100,N 5002.0000,E 5000.0000,EL100.0000,--PP";
    let result = parse_store_point_record(line);
    assert!(result.is_ok());
    let record = result.unwrap();
    assert_eq!(record.pn, "100");
    assert_eq!(en_coma_flotante(record.n), 5002.0);
    assert_eq!(en_coma_flotante(record.e), 5000.0);
    assert_eq!(en_coma_flotante(record.el), 100.0);
    assert_eq!(record.note, "--PP");
}

#[test]
fn test_parse_traverse_record_azimuth() {
    let line = "TR,OP1,FP4,AZ90.3333,ZE90.3333,SD25.550000,--CP";
    let expected = TraverseRecord {
        occupy_point: "1".to_string(),
        foresight_point: "4".to_string(),
        angle_option: AngleOption::Azimuth(decimal(90_333_300_000)),
        zenith_option: ZenithOption::Zenith(decimal(90_333_300_000)),
        distance_option: DistanceOption::SlopeDistance(decimal(25_550_000_000)),
        note: "CP".to_string(),
    };
    assert_eq!(en_coma_flotante(decimal(90_333_300_000)), 90.3333);
    assert_eq!(en_coma_flotante(decimal(25_550_000_000)), 25.550000);
    assert_eq!(expected, parse_traverse_record(line).unwrap());
}

#[test]
fn test_parse_traverse_record_bearing() {
    let line = "BD,OP1,FP2,BR123.4500,ZE86.0133,SD10.313750,--CP";
    let expected = TraverseRecord {
        occupy_point: "1".to_string(),
        foresight_point: "2".to_string(),
        angle_option: AngleOption::Bearing(decimal(123_450_000_000)),
        zenith_option: ZenithOption::Zenith(decimal(86_013_300_000)),
        distance_option: DistanceOption::SlopeDistance(decimal(10_313_750_000)),
        note: "CP".to_string(),
    };
    assert_eq!(en_coma_flotante(decimal(123_450_000_000)), 123.4500);
    assert_eq!(en_coma_flotante(decimal(86_013_300_000)), 86.0133);
    assert_eq!(en_coma_flotante(decimal(10_313_750_000)), 10.313750);
    assert_eq!(expected, parse_traverse_record(line).unwrap());
}

#[test]
fn test_parse_traverse_record_angle_right() {
    let line = "TR,OP1,FP4,AR45.6789,ZE90.3333,SD25.550000,--CP";
    let expected = TraverseRecord {
        occupy_point: "1".to_string(),
        foresight_point: "4".to_string(),
        angle_option: AngleOption::AngleRight(decimal(45_678_900_000)),
        zenith_option: ZenithOption::Zenith(decimal(90_333_300_000)),
        distance_option: DistanceOption::SlopeDistance(decimal(25_550_000_000)),
        note: "CP".to_string(),
    };
    assert_eq!(en_coma_flotante(decimal(45_678_900_000)), 45.6789);
    assert_eq!(expected, parse_traverse_record(line).unwrap());
}

#[test]
fn test_parse_traverse_record_angle_left() {
    let line = "SS,OP1,FP2,AL12.3456,ZE86.0133,SD10.313750,--CP";
    let expected = TraverseRecord {
        occupy_point: "1".to_string(),
        foresight_point: "2".to_string(),
        angle_option: AngleOption::AngleLeft(decimal(12_345_600_000)),
        zenith_option: ZenithOption::Zenith(decimal(86_013_300_000)),
        distance_option: DistanceOption::SlopeDistance(decimal(10_313_750_000)),
        note: "CP".to_string(),
    };
    assert_eq!(en_coma_flotante(decimal(12_345_600_000)), 12.3456);
    assert_eq!(expected, parse_traverse_record(line).unwrap());
}

#[test]
fn test_parse_traverse_record_deflection_right() {
    let line = "FR,OP1,FP3,DR34.5678,ZE89.4305,SD7.393000,--CP";
    let expected = TraverseRecord {
        occupy_point: "1".to_string(),
        foresight_point: "3".to_string(),
        angle_option: AngleOption::DeflectionRight(decimal(34_567_800_000)),
        zenith_option: ZenithOption::Zenith(decimal(89_430_500_000)),
        distance_option: DistanceOption::SlopeDistance(decimal(7_393_000_000)),
        note: "CP".to_string(),
    };
    assert_eq!(en_coma_flotante(decimal(34_567_800_000)), 34.5678);
    assert_eq!(en_coma_flotante(decimal(89_430_500_000)), 89.4305);
    assert_eq!(en_coma_flotante(decimal(7_393_000_000)), 7.393000);
    assert_eq!(expected, parse_traverse_record(line).unwrap());
}

#[test]
fn traverse_with_the_other_options() {
    let line = "TR,OP1,FP4,DL1.5,VA2.25,HD3.125,--nota";
    let r = parse_traverse_record(line).unwrap();
    assert_eq!(r.angle_option, AngleOption::DeflectionLeft(decimal(1_500_000_000)));
    assert_eq!(r.zenith_option, ZenithOption::VerticalAngle(decimal(2_250_000_000)));
    assert_eq!(r.distance_option, DistanceOption::HorizontalDistance(decimal(3_125_000_000)));
    assert_eq!(r.note, "nota");
    let r = parse_traverse_record("TR,OP1,FP4,AZ1,CE2,SD3,").unwrap();
    assert_eq!(r.zenith_option, ZenithOption::ChangeElevation(decimal(2_000_000_000)));
}

#[test]
fn traverse_errors_come_in_the_order_of_the_fields() {
    let angle = parse_traverse_record("TR,OP1,FP4,XX90,QQ90,SD25,--CP");
    assert_eq!(
        angle,
        Err(ParseError::Opcion(CustomError::new("Invalid angle option", "XX90")))
    );
    let zenith = parse_traverse_record("TR,OP1,FP4,AZ90,QQ90,ZZ25,--CP");
    assert_eq!(
        zenith,
        Err(ParseError::Opcion(CustomError::new("Invalid zenith option", "QQ90")))
    );
    let distance = parse_traverse_record("TR,OP1,FP4,AZ90,ZE90,ZZ25,--CP");
    assert_eq!(
        distance,
        Err(ParseError::Opcion(CustomError::new("Invalid distance option", "ZZ25")))
    );
    let value = parse_traverse_record("TR,OP1,FP4,AZnoventa,QQ90,SD25,--CP");
    assert_eq!(value, Err(ParseError::Valor(TipoDeLinea::TR)));
    let short = parse_traverse_record("TR,OP1,FP4,A,ZE90,SD25,--CP");
    assert_eq!(
        short,
        Err(ParseError::Opcion(CustomError::new("Invalid angle option", "A")))
    );
    let few = parse_traverse_record("TR,OP1,FP4,AZ90,ZE90,SD25");
    assert_eq!(few, Err(ParseError::Estructura(TipoDeLinea::TR)));
    let many = parse_traverse_record("TR,OP1,FP4,AZ90,ZE90,SD25,--CP,x");
    assert_eq!(many, Err(ParseError::Estructura(TipoDeLinea::TR)));
}

#[test]
fn custom_error_in_words() {
    let e = CustomError::new("Invalid angle option", "XX90");
    assert_eq!(e.message, "Invalid angle option");
    assert_eq!(e.field, "XX90");
    assert_eq!(e.to_string(), "Error: Invalid angle option. Field: XX90");
    assert_eq!(e.clone(), e);
}

#[test]
fn record_line_by_its_opening_token() {
    assert_eq!(parse_record_line(""), Ok(()));
    assert_eq!(parse_record_line("JB,NMSAMPLE,DT06-27-2003,TM14:21:53"), Ok(()));
    assert_eq!(parse_record_line(" JB ,NMSAMPLE,DT06-27-2003,TM14:21:53"), Ok(()));
    assert_eq!(parse_record_line("JB,NMSAMPLE"), Err(ParseError::Estructura(TipoDeLinea::JB)));
    assert_eq!(parse_record_line("MO,AD0,UN0,SF1.0,EC1,EO0.0,AU-1"), Err(ParseError::Valor(TipoDeLinea::MO)));
    assert_eq!(parse_record_line("MO,AD0,UN0,SF1.0,EC1,EO0.0"), Err(ParseError::Estructura(TipoDeLinea::MO)));
    assert_eq!(parse_record_line("--SP,PN1,N 1.0,E 2.0,EL3.0"), Ok(()));
    assert_eq!(parse_record_line("--SP,PN1,N 1.0,E 2.0,ELx"), Err(ParseError::Valor(TipoDeLinea::SP)));
    assert_eq!(parse_record_line("--SP,PN1,N 1.0,E 2.0"), Err(ParseError::Estructura(TipoDeLinea::SP)));
    assert_eq!(parse_record_line("OC,OP1,N 1.0,E 2.0"), Err(ParseError::Estructura(TipoDeLinea::OC)));
    assert_eq!(parse_record_line("OC,OP1,N x,E 2.0,EL1"), Err(ParseError::Valor(TipoDeLinea::OC)));
    assert_eq!(parse_record_line("OF,AR90.3333,ZE90.0000"), Err(ParseError::Estructura(TipoDeLinea::OF)));
    assert_eq!(parse_record_line("OF,AR90.3333,ZE90.0000,SDx"), Err(ParseError::Valor(TipoDeLinea::OF)));
    assert_eq!(parse_record_line("BK,OP1,BP2,BS315.0000"), Err(ParseError::Estructura(TipoDeLinea::BK)));
    assert_eq!(parse_record_line("BK,OP1,BP2,BS315.0000,BC"), Err(ParseError::Valor(TipoDeLinea::BK)));
    assert_eq!(parse_record_line("LS"), Err(ParseError::Estructura(TipoDeLinea::LineaDeVista)));
    assert_eq!(parse_record_line("LS,HIx"), Err(ParseError::Valor(TipoDeLinea::LineaDeVista)));
    assert_eq!(parse_record_line("LS,HI1.0,HRx"), Err(ParseError::Valor(TipoDeLinea::LineaDeVista)));
    assert_eq!(parse_record_line("FD,OP1,FP4,AZ90,ZE90,SD25,--CP"), Ok(()));
    assert_eq!(parse_record_line("--,una etiqueta"), Ok(()));
    assert_eq!(parse_record_line("XX,1,2"), Err(ParseError::TipoDesconocido));
    assert_eq!(parse_record_line("--Etiqueta suelta"), Err(ParseError::TipoDesconocido));
}

#[test]
fn rw5_text_stops_at_the_first_line_that_fails() {
    assert_eq!(parse_rw5_file(""), Ok(()));
    assert_eq!(parse_rw5_file("JB,NMSAMPLE,DT06-27-2003,TM14:21:53\r\n\r\nLS,HI5.0\n"), Ok(()));
    assert_eq!(
        parse_rw5_file("JB,NMSAMPLE,DT06-27-2003,TM14:21:53\nLS\nXX\n"),
        Err(ParseError::Estructura(TipoDeLinea::LineaDeVista))
    );
    assert_eq!(
        parse_rw5_file("JB,NMSAMPLE,DT06-27-2003,TM14:21:53\nXX\nLS\n"),
        Err(ParseError::TipoDesconocido)
    );
}

#[test]
fn label_after_its_hyphens() {
    let r = parse_label_record("----  Una etiqueta  ").unwrap();
    assert_eq!(r.label, "Una etiqueta");
    assert_eq!(parse_label_record("--").unwrap().label, "");
    assert_eq!(
        parse_label_record("- sin guiones"),
        Err(ParseError::Estructura(TipoDeLinea::Etiqueta))
    );
}

#[test]
fn clock_fragments_from_lines() {
    let d = parse_dt_record("--DT04-12-2022").unwrap();
    assert_eq!(d, TRecord::default().with_date((2022, 4, 12)));
    assert_eq!(d.get_epoch(), ORIGEN_GPST);
    let t = parse_dt_record("--TM16:15:06").unwrap();
    assert_eq!(t, TRecord::default().with_time((16, 15, 6)));
    assert_eq!(parse_dt_record("--D"), Err(ParseError::Estructura(TipoDeLinea::T)));
    assert_eq!(parse_dt_record("--XX04-12-2022"), Err(ParseError::Estructura(TipoDeLinea::T)));
    assert_eq!(parse_dt_record("--DT04-12"), Err(ParseError::Estructura(TipoDeLinea::T)));
    assert_eq!(parse_dt_record("--DT04122022"), Err(ParseError::Estructura(TipoDeLinea::T)));
    assert_eq!(parse_dt_record("--DT04-12-dosmil"), Err(ParseError::Valor(TipoDeLinea::T)));
    assert_eq!(parse_dt_record("--DT256-12-2022"), Err(ParseError::Valor(TipoDeLinea::T)));
    assert_eq!(parse_dt_record("--TM16:15:-6"), Err(ParseError::Valor(TipoDeLinea::T)));
    assert_eq!(
        parse_dt_record("--DT04-12--2022").unwrap(),
        TRecord::default().with_date((-2022, 4, 12))
    );
}

#[test]
fn date_and_time_make_an_instant() {
    let d = TRecord::default().with_date((2022, 4, 12));
    let t = TRecord::default().with_time((16, 15, 6));
    let expected = Epoch::from_gregorian_tai(2022, 4, 12, 16, 15, 6, 0)
        .to_tai_duration()
        .total_nanoseconds();
    let dt = d.merge(t).unwrap();
    assert_eq!(dt.date, Some((2022, 4, 12)));
    assert_eq!(dt.time, Some((16, 15, 6)));
    assert_eq!(dt.dt, Some(expected));
    assert_eq!(dt.get_epoch(), expected);
    assert_eq!(t.merge(d).unwrap(), dt);
    assert_eq!(dt.combine(), dt);
    assert_eq!(expected, 3_858_768_906_000_000_000);
    assert_eq!(d.with_time((16, 15, 6)).with_epoch(Some(expected)), dt);
    assert_eq!(dt.with_epoch(None).get_epoch(), ORIGEN_GPST);
}

#[test]
fn a_date_that_names_no_day_gives_no_instant() {
    let d = TRecord::default().with_date((2022, 2, 30));
    let t = TRecord::default().with_time((16, 15, 6));
    let dt = d.merge(t).unwrap();
    assert_eq!(dt.dt, None);
    assert_eq!(dt.get_epoch(), ORIGEN_GPST);
    let with_leap = TRecord::default().with_date((2022, 4, 12)).with_time((23, 59, 60)).combine();
    assert_eq!(with_leap.dt, None);
}

#[test]
fn clock_fragments_that_do_not_fuse() {
    let d = TRecord::default().with_date((2022, 4, 12));
    let d2 = TRecord::default().with_date((2022, 4, 13));
    let t = TRecord::default().with_time((16, 15, 6));
    let t2 = TRecord::default().with_time((16, 15, 7));
    let full = d.merge(t).unwrap();
    let empty = TRecord::default();
    assert_eq!(d.merge(d2), Err(MergeError::FechasIncompatibles));
    assert_eq!(d.merge(d2.merge(t).unwrap()), Err(MergeError::FechasIncompatibles));
    assert_eq!(t.merge(t2), Err(MergeError::HorasIncompatibles));
    assert_eq!(t.merge(d.merge(t2).unwrap()), Err(MergeError::HorasIncompatibles));
    assert_eq!(empty.merge(d), Err(MergeError::NadaQueCombinar));
    assert_eq!(full.merge(t), Err(MergeError::YaCombinado));
    assert_eq!(full.merge(full), Err(MergeError::YaCombinado));
    assert_eq!(d.merge(d), Ok(d));
    assert_eq!(d.merge(full), Ok(full));
    assert_eq!(t.merge(t), Ok(t));
    assert_eq!(t.merge(full), Ok(full));
    assert_eq!(d.merge(empty), Ok(d));
    assert_eq!(t.merge(empty), Ok(t));
}

#[test]
fn merge_errors_in_words() {
    assert_eq!(MergeError::EstacionDistinta.mensaje(), "No coinciden los registros");
    assert_eq!(MergeError::FechasIncompatibles.mensaje(), "Fechas incompatibles");
    assert_eq!(MergeError::HorasIncompatibles.mensaje(), "Horas incompatibles");
    assert_eq!(MergeError::NadaQueCombinar.mensaje(), "Nada que combinar");
    assert_eq!(MergeError::YaCombinado.mensaje(), "Ya está combinado");
}

#[test]
fn years_outside_the_calendar_give_no_instant() {
    let hora = (23, 59, 0);
    for anio in [i32::MAX, i32::MAX - 1, ANIO_MAXIMO + 1, ANIO_MINIMO - 1, i32::MIN + 1, i32::MIN] {
        let r = TRecord::default().with_date((anio, 12, 31)).with_time(hora).combine();
        assert_eq!(r.date, Some((anio, 12, 31)));
        assert_eq!(r.time, Some(hora));
        assert_eq!(r.dt, None);
        assert_eq!(r.get_epoch(), ORIGEN_GPST);
        assert_eq!(epoca_de_fecha(anio, 12, 31, 23, 59, 0), None);
        let d = TRecord::default().with_date((anio, 12, 31));
        assert_eq!(d.merge(TRecord::default().with_time(hora)), Ok(r));
    }
    for anio in [ANIO_MAXIMO, ANIO_MINIMO, 0, 1899, 1900, 1972, 2022] {
        let esperado = Epoch::maybe_from_gregorian_tai(anio, 12, 31, 23, 59, 0, 0)
            .unwrap()
            .to_tai_duration()
            .total_nanoseconds();
        let r = TRecord::default().with_date((anio, 12, 31)).with_time(hora).combine();
        assert_eq!(r.dt, Some(esperado));
        assert_eq!(epoca_de_fecha(anio, 12, 31, 23, 59, 0), Some(esperado));
    }
    assert_eq!(epoca_de_fecha(1900, 1, 1, 0, 0, 0), Some(0));
    assert_eq!(epoca_de_fecha(1900, 1, 1, 0, 0, 1), Some(1_000_000_000));
    assert_eq!(epoca_de_fecha(1899, 12, 31, 23, 59, 59), Some(-1_000_000_000));
    assert_eq!(epoca_de_fecha(2022, 2, 29, 0, 0, 0), None);
    assert_eq!(epoca_de_fecha(2024, 2, 29, 0, 0, 0), Some(3_918_153_600_000_000_000));
    assert_eq!(epoca_de_fecha(2022, 13, 1, 0, 0, 0), None);
    assert_eq!(epoca_de_fecha(2022, 1, 1, 0, 60, 0), None);
}

#[test]
fn a_log_with_the_last_year_of_all_is_fused() {
    let registros = parsear_contenido("--DT12-31-2147483647\n--TM23:59:00").registros;
    assert_eq!(registros.len(), 2);
    let una = combinar_registros(registros);
    assert_eq!(
        una,
        vec![Record::T(TRecord {
            date: Some((i32::MAX, 12, 31)),
            time: Some((23, 59, 0)),
            dt: None,
        })]
    );
}
