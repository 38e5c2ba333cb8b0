use rinex::prelude::Epoch;
use rw5_file_parser::decimal::Decimal;
use rw5_file_parser::errores::{MergeError, ParseError, TipoDeLinea};
use rw5_file_parser::record_parser_gps::{
    count_leap_seconds, modo_de_receptor_reconocible, parse_antenna_type_record, parse_bp_record,
    parse_entered_height_record, parse_gps_record, parse_gs_record, parse_gt_record,
    parse_ls_record, ATRecord, BPRecord, EHRecord, GPSRecord, GSRecord, LSRecord, TipoDeAltura,
    TipoDeReceptor,
};

fn en_coma_flotante(d: Decimal) -> f64 {
    d.nanos as f64 / 1e9
}

fn o_panico<T>(r: Result<T, MergeError>) -> T {
    match r {
        Ok(v) => v,
        Err(e) => panic!("{}", e.mensaje()),
    }
}

#[test]
fn test_parse_gps_record() {
    let line = "GPS,PN1,LA-35.02154763,LN-58.26577623,EL1.244110,--esq";
    let result = parse_gps_record(line);
    println!("{:?}", result);
    assert!(result.is_ok());
    let record = result.unwrap();
    assert_eq!(record.occupy_point, "1");
    assert_eq!(en_coma_flotante(record.latitude), -35.02154763);
    assert_eq!(en_coma_flotante(record.longitude), -58.26577623);
    assert_eq!(en_coma_flotante(record.elevation), 1.244110);
}

#[test]
fn test_parse_gs_record() {
    let line = "--GS,PN0,N 6123201.7319,E 504615.1011,EL1.6280,--Base";
    let result = parse_gs_record(line);
    println!("{:?}", result);
    assert!(result.is_ok());
    let record = result.unwrap();
    assert_eq!(record.occupy_point, "0");
    assert_eq!(en_coma_flotante(record.north), 6123201.7319);
    assert_eq!(en_coma_flotante(record.east), 504615.1011);
    assert_eq!(en_coma_flotante(record.elevation), 1.6280);
}

#[test]
fn test_apply_gs_record() {
    let line = "GPS,PN1,LA-35.02154763,LN-58.26577623,EL1.244110,--esq";
    let gps_rec = parse_gps_record(line);
    let line = "--GS,PN1,N 6123201.7319,E 504615.1011,EL1.244110,--esc";
    let gs_rec = parse_gs_record(line);

    let record = gps_rec.unwrap().aplicar_gs(gs_rec.unwrap()).unwrap();

    assert_eq!(record.occupy_point, "1");
    assert_eq!(record.north.map(en_coma_flotante), Some(6123201.7319));
    assert_eq!(record.east.map(en_coma_flotante), Some(504615.1011));
    assert_eq!(en_coma_flotante(record.elevation), 1.244110);
}

#[test]
#[should_panic(expected = "No coinciden los registros")]
fn test_apply_gs_record_panic() {
    let line = "GPS,PN1,LA-35.02154763,LN-58.26577623,EL1.244110,--esq";
    let gps_rec = parse_gps_record(line);
    let line = "--GS,PN0,N 6123201.7319,E 504615.1011,EL1.6280,--Base";
    let gs_rec = parse_gs_record(line);

    let record = o_panico(gps_rec.unwrap().aplicar_gs(gs_rec.unwrap()));

    assert_eq!(record.occupy_point, "1");
    assert_eq!(record.north.map(en_coma_flotante), Some(6123201.7319));
    assert_eq!(record.east.map(en_coma_flotante), Some(504615.1011));
    assert_eq!(en_coma_flotante(record.elevation), 1.244110);
}

#[test]
fn test_parse_gt_record() {
    let line = "--GT,PN1,SW2205,ST242097000,EW2205,ET242107000";
    let result = parse_gt_record(line);
    println!("{:?}", result);
    assert!(result.is_ok());
    let record = result.unwrap();
    let e = Epoch::from_gregorian_utc(2022, 04, 12, 19, 14, 49, 0);
    assert_eq!(record.end, e.to_tai_duration().total_nanoseconds());
}

#[test]
#[should_panic(expected = "No coinciden los registros")]
fn test_apply_gt_record_panic() {
    let line = "GPS,PN1,LA-35.02154763,LN-58.26577623,EL1.244110,--esq";
    let gps_rec = parse_gps_record(line);
    let line = "--GS,PN0,N 6123201.7319,E 504615.1011,EL1.6280,--Base";
    let gs_rec = parse_gs_record(line);
    let line = "--GT,PN1,SW2205,ST242097000,EW2205,ET242107000";
    let gt_rec = parse_gt_record(line);

    let record = o_panico(
        o_panico(gps_rec.unwrap().aplicar_gs(gs_rec.unwrap())).aplicar_gt(gt_rec.unwrap()),
    );

    assert_eq!(record.occupy_point, "1");
    assert_eq!(record.north.map(en_coma_flotante), Some(6123201.7319));
    assert_eq!(record.east.map(en_coma_flotante), Some(504615.1011));
    assert_eq!(en_coma_flotante(record.elevation), 1.244110);
}

#[test]
fn test_apply_gt_record() {
    let line = "GPS,PN1,LA-35.02154763,LN-58.26577623,EL1.244110,--esq";
    let gps_rec = parse_gps_record(line);
    let line = "--GS,PN1,N 6123201.7319,E 504615.1011,EL1.244110,--Base";
    let gs_rec = parse_gs_record(line);
    let line = "--GT,PN1,SW2205,ST242097000,EW2205,ET242107000";
    let gt_rec = parse_gt_record(line);

    let record = gps_rec
        .unwrap()
        .aplicar_gs(gs_rec.unwrap())
        .expect("")
        .aplicar_gt(gt_rec.unwrap())
        .unwrap();

    assert_eq!(record.occupy_point, "1");
    assert_eq!(record.north.map(en_coma_flotante), Some(6123201.7319));
    assert_eq!(record.east.map(en_coma_flotante), Some(504615.1011));
    assert_eq!(en_coma_flotante(record.elevation), 1.244110);
}

#[test]
fn test_parse_ls_record() {
    let line = "LS,HR1.4735";
    let result = parse_ls_record(line);
    println!("{:?}", result);
    assert!(result.is_ok());
    let record = result.unwrap();
    assert_eq!(en_coma_flotante(record.height_rod), 1.4735);
}

#[test]
fn test_parse_entered_height_record() {
    let line = "--Entered Rover HR: 1.3550 m, Altura vertical";
    let result = parse_entered_height_record(line);
    println!("{:?}", result);
    assert!(result.is_ok());
    let record = result.unwrap();
    assert_eq!(en_coma_flotante(record.height_rod), 1.3550);
    assert_eq!(record.tipo, TipoDeAltura::Vertical);
}

#[test]
fn test_parse_antenna_type_record() {
    let line = "--Antenna Type: [HX-CSX049A],RA0.0645m,SHMP0.0925m,L10.0260m,L20.0222m,--";
    let result = parse_antenna_type_record(line);
    println!("{:?}", result);
    assert!(result.is_ok());
    let record = result.unwrap();
    assert_eq!(record.tipo, "HX-CSX049A");
    assert_eq!(en_coma_flotante(record.radio), 0.0645);
    assert_eq!(en_coma_flotante(record.slant_h_mp), 0.0925);
    assert_eq!(en_coma_flotante(record.l1h), 0.0260);
    assert_eq!(en_coma_flotante(record.l2h), 0.0222);
}

#[test]
fn test_antenna_y_ls_record() {
    let line = "--Antenna Type: [HX-CSX049A],RA0.0645m,SHMP0.0925m,L10.0260m,L20.0222m,--";
    let result = parse_antenna_type_record(line);
    let arecord = result.unwrap();

    let line = "LS,HR1.4735";
    let result = parse_ls_record(line);
    let lsrecord = result.unwrap();

    let r: Result<ATRecord, _> = arecord.aplicar_ls(lsrecord);

    assert!(r.is_ok());
}

#[test]
fn test_rover_antenna_y_ls_record() {
    let line = "--Entered Rover HR: 1.3550 m, Altura vertical";
    let result = parse_entered_height_record(line);
    let errecord = result.unwrap();

    let line = "--Antenna Type: [HX-CSX049A],RA0.0645m,SHMP0.0925m,L10.0260m,L20.0222m,--";
    let result = parse_antenna_type_record(line);
    let arecord = result.unwrap();

    let line = "LS,HR1.4735";
    let result = parse_ls_record(line);
    let lsrecord = result.unwrap();

    let r: Result<ATRecord, _> = arecord.aplicar_eh(errecord);
    let r: Result<ATRecord, _> = r.unwrap().aplicar_ls(lsrecord);

    println!("{:?}", r);
    assert!(r.is_ok());
    let antena = r.unwrap();
    assert_eq!(antena.tipo, "HX-CSX049A");
    assert_eq!(antena.h_ingresada.map(en_coma_flotante), Some(1.3550));
    assert_eq!(antena.h_tipo, Some(TipoDeAltura::Vertical));
    assert_eq!(antena.h_calculada.map(en_coma_flotante), Some(1.4735));
    assert_eq!(antena.modo, Some(TipoDeReceptor::Rotador));
    assert_eq!(en_coma_flotante(antena.radio), 0.0645);
}

#[test]
fn test_leap_secs() {
    let input_date = (1990, 12, 31);
    let leap_seconds_count = count_leap_seconds(input_date);
    assert_eq!(leap_seconds_count, 6);
}

#[test]
fn test_parse_bp_record() {
    let line = "BP,PN0,LA-35.02255202,LN-58.26477676,ET22.0720,AG1.6890,PA1.7942,ATAPC,SRBASE,--";
    let result = parse_bp_record(line);
    println!("{:?}", result);
    assert!(result.is_ok());
    let record = result.unwrap();
    assert_eq!(record.occupy_point, "0");
    assert_eq!(en_coma_flotante(record.latitude), -35.02255202);
    assert_eq!(en_coma_flotante(record.longitude), -58.26477676);
    assert_eq!(en_coma_flotante(record.elevation), 22.0720);
}

#[test]
fn test_apply_gs_record_to_bp() {
    let line = "BP,PN0,LA-35.02255202,LN-58.26477676,ET22.0720,AG1.6890,PA1.7942,ATAPC,SRBASE,--";
    let bp_rec = parse_bp_record(line);
    let line = "--GS,PN0,N 6122887.0388,E 504872.1981,EL22.0720,--Base";
    let gs_rec = parse_gs_record(line);

    let record = bp_rec.unwrap().aplicar_gs(gs_rec.unwrap()).unwrap();

    assert_eq!(record.occupy_point, "0");
    assert_eq!(record.north.map(en_coma_flotante), Some(6122887.0388));
    assert_eq!(record.east.map(en_coma_flotante), Some(504872.1981));
    assert_eq!(en_coma_flotante(record.elevation), 22.0720);
}

#[test]
fn leap_seconds_before_other_days() {
    assert_eq!(count_leap_seconds((1980, 1, 6)), 0);
    assert_eq!(count_leap_seconds((1981, 6, 30)), 0);
    assert_eq!(count_leap_seconds((1981, 7, 1)), 1);
    assert_eq!(count_leap_seconds((1991, 1, 1)), 7);
    assert_eq!(count_leap_seconds((2016, 12, 31)), 17);
    assert_eq!(count_leap_seconds((2017, 1, 1)), 18);
    assert_eq!(count_leap_seconds((2022, 4, 12)), 18);
}

#[test]
fn whole_records_from_lines() {
    let gps = parse_gps_record("GPS,PNPN7,LA+1.5,LN-.25,EL3.,--una nota").unwrap();
    assert_eq!(
        gps,
        GPSRecord {
            occupy_point: "7".to_string(),
            latitude: Decimal { nanos: 1_500_000_000 },
            longitude: Decimal { nanos: -250_000_000 },
            elevation: Decimal { nanos: 3_000_000_000 },
            elevation_alt: None,
            note: "--una nota".to_string(),
            north: None,
            east: None,
            start_time: None,
            end_time: None,
        }
    );
    let sin_nota = parse_gps_record("GPS,PN7,LA1,LN2,EL3").unwrap();
    assert_eq!(sin_nota.note, "");
    let con_mas = parse_gps_record("GPS,PN7,LA1,LN2,EL3,a,b").unwrap();
    assert_eq!(con_mas.note, "");
    let bp = parse_bp_record("BP,PN0,LA1,LN2,ET3,AG4,PA5,ATAPC,SRBASE,nota").unwrap();
    assert_eq!(
        bp,
        BPRecord {
            occupy_point: "0".to_string(),
            latitude: Decimal { nanos: 1_000_000_000 },
            longitude: Decimal { nanos: 2_000_000_000 },
            elevation: Decimal { nanos: 3_000_000_000 },
            antenna_ground: Decimal { nanos: 4_000_000_000 },
            phase_antenna: Decimal { nanos: 5_000_000_000 },
            elevation_alt: None,
            note: "nota".to_string(),
            north: None,
            east: None,
            start_time: None,
            end_time: None,
        }
    );
    let gs = parse_gs_record("--GS,PN0,N 1,E 2,EL3").unwrap();
    assert_eq!(
        gs,
        GSRecord {
            occupy_point: "0".to_string(),
            north: Decimal { nanos: 1_000_000_000 },
            east: Decimal { nanos: 2_000_000_000 },
            elevation: Decimal { nanos: 3_000_000_000 },
            note: "".to_string(),
        }
    );
    let eh = parse_entered_height_record("--Entered Base HR:  1.5 m,  ALTURA Inclinada a Altimetria ").unwrap();
    assert_eq!(
        eh,
        EHRecord {
            modo: TipoDeReceptor::Base,
            height_rod: Decimal { nanos: 1_500_000_000 },
            tipo: TipoDeAltura::AAltimetria,
        }
    );
    let eh = parse_entered_height_record("--Entered Rover HR:2 m,altura inclinada").unwrap();
    assert_eq!(eh.tipo, TipoDeAltura::Inclinada);
    assert_eq!(eh.modo, TipoDeReceptor::Rotador);
    let at = parse_antenna_type_record("--Antenna Type: [[A]B]],RARA1m,SHMP2mm,L13,L24m,--").unwrap();
    assert_eq!(
        at,
        ATRecord {
            tipo: "A]B".to_string(),
            radio: Decimal { nanos: 1_000_000_000 },
            slant_h_mp: Decimal { nanos: 2_000_000_000 },
            l1h: Decimal { nanos: 3_000_000_000 },
            l2h: Decimal { nanos: 4_000_000_000 },
            h_ingresada: None,
            h_tipo: None,
            h_calculada: None,
            modo: None,
        }
    );
    assert_eq!(parse_ls_record("LS,HR2.5").unwrap(), LSRecord { height_rod: Decimal { nanos: 2_500_000_000 } });
}

#[test]
fn lines_that_are_refused() {
    assert_eq!(parse_gps_record("GPS,PN1,LA1,LN2"), Err(ParseError::Estructura(TipoDeLinea::GPS)));
    assert_eq!(parse_gps_record("GPS,PN1,LA1,LN2,ELuno"), Err(ParseError::Valor(TipoDeLinea::GPS)));
    assert_eq!(parse_gps_record("GPS,PN1,LA1e3,LN2,EL1"), Err(ParseError::Valor(TipoDeLinea::GPS)));
    assert_eq!(parse_gps_record("GPS,PN1,LA,LN2,EL1"), Err(ParseError::Valor(TipoDeLinea::GPS)));
    assert_eq!(parse_gps_record("GPS,PN1,LA1.2.3,LN2,EL1"), Err(ParseError::Valor(TipoDeLinea::GPS)));
    assert_eq!(parse_bp_record("BP,PN0,LA1,LN2,ET3,AG4,PA5,ATAPC"), Err(ParseError::Estructura(TipoDeLinea::BP)));
    assert_eq!(parse_bp_record("BP,PN0,LA1,LN2,ET3,AG4,PAx,ATAPC,SRBASE"), Err(ParseError::Valor(TipoDeLinea::BP)));
    assert_eq!(parse_gs_record("--GS,PN0,N 1,E 2"), Err(ParseError::Estructura(TipoDeLinea::GS)));
    assert_eq!(parse_gs_record("--GS,PN0,N 1,E 2,EL"), Err(ParseError::Valor(TipoDeLinea::GS)));
    assert_eq!(parse_gt_record("--GT,PN1,SW2205,ST0,EW2205"), Err(ParseError::Estructura(TipoDeLinea::GT)));
    assert_eq!(parse_gt_record("--GT,PN1,SW2205,ST0,EW2205,ET1,x"), Err(ParseError::Estructura(TipoDeLinea::GT)));
    assert_eq!(parse_gt_record("--GT,PN1,SW2205,ST0.5,EW2205,ET1"), Err(ParseError::Valor(TipoDeLinea::GT)));
    assert_eq!(
        parse_gt_record("--GT,PN1,SW2205,ST0,EW9223372036854775807,ET1"),
        Err(ParseError::Valor(TipoDeLinea::GT))
    );
    assert_eq!(
        parse_gt_record("--GT,PN1,SW2205,ST0,EW2205,ET9223372036854775808"),
        Err(ParseError::Valor(TipoDeLinea::GT))
    );
    assert_eq!(parse_ls_record("LS,HR1,HI2"), Err(ParseError::Estructura(TipoDeLinea::LS)));
    assert_eq!(parse_ls_record("LS,HR"), Err(ParseError::Valor(TipoDeLinea::LS)));
    assert_eq!(parse_antenna_type_record("--Antenna Type [A],RA1m"), Err(ParseError::Partes(TipoDeLinea::AT)));
    assert_eq!(parse_antenna_type_record("--Antenna: Type: [A],RA1m,SHMP2m,L13m,L24m,--"), Err(ParseError::Partes(TipoDeLinea::AT)));
    assert_eq!(parse_antenna_type_record("--Antenna Type: [A],RA1m,SHMP2m,L13m,L24m"), Err(ParseError::Estructura(TipoDeLinea::AT)));
    assert_eq!(parse_antenna_type_record("--Antenna Type: [A],RA1m,SHMP2m,L13m,L2m,--"), Err(ParseError::Valor(TipoDeLinea::AT)));
    assert_eq!(parse_entered_height_record("--Entered Rover HR 1.3550 m, Altura vertical"), Err(ParseError::Partes(TipoDeLinea::EH)));
    assert_eq!(parse_entered_height_record("--Entered Rover HR: 1.3550 m"), Err(ParseError::Estructura(TipoDeLinea::EH)));
    assert_eq!(parse_entered_height_record("--Entered Rover HR: 1.3550, Altura vertical"), Err(ParseError::Valor(TipoDeLinea::EH)));
    assert_eq!(parse_entered_height_record("--Entered Rover HR: x m, Altura vertical"), Err(ParseError::Valor(TipoDeLinea::EH)));
    assert_eq!(parse_entered_height_record("--Entered Rover HR: 1.3550 m, Altura"), Err(ParseError::Valor(TipoDeLinea::EH)));
}

#[test]
fn receivers_that_are_known() {
    assert!(modo_de_receptor_reconocible("--Entered Rover HR: 1.3550 m, Altura vertical"));
    assert!(modo_de_receptor_reconocible("--Entered Base HR: 1.3550 m, Altura vertical"));
    assert!(modo_de_receptor_reconocible("--Entered Otro HR 1.3550 m, Altura vertical"));
    assert!(!modo_de_receptor_reconocible("--Entered Otro HR: 1.3550 m, Altura vertical"));
    assert!(!modo_de_receptor_reconocible(" --Entered Rover HR: 1.3550 m, Altura vertical"));
    assert!(!modo_de_receptor_reconocible("--Entered: 1.3550 m, Altura vertical"));
}

#[test]
fn kinds_of_height_by_name() {
    assert_eq!(TipoDeAltura::try_from("altura vertical"), Ok(TipoDeAltura::Vertical));
    assert_eq!(TipoDeAltura::try_from("  ALTURA INCLINADA\t"), Ok(TipoDeAltura::Inclinada));
    assert_eq!(
        TipoDeAltura::try_from("Altura Inclinada a Altimetria".to_string()),
        Ok(TipoDeAltura::AAltimetria)
    );
    assert_eq!(TipoDeAltura::try_from("altura"), Err(ParseError::Valor(TipoDeLinea::EH)));
    assert_eq!(TipoDeAltura::try_from("altura  vertical"), Err(ParseError::Valor(TipoDeLinea::EH)));
    assert_eq!(TipoDeAltura::try_from(String::new()), Err(ParseError::Valor(TipoDeLinea::EH)));
}

#[test]
fn time_window_from_week_and_milliseconds() {
    let gt = parse_gt_record("--GT,PN1,SW2205,ST0,EW2205,ET1000").unwrap();
    let start = Epoch::from_gregorian_utc(2022, 4, 9, 23, 59, 42, 0);
    assert_eq!(gt.occupy_point, "1");
    assert_eq!(gt.start, start.to_tai_duration().total_nanoseconds());
    assert_eq!(gt.end, gt.start + 1_000_000_000);
    assert_eq!(gt.start, 2_524_953_619_000_000_000 + 2205 * 7 * 86_400_000_000_000);
    let negative = parse_gt_record("--GT,PN1,SW-1,ST-1,EW0,ET0").unwrap();
    assert_eq!(negative.end, 2_524_953_619_000_000_000);
    assert_eq!(negative.start, 2_524_953_619_000_000_000 - 7 * 86_400_000_000_000 - 1_000_000);
    let limit = parse_gt_record("--GT,PN1,SW0,ST10000000000000000,EW0,ET-10000000000000000").unwrap();
    assert_eq!(limit.start - limit.end, 20_000_000_000_000_000_000_000);
    assert_eq!(
        parse_gt_record("--GT,PN1,SW0,ST10000000000000001,EW0,ET0"),
        Err(ParseError::Valor(TipoDeLinea::GT))
    );
}

#[test]
fn stations_that_differ_are_not_fused() {
    let gps = parse_gps_record("GPS,PN1,LA1,LN2,EL3,--p").unwrap();
    let gs = parse_gs_record("--GS,PN2,N 1,E 2,EL3").unwrap();
    let gt = parse_gt_record("--GT,PN2,SW2205,ST0,EW2205,ET1000").unwrap();
    let bp = parse_bp_record("BP,PN1,LA1,LN2,ET3,AG4,PA5,ATAPC,SRBASE").unwrap();
    assert_eq!(gps.clone().aplicar_gs(gs.clone()), Err(MergeError::EstacionDistinta));
    assert_eq!(gps.clone().aplicar_gt(gt), Err(MergeError::EstacionDistinta));
    assert_eq!(bp.aplicar_gs(gs), Err(MergeError::EstacionDistinta));
}

#[test]
fn elevations_within_and_beyond_the_tolerance() {
    let gps = parse_gps_record("GPS,PN1,LA1,LN2,EL3.000,--p").unwrap();
    let cerca = parse_gs_record("--GS,PN1,N 10,E 20,EL3.001").unwrap();
    let lejos = parse_gs_record("--GS,PN1,N 10,E 20,EL3.001000001").unwrap();
    let debajo = parse_gs_record("--GS,PN1,N 10,E 20,EL2.5").unwrap();
    let r = gps.clone().aplicar_gs(cerca).unwrap();
    assert_eq!(r.elevation, Decimal { nanos: 3_000_000_000 });
    assert_eq!(r.elevation_alt, None);
    assert_eq!(r.north, Some(Decimal { nanos: 10_000_000_000 }));
    assert_eq!(r.east, Some(Decimal { nanos: 20_000_000_000 }));
    let r = gps.clone().aplicar_gs(lejos).unwrap();
    assert_eq!(r.elevation, Decimal { nanos: 3_001_000_001 });
    assert_eq!(r.elevation_alt, Some(Decimal { nanos: 3_000_000_000 }));
    assert_eq!(r.north, Some(Decimal { nanos: 10_000_000_000 }));
    assert_eq!(r.latitude, gps.latitude);
    assert_eq!(r.note, gps.note);
    let r = gps.clone().aplicar_gs(debajo).unwrap();
    assert_eq!(r.elevation, Decimal { nanos: 2_500_000_000 });
    assert_eq!(r.elevation_alt, Some(Decimal { nanos: 3_000_000_000 }));

    let bp = parse_bp_record("BP,PN1,LA1,LN2,ET3,AG4,PA5,ATAPC,SRBASE").unwrap();
    let cerca = parse_gs_record("--GS,PN1,N 10,E 20,EL2.999").unwrap();
    let lejos = parse_gs_record("--GS,PN1,N 10,E 20,EL4").unwrap();
    let r = bp.clone().aplicar_gs(cerca).unwrap();
    assert_eq!(r.elevation, Decimal { nanos: 3_000_000_000 });
    assert_eq!(r.elevation_alt, Some(Decimal { nanos: 2_999_000_000 }));
    let r = bp.clone().aplicar_gs(lejos).unwrap();
    assert_eq!(r.elevation, Decimal { nanos: 4_000_000_000 });
    assert_eq!(r.elevation_alt, Some(Decimal { nanos: 3_000_000_000 }));
    assert_eq!(r.antenna_ground, bp.antenna_ground);
}

#[test]
fn records_that_are_equal() {
    let a = parse_antenna_type_record("--Antenna Type: [A],RA1m,SHMP2m,L13m,L24m,--").unwrap();
    let b = parse_antenna_type_record("--Antenna Type: [A],RA1.0m,SHMP2m,L13m,L24m,--x").unwrap();
    let c = parse_antenna_type_record("--Antenna Type: [B],RA1m,SHMP2m,L13m,L24m,--").unwrap();
    assert!(a.igual(&b));
    assert!(!a.igual(&c));
    assert!(!a.igual(&a.aplicar_ls(LSRecord { height_rod: Decimal { nanos: 1 } }).unwrap()));
    assert!(ATRecord::default().igual(&ATRecord::default()));
    let p = parse_bp_record("BP,PN1,LA1,LN2,ET3,AG4,PA5,ATAPC,SRBASE").unwrap();
    let q = parse_bp_record("BP,PN1,LA1,LN2,ET3,AG4,PA5.5,ATAPC,SRBASE").unwrap();
    assert!(p.igual(&p.clone()));
    assert!(!p.igual(&q));
    assert!(BPRecord::default().igual(&BPRecord::default()));
}
