use rw5_file_parser::decimal::Decimal;
use rw5_file_parser::texto::{
    cadena, cadena_tras, caracteres, comienza_con, dividir, en_minusculas, es, leer_digitos,
    leer_i32, leer_i64, leer_u32, leer_u8, partir, quitar_prefijo, quitar_sufijo,
    quitar_un_sufijo, recortado, separar_lineas, son_digitos, tramo,
};

fn c(s: &str) -> Vec<char> {
    s.chars().collect()
}

fn d(s: &str) -> Option<i64> {
    Decimal::leer(&c(s)).map(|x| x.nanos)
}

#[test]
fn characters_and_strings() {
    assert_eq!(caracteres("añil"), vec!['a', 'ñ', 'i', 'l']);
    assert_eq!(caracteres(""), Vec::<char>::new());
    assert_eq!(cadena(&c("añil")), "añil");
    assert_eq!(cadena(&Vec::new()), "");
    assert_eq!(tramo(&c("abcdef"), 2, 4), c("cd"));
    assert_eq!(tramo(&c("abcdef"), 6, 6), c(""));
    assert!(es(&c("GPS"), "GPS"));
    assert!(!es(&c("GPS"), "GPs"));
    assert!(!es(&c("GPS"), "GP"));
    assert!(es(&c(""), ""));
}

#[test]
fn fields_between_separators() {
    assert_eq!(dividir(&c("a,b,,c"), ','), vec![c("a"), c("b"), c(""), c("c")]);
    assert_eq!(dividir(&c(""), ','), vec![c("")]);
    assert_eq!(dividir(&c(","), ','), vec![c(""), c("")]);
    assert_eq!(dividir(&c("a,"), ','), vec![c("a"), c("")]);
    assert_eq!(dividir(&c("abc"), ','), vec![c("abc")]);
    assert_eq!(partir(&c("04-12-2022"), '-'), Some((c("04"), c("12-2022"))));
    assert_eq!(partir(&c("-x"), '-'), Some((c(""), c("x"))));
    assert_eq!(partir(&c("x-"), '-'), Some((c("x"), c(""))));
    assert_eq!(partir(&c("2022"), '-'), None);
    assert_eq!(partir(&c(""), '-'), None);
}

#[test]
fn lines_of_a_text() {
    assert_eq!(separar_lineas(&c("")), Vec::<Vec<char>>::new());
    assert_eq!(separar_lineas(&c("a")), vec![c("a")]);
    assert_eq!(separar_lineas(&c("a\n")), vec![c("a")]);
    assert_eq!(separar_lineas(&c("a\r\nb")), vec![c("a"), c("b")]);
    assert_eq!(separar_lineas(&c("a\n\nb\n")), vec![c("a"), c(""), c("b")]);
    assert_eq!(separar_lineas(&c("a\rb\r")), vec![c("a\rb\r")]);
    assert_eq!(separar_lineas(&c("\n")), vec![c("")]);
    assert_eq!(separar_lineas(&c("a\r\r\n")), vec![c("a\r")]);
    let texto = "uno\r\ndos\n\ntres\r";
    let esperadas: Vec<Vec<char>> = texto.lines().map(|l| c(l)).collect();
    assert_eq!(separar_lineas(&c(texto)), esperadas);
}

#[test]
fn prefixes_and_suffixes() {
    assert_eq!(quitar_prefijo(&c("PNPN1"), "PN"), c("1"));
    assert_eq!(quitar_prefijo(&c("PN"), "PN"), c(""));
    assert_eq!(quitar_prefijo(&c("Px"), "PN"), c("Px"));
    assert_eq!(quitar_prefijo(&c("xPN1"), "PN"), c("xPN1"));
    assert_eq!(quitar_prefijo(&c("abc"), ""), c("abc"));
    assert_eq!(quitar_sufijo(&c("0.5mm"), "m"), c("0.5"));
    assert_eq!(quitar_sufijo(&c("m"), "m"), c(""));
    assert_eq!(quitar_sufijo(&c("0.5 m "), "m"), c("0.5 m "));
    assert_eq!(quitar_sufijo(&c("abc"), ""), c("abc"));
    assert_eq!(quitar_un_sufijo(&c("1.5 m"), " m"), Some(c("1.5")));
    assert_eq!(quitar_un_sufijo(&c("1.5 m m"), " m"), Some(c("1.5 m")));
    assert_eq!(quitar_un_sufijo(&c("1.5m"), " m"), None);
    assert_eq!(quitar_un_sufijo(&c("m"), " m"), None);
    assert_eq!(quitar_un_sufijo(&c("abc"), ""), Some(c("abc")));
    assert_eq!(cadena_tras(&c("NMSAMPLE"), "NM"), "SAMPLE");
    assert!(comienza_con(&c("--x"), "--"));
    assert!(comienza_con(&c("--"), "--"));
    assert!(!comienza_con(&c("-"), "--"));
    assert!(comienza_con(&c(""), ""));
}

#[test]
fn white_space_at_the_ends() {
    assert_eq!(recortado(&c("  a b \t\r\n")), c("a b"));
    assert_eq!(recortado(&c("\u{a0}\u{3000}x\u{2003}\u{85}")), c("x"));
    assert_eq!(recortado(&c("   ")), c(""));
    assert_eq!(recortado(&c("")), c(""));
    assert_eq!(recortado(&c("\u{200b}x")), c("\u{200b}x"));
    let texto = " \u{1680}\u{2028}\u{2029}\u{202f}\u{205f}a\u{b}\u{c}";
    assert_eq!(recortado(&c(texto)), c(texto.trim()));
    assert_eq!(en_minusculas(&c("Altura VERTICAL ñÑ[`@{")), c("altura vertical ñÑ[`@{"));
}

#[test]
fn integers_as_the_types_read_them() {
    assert_eq!(leer_i64(&c("0")), Some(0));
    assert_eq!(leer_i64(&c("-0")), Some(0));
    assert_eq!(leer_i64(&c("+42")), Some(42));
    assert_eq!(leer_i64(&c("007")), Some(7));
    assert_eq!(leer_i64(&c("9223372036854775807")), Some(i64::MAX));
    assert_eq!(leer_i64(&c("9223372036854775808")), None);
    assert_eq!(leer_i64(&c("-9223372036854775808")), Some(i64::MIN));
    assert_eq!(leer_i64(&c("-9223372036854775809")), None);
    assert_eq!(leer_i64(&c("00000000000000000000000000000000000001")), Some(1));
    assert_eq!(leer_i64(&c("99999999999999999999999999999999999999x")), None);
    assert_eq!(leer_i64(&c("")), None);
    assert_eq!(leer_i64(&c("+")), None);
    assert_eq!(leer_i64(&c("-")), None);
    assert_eq!(leer_i64(&c("--1")), None);
    assert_eq!(leer_i64(&c(" 1")), None);
    assert_eq!(leer_i64(&c("1.0")), None);
    assert_eq!(leer_i64(&c("١")), None);
    assert_eq!(leer_i32(&c("-2147483648")), Some(i32::MIN));
    assert_eq!(leer_i32(&c("2147483648")), None);
    assert_eq!(leer_u32(&c("4294967295")), Some(u32::MAX));
    assert_eq!(leer_u32(&c("4294967296")), None);
    assert_eq!(leer_u32(&c("-0")), None);
    assert_eq!(leer_u32(&c("+0")), Some(0));
    assert_eq!(leer_u8(&c("255")), Some(255));
    assert_eq!(leer_u8(&c("256")), None);
    assert_eq!(leer_u8(&c("-1")), None);
    assert_eq!(leer_digitos(&c("123"), 123), Some(123));
    assert_eq!(leer_digitos(&c("124"), 123), None);
    assert_eq!(leer_digitos(&c(""), 123), Some(0));
    assert_eq!(leer_digitos(&c("+1"), 123), None);
    assert!(son_digitos(&c("0123456789")));
    assert!(son_digitos(&c("")));
    assert!(!son_digitos(&c("12a")));
    for s in ["0", "-0", "+42", "007", "9223372036854775808", "", "+", "-", " 1", "1 ", "1.0"] {
        assert_eq!(leer_i64(&c(s)), s.parse::<i64>().ok());
        assert_eq!(leer_u32(&c(s)), s.parse::<u32>().ok());
        assert_eq!(leer_u8(&c(s)), s.parse::<u8>().ok());
    }
}

#[test]
fn decimals_in_billionths() {
    assert_eq!(d("0"), Some(0));
    assert_eq!(d("1"), Some(1_000_000_000));
    assert_eq!(d("-35.02154763"), Some(-35_021_547_630));
    assert_eq!(d("6123201.7319"), Some(6_123_201_731_900_000));
    assert_eq!(d("+1.5"), Some(1_500_000_000));
    assert_eq!(d("1."), Some(1_000_000_000));
    assert_eq!(d(".5"), Some(500_000_000));
    assert_eq!(d("-.5"), Some(-500_000_000));
    assert_eq!(d("-0.0"), Some(0));
    assert_eq!(d("0.123456789"), Some(123_456_789));
    assert_eq!(d("0.1234567899"), Some(123_456_789));
    assert_eq!(d("-0.1234567899"), Some(-123_456_789));
    assert_eq!(d("0.0000000009"), Some(0));
    assert_eq!(d("000001.10"), Some(1_100_000_000));
    assert_eq!(d("9223372036.854775807"), Some(i64::MAX));
    assert_eq!(d("9223372036.854775808"), None);
    assert_eq!(d("9223372036.8547758079"), Some(i64::MAX));
    assert_eq!(d("-9223372036.854775808"), Some(i64::MIN));
    assert_eq!(d("-9223372036.854775809"), None);
    assert_eq!(d("9223372037"), None);
    assert_eq!(d("99999999999999999999999999"), None);
    assert_eq!(d(""), None);
    assert_eq!(d("."), None);
    assert_eq!(d("+"), None);
    assert_eq!(d("-."), None);
    assert_eq!(d("1.2.3"), None);
    assert_eq!(d("1e3"), None);
    assert_eq!(d("1,5"), None);
    assert_eq!(d(" 1"), None);
    assert_eq!(d("1.5x"), None);
    assert_eq!(d("0.1234567890x"), None);
    assert_eq!(d("+-1"), None);
    assert_eq!(d("inf"), None);
    assert_eq!(Decimal::leer_tras(&c("EL1.244110"), "EL"), Some(Decimal { nanos: 1_244_110_000 }));
    assert_eq!(Decimal::leer_tras(&c("N 5000.00000"), "N "), Some(Decimal::de_nanos(5_000_000_000_000)));
    assert_eq!(Decimal::leer_tras(&c("EL"), "EL"), None);
    assert_eq!(Decimal::cero(), Decimal { nanos: 0 });
}

#[test]
fn decimals_agree_with_floating_point() {
    for s in ["-35.02154763", "6123201.7319", "0.0044", "25.55", "1.244110", "504615.1011"] {
        let nanos = d(s).unwrap();
        assert_eq!(nanos as f64 / 1e9, s.parse::<f64>().unwrap());
    }
}

#[test]
fn decimals_apart() {
    let a = Decimal { nanos: 3_000_000_000 };
    let b = Decimal { nanos: 3_001_000_000 };
    let c = Decimal { nanos: 3_001_000_001 };
    let t = Decimal { nanos: 1_000_000 };
    assert!(!a.dista_mas_de(b, t));
    assert!(!b.dista_mas_de(a, t));
    assert!(a.dista_mas_de(c, t));
    assert!(c.dista_mas_de(a, t));
    assert!(!a.dista_mas_de(a, Decimal::cero()));
    assert!(Decimal { nanos: i64::MIN }.dista_mas_de(Decimal { nanos: i64::MAX }, Decimal { nanos: i64::MAX }));
}
