//! Decimal numbers in fixed point, nine places after the point.

use vstd::prelude::*;
use crate::texto::{
    campos, dividir, entre, leer_digitos, quitar_prefijo, sin_prefijo, solo_digitos, son_digitos,
    tramo, valor_digitos, vistas,
};

verus! {

/// A decimal number held as a whole count of billionths.
#[derive(Clone, Copy, Debug, PartialEq, Eq, PartialOrd, Ord, Hash, Structural)]
pub struct Decimal {
    /// The number, multiplied by 10^9.
    pub nanos: i64,
}

/// Ten to the power `n`.
pub open spec fn pot10(n: nat) -> int
    decreases n,
{
    if n == 0 {
        1
    } else {
        10 * pot10((n - 1) as nat)
    }
}

/// The billionths written by the digits `f` that follow a decimal point.
/// Digits after the ninth are dropped.
pub open spec fn fraccion(f: Seq<char>) -> int {
    if f.len() >= 9 {
        valor_digitos(f.take(9))
    } else {
        valor_digitos(f) * pot10((9 - f.len()) as nat)
    }
}

/// The billionths written by an unsigned decimal numeral: digits, with at
/// most one point among them, and at least one digit in all.
pub open spec fn magnitud(cuerpo: Seq<char>) -> Option<int> {
    let p = campos(cuerpo, '.');
    if p.len() == 1 {
        if p[0].len() > 0 && solo_digitos(p[0]) {
            Some(valor_digitos(p[0]) * 1_000_000_000)
        } else {
            None
        }
    } else if p.len() == 2 {
        if p[0].len() + p[1].len() > 0 && solo_digitos(p[0]) && solo_digitos(p[1]) {
            Some(valor_digitos(p[0]) * 1_000_000_000 + fraccion(p[1]))
        } else {
            None
        }
    } else {
        None
    }
}

/// The billionths written by a decimal numeral with an optional sign.
pub open spec fn decimal(s: Seq<char>) -> Option<int> {
    if s.len() > 0 && s[0] == '-' {
        match magnitud(s.drop_first()) {
            Some(m) => Some(-m),
            None => None,
        }
    } else if s.len() > 0 && s[0] == '+' {
        magnitud(s.drop_first())
    } else {
        magnitud(s)
    }
}

/// The decimal that `s` writes, when it fits the type.
pub open spec fn decimal_en_rango(s: Seq<char>) -> Option<Decimal> {
    match entre(decimal(s), i64::MIN as int, i64::MAX as int) {
        Some(v) => Some(Decimal { nanos: v as i64 }),
        None => None,
    }
}

proof fn lema_pot10(n: nat)
    requires
        n <= 9,
    ensures
        n == 0 ==> pot10(n) == 1,
        n == 1 ==> pot10(n) == 10,
        n == 2 ==> pot10(n) == 100,
        n == 3 ==> pot10(n) == 1_000,
        n == 4 ==> pot10(n) == 10_000,
        n == 5 ==> pot10(n) == 100_000,
        n == 6 ==> pot10(n) == 1_000_000,
        n == 7 ==> pot10(n) == 10_000_000,
        n == 8 ==> pot10(n) == 100_000_000,
        n == 9 ==> pot10(n) == 1_000_000_000,
{
    reveal_with_fuel(pot10, 11);
}

fn potencia_de_diez(n: usize) -> (r: u64)
    requires
        n <= 9,
    ensures
        r == pot10(n as nat),
        1 <= r <= 1_000_000_000,
{
    proof {
        lema_pot10(n as nat);
    }
    if n == 0 {
        1
    } else if n == 1 {
        10
    } else if n == 2 {
        100
    } else if n == 3 {
        1_000
    } else if n == 4 {
        10_000
    } else if n == 5 {
        100_000
    } else if n == 6 {
        1_000_000
    } else if n == 7 {
        10_000_000
    } else if n == 8 {
        100_000_000
    } else {
        1_000_000_000
    }
}

/// Reads the digits after the point.
fn leer_fraccion(f: &Vec<char>) -> (r: Option<u64>)
    ensures
        match r {
            Some(v) => solo_digitos(f@) && v == fraccion(f@) && v <= 999_999_999,
            None => !solo_digitos(f@),
        },
{
    if !son_digitos(f) {
        return None;
    }
    let k: usize = if f.len() >= 9 {
        9
    } else {
        f.len()
    };
    let primeros = tramo(f, 0, k);
    proof {
        assert(primeros@ =~= f@.take(k as int));
        assert forall|i: int| 0 <= i < primeros@.len() implies crate::texto::es_digito(
            #[trigger] primeros@[i],
        ) by {
            assert(primeros@[i] == f@[i]);
        }
        lema_cota_de_digitos(primeros@);
        lema_pot10(k as nat);
        lema_pot10((9 - k) as nat);
        if k < 9 {
            assert(primeros@ =~= f@);
        }
    }
    match leer_digitos(&primeros, 999_999_999) {
        Some(v) => {
            let escala = potencia_de_diez(9 - k);
            proof {
                assert(v < pot10(k as nat));
                assert(v * escala <= 999_999_999) by (nonlinear_arith)
                    requires
                        v < pot10(k as nat),
                        escala == pot10((9 - k) as nat),
                        pot10(k as nat) * pot10((9 - k) as nat) == 1_000_000_000,
                        escala >= 1,
                        v >= 0,
                ;
            }
            Some(v * escala)
        },
        None => {
            proof {
                assert(valor_digitos(primeros@) < pot10(k as nat));
            }
            None
        },
    }
}

/// A run of `k` digits writes a number below ten to the power `k`.
pub proof fn lema_cota_de_digitos(s: Seq<char>)
    requires
        solo_digitos(s),
    ensures
        0 <= valor_digitos(s) < pot10(s.len()),
    decreases s.len(),
{
    if s.len() > 0 {
        assert(crate::texto::es_digito(s.last()));
        assert forall|i: int| 0 <= i < s.drop_last().len() implies crate::texto::es_digito(
            #[trigger] s.drop_last()[i],
        ) by {
            assert(s.drop_last()[i] == s[i]);
        }
        lema_cota_de_digitos(s.drop_last());
    }
}

/// Reads an unsigned decimal numeral, in billionths.
fn leer_magnitud(cuerpo: &Vec<char>) -> (r: Option<u128>)
    ensures
        match r {
            Some(m) => magnitud(cuerpo@) == Some(m as int) && m <= 9_223_372_036_999_999_999,
            None => match magnitud(cuerpo@) {
                Some(m) => m > 9_223_372_036_999_999_999,
                None => true,
            },
        },
{
    let p = dividir(cuerpo, '.');
    proof {
        assert(vistas(p@)[0] == p@[0]@);
        if p.len() >= 2 {
            assert(vistas(p@)[1] == p@[1]@);
        }
    }
    if p.len() == 1 {
        if p[0].len() == 0 {
            return None;
        }
        match leer_digitos(&p[0], 9_223_372_036) {
            Some(e) => Some(e as u128 * 1_000_000_000),
            None => None,
        }
    } else if p.len() == 2 {
        if p[0].len() == 0 && p[1].len() == 0 {
            return None;
        }
        let entera = leer_digitos(&p[0], 9_223_372_036);
        let decimales = leer_fraccion(&p[1]);
        match (entera, decimales) {
            (Some(e), Some(f)) => Some(e as u128 * 1_000_000_000 + f as u128),
            _ => None,
        }
    } else {
        None
    }
}

impl Decimal {
    /// The decimal that counts `nanos` billionths.
    pub fn de_nanos(nanos: i64) -> (d: Decimal)
        ensures
            d.nanos == nanos,
    {
        Decimal { nanos }
    }

    /// Zero.
    pub fn cero() -> (d: Decimal)
        ensures
            d.nanos == 0,
    {
        Decimal { nanos: 0 }
    }

    /// Reads a decimal numeral: an optional sign, then digits with at most
    /// one point among them. Digits after the ninth decimal place are
    /// dropped. A numeral too large for the type is not read.
    pub fn leer(s: &Vec<char>) -> (r: Option<Decimal>)
        ensures
            r == decimal_en_rango(s@),
    {
        let n = s.len();
        if n > 0 && s[0] == '-' {
            let cuerpo = tramo(s, 1, n);
            assert(cuerpo@ =~= s@.drop_first());
            match leer_magnitud(&cuerpo) {
                Some(m) => {
                    if m <= 0x8000_0000_0000_0000 {
                        let v: i128 = -(m as i128);
                        Some(Decimal { nanos: v as i64 })
                    } else {
                        None
                    }
                },
                None => None,
            }
        } else {
            let cuerpo = if n > 0 && s[0] == '+' {
                tramo(s, 1, n)
            } else {
                tramo(s, 0, n)
            };
            proof {
                if n > 0 && s[0] == '+' {
                    assert(cuerpo@ =~= s@.drop_first());
                } else {
                    assert(cuerpo@ =~= s@);
                }
            }
            match leer_magnitud(&cuerpo) {
                Some(m) => {
                    if m <= 0x7fff_ffff_ffff_ffff {
                        Some(Decimal { nanos: m as i64 })
                    } else {
                        None
                    }
                },
                None => None,
            }
        }
    }

    /// Reads the decimal numeral that follows the leading repetitions of
    /// `prefijo` in `campo`.
    pub fn leer_tras(campo: &Vec<char>, prefijo: &str) -> (r: Option<Decimal>)
        ensures
            r == decimal_en_rango(sin_prefijo(campo@, prefijo@)),
    {
        let resto = quitar_prefijo(campo, prefijo);
        Decimal::leer(&resto)
    }

    /// Whether this number and `otro` lie further apart than `tolerancia`.
    pub fn dista_mas_de(self, otro: Decimal, tolerancia: Decimal) -> (b: bool)
        ensures
            b == dista_mas(self, otro, tolerancia),
    {
        let d: i128 = self.nanos as i128 - otro.nanos as i128;
        let t: i128 = tolerancia.nanos as i128;
        d > t || -d > t
    }
}

/// Whether `a` and `b` lie further apart than `tolerancia`.
pub open spec fn dista_mas(a: Decimal, b: Decimal, tolerancia: Decimal) -> bool {
    a.nanos - b.nanos > tolerancia.nanos || b.nanos - a.nanos > tolerancia.nanos
}

} // verus!
