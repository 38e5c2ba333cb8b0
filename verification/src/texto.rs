//! Text on sequences of characters: cutting, trimming and reading integers.
//!
//! Every function here works on `Vec<char>` and is specified over `Seq<char>`.

use vstd::prelude::*;

verus! {

/// `String::push` of std appends one character to the string.
pub assume_specification[ String::push ](s: &mut String, c: char)
    ensures
        final(s)@ == old(s)@.push(c),
;

/// The characters of `s`, in order.
pub fn caracteres(s: &str) -> (v: Vec<char>)
    ensures
        v@ == s@,
{
    let mut v: Vec<char> = Vec::new();
    for c in it: s.chars()
        invariant
            v@ == it.seq().take(it.index() as int),
            it.seq() == s@,
    {
        v.push(c);
    }
    v
}

/// The string made of the characters of `v`.
pub fn cadena(v: &Vec<char>) -> (s: String)
    ensures
        s@ == v@,
{
    let mut s = String::new();
    let mut i: usize = 0;
    while i < v.len()
        invariant
            i <= v.len(),
            s@ == v@.take(i as int),
        decreases v.len() - i,
    {
        s.push(v[i]);
        i += 1;
    }
    s
}

/// The characters of `s` from position `ini` up to, not including, `fin`.
pub fn tramo(s: &Vec<char>, ini: usize, fin: usize) -> (r: Vec<char>)
    requires
        ini <= fin <= s.len(),
    ensures
        r@ == s@.subrange(ini as int, fin as int),
{
    let mut r: Vec<char> = Vec::new();
    let mut i: usize = ini;
    while i < fin
        invariant
            ini <= i <= fin <= s.len(),
            r@ == s@.subrange(ini as int, i as int),
        decreases fin - i,
    {
        r.push(s[i]);
        i += 1;
    }
    r
}

/// Whether `v` holds exactly the characters of `lit`.
pub fn es(v: &Vec<char>, lit: &str) -> (b: bool)
    ensures
        b == (v@ == lit@),
{
    let l = caracteres(lit);
    if l.len() != v.len() {
        return false;
    }
    let mut i: usize = 0;
    while i < v.len()
        invariant
            i <= v.len(),
            l.len() == v.len(),
            l@ == lit@,
            forall|j: int| 0 <= j < i ==> v@[j] == l@[j],
        decreases v.len() - i,
    {
        if v[i] != l[i] {
            return false;
        }
        i += 1;
    }
    assert(v@ =~= l@);
    true
}

/// The views of a list of character vectors.
pub open spec fn vistas(v: Seq<Vec<char>>) -> Seq<Seq<char>> {
    v.map_values(|x: Vec<char>| x@)
}

/// Each view in `vistas(v)` is the view of the vector at its position.
pub proof fn lema_vistas(v: Seq<Vec<char>>)
    ensures
        vistas(v).len() == v.len(),
        forall|i: int| 0 <= i < v.len() ==> (#[trigger] v[i])@ == vistas(v)[i],
{
}

/// The fields of `s` when it is cut at every occurrence of `sep`. There is
/// always at least one field; two separators in a row hold an empty field.
pub open spec fn campos(s: Seq<char>, sep: char) -> Seq<Seq<char>>
    decreases s.len(),
{
    if s.len() == 0 {
        seq![Seq::<char>::empty()]
    } else {
        let previos = campos(s.drop_last(), sep);
        if s.last() == sep {
            previos.push(Seq::<char>::empty())
        } else {
            previos.drop_last().push(previos.last().push(s.last()))
        }
    }
}

/// The fields `fs` put together again, with `sep` between each two.
pub open spec fn unidos(fs: Seq<Seq<char>>, sep: char) -> Seq<char>
    decreases fs.len(),
{
    if fs.len() == 0 {
        Seq::empty()
    } else if fs.len() == 1 {
        fs[0]
    } else {
        unidos(fs.drop_last(), sep).push(sep) + fs.last()
    }
}

/// The fields of a text are at least one, none of them holds the separator,
/// and put together again with the separator they are the text.
pub proof fn lema_campos(s: Seq<char>, sep: char)
    ensures
        campos(s, sep).len() >= 1,
        forall|i: int, j: int|
            0 <= i < campos(s, sep).len() && 0 <= j < campos(s, sep)[i].len() ==> campos(
                s,
                sep,
            )[i][j] != sep,
        unidos(campos(s, sep), sep) == s,
    decreases s.len(),
{
    let fs = campos(s, sep);
    if s.len() == 0 {
        assert(unidos(fs, sep) =~= s);
    } else {
        let previos = campos(s.drop_last(), sep);
        lema_campos(s.drop_last(), sep);
        if s.last() == sep {
            assert(fs.drop_last() =~= previos);
            assert(unidos(fs, sep) =~= s.drop_last().push(sep));
            assert(s.drop_last().push(sep) =~= s);
        } else {
            let ultimo = previos.last().push(s.last());
            assert(fs.last() == ultimo);
            assert(fs.drop_last() =~= previos.drop_last());
            if previos.len() == 1 {
                assert(unidos(previos, sep) == previos[0]);
                assert(unidos(fs, sep) =~= s.drop_last().push(s.last()));
            } else {
                assert(unidos(previos, sep) == unidos(previos.drop_last(), sep).push(sep)
                    + previos.last());
                assert(unidos(fs, sep) =~= (unidos(previos.drop_last(), sep).push(sep)
                    + previos.last()).push(s.last()));
            }
            assert(s.drop_last().push(s.last()) =~= s);
            assert forall|i: int, j: int|
                0 <= i < fs.len() && 0 <= j < fs[i].len() implies fs[i][j] != sep by {
                if i < fs.len() - 1 {
                    assert(fs[i] == previos[i]);
                } else if j < previos.last().len() {
                    assert(fs[i][j] == previos.last()[j]);
                }
            }
        }
    }
}

/// Cuts `s` at every occurrence of `sep`.
pub fn dividir(s: &Vec<char>, sep: char) -> (r: Vec<Vec<char>>)
    ensures
        vistas(r@) == campos(s@, sep),
        r@.len() >= 1,
{
    let mut hechos: Vec<Vec<char>> = Vec::new();
    let mut actual: Vec<char> = Vec::new();
    let mut i: usize = 0;
    while i < s.len()
        invariant
            i <= s.len(),
            vistas(hechos@).push(actual@) == campos(s@.take(i as int), sep),
        decreases s.len() - i,
    {
        let c = s[i];
        proof {
            assert(s@.take(i + 1).drop_last() =~= s@.take(i as int));
            assert(s@.take(i + 1).last() == c);
        }
        if c == sep {
            proof {
                assert(vistas(hechos@.push(actual)) =~= vistas(hechos@).push(actual@));
            }
            hechos.push(actual);
            actual = Vec::new();
        } else {
            proof {
                let previos = vistas(hechos@).push(actual@);
                assert(previos.drop_last() =~= vistas(hechos@));
            }
            actual.push(c);
        }
        i += 1;
    }
    proof {
        assert(s@.take(s.len() as int) =~= s@);
        assert(vistas(hechos@.push(actual)) =~= vistas(hechos@).push(actual@));
    }
    hechos.push(actual);
    hechos
}

/// Whether `s` begins with the characters of `p`.
pub open spec fn empieza_con(s: Seq<char>, p: Seq<char>) -> bool {
    p.len() <= s.len() && s.subrange(0, p.len() as int) == p
}

/// Whether `s` ends with the characters of `p`.
pub open spec fn termina_con(s: Seq<char>, p: Seq<char>) -> bool {
    p.len() <= s.len() && s.subrange(s.len() - p.len(), s.len() as int) == p
}

/// `s` without any leading repetitions of `p`: `p` is taken off the front for
/// as long as `s` begins with it.
pub open spec fn sin_prefijo(s: Seq<char>, p: Seq<char>) -> Seq<char>
    decreases s.len(),
{
    if p.len() > 0 && empieza_con(s, p) {
        sin_prefijo(s.subrange(p.len() as int, s.len() as int), p)
    } else {
        s
    }
}

/// `s` without any trailing repetitions of `p`.
pub open spec fn sin_sufijo(s: Seq<char>, p: Seq<char>) -> Seq<char>
    decreases s.len(),
{
    if p.len() > 0 && termina_con(s, p) {
        sin_sufijo(s.subrange(0, s.len() - p.len()), p)
    } else {
        s
    }
}

/// Whether `s`, read from position `desde`, continues with the characters of `p`.
fn sigue_con(s: &Vec<char>, desde: usize, hasta: usize, p: &Vec<char>) -> (b: bool)
    requires
        desde <= hasta <= s.len(),
    ensures
        b == empieza_con(s@.subrange(desde as int, hasta as int), p@),
{
    if p.len() > hasta - desde {
        return false;
    }
    let ghost resto = s@.subrange(desde as int, hasta as int);
    let mut i: usize = 0;
    while i < p.len()
        invariant
            i <= p.len() <= hasta - desde,
            desde <= hasta <= s.len(),
            resto == s@.subrange(desde as int, hasta as int),
            forall|j: int| 0 <= j < i ==> resto[j] == p@[j],
        decreases p.len() - i,
    {
        if s[desde + i] != p[i] {
            assert(resto.subrange(0, p.len() as int)[i as int] != p@[i as int]);
            return false;
        }
        i += 1;
    }
    assert(resto.subrange(0, p.len() as int) =~= p@);
    true
}

/// Whether `s` begins with the characters of `p`.
pub fn comienza_con(s: &Vec<char>, p: &str) -> (b: bool)
    ensures
        b == empieza_con(s@, p@),
{
    let patron = caracteres(p);
    assert(s@.subrange(0, s.len() as int) =~= s@);
    sigue_con(s, 0, s.len(), &patron)
}

/// Takes every leading repetition of `p` off `s`.
pub fn quitar_prefijo(s: &Vec<char>, p: &str) -> (r: Vec<char>)
    ensures
        r@ == sin_prefijo(s@, p@),
{
    let patron = caracteres(p);
    let n = s.len();
    let mut i: usize = 0;
    assert(s@.subrange(0, n as int) =~= s@);
    if patron.len() == 0 {
        return tramo(s, 0, n);
    }
    while sigue_con(s, i, n, &patron)
        invariant
            i <= n == s.len(),
            patron@ == p@,
            p@.len() > 0,
            sin_prefijo(s@, p@) == sin_prefijo(s@.subrange(i as int, n as int), p@),
        decreases n - i,
    {
        proof {
            let resto = s@.subrange(i as int, n as int);
            assert(resto.subrange(p@.len() as int, resto.len() as int) =~= s@.subrange(
                i + p@.len(),
                n as int,
            ));
        }
        i += patron.len();
    }
    tramo(s, i, n)
}

/// Whether `s`, read up to position `hasta`, ends with the characters of `p`.
fn acaba_con(s: &Vec<char>, hasta: usize, p: &Vec<char>) -> (b: bool)
    requires
        hasta <= s.len(),
    ensures
        b == termina_con(s@.subrange(0, hasta as int), p@),
{
    if p.len() > hasta {
        return false;
    }
    let ghost cabeza = s@.subrange(0, hasta as int);
    let base: usize = hasta - p.len();
    let mut i: usize = 0;
    while i < p.len()
        invariant
            i <= p.len() <= hasta <= s.len(),
            base == hasta - p.len(),
            cabeza == s@.subrange(0, hasta as int),
            forall|j: int| 0 <= j < i ==> cabeza[base + j] == p@[j],
        decreases p.len() - i,
    {
        if s[base + i] != p[i] {
            assert(cabeza.subrange(cabeza.len() - p.len(), cabeza.len() as int)[i as int]
                != p@[i as int]);
            return false;
        }
        i += 1;
    }
    assert(cabeza.subrange(cabeza.len() - p.len(), cabeza.len() as int) =~= p@);
    true
}

/// Takes every trailing repetition of `p` off `s`.
pub fn quitar_sufijo(s: &Vec<char>, p: &str) -> (r: Vec<char>)
    ensures
        r@ == sin_sufijo(s@, p@),
{
    let patron = caracteres(p);
    let mut n: usize = s.len();
    assert(s@.subrange(0, n as int) =~= s@);
    if patron.len() == 0 {
        return tramo(s, 0, n);
    }
    while acaba_con(s, n, &patron)
        invariant
            n <= s.len(),
            patron@ == p@,
            p@.len() > 0,
            sin_sufijo(s@, p@) == sin_sufijo(s@.subrange(0, n as int), p@),
        decreases n,
    {
        proof {
            let cabeza = s@.subrange(0, n as int);
            assert(cabeza.subrange(0, cabeza.len() - p@.len()) =~= s@.subrange(
                0,
                n - p@.len(),
            ));
        }
        n -= patron.len();
    }
    tramo(s, 0, n)
}

/// `s` without the suffix `p`, when `s` ends with it.
pub open spec fn sin_un_sufijo(s: Seq<char>, p: Seq<char>) -> Option<Seq<char>> {
    if termina_con(s, p) {
        Some(s.subrange(0, s.len() - p.len()))
    } else {
        None
    }
}

/// Takes the suffix `p` off `s` once, or answers `None` when `s` does not end with it.
pub fn quitar_un_sufijo(s: &Vec<char>, p: &str) -> (r: Option<Vec<char>>)
    ensures
        match r {
            Some(v) => sin_un_sufijo(s@, p@) == Some(v@),
            None => sin_un_sufijo(s@, p@) is None,
        },
{
    let patron = caracteres(p);
    assert(s@.subrange(0, s.len() as int) =~= s@);
    if acaba_con(s, s.len(), &patron) {
        Some(tramo(s, 0, s.len() - patron.len()))
    } else {
        None
    }
}

/// The characters that count as white space when a text is trimmed.
pub open spec fn es_blanco(c: char) -> bool {
    let n = c as u32;
    ||| 0x09 <= n <= 0x0d
    ||| n == 0x20
    ||| n == 0x85
    ||| n == 0xa0
    ||| n == 0x1680
    ||| 0x2000 <= n <= 0x200a
    ||| n == 0x2028
    ||| n == 0x2029
    ||| n == 0x202f
    ||| n == 0x205f
    ||| n == 0x3000
}

/// Whether `c` counts as white space.
pub fn blanco(c: char) -> (b: bool)
    ensures
        b == es_blanco(c),
{
    let n: u32 = c as u32;
    (0x09 <= n && n <= 0x0d) || n == 0x20 || n == 0x85 || n == 0xa0 || n == 0x1680 || (0x2000 <= n
        && n <= 0x200a) || n == 0x2028 || n == 0x2029 || n == 0x202f || n == 0x205f || n == 0x3000
}

/// `s` without its leading white space.
pub open spec fn sin_blancos_delante(s: Seq<char>) -> Seq<char>
    decreases s.len(),
{
    if s.len() > 0 && es_blanco(s[0]) {
        sin_blancos_delante(s.drop_first())
    } else {
        s
    }
}

/// `s` without its trailing white space.
pub open spec fn sin_blancos_detras(s: Seq<char>) -> Seq<char>
    decreases s.len(),
{
    if s.len() > 0 && es_blanco(s.last()) {
        sin_blancos_detras(s.drop_last())
    } else {
        s
    }
}

/// `s` without white space at either end.
pub open spec fn recortar(s: Seq<char>) -> Seq<char> {
    sin_blancos_detras(sin_blancos_delante(s))
}

/// Trims the white space at both ends of `s`.
pub fn recortado(s: &Vec<char>) -> (r: Vec<char>)
    ensures
        r@ == recortar(s@),
{
    let n = s.len();
    let mut i: usize = 0;
    assert(s@.subrange(0, n as int) =~= s@);
    while i < n && blanco(s[i])
        invariant
            i <= n == s.len(),
            sin_blancos_delante(s@) == sin_blancos_delante(s@.subrange(i as int, n as int)),
        decreases n - i,
    {
        proof {
            assert(s@.subrange(i as int, n as int).drop_first() =~= s@.subrange(i + 1, n as int));
        }
        i += 1;
    }
    let mut j: usize = n;
    while j > i && blanco(s[j - 1])
        invariant
            i <= j <= n == s.len(),
            sin_blancos_delante(s@) == s@.subrange(i as int, n as int),
            recortar(s@) == sin_blancos_detras(s@.subrange(i as int, j as int)),
        decreases j,
    {
        proof {
            assert(s@.subrange(i as int, j as int).drop_last() =~= s@.subrange(i as int, j - 1));
        }
        j -= 1;
    }
    tramo(s, i, j)
}

/// Whether `c` is one of the ten decimal digits.
pub open spec fn es_digito(c: char) -> bool {
    0x30 <= c as u32 <= 0x39
}

/// Whether `s` holds decimal digits only.
pub open spec fn solo_digitos(s: Seq<char>) -> bool {
    forall|i: int| 0 <= i < s.len() ==> es_digito(#[trigger] s[i])
}

/// The number that the digits of `s` write in base ten; 0 for no digits.
pub open spec fn valor_digitos(s: Seq<char>) -> int
    decreases s.len(),
{
    if s.len() == 0 {
        0
    } else {
        valor_digitos(s.drop_last()) * 10 + (s.last() as u32 - 0x30)
    }
}

/// More digits never write a smaller number.
pub proof fn lema_valor_digitos_crece(s: Seq<char>, k: int)
    requires
        solo_digitos(s),
        0 <= k <= s.len(),
    ensures
        0 <= valor_digitos(s.take(k)) <= valor_digitos(s),
    decreases s.len() - k,
{
    if k == s.len() {
        assert(s.take(k) =~= s);
        lema_valor_digitos_no_negativo(s);
    } else {
        lema_valor_digitos_crece(s, k + 1);
        assert(s.take(k + 1).drop_last() =~= s.take(k));
        assert(es_digito(s[k]));
        assert(s.take(k + 1).last() == s[k]);
        lema_valor_digitos_no_negativo(s.take(k));
    }
}

pub proof fn lema_valor_digitos_no_negativo(s: Seq<char>)
    requires
        solo_digitos(s),
    ensures
        0 <= valor_digitos(s),
    decreases s.len(),
{
    if s.len() > 0 {
        assert(es_digito(s.last()));
        assert forall|i: int| 0 <= i < s.drop_last().len() implies es_digito(
            #[trigger] s.drop_last()[i],
        ) by {
            assert(s.drop_last()[i] == s[i]);
        }
        lema_valor_digitos_no_negativo(s.drop_last());
    }
}

/// The number written by the digits of `s`, when `s` holds digits only and
/// the number is at most `tope`.
pub open spec fn digitos_hasta(s: Seq<char>, tope: int) -> Option<int> {
    if solo_digitos(s) && valor_digitos(s) <= tope {
        Some(valor_digitos(s))
    } else {
        None
    }
}

/// Reads `s` as a run of digits that writes a number not above `tope`.
pub fn leer_digitos(s: &Vec<char>, tope: u64) -> (r: Option<u64>)
    ensures
        match r {
            Some(v) => digitos_hasta(s@, tope as int) == Some(v as int),
            None => digitos_hasta(s@, tope as int) is None,
        },
{
    let mut acc: u128 = 0;
    let mut i: usize = 0;
    while i < s.len()
        invariant
            i <= s.len(),
            solo_digitos(s@.take(i as int)),
            acc == valor_digitos(s@.take(i as int)),
            acc <= tope,
        decreases s.len() - i,
    {
        let c: u32 = s[i] as u32;
        if c < 0x30 || c > 0x39 {
            assert(!es_digito(s@[i as int]));
            return None;
        }
        proof {
            assert(s@.take(i + 1).drop_last() =~= s@.take(i as int));
            assert(s@.take(i + 1).last() == s@[i as int]);
            assert forall|j: int| 0 <= j < i + 1 implies es_digito(
                #[trigger] s@.take(i + 1)[j],
            ) by {
                if j < i {
                    assert(s@.take(i as int)[j] == s@.take(i + 1)[j]);
                }
            }
        }
        let d: u128 = (c - 0x30) as u128;
        let nuevo: u128 = acc * 10 + d;
        if nuevo > tope as u128 {
            proof {
                if solo_digitos(s@) {
                    lema_valor_digitos_crece(s@, i + 1);
                }
            }
            return None;
        }
        acc = nuevo;
        i += 1;
    }
    assert(s@.take(s.len() as int) =~= s@);
    Some(acc as u64)
}

/// The integer that `s` writes: an optional sign, then one digit or more.
/// A `-` is read only where `con_menos` allows it.
pub open spec fn entero(s: Seq<char>, con_menos: bool) -> Option<int> {
    if s.len() > 0 && s[0] == '-' {
        if con_menos && s.len() > 1 && solo_digitos(s.drop_first()) {
            Some(-valor_digitos(s.drop_first()))
        } else {
            None
        }
    } else if s.len() > 0 && s[0] == '+' {
        if s.len() > 1 && solo_digitos(s.drop_first()) {
            Some(valor_digitos(s.drop_first()))
        } else {
            None
        }
    } else if s.len() > 0 && solo_digitos(s) {
        Some(valor_digitos(s))
    } else {
        None
    }
}

/// `v` when it lies between `min` and `max`; nothing else.
pub open spec fn entre(v: Option<int>, min: int, max: int) -> Option<int> {
    match v {
        Some(x) => if min <= x <= max {
            Some(x)
        } else {
            None
        },
        None => None,
    }
}

/// Reads `s` as an integer between `min` and `max`.
fn leer_entero(s: &Vec<char>, min: i64, max: i64) -> (r: Option<i64>)
    requires
        min <= 0 <= max,
    ensures
        match r {
            Some(v) => entre(entero(s@, min < 0), min as int, max as int) == Some(v as int),
            None => entre(entero(s@, min < 0), min as int, max as int) is None,
        },
{
    if s.len() == 0 {
        return None;
    }
    let primero = s[0];
    if primero == '-' {
        if min == 0 || s.len() == 1 {
            return None;
        }
        let resto = tramo(s, 1, s.len());
        assert(resto@ =~= s@.drop_first());
        let tope: u64 = if min == i64::MIN {
            0x8000_0000_0000_0000
        } else {
            (-min) as u64
        };
        match leer_digitos(&resto, tope) {
            Some(m) => {
                let v: i128 = -(m as i128);
                Some(v as i64)
            },
            None => None,
        }
    } else if primero == '+' {
        if s.len() == 1 {
            return None;
        }
        let resto = tramo(s, 1, s.len());
        assert(resto@ =~= s@.drop_first());
        match leer_digitos(&resto, max as u64) {
            Some(m) => Some(m as i64),
            None => None,
        }
    } else {
        match leer_digitos(s, max as u64) {
            Some(m) => Some(m as i64),
            None => None,
        }
    }
}

/// Reads `s` as a signed integer of 64 bits.
pub fn leer_i64(s: &Vec<char>) -> (r: Option<i64>)
    ensures
        match r {
            Some(v) => entre(entero(s@, true), i64::MIN as int, i64::MAX as int) == Some(v as int),
            None => entre(entero(s@, true), i64::MIN as int, i64::MAX as int) is None,
        },
{
    leer_entero(s, i64::MIN, i64::MAX)
}

/// Reads `s` as a signed integer of 32 bits.
pub fn leer_i32(s: &Vec<char>) -> (r: Option<i32>)
    ensures
        match r {
            Some(v) => entre(entero(s@, true), i32::MIN as int, i32::MAX as int) == Some(v as int),
            None => entre(entero(s@, true), i32::MIN as int, i32::MAX as int) is None,
        },
{
    match leer_entero(s, i32::MIN as i64, i32::MAX as i64) {
        Some(v) => Some(v as i32),
        None => None,
    }
}

/// Reads `s` as an unsigned integer of 32 bits.
pub fn leer_u32(s: &Vec<char>) -> (r: Option<u32>)
    ensures
        match r {
            Some(v) => entre(entero(s@, false), 0, u32::MAX as int) == Some(v as int),
            None => entre(entero(s@, false), 0, u32::MAX as int) is None,
        },
{
    match leer_entero(s, 0, u32::MAX as i64) {
        Some(v) => Some(v as u32),
        None => None,
    }
}

/// Reads `s` as an unsigned integer of 8 bits.
pub fn leer_u8(s: &Vec<char>) -> (r: Option<u8>)
    ensures
        match r {
            Some(v) => entre(entero(s@, false), 0, u8::MAX as int) == Some(v as int),
            None => entre(entero(s@, false), 0, u8::MAX as int) is None,
        },
{
    match leer_entero(s, 0, u8::MAX as i64) {
        Some(v) => Some(v as u8),
        None => None,
    }
}

/// Whether every character of `s` is a decimal digit.
pub fn son_digitos(s: &Vec<char>) -> (b: bool)
    ensures
        b == solo_digitos(s@),
{
    let mut i: usize = 0;
    while i < s.len()
        invariant
            i <= s.len(),
            forall|j: int| 0 <= j < i ==> es_digito(#[trigger] s@[j]),
        decreases s.len() - i,
    {
        let c: u32 = s[i] as u32;
        if c < 0x30 || c > 0x39 {
            assert(!es_digito(s@[i as int]));
            return false;
        }
        i += 1;
    }
    true
}

/// `l` without the carriage return that may end it.
pub open spec fn sin_retorno(l: Seq<char>) -> Seq<char> {
    if l.len() > 0 && l.last() == '\r' {
        l.drop_last()
    } else {
        l
    }
}

/// The lines of `s`. A line ends at a line feed, and a carriage return just
/// before that line feed belongs to the ending. What follows the last line
/// feed is a line too, unless it is empty.
pub open spec fn lineas(s: Seq<char>) -> Seq<Seq<char>> {
    let c = campos(s, '\n');
    let cerradas = Seq::new((c.len() - 1) as nat, |i: int| sin_retorno(c[i]));
    if c.last().len() == 0 {
        cerradas
    } else {
        cerradas.push(c.last())
    }
}

/// Cuts `s` into its lines.
pub fn separar_lineas(s: &Vec<char>) -> (r: Vec<Vec<char>>)
    ensures
        vistas(r@) == lineas(s@),
{
    let c = dividir(s, '\n');
    let n = c.len() - 1;
    let mut r: Vec<Vec<char>> = Vec::new();
    let mut i: usize = 0;
    while i < n
        invariant
            i <= n == c.len() - 1,
            vistas(c@) == campos(s@, '\n'),
            r@.len() == i,
            forall|j: int| 0 <= j < i ==> (#[trigger] r@[j])@ == sin_retorno(c@[j]@),
        decreases n - i,
    {
        let l = &c[i];
        let m = l.len();
        let linea = if m > 0 && l[m - 1] == '\r' {
            tramo(l, 0, m - 1)
        } else {
            tramo(l, 0, m)
        };
        assert(l@.subrange(0, m as int) =~= l@);
        r.push(linea);
        i += 1;
    }
    proof {
        assert forall|j: int| 0 <= j < n implies (#[trigger] r@[j])@ == sin_retorno(
            campos(s@, '\n')[j],
        ) by {
            assert(vistas(c@)[j] == c@[j]@);
        }
        assert(vistas(c@).last() == c@[n as int]@);
    }
    let ultima = &c[n];
    if ultima.len() > 0 {
        let copia = tramo(ultima, 0, ultima.len());
        assert(ultima@.subrange(0, ultima.len() as int) =~= ultima@);
        r.push(copia);
        assert(vistas(r@) =~= lineas(s@));
    } else {
        assert(vistas(r@) =~= lineas(s@));
    }
    r
}

/// The position of the first `c` in `s`.
pub open spec fn primera(s: Seq<char>, c: char) -> Option<int>
    decreases s.len(),
{
    if s.len() == 0 {
        None
    } else if s[0] == c {
        Some(0)
    } else {
        match primera(s.drop_first(), c) {
            Some(i) => Some(i + 1),
            None => None,
        }
    }
}

/// `primera` answers the least position that holds `c`, and `None` only when
/// no position does.
pub proof fn lema_primera(s: Seq<char>, c: char)
    ensures
        match primera(s, c) {
            Some(i) => 0 <= i < s.len() && s[i] == c && forall|j: int|
                0 <= j < i ==> s[j] != c,
            None => forall|j: int| 0 <= j < s.len() ==> s[j] != c,
        },
    decreases s.len(),
{
    if s.len() > 0 && s[0] != c {
        lema_primera(s.drop_first(), c);
        match primera(s.drop_first(), c) {
            Some(i) => {
                assert forall|j: int| 0 <= j < i + 1 implies s[j] != c by {
                    if j > 0 {
                        assert(s.drop_first()[j - 1] == s[j]);
                    }
                }
            },
            None => {
                assert forall|j: int| 0 <= j < s.len() implies s[j] != c by {
                    if j > 0 {
                        assert(s.drop_first()[j - 1] == s[j]);
                    }
                }
            },
        }
    }
}

/// `s` cut in two at its first `c`, which belongs to neither part.
pub open spec fn partido(s: Seq<char>, c: char) -> Option<(Seq<char>, Seq<char>)> {
    match primera(s, c) {
        Some(i) => Some((s.subrange(0, i), s.subrange(i + 1, s.len() as int))),
        None => None,
    }
}

/// Cuts `s` in two at its first `c`.
pub fn partir(s: &Vec<char>, c: char) -> (r: Option<(Vec<char>, Vec<char>)>)
    ensures
        match r {
            Some((a, b)) => partido(s@, c) == Some((a@, b@)),
            None => partido(s@, c) is None,
        },
{
    let mut i: usize = 0;
    while i < s.len()
        invariant
            i <= s.len(),
            forall|j: int| 0 <= j < i ==> s@[j] != c,
        decreases s.len() - i,
    {
        if s[i] == c {
            proof {
                lema_primera(s@, c);
                let k = primera(s@, c)->0;
                assert(primera(s@, c) is Some);
                if k < i {
                    assert(s@[k] != c);
                }
                if k > i {
                    assert(s@[i as int] != c);
                }
            }
            let a = tramo(s, 0, i);
            let b = tramo(s, i + 1, s.len());
            return Some((a, b));
        }
        i += 1;
    }
    proof {
        lema_primera(s@, c);
    }
    None
}

/// The text of `campo` without the leading repetitions of `prefijo`.
pub fn cadena_tras(campo: &Vec<char>, prefijo: &str) -> (r: String)
    ensures
        r@ == sin_prefijo(campo@, prefijo@),
{
    let resto = quitar_prefijo(campo, prefijo);
    cadena(&resto)
}

/// The lower-case letter of an upper-case letter of the Latin alphabet; any
/// other character is left as it is.
pub open spec fn minuscula(c: char) -> char {
    if 0x41 <= c as u32 <= 0x5a {
        ((c as u32 + 0x20) as u8) as char
    } else {
        c
    }
}

/// `s` with its upper-case Latin letters turned into lower case.
pub open spec fn minusculas(s: Seq<char>) -> Seq<char> {
    Seq::new(s.len(), |i: int| minuscula(s[i]))
}

/// Turns the upper-case Latin letters of `s` into lower case.
pub fn en_minusculas(s: &Vec<char>) -> (r: Vec<char>)
    ensures
        r@ == minusculas(s@),
{
    let mut r: Vec<char> = Vec::new();
    let mut i: usize = 0;
    while i < s.len()
        invariant
            i <= s.len(),
            r@.len() == i,
            forall|j: int| 0 <= j < i ==> r@[j] == minuscula(s@[j]),
        decreases s.len() - i,
    {
        let c = s[i];
        let n: u32 = c as u32;
        if 0x41 <= n && n <= 0x5a {
            let b: u8 = (n + 0x20) as u8;
            r.push(b as char);
        } else {
            r.push(c);
        }
        i += 1;
    }
    assert(r@ =~= minusculas(s@));
    r
}

} // verus!
