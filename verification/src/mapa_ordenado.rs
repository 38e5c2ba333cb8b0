//! A map whose entries are held in the order of their keys, with a query for
//! the entry that was in effect at a given key.

use vstd::prelude::*;

verus! {

/// A key with a rank among the integers that tells it from every other key
/// and orders the keys.
pub trait Clave: Copy {
    /// The rank of the key.
    spec fn rango(self) -> int;

    /// Two keys of one rank are one key.
    proof fn rango_distingue(a: Self, b: Self)
        requires
            a.rango() == b.rango(),
        ensures
            a == b,
    ;

    /// Whether this key comes before `otra`.
    fn antes_de(&self, otra: &Self) -> (r: bool)
        ensures
            r == (self.rango() < otra.rango()),
    ;
}

impl Clave for i128 {
    open spec fn rango(self) -> int {
        self as int
    }

    proof fn rango_distingue(a: Self, b: Self) {
    }

    fn antes_de(&self, otra: &Self) -> (r: bool) {
        *self < *otra
    }
}

/// Whether the keys of `s` grow strictly from each entry to the next.
pub open spec fn creciente<K: Clave, V>(s: Seq<(K, V)>) -> bool {
    forall|i: int, j: int|
        0 <= i < j < s.len() ==> (#[trigger] s[i]).0.rango() < (#[trigger] s[j]).0.rango()
}

/// How many entries at the front of `s` have a key before `k`.
pub open spec fn cuantas_antes<K: Clave, V>(s: Seq<(K, V)>, k: K) -> int
    decreases s.len(),
{
    if s.len() > 0 && s[0].0.rango() < k.rango() {
        1 + cuantas_antes(s.drop_first(), k)
    } else {
        0
    }
}

/// How many entries at the front of `s` have a key that is `t` or before it.
pub open spec fn cuantas_hasta<K: Clave, V>(s: Seq<(K, V)>, t: K) -> int
    decreases s.len(),
{
    if s.len() > 0 && s[0].0.rango() <= t.rango() {
        1 + cuantas_hasta(s.drop_first(), t)
    } else {
        0
    }
}

/// The entries `s` with `v` put under the key `k`: in the place of the entry
/// that had that key, or else before the first entry with a later key.
pub open spec fn insertado<K: Clave, V>(s: Seq<(K, V)>, k: K, v: V) -> Seq<(K, V)> {
    let p = cuantas_antes(s, k);
    if p < s.len() && s[p].0.rango() == k.rango() {
        s.update(p, (k, v))
    } else {
        s.insert(p, (k, v))
    }
}

/// The entry of `s` that is in effect at `t`: the last of those at the front
/// whose key is `t` or before it.
pub open spec fn vigente_en<K: Clave, V>(s: Seq<(K, V)>, t: K) -> Option<(K, V)> {
    let p = cuantas_hasta(s, t);
    if p == 0 {
        None
    } else {
        Some(s[p - 1])
    }
}

pub proof fn lema_cuantas_antes<K: Clave, V>(s: Seq<(K, V)>, k: K)
    ensures
        0 <= cuantas_antes(s, k) <= s.len(),
        forall|i: int| 0 <= i < cuantas_antes(s, k) ==> (#[trigger] s[i]).0.rango() < k.rango(),
        cuantas_antes(s, k) < s.len() ==> s[cuantas_antes(s, k)].0.rango() >= k.rango(),
    decreases s.len(),
{
    if s.len() > 0 && s[0].0.rango() < k.rango() {
        lema_cuantas_antes(s.drop_first(), k);
        let p = cuantas_antes(s.drop_first(), k);
        assert forall|i: int| 0 <= i < p + 1 implies (#[trigger] s[i]).0.rango() < k.rango() by {
            if i > 0 {
                assert(s.drop_first()[i - 1] == s[i]);
            }
        }
        if p + 1 < s.len() {
            assert(s.drop_first()[p] == s[p + 1]);
        }
    }
}

pub proof fn lema_cuantas_hasta<K: Clave, V>(s: Seq<(K, V)>, t: K)
    ensures
        0 <= cuantas_hasta(s, t) <= s.len(),
        forall|i: int| 0 <= i < cuantas_hasta(s, t) ==> (#[trigger] s[i]).0.rango() <= t.rango(),
        cuantas_hasta(s, t) < s.len() ==> s[cuantas_hasta(s, t)].0.rango() > t.rango(),
    decreases s.len(),
{
    if s.len() > 0 && s[0].0.rango() <= t.rango() {
        lema_cuantas_hasta(s.drop_first(), t);
        let p = cuantas_hasta(s.drop_first(), t);
        assert forall|i: int| 0 <= i < p + 1 implies (#[trigger] s[i]).0.rango() <= t.rango() by {
            if i > 0 {
                assert(s.drop_first()[i - 1] == s[i]);
            }
        }
        if p + 1 < s.len() {
            assert(s.drop_first()[p] == s[p + 1]);
        }
    }
}

/// Putting an entry into entries in the order of their keys leaves them in
/// that order.
pub proof fn lema_insertado_creciente<K: Clave, V>(s: Seq<(K, V)>, k: K, v: V)
    requires
        creciente(s),
    ensures
        creciente(insertado(s, k, v)),
{
    lema_cuantas_antes(s, k);
    let p = cuantas_antes(s, k);
    let r = insertado(s, k, v);
    assert forall|i: int, j: int| 0 <= i < j < r.len() implies (#[trigger] r[i]).0.rango() < (
    #[trigger] r[j]).0.rango() by {
        if p < s.len() && s[p].0.rango() == k.rango() {
            assert(r[i].0.rango() == s[i].0.rango());
            assert(r[j].0.rango() == s[j].0.rango());
        } else {
            if j < p {
                assert(r[i] == s[i] && r[j] == s[j]);
            } else if j == p {
                assert(r[i] == s[i]);
            } else if i < p {
                assert(r[i] == s[i] && r[j] == s[j - 1]);
            } else if i == p {
                assert(r[j] == s[j - 1]);
                if j - 1 > p {
                    assert(s[p].0.rango() < s[j - 1].0.rango());
                }
            } else {
                assert(r[i] == s[i - 1] && r[j] == s[j - 1]);
            }
        }
    }
}

/// Putting `v` under the key `k` leaves `v` as the only entry of that key
/// and every entry of another key as it was: no entry is lost and none is
/// added but the new one.
pub proof fn lema_insertado<K: Clave, V>(s: Seq<(K, V)>, k: K, v: V)
    requires
        creciente(s),
    ensures
        forall|e: (K, V)|
            #[trigger] insertado(s, k, v).contains(e) <==> (e == (k, v) || (s.contains(e)
                && e.0.rango() != k.rango())),
        insertado(s, k, v).len() == s.len() + if exists|i: int|
            0 <= i < s.len() && (#[trigger] s[i]).0.rango() == k.rango() {
            0int
        } else {
            1int
        },
{
    lema_cuantas_antes(s, k);
    let p = cuantas_antes(s, k);
    let r = insertado(s, k, v);
    let reemplaza = p < s.len() && s[p].0.rango() == k.rango();
    assert forall|e: (K, V)| #[trigger] r.contains(e) implies (e == (k, v) || (s.contains(e)
        && e.0.rango() != k.rango())) by {
        let i = choose|i: int| 0 <= i < r.len() && r[i] == e;
        if i != p {
            let j = if reemplaza || i < p {
                i
            } else {
                i - 1
            };
            assert(r[i] == s[j]);
            if j < p {
                assert(s[j].0.rango() < k.rango());
            } else if j > p {
                assert(s[p].0.rango() < s[j].0.rango());
            }
        }
    }
    assert forall|e: (K, V)|
        (e == (k, v) || (s.contains(e) && e.0.rango() != k.rango())) implies #[trigger] r.contains(
        e,
    ) by {
        if e == (k, v) {
            assert(r[p] == e);
        } else {
            let j = choose|j: int| 0 <= j < s.len() && s[j] == e;
            let i = if reemplaza || j < p {
                j
            } else {
                j + 1
            };
            assert(r[i] == e);
        }
    }
    if reemplaza {
        assert(0 <= p < s.len() && s[p].0.rango() == k.rango());
    } else {
        assert forall|i: int| 0 <= i < s.len() implies (#[trigger] s[i]).0.rango() != k.rango() by {
            if i < p {
                assert(s[i].0.rango() < k.rango());
            } else if i > p {
                assert(s[p].0.rango() < s[i].0.rango());
            }
        }
    }
}

/// What the query for the entry in effect answers, for entries in the order
/// of their keys: the entry with the greatest key that is `t` or before it,
/// and none only where every key comes after `t`.
pub proof fn lema_vigente<K: Clave, V>(s: Seq<(K, V)>, t: K)
    requires
        creciente(s),
    ensures
        match vigente_en(s, t) {
            Some(e) => exists|i: int|
                0 <= i < s.len() && s[i] == e && e.0.rango() <= t.rango() && forall|j: int|
                    0 <= j < s.len() && (#[trigger] s[j]).0.rango() <= t.rango() ==> s[j].0.rango()
                        <= e.0.rango(),
            None => forall|j: int| 0 <= j < s.len() ==> (#[trigger] s[j]).0.rango() > t.rango(),
        },
{
    lema_cuantas_hasta(s, t);
    let p = cuantas_hasta(s, t);
    if p == 0 {
        assert forall|j: int| 0 <= j < s.len() implies (#[trigger] s[j]).0.rango() > t.rango() by {
            if j > 0 {
                assert(s[0].0.rango() < s[j].0.rango());
            }
        }
    } else {
        let e = s[p - 1];
        assert forall|j: int| 0 <= j < s.len() && (#[trigger] s[j]).0.rango() <= t.rango() implies s[j].0.rango()
            <= e.0.rango() by {
            if j >= p {
                if j > p {
                    assert(s[p].0.rango() < s[j].0.rango());
                }
            } else if j < p - 1 {
                assert(s[j].0.rango() < s[p - 1].0.rango());
            }
        }
        assert(0 <= p - 1 < s.len() && s[p - 1] == e);
    }
}

/// After an entry is put under the key `k`, the entry in effect at `t` is
/// the new one where `k` is the greatest key up to `t`, and the same as
/// before where `k` comes after `t`.
pub proof fn lema_vigente_tras_insertar<K: Clave, V>(s: Seq<(K, V)>, k: K, v: V, t: K)
    requires
        creciente(s),
    ensures
        k.rango() > t.rango() ==> vigente_en(insertado(s, k, v), t) == vigente_en(s, t),
        k.rango() <= t.rango() && (forall|j: int|
            0 <= j < s.len() && (#[trigger] s[j]).0.rango() <= t.rango() ==> s[j].0.rango()
                <= k.rango()) ==> vigente_en(insertado(s, k, v), t) == Some((k, v)),
{
    let r = insertado(s, k, v);
    lema_insertado_creciente(s, k, v);
    lema_cuantas_antes(s, k);
    lema_cuantas_hasta(s, t);
    lema_cuantas_hasta(r, t);
    let p = cuantas_antes(s, k);
    let q = cuantas_hasta(s, t);
    let q2 = cuantas_hasta(r, t);
    let reemplaza = p < s.len() && s[p].0.rango() == k.rango();
    if k.rango() > t.rango() {
        // Every entry up to `t` lies before position `p`, where `r` and `s` agree.
        if q > p {
            assert(s[p].0.rango() <= t.rango());
        }
        assert(q <= p);
        if q2 > p {
            assert(r[p].0.rango() <= t.rango());
        }
        assert(q2 <= p);
        if q2 < q {
            assert(r[q2] == s[q2]);
            assert(s[q2].0.rango() <= t.rango());
        }
        if q < q2 {
            assert(r[q] == s[q]);
            assert(r[q].0.rango() <= t.rango());
        }
        assert(q == q2);
        if q > 0 {
            assert(r[q - 1] == s[q - 1]);
        }
    } else if forall|j: int|
        0 <= j < s.len() && (#[trigger] s[j]).0.rango() <= t.rango() ==> s[j].0.rango()
            <= k.rango() {
        assert(r[p] == (k, v));
        if q2 <= p {
            assert(r[q2].0.rango() > t.rango());
            if q2 < p {
                assert(r[q2].0.rango() < r[p].0.rango());
            }
        }
        assert(q2 > p);
        if q2 > p + 1 {
            assert(r[p + 1].0.rango() <= t.rango());
            assert(r[p].0.rango() < r[p + 1].0.rango());
            if reemplaza {
                assert(r[p + 1] == s[p + 1]);
                assert(s[p + 1].0.rango() <= k.rango());
            } else {
                assert(r[p + 1] == s[p]);
                assert(s[p].0.rango() <= k.rango());
            }
        }
        assert(q2 == p + 1);
    }
}

/// The entries `s` with each value replaced by its view.
pub open spec fn vistas_de_entradas<K: Clave, V: View>(s: Seq<(K, V)>) -> Seq<(K, V::V)> {
    s.map_values(|e: (K, V)| (e.0, e.1@))
}

proof fn lema_vistas_y_cuentas<K: Clave, V: View>(s: Seq<(K, V)>, k: K)
    ensures
        cuantas_antes(vistas_de_entradas(s), k) == cuantas_antes(s, k),
        cuantas_hasta(vistas_de_entradas(s), k) == cuantas_hasta(s, k),
    decreases s.len(),
{
    if s.len() > 0 {
        assert(vistas_de_entradas(s).drop_first() =~= vistas_de_entradas(s.drop_first()));
        lema_vistas_y_cuentas(s.drop_first(), k);
    }
}

/// Putting a value into a map and then viewing the values gives what
/// putting its view into the viewed map gives.
pub proof fn lema_vistas_de_insertado<K: Clave, V: View>(s: Seq<(K, V)>, k: K, v: V)
    ensures
        vistas_de_entradas(insertado(s, k, v)) == insertado(vistas_de_entradas(s), k, v@),
{
    lema_vistas_y_cuentas(s, k);
    lema_cuantas_antes(s, k);
    assert(vistas_de_entradas(insertado(s, k, v)) =~= insertado(vistas_de_entradas(s), k, v@));
}

/// The entry in effect in the viewed map is the view of the entry in effect.
pub proof fn lema_vistas_de_vigente<K: Clave, V: View>(s: Seq<(K, V)>, t: K)
    ensures
        vigente_en(vistas_de_entradas(s), t) == (match vigente_en(s, t) {
            Some(e) => Some((e.0, e.1@)),
            None => None,
        }),
{
    lema_vistas_y_cuentas(s, t);
    lema_cuantas_hasta(s, t);
}

/// A map from keys to values that keeps its entries in the order of their
/// keys. Its view is the sequence of its entries in that order.
pub struct MapaOrdenado<K: Clave, V> {
    entradas: Vec<(K, V)>,
}

impl<K: Clave, V> View for MapaOrdenado<K, V> {
    type V = Seq<(K, V)>;

    closed spec fn view(&self) -> Seq<(K, V)> {
        self.entradas@
    }
}

impl<K: Clave, V> MapaOrdenado<K, V> {
    #[verifier::type_invariant]
    spec fn en_orden(self) -> bool {
        creciente(self.entradas@)
    }

    /// A map without entries.
    pub fn new() -> (m: Self)
        ensures
            m@ == Seq::<(K, V)>::empty(),
    {
        MapaOrdenado { entradas: Vec::new() }
    }

    /// The number of entries, which are in the order of their keys.
    pub fn len(&self) -> (n: usize)
        ensures
            n == self@.len(),
            creciente(self@),
    {
        proof {
            use_type_invariant(self);
        }
        self.entradas.len()
    }

    /// The entry at position `i`, counting in the order of the keys.
    pub fn entrada(&self, i: usize) -> (e: &(K, V))
        requires
            i < self@.len(),
        ensures
            *e == self@[i as int],
    {
        &self.entradas[i]
    }

    /// Puts `v` under the key `k`. An entry that was under that key is
    /// replaced.
    pub fn insert(&mut self, k: K, v: V)
        ensures
            final(self)@ == insertado(old(self)@, k, v),
            creciente(final(self)@),
    {
        proof {
            use_type_invariant(&*self);
            lema_insertado_creciente(self.entradas@, k, v);
        }
        let mut entradas: Vec<(K, V)> = Vec::new();
        core::mem::swap(&mut self.entradas, &mut entradas);
        let n = entradas.len();
        let mut p: usize = 0;
        assert(entradas@.subrange(0, n as int) =~= entradas@);
        while p < n && entradas[p].0.antes_de(&k)
            invariant
                p <= n == entradas.len(),
                cuantas_antes(entradas@, k) == p + cuantas_antes(
                    entradas@.subrange(p as int, n as int),
                    k,
                ),
            decreases n - p,
        {
            proof {
                assert(entradas@.subrange(p as int, n as int).drop_first() =~= entradas@.subrange(
                    p + 1,
                    n as int,
                ));
            }
            p += 1;
        }
        if p < n && !k.antes_de(&entradas[p].0) {
            entradas[p] = (k, v);
        } else {
            entradas.insert(p, (k, v));
        }
        core::mem::swap(&mut self.entradas, &mut entradas);
    }

    /// The entry in effect at `t`: the one with the greatest key that is
    /// `t` or before it.
    pub fn vigente(&self, t: &K) -> (r: Option<&(K, V)>)
        ensures
            match r {
                Some(e) => vigente_en(self@, *t) == Some(*e),
                None => vigente_en(self@, *t) is None,
            },
    {
        let n = self.entradas.len();
        let mut p: usize = 0;
        assert(self.entradas@.subrange(0, n as int) =~= self.entradas@);
        while p < n && !t.antes_de(&self.entradas[p].0)
            invariant
                p <= n == self.entradas.len(),
                cuantas_hasta(self.entradas@, *t) == p + cuantas_hasta(
                    self.entradas@.subrange(p as int, n as int),
                    *t,
                ),
            decreases n - p,
        {
            proof {
                assert(self.entradas@.subrange(p as int, n as int).drop_first()
                    =~= self.entradas@.subrange(p + 1, n as int));
            }
            p += 1;
        }
        if p == 0 {
            None
        } else {
            Some(&self.entradas[p - 1])
        }
    }
}

} // verus!
