//! Logs made of whole groups of fragments, and what the fusion makes of
//! them: every fragment is taken up, and one record is left for each group.

use vstd::prelude::*;
use vstd::arithmetic::div_mod::{lemma_mod_self_0, lemma_small_mod};
use crate::file_parser::VistaRecord;
use crate::post_parse_gps::{
    combinacion, consumido, estabilizado, fusion, pasada, se_fusiona, siguiente,
};
use crate::record_parser::{combinado, TRecord};
use crate::record_parser_gps::{
    at_con_eh, at_con_ls, bp_con_gs, gps_con_gs, gps_con_gt, EHRecord, LSRecord, VistaAT, VistaBP,
    VistaGPS, VistaGS, VistaGT,
};

verus! {

/// A run of one, two or three records that a pass of fusion deals with on
/// its own.
pub enum Tramo {
    Uno(VistaRecord),
    Dos(VistaRecord, VistaRecord),
    Tres(VistaRecord, VistaRecord, VistaRecord),
}

impl Tramo {
    /// The records of the run.
    pub open spec fn registros(self) -> Seq<VistaRecord> {
        match self {
            Tramo::Uno(a) => seq![a],
            Tramo::Dos(a, b) => seq![a, b],
            Tramo::Tres(a, b, c) => seq![a, b, c],
        }
    }

    /// The first record of the run.
    pub open spec fn primero(self) -> VistaRecord {
        match self {
            Tramo::Uno(a) => a,
            Tramo::Dos(a, _) => a,
            Tramo::Tres(a, _, _) => a,
        }
    }

    /// Whether a pass deals with the run on its own when the record `x`
    /// follows it: the first record fuses with the second where there is
    /// one, and the record that is left at the end does not fuse with `x`.
    pub open spec fn cerrado(self, x: VistaRecord) -> bool {
        match self {
            Tramo::Uno(a) => fusion(a, x) is None,
            Tramo::Dos(a, b) => fusion(a, b) is Some,
            Tramo::Tres(a, b, c) => fusion(a, b) is Some && fusion(c, x) is None,
        }
    }

    /// What a pass puts out for the run.
    pub open spec fn salida(self) -> Seq<VistaRecord> {
        match self {
            Tramo::Uno(a) => seq![a],
            Tramo::Dos(a, b) => seq![fusion(a, b)->0],
            Tramo::Tres(a, b, c) => seq![fusion(a, b)->0, c],
        }
    }
}

/// The records of the runs `ts`, one run after the other.
pub open spec fn aplanar(ts: Seq<Tramo>) -> Seq<VistaRecord>
    decreases ts.len(),
{
    if ts.len() == 0 {
        Seq::empty()
    } else {
        aplanar(ts.drop_last()) + ts.last().registros()
    }
}

/// What a pass puts out for the runs `ts`, one run after the other.
pub open spec fn salidas(ts: Seq<Tramo>) -> Seq<VistaRecord>
    decreases ts.len(),
{
    if ts.len() == 0 {
        Seq::empty()
    } else {
        salidas(ts.drop_last()) + ts.last().salida()
    }
}

/// Whether a pass deals with each of the runs `ts` on its own, whichever of
/// them follows it.
pub open spec fn cerrados(ts: Seq<Tramo>) -> bool {
    forall|i: int, j: int|
        0 <= i < ts.len() && 0 <= j < ts.len() ==> (#[trigger] ts[i]).cerrado(
            (#[trigger] ts[j]).primero(),
        )
}

proof fn lema_prefijo(ts: Seq<Tramo>, j: int)
    requires
        0 <= j <= ts.len(),
    ensures
        aplanar(ts.take(j)).len() <= aplanar(ts).len(),
        aplanar(ts.take(j)) == aplanar(ts).take(aplanar(ts.take(j)).len() as int),
        j < ts.len() ==> aplanar(ts.take(j)).len() < aplanar(ts).len(),
    decreases ts.len(),
{
    if j == ts.len() {
        assert(ts.take(j) =~= ts);
        assert(aplanar(ts).take(aplanar(ts).len() as int) =~= aplanar(ts));
    } else {
        lema_prefijo(ts.drop_last(), j);
        assert(ts.drop_last().take(j) =~= ts.take(j));
        let p = aplanar(ts.take(j)).len() as int;
        assert(aplanar(ts.drop_last()).take(p) =~= aplanar(ts).take(p));
    }
}

proof fn lema_un_tramo_mas(ts: Seq<Tramo>, j: int)
    requires
        0 <= j < ts.len(),
    ensures
        aplanar(ts.take(j + 1)) == aplanar(ts.take(j)) + ts[j].registros(),
        salidas(ts.take(j + 1)) == salidas(ts.take(j)) + ts[j].salida(),
{
    assert(ts.take(j + 1).drop_last() =~= ts.take(j));
    assert(ts.take(j + 1).last() == ts[j]);
}

/// The records of the run at `j` stand in `aplanar(ts)` from the place where
/// the runs before it end.
proof fn lema_lugar_del_tramo(ts: Seq<Tramo>, j: int)
    requires
        0 <= j < ts.len(),
    ensures
        ({
            let rs = aplanar(ts);
            let p = aplanar(ts.take(j)).len() as int;
            let t = ts[j].registros();
            &&& p + t.len() <= rs.len()
            &&& p + t.len() == aplanar(ts.take(j + 1)).len()
            &&& forall|i: int| 0 <= i < t.len() ==> rs[p + i] == #[trigger] t[i]
            &&& rs[p] == ts[j].primero()
            &&& (j + 1 < ts.len() ==> p + t.len() < rs.len())
            &&& (j + 1 == ts.len() ==> p + t.len() == rs.len())
        }),
{
    let rs = aplanar(ts);
    let p = aplanar(ts.take(j)).len() as int;
    let t = ts[j].registros();
    lema_un_tramo_mas(ts, j);
    lema_prefijo(ts, j + 1);
    let q = aplanar(ts.take(j + 1)).len() as int;
    assert(q == p + t.len());
    assert forall|i: int| 0 <= i < t.len() implies rs[p + i] == #[trigger] t[i] by {
        assert(rs.take(q)[p + i] == rs[p + i]);
        assert((aplanar(ts.take(j)) + t)[p + i] == t[i]);
    }
    assert(rs[p + 0] == t[0]);
    if j + 1 == ts.len() {
        assert(ts.take(j + 1) =~= ts);
    }
}

proof fn lema_siguiente(n: int, i: int)
    requires
        0 <= i < n,
    ensures
        i + 1 < n ==> siguiente(n, i) == i + 1,
        i + 1 == n ==> siguiente(n, i) == 0,
{
    if i + 1 < n {
        lemma_small_mod((i + 1) as nat, n as nat);
    } else {
        lemma_mod_self_0(n);
    }
}

proof fn lema_paso_sin_fusion(rs: Seq<VistaRecord>, p: int, a: VistaRecord)
    requires
        0 <= p < rs.len(),
        rs[p] == a,
        !consumido(rs, p),
        fusion(a, rs[siguiente(rs.len() as int, p)]) is None,
    ensures
        pasada(rs, p + 1) == pasada(rs, p).push(a),
        !consumido(rs, p + 1),
{
    assert(!se_fusiona(rs, p));
}

proof fn lema_paso_con_fusion(rs: Seq<VistaRecord>, p: int, a: VistaRecord, b: VistaRecord)
    requires
        0 <= p,
        p + 1 < rs.len(),
        rs[p] == a,
        rs[p + 1] == b,
        !consumido(rs, p),
        fusion(a, b) is Some,
    ensures
        pasada(rs, p + 2) == pasada(rs, p).push(fusion(a, b)->0),
        !consumido(rs, p + 2),
{
    lema_siguiente(rs.len() as int, p);
    assert(se_fusiona(rs, p));
    assert(consumido(rs, p + 1));
    assert(!se_fusiona(rs, p + 1));
    assert(pasada(rs, p + 1) == pasada(rs, p).push(fusion(a, b)->0));
    assert(pasada(rs, p + 2) == pasada(rs, p + 1));
}

proof fn lema_paso_de_un_tramo(rs: Seq<VistaRecord>, p: int, t: Tramo)
    requires
        0 <= p,
        p + t.registros().len() <= rs.len(),
        forall|i: int| 0 <= i < t.registros().len() ==> rs[p + i] == #[trigger] t.registros()[i],
        !consumido(rs, p),
        t.cerrado(rs[siguiente(rs.len() as int, p + t.registros().len() - 1)]),
    ensures
        pasada(rs, p + t.registros().len()) == pasada(rs, p) + t.salida(),
        !consumido(rs, p + t.registros().len()),
{
    let regs = t.registros();
    match t {
        Tramo::Uno(a) => {
            assert(rs[p + 0] == regs[0]);
            lema_paso_sin_fusion(rs, p, a);
            assert(pasada(rs, p).push(a) =~= pasada(rs, p) + t.salida());
        },
        Tramo::Dos(a, b) => {
            assert(rs[p + 0] == regs[0] && rs[p + 1] == regs[1]);
            lema_paso_con_fusion(rs, p, a, b);
            assert(pasada(rs, p).push(fusion(a, b)->0) =~= pasada(rs, p) + t.salida());
        },
        Tramo::Tres(a, b, c) => {
            assert(rs[p + 0] == regs[0] && rs[p + 1] == regs[1] && rs[p + 2] == regs[2]);
            lema_paso_con_fusion(rs, p, a, b);
            lema_paso_sin_fusion(rs, p + 2, c);
            assert(pasada(rs, p).push(fusion(a, b)->0).push(c) =~= pasada(rs, p) + t.salida());
        },
    }
}

proof fn lema_pasada_hasta_el_tramo(ts: Seq<Tramo>, j: int)
    requires
        cerrados(ts),
        0 <= j <= ts.len(),
    ensures
        ({
            let rs = aplanar(ts);
            let p = aplanar(ts.take(j)).len() as int;
            &&& p <= rs.len()
            &&& pasada(rs, p) == salidas(ts.take(j))
            &&& !consumido(rs, p)
        }),
    decreases j,
{
    let rs = aplanar(ts);
    let n = rs.len() as int;
    if j == 0 {
        assert(ts.take(0) =~= Seq::<Tramo>::empty());
    } else {
        let k = j - 1;
        lema_pasada_hasta_el_tramo(ts, k);
        lema_lugar_del_tramo(ts, k);
        lema_lugar_del_tramo(ts, 0);
        lema_un_tramo_mas(ts, k);
        assert(ts.take(0) =~= Seq::<Tramo>::empty());
        let p = aplanar(ts.take(k)).len() as int;
        let t = ts[k];
        let fin = p + t.registros().len() - 1;
        // The record that follows the last one of the run opens a run.
        let x = rs[siguiente(n, fin)];
        lema_siguiente(n, fin);
        if k + 1 < ts.len() {
            lema_lugar_del_tramo(ts, k + 1);
            assert(x == ts[k + 1].primero());
        } else {
            assert(x == ts[0].primero());
        }
        assert(t.cerrado(x));
        lema_paso_de_un_tramo(rs, p, t);
    }
}

/// A pass over runs that it deals with one by one puts out, for each run in
/// turn, what it puts out for that run.
pub proof fn lema_pasada_por_tramos(ts: Seq<Tramo>)
    requires
        cerrados(ts),
    ensures
        combinacion(aplanar(ts)) == salidas(ts),
{
    lema_pasada_hasta_el_tramo(ts, ts.len() as int);
    assert(ts.take(ts.len() as int) =~= ts);
}

/// A whole group of fragments, in the order in which a log holds them.
pub enum Grupo {
    /// A point, its local position and its time window.
    Punto(VistaGPS, VistaGS, VistaGT),
    /// A base point and its local position.
    Base(VistaBP, VistaGS),
    /// An entered height, the antenna of a rover and its rod height.
    AntenaDeRover(EHRecord, VistaAT, LSRecord),
    /// An entered height and the antenna of a base.
    AntenaDeBase(EHRecord, VistaAT),
    /// A date and a time of day.
    Reloj((i32, u8, u8), (u8, u8, u8)),
}

impl Grupo {
    /// Whether the fragments of the group name one station.
    pub open spec fn bien_formado(self) -> bool {
        match self {
            Grupo::Punto(g, s, t) => g.occupy_point == s.occupy_point && g.occupy_point
                == t.occupy_point,
            Grupo::Base(b, s) => b.occupy_point == s.occupy_point,
            _ => true,
        }
    }

    /// The fragments of the group as the log holds them.
    pub open spec fn crudo(self) -> Tramo {
        match self {
            Grupo::Punto(g, s, t) => Tramo::Tres(
                VistaRecord::GPS(g),
                VistaRecord::GS(s),
                VistaRecord::GT(t),
            ),
            Grupo::Base(b, s) => Tramo::Dos(VistaRecord::BP(b), VistaRecord::GS(s)),
            Grupo::AntenaDeRover(eh, a, ls) => Tramo::Tres(
                VistaRecord::EH(eh),
                VistaRecord::AT(a),
                VistaRecord::LS(ls),
            ),
            Grupo::AntenaDeBase(eh, a) => Tramo::Dos(VistaRecord::EH(eh), VistaRecord::AT(a)),
            Grupo::Reloj(fecha, hora) => Tramo::Dos(
                VistaRecord::T(TRecord { date: Some(fecha), time: None, dt: None }),
                VistaRecord::T(TRecord { date: None, time: Some(hora), dt: None }),
            ),
        }
    }

    /// What is left of the group after one pass.
    pub open spec fn a_medias(self) -> Tramo {
        match self {
            Grupo::Punto(g, s, t) => Tramo::Dos(
                VistaRecord::GPS(gps_con_gs(g, s)),
                VistaRecord::GT(t),
            ),
            Grupo::AntenaDeRover(eh, a, ls) => Tramo::Dos(
                VistaRecord::AT(at_con_eh(a, eh)),
                VistaRecord::LS(ls),
            ),
            _ => Tramo::Uno(self.fundido()),
        }
    }

    /// The one record that the group becomes.
    pub open spec fn fundido(self) -> VistaRecord {
        match self {
            Grupo::Punto(g, s, t) => VistaRecord::GPS(gps_con_gt(gps_con_gs(g, s), t)),
            Grupo::Base(b, s) => VistaRecord::BP(bp_con_gs(b, s)),
            Grupo::AntenaDeRover(eh, a, ls) => VistaRecord::AT(at_con_ls(at_con_eh(a, eh), ls)),
            Grupo::AntenaDeBase(eh, a) => VistaRecord::AT(at_con_eh(a, eh)),
            Grupo::Reloj(fecha, hora) => VistaRecord::T(
                combinado(TRecord { date: Some(fecha), time: Some(hora), dt: None }),
            ),
        }
    }

    /// How many fragments of the group the fusion takes up.
    pub open spec fn fragmentos(self) -> nat {
        match self {
            Grupo::Punto(_, _, _) => 2,
            Grupo::Base(_, _) => 1,
            Grupo::AntenaDeRover(_, _, _) => 2,
            Grupo::AntenaDeBase(_, _) => 1,
            Grupo::Reloj(_, _) => 1,
        }
    }
}

/// The records of a log that holds the groups `gs`, one after the other.
pub open spec fn registros_de_grupos(gs: Seq<Grupo>) -> Seq<VistaRecord> {
    aplanar(gs.map_values(|g: Grupo| g.crudo()))
}

/// The one record of each of the groups `gs`.
pub open spec fn fundidos(gs: Seq<Grupo>) -> Seq<VistaRecord> {
    gs.map_values(|g: Grupo| g.fundido())
}

/// How many fragments of the groups `gs` the fusion takes up.
pub open spec fn fragmentos_de(gs: Seq<Grupo>) -> nat
    decreases gs.len(),
{
    if gs.len() == 0 {
        0
    } else {
        fragmentos_de(gs.drop_last()) + gs.last().fragmentos()
    }
}

proof fn lema_salidas_de_crudos(gs: Seq<Grupo>)
    requires
        forall|i: int| 0 <= i < gs.len() ==> (#[trigger] gs[i]).bien_formado(),
    ensures
        salidas(gs.map_values(|g: Grupo| g.crudo())) == aplanar(
            gs.map_values(|g: Grupo| g.a_medias()),
        ),
        aplanar(gs.map_values(|g: Grupo| g.crudo())).len() == aplanar(
            gs.map_values(|g: Grupo| g.a_medias()),
        ).len() + gs.len(),
    decreases gs.len(),
{
    let crudos = gs.map_values(|g: Grupo| g.crudo());
    let medias = gs.map_values(|g: Grupo| g.a_medias());
    if gs.len() > 0 {
        lema_salidas_de_crudos(gs.drop_last());
        assert(crudos.drop_last() =~= gs.drop_last().map_values(|g: Grupo| g.crudo()));
        assert(medias.drop_last() =~= gs.drop_last().map_values(|g: Grupo| g.a_medias()));
        let g = gs.last();
        assert(g.bien_formado());
        assert(crudos.last() == g.crudo());
        assert(medias.last() == g.a_medias());
        assert(g.crudo().salida() =~= g.a_medias().registros());
    }
}

proof fn lema_salidas_de_medias(gs: Seq<Grupo>)
    requires
        forall|i: int| 0 <= i < gs.len() ==> (#[trigger] gs[i]).bien_formado(),
    ensures
        salidas(gs.map_values(|g: Grupo| g.a_medias())) == fundidos(gs),
        aplanar(gs.map_values(|g: Grupo| g.a_medias())).len() >= gs.len(),
    decreases gs.len(),
{
    let medias = gs.map_values(|g: Grupo| g.a_medias());
    if gs.len() > 0 {
        lema_salidas_de_medias(gs.drop_last());
        assert(medias.drop_last() =~= gs.drop_last().map_values(|g: Grupo| g.a_medias()));
        let g = gs.last();
        assert(g.bien_formado());
        assert(medias.last() == g.a_medias());
        assert(g.a_medias().salida() =~= seq![g.fundido()]);
        assert(fundidos(gs) =~= fundidos(gs.drop_last()) + seq![g.fundido()]);
    } else {
        assert(fundidos(gs) =~= Seq::<VistaRecord>::empty());
    }
}

proof fn lema_fundidos_como_tramos(gs: Seq<Grupo>)
    ensures
        aplanar(gs.map_values(|g: Grupo| Tramo::Uno(g.fundido()))) == fundidos(gs),
        salidas(gs.map_values(|g: Grupo| Tramo::Uno(g.fundido()))) == fundidos(gs),
    decreases gs.len(),
{
    let unos = gs.map_values(|g: Grupo| Tramo::Uno(g.fundido()));
    if gs.len() > 0 {
        lema_fundidos_como_tramos(gs.drop_last());
        assert(unos.drop_last() =~= gs.drop_last().map_values(
            |g: Grupo| Tramo::Uno(g.fundido()),
        ));
        let g = gs.last();
        assert(unos.last() == Tramo::Uno(g.fundido()));
        assert(fundidos(gs) =~= fundidos(gs.drop_last()) + seq![g.fundido()]);
    } else {
        assert(fundidos(gs) =~= Seq::<VistaRecord>::empty());
    }
}

proof fn lema_largo_de_crudos(gs: Seq<Grupo>)
    ensures
        registros_de_grupos(gs).len() == gs.len() + fragmentos_de(gs),
    decreases gs.len(),
{
    let crudos = gs.map_values(|g: Grupo| g.crudo());
    if gs.len() > 0 {
        lema_largo_de_crudos(gs.drop_last());
        assert(crudos.drop_last() =~= gs.drop_last().map_values(|g: Grupo| g.crudo()));
        assert(crudos.last() == gs.last().crudo());
    }
}

/// In a log made of whole groups of fragments, each group in order and
/// naming one station, every fragment is taken up: the passes of fusion
/// leave one record for each group, what the group becomes, and the number
/// of records that they take away is two for each point, one for each base
/// point, two for each antenna of a rover, one for each antenna of a base
/// and one for each reading of the clock. The first pass always takes
/// records away; no pass after the second does.
pub proof fn ley_conservacion(gs: Seq<Grupo>)
    requires
        forall|i: int| 0 <= i < gs.len() ==> (#[trigger] gs[i]).bien_formado(),
    ensures
        estabilizado(registros_de_grupos(gs)) == fundidos(gs),
        registros_de_grupos(gs).len() - estabilizado(registros_de_grupos(gs)).len()
            == fragmentos_de(gs),
        gs.len() > 0 ==> combinacion(registros_de_grupos(gs)).len() < registros_de_grupos(gs).len(),
        combinacion(combinacion(registros_de_grupos(gs))) == fundidos(gs),
        combinacion(fundidos(gs)) == fundidos(gs),
{
    let crudos = gs.map_values(|g: Grupo| g.crudo());
    let medias = gs.map_values(|g: Grupo| g.a_medias());
    let unos = gs.map_values(|g: Grupo| Tramo::Uno(g.fundido()));
    assert forall|i: int, j: int|
        0 <= i < gs.len() && 0 <= j < gs.len() implies (#[trigger] crudos[i]).cerrado(
        (#[trigger] crudos[j]).primero(),
    ) by {
        assert(gs[i].bien_formado() && gs[j].bien_formado());
    }
    assert forall|i: int, j: int|
        0 <= i < gs.len() && 0 <= j < gs.len() implies (#[trigger] medias[i]).cerrado(
        (#[trigger] medias[j]).primero(),
    ) by {
        assert(gs[i].bien_formado() && gs[j].bien_formado());
    }
    assert forall|i: int, j: int|
        0 <= i < gs.len() && 0 <= j < gs.len() implies (#[trigger] unos[i]).cerrado(
        (#[trigger] unos[j]).primero(),
    ) by {
        assert(gs[i].bien_formado() && gs[j].bien_formado());
    }
    lema_pasada_por_tramos(crudos);
    lema_pasada_por_tramos(medias);
    lema_pasada_por_tramos(unos);
    lema_salidas_de_crudos(gs);
    lema_salidas_de_medias(gs);
    lema_fundidos_como_tramos(gs);
    lema_largo_de_crudos(gs);
    let rs = registros_de_grupos(gs);
    let una = aplanar(medias);
    assert(combinacion(rs) == una);
    assert(combinacion(una) == fundidos(gs));
    assert(combinacion(fundidos(gs)) == fundidos(gs));
    assert(fundidos(gs).len() == gs.len());
    reveal_with_fuel(estabilizado, 4);
    if gs.len() == 0 {
        assert(rs =~= Seq::<VistaRecord>::empty());
        assert(fundidos(gs) =~= Seq::<VistaRecord>::empty());
    }
}

} // verus!
