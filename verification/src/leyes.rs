//! What holds of the fusion of records and of the consolidation of points,
//! whatever the records are.

use vstd::prelude::*;
use crate::epoca::Epoca;
use crate::file_parser::VistaRecord;
use crate::mapa_ordenado::vigente_en;
use crate::post_parse_gps::{
    combinacion, consumido, consumido_de_tres, consumidos, estabilizado, fusion, fusion_de_tres,
    inicio_de, lema_largo_de_pasada, pasada, pasada_de_tres, paso_de_puntos, se_fusiona,
    se_fusiona_de_tres, siguiente, EstadoDePuntos, MotivoDeSalteo, Salteo,
};
use crate::record_parser::{combinado, TRecord};
use crate::record_parser_gps::{
    at_con_eh, at_con_ls, bp_con_gs, gps_con_gs, gps_con_gt, EHRecord, LSRecord, VistaAT, VistaBP,
    VistaGPS, VistaGS, VistaGT,
};

verus! {

proof fn lema_nada_consumido(rs: Seq<VistaRecord>, k: int)
    requires
        0 <= k <= rs.len(),
        consumidos(rs, k) == 0,
    ensures
        forall|i: int| 0 <= i < k ==> !consumido(rs, i),
        pasada(rs, k).len() == k,
    decreases k,
{
    if k > 0 {
        lema_nada_consumido(rs, k - 1);
    }
}

proof fn lema_pasada_sin_fusiones(rs: Seq<VistaRecord>, k: int)
    requires
        0 <= k <= rs.len(),
        forall|i: int| 0 <= i < k ==> !se_fusiona(rs, i),
    ensures
        pasada(rs, k) == rs.take(k),
    decreases k,
{
    if k > 0 {
        lema_pasada_sin_fusiones(rs, k - 1);
        if k - 1 > 0 {
            assert(!se_fusiona(rs, k - 2));
        }
        assert(rs.take(k) =~= rs.take(k - 1).push(rs[k - 1]));
    } else {
        assert(rs.take(0) =~= Seq::<VistaRecord>::empty());
    }
}

/// A pass of fusion over records that are fully combined, which is to say
/// that the pass does not change their number, hands them back as they are.
/// The last record is set apart: it may still fuse with the first, which a
/// pass does not take away, so the law asks that this fusion, where there is
/// one, leaves the last record as it is.
pub proof fn ley_pasada_sobre_combinados(rs: Seq<VistaRecord>)
    requires
        combinacion(rs).len() == rs.len(),
        rs.len() > 0 ==> fusion(rs.last(), rs[0]) is None || fusion(rs.last(), rs[0]) == Some(
            rs.last(),
        ),
    ensures
        combinacion(rs) == rs,
{
    let n = rs.len() as int;
    lema_largo_de_pasada(rs, n);
    if n > 0 {
        lema_nada_consumido(rs, n);
        assert forall|i: int| 0 <= i < n - 1 implies !se_fusiona(rs, i) by {
            assert(!consumido(rs, i + 1));
        }
        lema_pasada_sin_fusiones(rs, n - 1);
        assert(siguiente(n, n - 1) == 0) by (nonlinear_arith)
            requires
                n > 0,
        ;
        assert(rs.take(n - 1).push(rs[n - 1]) =~= rs);
    } else {
        assert(combinacion(rs) =~= rs);
    }
}

/// A pass of fusion over records of which none fuses with the one after it
/// hands them back as they are.
pub proof fn ley_pasada_sin_nada_que_fusionar(rs: Seq<VistaRecord>)
    requires
        forall|i: int|
            0 <= i < rs.len() ==> fusion(#[trigger] rs[i], rs[siguiente(rs.len() as int, i)])
                is None,
    ensures
        combinacion(rs) == rs,
{
    let n = rs.len() as int;
    assert forall|i: int| 0 <= i < n implies !se_fusiona(rs, i) by {
        assert(fusion(rs[i], rs[siguiente(n, i)]) is None);
    }
    lema_pasada_sin_fusiones(rs, n);
    assert(rs.take(n) =~= rs);
}

/// A pass of fusion takes away one record for each fusion but that of the
/// last record with the first, and never adds one. It leaves at least one
/// record where there was one.
pub proof fn ley_largo_de_combinacion(rs: Seq<VistaRecord>)
    ensures
        combinacion(rs).len() == rs.len() - consumidos(rs, rs.len() as int),
        combinacion(rs).len() <= rs.len(),
        rs.len() > 0 ==> combinacion(rs).len() > 0,
{
    lema_largo_de_pasada(rs, rs.len() as int);
}

/// `rs` after `j` passes of fusion.
pub open spec fn tras_pasadas(rs: Seq<VistaRecord>, j: nat) -> Seq<VistaRecord>
    decreases j,
{
    if j == 0 {
        rs
    } else {
        combinacion(tras_pasadas(rs, (j - 1) as nat))
    }
}

/// How many passes over `rs` take a record away before one does not.
pub open spec fn pasadas_que_reducen(rs: Seq<VistaRecord>) -> nat
    decreases rs.len(),
{
    if rs.len() == 0 {
        0
    } else if combinacion(rs).len() < rs.len() {
        1 + pasadas_que_reducen(combinacion(rs))
    } else {
        0
    }
}

proof fn lema_pasadas_desplazadas(rs: Seq<VistaRecord>, j: nat)
    ensures
        tras_pasadas(combinacion(rs), j) == tras_pasadas(rs, j + 1),
    decreases j,
{
    reveal_with_fuel(tras_pasadas, 2);
    if j > 0 {
        lema_pasadas_desplazadas(rs, (j - 1) as nat);
        assert(tras_pasadas(combinacion(rs), j) == combinacion(
            tras_pasadas(combinacion(rs), (j - 1) as nat),
        ));
        assert(tras_pasadas(rs, j + 1) == combinacion(tras_pasadas(rs, j)));
    }
}

/// The number of records goes down with every pass until a pass leaves it
/// as it is, and what that last pass puts out is what is left when the
/// passes stop.
pub proof fn ley_reduccion_hasta_estabilizar(rs: Seq<VistaRecord>)
    requires
        rs.len() > 0,
    ensures
        ({
            let j = pasadas_que_reducen(rs);
            &&& estabilizado(rs) == tras_pasadas(rs, j + 1)
            &&& tras_pasadas(rs, j + 1).len() == tras_pasadas(rs, j).len()
            &&& forall|i: nat|
                i < j ==> (#[trigger] tras_pasadas(rs, i + 1)).len() < tras_pasadas(rs, i).len()
        }),
        0 < estabilizado(rs).len() <= rs.len(),
    decreases rs.len(),
{
    let j = pasadas_que_reducen(rs);
    let sig = combinacion(rs);
    lema_largo_de_pasada(rs, rs.len() as int);
    reveal_with_fuel(tras_pasadas, 2);
    if sig.len() < rs.len() {
        ley_reduccion_hasta_estabilizar(sig);
        let j1 = pasadas_que_reducen(sig);
        assert(j == j1 + 1);
        lema_pasadas_desplazadas(rs, j1 + 1);
        lema_pasadas_desplazadas(rs, j1);
        assert forall|i: nat| i < j implies (#[trigger] tras_pasadas(rs, i + 1)).len()
            < tras_pasadas(rs, i).len() by {
            if i > 0 {
                lema_pasadas_desplazadas(rs, i);
                lema_pasadas_desplazadas(rs, (i - 1) as nat);
                assert(tras_pasadas(sig, ((i - 1) as nat) + 1).len() < tras_pasadas(
                    sig,
                    (i - 1) as nat,
                ).len());
            }
        }
    } else {
        assert(j == 0);
    }
}

/// A point and a local position that name different stations are not
/// fused, and a pass over the two leaves both as they are.
pub proof fn ley_estaciones_distintas_gps_gs(g: VistaGPS, s: VistaGS)
    requires
        g.occupy_point != s.occupy_point,
    ensures
        fusion(VistaRecord::GPS(g), VistaRecord::GS(s)) is None,
        combinacion(seq![VistaRecord::GPS(g), VistaRecord::GS(s)]) == seq![
            VistaRecord::GPS(g),
            VistaRecord::GS(s),
        ],
{
    let rs = seq![VistaRecord::GPS(g), VistaRecord::GS(s)];
    assert(siguiente(2, 0) == 1 && siguiente(2, 1) == 0);
    ley_pasada_sin_nada_que_fusionar(rs);
}

/// A point and a time window that name different stations are not fused,
/// and a pass over the two leaves both as they are.
pub proof fn ley_estaciones_distintas_gps_gt(g: VistaGPS, t: VistaGT)
    requires
        g.occupy_point != t.occupy_point,
    ensures
        fusion(VistaRecord::GPS(g), VistaRecord::GT(t)) is None,
        combinacion(seq![VistaRecord::GPS(g), VistaRecord::GT(t)]) == seq![
            VistaRecord::GPS(g),
            VistaRecord::GT(t),
        ],
{
    let rs = seq![VistaRecord::GPS(g), VistaRecord::GT(t)];
    assert(siguiente(2, 0) == 1 && siguiente(2, 1) == 0);
    ley_pasada_sin_nada_que_fusionar(rs);
}

/// A base point and a local position that name different stations are not
/// fused, and a pass over the two leaves both as they are.
pub proof fn ley_estaciones_distintas_bp_gs(b: VistaBP, s: VistaGS)
    requires
        b.occupy_point != s.occupy_point,
    ensures
        fusion(VistaRecord::BP(b), VistaRecord::GS(s)) is None,
        combinacion(seq![VistaRecord::BP(b), VistaRecord::GS(s)]) == seq![
            VistaRecord::BP(b),
            VistaRecord::GS(s),
        ],
{
    let rs = seq![VistaRecord::BP(b), VistaRecord::GS(s)];
    assert(siguiente(2, 0) == 1 && siguiente(2, 1) == 0);
    ley_pasada_sin_nada_que_fusionar(rs);
}

/// A point and a local position of one station are fused whatever their
/// elevations are. Where these lie further apart than the tolerance, the
/// fused point has the elevation of the local position and keeps its own
/// aside; its other values are its own.
pub proof fn ley_cotas_distintas(g: VistaGPS, s: VistaGS)
    requires
        g.occupy_point == s.occupy_point,
    ensures
        fusion(VistaRecord::GPS(g), VistaRecord::GS(s)) is Some,
        crate::record_parser_gps::cota_distinta(g.elevation, s.elevation) ==> fusion(
            VistaRecord::GPS(g),
            VistaRecord::GS(s),
        ) == Some(
            VistaRecord::GPS(
                VistaGPS {
                    elevation: s.elevation,
                    elevation_alt: Some(g.elevation),
                    north: Some(s.north),
                    east: Some(s.east),
                    ..g
                },
            ),
        ),
{
}

/// A point whose observation began before the instant of the clock is not
/// entered among the points, whatever antennas there are: it is left out
/// and reported.
pub proof fn ley_punto_en_reversa(antenas: Seq<(Epoca, VistaAT)>, e: EstadoDePuntos, g: VistaGPS)
    requires
        inicio_de(g, e.reloj) < e.reloj,
    ensures
        ({
            let d = paso_de_puntos(antenas, e, VistaRecord::GPS(g));
            &&& d.puntos == e.puntos
            &&& d.reloj == e.reloj
            &&& d.informe.len() == e.informe.len() + 1
            &&& d.informe.last().inicio == inicio_de(g, e.reloj)
            &&& vigente_en(antenas, inicio_de(g, e.reloj)) is Some ==> d.informe.last().motivo
                == MotivoDeSalteo::TiempoEnReversa
        }),
{
}

/// A point for which no rover antenna was in effect when its observation
/// began is not entered among the points: it is left out and reported.
pub proof fn ley_punto_sin_antena(antenas: Seq<(Epoca, VistaAT)>, e: EstadoDePuntos, g: VistaGPS)
    requires
        vigente_en(antenas, inicio_de(g, e.reloj)) is None,
    ensures
        ({
            let d = paso_de_puntos(antenas, e, VistaRecord::GPS(g));
            &&& d.puntos == e.puntos
            &&& d.informe == e.informe.push(
                Salteo { motivo: MotivoDeSalteo::SinAntena, inicio: inicio_de(g, e.reloj) },
            )
        }),
{
}

proof fn lema_pasada_de_uno(a: VistaRecord)
    ensures
        combinacion(seq![a]) == (match fusion(a, a) {
            Some(v) => seq![v],
            None => seq![a],
        }),
{
    let rs = seq![a];
    reveal_with_fuel(pasada, 2);
    reveal_with_fuel(se_fusiona, 2);
    assert(siguiente(1, 0) == 0);
    assert(pasada(rs, 0) =~= Seq::<VistaRecord>::empty());
    assert(combinacion(rs) =~= (match fusion(a, a) {
        Some(v) => seq![v],
        None => seq![a],
    }));
}

proof fn lema_pasada_de_dos_que_se_fusionan(a: VistaRecord, b: VistaRecord)
    requires
        fusion(a, b) is Some,
    ensures
        combinacion(seq![a, b]) == seq![fusion(a, b)->0],
{
    let rs = seq![a, b];
    reveal_with_fuel(pasada, 3);
    reveal_with_fuel(se_fusiona, 3);
    assert(siguiente(2, 0) == 1);
    assert(se_fusiona(rs, 0));
    assert(consumido(rs, 1));
    assert(pasada(rs, 0) =~= Seq::<VistaRecord>::empty());
    assert(combinacion(rs) =~= seq![fusion(a, b)->0]);
}

proof fn lema_pasada_de_tres_que_empieza_fusionando(a: VistaRecord, b: VistaRecord, c: VistaRecord)
    requires
        fusion(a, b) is Some,
        fusion(c, a) is None,
    ensures
        combinacion(seq![a, b, c]) == seq![fusion(a, b)->0, c],
{
    let rs = seq![a, b, c];
    reveal_with_fuel(pasada, 4);
    reveal_with_fuel(se_fusiona, 4);
    assert(siguiente(3, 0) == 1 && siguiente(3, 2) == 0);
    assert(se_fusiona(rs, 0));
    assert(consumido(rs, 1));
    assert(!se_fusiona(rs, 1));
    assert(!consumido(rs, 2));
    assert(!se_fusiona(rs, 2));
    assert(pasada(rs, 0) =~= Seq::<VistaRecord>::empty());
    assert(pasada(rs, 1) =~= seq![fusion(a, b)->0]);
    assert(pasada(rs, 2) =~= seq![fusion(a, b)->0]);
    assert(combinacion(rs) =~= seq![fusion(a, b)->0, c]);
}

proof fn lema_estabilizado_de_tres(
    a: VistaRecord,
    b: VistaRecord,
    c: VistaRecord,
    ab: VistaRecord,
    abc: VistaRecord,
)
    requires
        fusion(a, b) == Some(ab),
        fusion(c, a) is None,
        fusion(ab, c) == Some(abc),
        fusion(abc, abc) is None,
    ensures
        combinacion(seq![a, b, c]) == seq![ab, c],
        combinacion(seq![ab, c]) == seq![abc],
        combinacion(seq![abc]) == seq![abc],
        estabilizado(seq![a, b, c]) == seq![abc],
{
    lema_pasada_de_tres_que_empieza_fusionando(a, b, c);
    lema_pasada_de_dos_que_se_fusionan(ab, c);
    lema_pasada_de_uno(abc);
    reveal_with_fuel(estabilizado, 4);
}

proof fn lema_estabilizado_de_dos(a: VistaRecord, b: VistaRecord, ab: VistaRecord)
    requires
        fusion(a, b) == Some(ab),
        fusion(ab, ab) is None,
    ensures
        combinacion(seq![a, b]) == seq![ab],
        combinacion(seq![ab]) == seq![ab],
        estabilizado(seq![a, b]) == seq![ab],
{
    lema_pasada_de_dos_que_se_fusionan(a, b);
    lema_pasada_de_uno(ab);
    reveal_with_fuel(estabilizado, 3);
}

/// A point, its local position and its time window, in this order and on
/// their own, become one record in two passes: the first pass adds the local
/// position, the second the time window, and a third changes nothing. The
/// two fragments are taken up.
pub proof fn ley_fusion_de_un_punto(g: VistaGPS, s: VistaGS, t: VistaGT)
    requires
        g.occupy_point == s.occupy_point,
        g.occupy_point == t.occupy_point,
    ensures
        combinacion(seq![VistaRecord::GPS(g), VistaRecord::GS(s), VistaRecord::GT(t)]) == seq![
            VistaRecord::GPS(gps_con_gs(g, s)),
            VistaRecord::GT(t),
        ],
        combinacion(seq![VistaRecord::GPS(gps_con_gs(g, s)), VistaRecord::GT(t)]) == seq![
            VistaRecord::GPS(gps_con_gt(gps_con_gs(g, s), t)),
        ],
        estabilizado(seq![VistaRecord::GPS(g), VistaRecord::GS(s), VistaRecord::GT(t)]) == seq![
            VistaRecord::GPS(gps_con_gt(gps_con_gs(g, s), t)),
        ],
{
    lema_estabilizado_de_tres(
        VistaRecord::GPS(g),
        VistaRecord::GS(s),
        VistaRecord::GT(t),
        VistaRecord::GPS(gps_con_gs(g, s)),
        VistaRecord::GPS(gps_con_gt(gps_con_gs(g, s), t)),
    );
}

/// A base point and its local position, on their own, become one record in
/// one pass. The fragment is taken up.
pub proof fn ley_fusion_de_una_base(b: VistaBP, s: VistaGS)
    requires
        b.occupy_point == s.occupy_point,
    ensures
        estabilizado(seq![VistaRecord::BP(b), VistaRecord::GS(s)]) == seq![
            VistaRecord::BP(bp_con_gs(b, s)),
        ],
{
    lema_estabilizado_de_dos(
        VistaRecord::BP(b),
        VistaRecord::GS(s),
        VistaRecord::BP(bp_con_gs(b, s)),
    );
}

/// An entered height, an antenna and a rod height, in this order and on
/// their own, become one record in two passes. Two records are taken up.
pub proof fn ley_fusion_de_una_antena(eh: EHRecord, a: VistaAT, ls: LSRecord)
    ensures
        estabilizado(seq![VistaRecord::EH(eh), VistaRecord::AT(a), VistaRecord::LS(ls)]) == seq![
            VistaRecord::AT(at_con_ls(at_con_eh(a, eh), ls)),
        ],
{
    lema_estabilizado_de_tres(
        VistaRecord::EH(eh),
        VistaRecord::AT(a),
        VistaRecord::LS(ls),
        VistaRecord::AT(at_con_eh(a, eh)),
        VistaRecord::AT(at_con_ls(at_con_eh(a, eh), ls)),
    );
}

/// A date and a time of day, in this order and on their own, become one
/// reading of the clock in one pass.
pub proof fn ley_fusion_de_un_reloj(fecha: (i32, u8, u8), hora: (u8, u8, u8))
    ensures
        estabilizado(
            seq![
                VistaRecord::T(TRecord { date: Some(fecha), time: None, dt: None }),
                VistaRecord::T(TRecord { date: None, time: Some(hora), dt: None }),
            ],
        ) == seq![
            VistaRecord::T(combinado(TRecord { date: Some(fecha), time: Some(hora), dt: None })),
        ],
{
    lema_estabilizado_de_dos(
        VistaRecord::T(TRecord { date: Some(fecha), time: None, dt: None }),
        VistaRecord::T(TRecord { date: None, time: Some(hora), dt: None }),
        VistaRecord::T(combinado(TRecord { date: Some(fecha), time: Some(hora), dt: None })),
    );
}

/// The pass that fuses by threes makes of a point, its local position and
/// its time window, in one step, the record that the passes by pairs make
/// of them in two.
pub proof fn ley_tres_de_una_vez(g: VistaGPS, s: VistaGS, t: VistaGT)
    requires
        g.occupy_point == s.occupy_point,
        g.occupy_point == t.occupy_point,
    ensures
        fusion_de_tres(VistaRecord::GPS(g), VistaRecord::GS(s), VistaRecord::GT(t)) == Some(
            VistaRecord::GPS(gps_con_gt(gps_con_gs(g, s), t)),
        ),
        pasada_de_tres(seq![VistaRecord::GPS(g), VistaRecord::GS(s), VistaRecord::GT(t)], 3)
            == estabilizado(seq![VistaRecord::GPS(g), VistaRecord::GS(s), VistaRecord::GT(t)]),
{
    let rs = seq![VistaRecord::GPS(g), VistaRecord::GS(s), VistaRecord::GT(t)];
    ley_fusion_de_un_punto(g, s, t);
    reveal_with_fuel(pasada_de_tres, 4);
    reveal_with_fuel(se_fusiona_de_tres, 4);
    assert(se_fusiona_de_tres(rs, 0));
    assert(consumido_de_tres(rs, 1));
    assert(consumido_de_tres(rs, 2));
    assert(pasada_de_tres(rs, 0) =~= Seq::<VistaRecord>::empty());
    assert(pasada_de_tres(rs, 3) =~= seq![VistaRecord::GPS(gps_con_gt(gps_con_gs(g, s), t))]);
}

} // verus!
