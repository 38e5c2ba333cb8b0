use rw5_file_parser::eventos::{ClaveDeEvento, TipoDeEvento};
use rw5_file_parser::mapa_ordenado::{Clave, MapaOrdenado};

#[test]
fn entry_in_effect_at_an_instant() {
    let mut antenas: MapaOrdenado<i128, char> = MapaOrdenado::new();
    assert_eq!(antenas.vigente(&30), None);
    antenas.insert(50, 'B');
    antenas.insert(10, 'A');
    assert_eq!(antenas.len(), 2);
    assert_eq!(antenas.vigente(&30), Some(&(10, 'A')));
    assert_eq!(antenas.vigente(&50), Some(&(50, 'B')));
    assert_eq!(antenas.vigente(&5), None);
    assert_eq!(antenas.vigente(&10), Some(&(10, 'A')));
    assert_eq!(antenas.vigente(&49), Some(&(10, 'A')));
    assert_eq!(antenas.vigente(&i128::MAX), Some(&(50, 'B')));
    assert_eq!(antenas.vigente(&i128::MIN), None);
}

#[test]
fn entries_stay_in_the_order_of_their_keys() {
    let mut m: MapaOrdenado<i128, u8> = MapaOrdenado::new();
    assert_eq!(m.len(), 0);
    for (k, v) in [(5, 1), (1, 2), (9, 3), (3, 4), (7, 5), (-2, 6)] {
        m.insert(k, v);
    }
    assert_eq!(m.len(), 6);
    let claves: Vec<i128> = (0..m.len()).map(|i| m.entrada(i).0).collect();
    assert_eq!(claves, vec![-2, 1, 3, 5, 7, 9]);
    assert_eq!(*m.entrada(2), (3, 4));
}

#[test]
fn the_last_value_under_a_key_stays() {
    let mut m: MapaOrdenado<i128, u8> = MapaOrdenado::new();
    m.insert(1, 10);
    m.insert(2, 20);
    m.insert(1, 11);
    m.insert(2, 21);
    m.insert(2, 22);
    assert_eq!(m.len(), 2);
    assert_eq!(*m.entrada(0), (1, 11));
    assert_eq!(*m.entrada(1), (2, 22));
    assert_eq!(m.vigente(&1), Some(&(1, 11)));
}

#[test]
fn the_end_of_an_occupation_comes_before_a_start() {
    let fin = ClaveDeEvento { epoca: 7, tipo: TipoDeEvento::FinDeOcupacion };
    let inicio = ClaveDeEvento { epoca: 7, tipo: TipoDeEvento::InicioDeOcupacion };
    let antes = ClaveDeEvento { epoca: 6, tipo: TipoDeEvento::InicioDeOcupacion };
    assert!(fin.antes_de(&inicio));
    assert!(!inicio.antes_de(&fin));
    assert!(!fin.antes_de(&fin));
    assert!(antes.antes_de(&fin));
    assert!(!fin.antes_de(&antes));
    assert!(fin < inicio && antes < fin);
    assert!(5i128.antes_de(&6));
    assert!(!6i128.antes_de(&6));
    let mut m: MapaOrdenado<ClaveDeEvento, u8> = MapaOrdenado::new();
    m.insert(inicio, 1);
    m.insert(fin, 2);
    m.insert(antes, 3);
    m.insert(inicio, 4);
    assert_eq!(m.len(), 3);
    assert_eq!(*m.entrada(0), (antes, 3));
    assert_eq!(*m.entrada(1), (fin, 2));
    assert_eq!(*m.entrada(2), (inicio, 4));
}
