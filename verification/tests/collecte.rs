use netwatch::collector::{
    nouveau_store, selectionner_processus, Collecteur, LectureInterface, Snapshot, StatProcessus,
    TAILLE_HISTORIQUE,
};
use netwatch::texte::interface_loopback;

fn instantane(horodatage: u64, rx: u64, tx: u64) -> Snapshot {
    Snapshot {
        horodatage,
        machine: "PC".to_string(),
        processus: Vec::new(),
        interfaces: Vec::new(),
        total_rx_bps: rx,
        total_tx_bps: tx,
    }
}

fn processus(pid: u32, nom: &str, cpu_millipct: u32, ram_octets: u64) -> StatProcessus {
    StatProcessus { pid, nom: nom.to_string(), cpu_millipct, ram_octets, rx_bps: 0, tx_bps: 0 }
}

fn lecture(nom: &str, recu: u64, transmis: u64) -> LectureInterface {
    LectureInterface { nom: nom.to_string(), recu_total: recu, transmis_total: transmis }
}

#[test]
fn test_nouveau_store_vide() {
    let store = nouveau_store();
    assert_eq!(store.len(), 0, "Un nouveau store doit etre vide");
}

#[test]
fn test_stat_processus_defaut() {
    let stat = StatProcessus::default();
    assert_eq!(stat.pid, 0);
    assert_eq!(stat.nom, "");
    assert_eq!(stat.cpu_millipct, 0);
}

#[test]
fn test_taille_historique() {
    assert_eq!(TAILLE_HISTORIQUE, 60, "L historique doit contenir 60 secondes de donnees");
}

#[test]
fn historique_garde_les_soixante_derniers() {
    let mut h = nouveau_store();
    assert!(h.dernier().is_none());
    for t in 0..75u64 {
        h.ajouter(instantane(t, t * 10, t * 20));
        assert!(h.len() <= TAILLE_HISTORIQUE);
        assert_eq!(h.dernier().unwrap().horodatage, t);
    }
    assert_eq!(h.len(), 60);
    let tous: Vec<u64> = h.instantanes().iter().map(|s| s.horodatage).collect();
    assert_eq!(tous, (15..75u64).collect::<Vec<u64>>());
    assert_eq!(h.debits_rx(), (15..75u64).map(|t| t * 10).collect::<Vec<u64>>());
    assert_eq!(h.debits_tx(), (15..75u64).map(|t| t * 20).collect::<Vec<u64>>());
}

#[test]
fn interfaces_loopback() {
    assert!(interface_loopback("lo"));
    assert!(interface_loopback("lo0"));
    assert!(interface_loopback("Loopback Pseudo-Interface 1"));
    assert!(interface_loopback("LOOPBACK"));
    assert!(!interface_loopback("eth0"));
    assert!(!interface_loopback("wlan0"));
    assert!(!interface_loopback("Lo"));
}

#[test]
fn collecteur_sans_nom_d_hote() {
    let c = Collecteur::nouveau(None, &Vec::new());
    assert_eq!(c.machine, "inconnu");
    let c = Collecteur::nouveau(Some("PC-01".to_string()), &Vec::new());
    assert_eq!(c.machine, "PC-01");
}

#[test]
fn debits_des_interfaces_sur_un_cycle() {
    let depart = vec![lecture("lo", 0, 0), lecture("eth0", 1_000, 2_000)];
    let mut c = Collecteur::nouveau(Some("PC".to_string()), &depart);
    let lectures = vec![
        lecture("lo", 50_000, 50_000),
        lecture("eth0", 3_000, 2_500),
        lecture("wlan0", 4_000, 0),
    ];
    // 2 seconds later: eth0 received 2000 bytes and sent 500, wlan0 is new
    let s = c.mesurer(&lectures, Vec::new(), 2_000, 42);
    assert_eq!(s.horodatage, 42);
    assert_eq!(s.machine, "PC");
    assert_eq!(s.interfaces.len(), 2);
    assert_eq!(s.interfaces[0].nom, "eth0");
    assert_eq!(s.interfaces[0].rx_octets, 1_000);
    assert_eq!(s.interfaces[0].tx_octets, 250);
    assert_eq!(s.interfaces[1].nom, "wlan0");
    assert_eq!(s.interfaces[1].rx_octets, 2_000);
    assert_eq!(s.interfaces[1].tx_octets, 0);
    assert_eq!(s.total_rx_bps, 3_000);
    assert_eq!(s.total_tx_bps, 250);

    // a counter that goes back counts as no traffic; no elapsed time counts as 1 ms
    let s = c.mesurer(&vec![lecture("eth0", 2_000, 2_501)], Vec::new(), 0, 43);
    assert_eq!(s.interfaces[0].rx_octets, 0);
    assert_eq!(s.interfaces[0].tx_octets, 1_000);
}

#[test]
fn selection_des_processus() {
    let procs = vec![
        processus(1, "inactif", 10, 1_000),
        processus(2, "moyen", 20_000, 0),
        processus(3, "gros", 60_000, 0),
        processus(4, "memoire", 0, 2_000_000),
        processus(5, "moyen-bis", 20_000, 0),
    ];
    let r = selectionner_processus(procs, 1_000_000, 500_000);
    let noms: Vec<&str> = r.iter().map(|p| p.nom.as_str()).collect();
    assert_eq!(noms, vec!["gros", "moyen", "moyen-bis", "memoire"]);
    assert_eq!(r[0].rx_bps, 600_000);
    assert_eq!(r[0].tx_bps, 300_000);
    assert_eq!(r[1].rx_bps, 200_000);
    assert_eq!(r[3].rx_bps, 0);
}

#[test]
fn selection_limitee_a_vingt() {
    let procs: Vec<StatProcessus> = (0..30u32).map(|i| processus(i, "p", 100 + i, 0)).collect();
    let r = selectionner_processus(procs, 0, 0);
    assert_eq!(r.len(), 20);
    assert_eq!(r[0].pid, 29);
    assert_eq!(r[19].pid, 10);
    assert!(r.windows(2).all(|w| w[0].cpu_millipct >= w[1].cpu_millipct));
}
