use netwatch::alerts::{build_rules, dixiemes, evaluer_regles, AlertKind, Regle, RegleActive, RegleDebit, RegleIpSuspecte, RegleQuota};
use netwatch::collector::{Snapshot, StatProcessus};
use netwatch::config::{Config, QuotaConfig};

/// A test snapshot with the given rates.
fn creer_snapshot(machine: &str, rx: u64, tx: u64) -> Snapshot {
    Snapshot {
        horodatage: 12345,
        machine: machine.to_string(),
        processus: Vec::new(),
        interfaces: Vec::new(),
        total_rx_bps: rx,
        total_tx_bps: tx,
    }
}

#[test]
fn test_config_et_alertes_coherents() {
    let config = Config::default();
    let regle = RegleDebit { seuil_octets_s: config.alertes.debit_max_octets_s };
    // 5.0 MB/s
    assert_eq!(regle.seuil_octets_s, 5_000_000, "La regle de debit doit utiliser le seuil de la config");
}

#[test]
fn test_scenario_complet_alerte_debit() {
    let regle = RegleDebit { seuil_octets_s: 1_000_000 }; // 1 MB/s
    let mut snap = creer_snapshot("PC-Test", 2_000_000, 500_000);
    snap.processus.push(StatProcessus {
        pid: 123,
        nom: "chrome".to_string(),
        cpu_millipct: 100_000,
        ram_octets: 500 * 1_048_576,
        rx_bps: 2_000_000,
        tx_bps: 500_000,
    });
    let alertes = regle.evaluer(&snap, 0);
    assert!(!alertes.is_empty(), "Une alerte doit etre generee pour 2 MB/s avec un seuil de 1 MB/s");
    assert!(alertes[0].message.contains("chrome"), "Le message d alerte doit contenir le nom du processus");
}

#[test]
fn test_cycle_quota_complet() {
    let machine = "PC-Etudiant-01";
    let regle = RegleQuota { machine: machine.to_string(), limite_mb: 100, seuil_pct: 80 };
    let snap = creer_snapshot(machine, 0, 0);

    let alertes = regle.evaluer(&snap, 50);
    assert!(alertes.is_empty(), "Pas d alerte a 50% du quota");

    let alertes = regle.evaluer(&snap, 85);
    assert_eq!(alertes.len(), 1, "Un avertissement a 85%");
    assert!(alertes[0].message.contains("85"), "Le message doit contenir le pourcentage");

    let alertes = regle.evaluer(&snap, 110);
    assert_eq!(alertes.len(), 1, "Une alerte quota depasse");
    assert!(alertes[0].message.contains("depasse"), "Le message doit indiquer que le quota est depasse");
}

#[test]
fn test_isolation_par_machine() {
    let regle = RegleQuota { machine: "Machine-A".to_string(), limite_mb: 100, seuil_pct: 80 };
    let snap = creer_snapshot("Machine-B", 0, 0);
    let alertes = regle.evaluer(&snap, 200);
    assert!(alertes.is_empty(), "Pas d alerte pour une machine non concernee par cette regle");
}

#[test]
fn test_plusieurs_regles() {
    let regles: Vec<RegleActive> = vec![
        RegleActive::Debit(RegleDebit { seuil_octets_s: 1_000_000 }),
        RegleActive::Quota(RegleQuota { machine: "PC-Test".to_string(), limite_mb: 100, seuil_pct: 80 }),
    ];
    let mut snap = creer_snapshot("PC-Test", 2_000_000, 0);
    snap.processus.push(StatProcessus {
        pid: 1,
        nom: "test".to_string(),
        cpu_millipct: 100_000,
        ram_octets: 100 * 1_048_576,
        rx_bps: 2_000_000,
        tx_bps: 0,
    });
    let mut toutes_alertes = Vec::new();
    for regle in &regles {
        toutes_alertes.extend(regle.evaluer(&snap, 90));
    }
    assert!(toutes_alertes.len() >= 2, "Au moins 2 alertes attendues (debit + quota)");
}

#[test]
fn messages_exacts() {
    let snap = creer_snapshot("A", 0, 0);
    let regle = RegleQuota { machine: "A".to_string(), limite_mb: 100, seuil_pct: 80 };
    let a = regle.evaluer(&snap, 110);
    assert_eq!(a[0].kind, AlertKind::QuotaExceeded);
    assert_eq!(a[0].message, "🚫 Quota depasse sur A : 110 MB / 100 MB (110%)");
    assert_eq!(a[0].machine_id, "A");
    assert_eq!(a[0].timestamp, 12345);
    let a = regle.evaluer(&snap, 85);
    assert_eq!(a[0].kind, AlertKind::QuotaWarning);
    assert_eq!(a[0].message, "⚠️  Quota à 85% sur A : 85 MB / 100 MB");
    let a = regle.evaluer(&snap, 80);
    assert_eq!(a[0].kind, AlertKind::QuotaWarning);
    assert!(regle.evaluer(&snap, 79).is_empty());

    let mut snap = creer_snapshot("A", 0, 0);
    snap.processus.push(StatProcessus {
        pid: 9,
        nom: "curl".to_string(),
        cpu_millipct: 0,
        ram_octets: 0,
        rx_bps: 2_000_000,
        tx_bps: 560_000,
    });
    let a = RegleDebit { seuil_octets_s: 1_500_000 }.evaluer(&snap, 0);
    assert_eq!(a.len(), 1);
    assert_eq!(a[0].kind, AlertKind::HighBandwidth);
    assert_eq!(a[0].message, "⚡ curl utilise 2.6 MB/s (seuil : 1.5 MB/s)");
}

#[test]
fn debit_arrondi_au_dixieme() {
    let mut snap = creer_snapshot("A", 0, 0);
    for (pid, rx) in [(1u32, 2_560_000u64), (2, 2_540_000), (3, 9_960_000), (4, 1_000_001)] {
        snap.processus.push(StatProcessus {
            pid,
            nom: format!("p{}", pid),
            cpu_millipct: 0,
            ram_octets: 0,
            rx_bps: rx,
            tx_bps: 0,
        });
    }
    let a = RegleDebit { seuil_octets_s: 1_000_000 }.evaluer(&snap, 0);
    assert_eq!(a.len(), 4);
    assert_eq!(a[0].message, "⚡ p1 utilise 2.6 MB/s (seuil : 1.0 MB/s)");
    assert_eq!(a[1].message, "⚡ p2 utilise 2.5 MB/s (seuil : 1.0 MB/s)");
    assert_eq!(a[2].message, "⚡ p3 utilise 10.0 MB/s (seuil : 1.0 MB/s)");
    assert_eq!(a[3].message, "⚡ p4 utilise 1.0 MB/s (seuil : 1.0 MB/s)");
    let b = RegleDebit { seuil_octets_s: 2_550_001 }.evaluer(&snap, 0);
    assert_eq!(b.len(), 2);
    assert_eq!(b[0].message, "⚡ p1 utilise 2.6 MB/s (seuil : 2.6 MB/s)");
    assert_eq!(b[1].message, "⚡ p3 utilise 10.0 MB/s (seuil : 2.6 MB/s)");
}

#[test]
fn debit_egal_au_seuil_sans_alerte() {
    let mut snap = creer_snapshot("A", 0, 0);
    snap.processus.push(StatProcessus {
        pid: 1,
        nom: "p".to_string(),
        cpu_millipct: 0,
        ram_octets: 0,
        rx_bps: 600_000,
        tx_bps: 400_000,
    });
    assert!(RegleDebit { seuil_octets_s: 1_000_000 }.evaluer(&snap, 0).is_empty());
}

#[test]
fn quota_limite_nulle_sans_alerte() {
    let snap = creer_snapshot("A", 0, 0);
    let regle = RegleQuota { machine: "A".to_string(), limite_mb: 0, seuil_pct: 80 };
    assert!(regle.evaluer(&snap, 1_000).is_empty());
}

#[test]
fn ip_suspecte_ne_leve_rien() {
    let snap = creer_snapshot("A", 0, 0);
    let regle = RegleIpSuspecte { ips: vec!["10.0.0.66".to_string()] };
    assert!(regle.evaluer(&snap, 0).is_empty());
}

#[test]
fn regles_de_la_configuration() {
    let mut config = Config::default();
    config.quotas.push(QuotaConfig { machine: "PC-01".to_string(), limite_mb: 500 });
    config.quotas.push(QuotaConfig { machine: "PC-02".to_string(), limite_mb: 10 });
    let regles = build_rules(&config);
    assert_eq!(regles.len(), 3);
    match &regles[0] {
        RegleActive::Debit(r) => assert_eq!(r.seuil_octets_s, 5_000_000),
        _ => panic!("la premiere regle doit etre celle du debit"),
    }
    match &regles[2] {
        RegleActive::Quota(r) => {
            assert_eq!(r.machine, "PC-02");
            assert_eq!(r.limite_mb, 10);
            assert_eq!(r.seuil_pct, 80);
        }
        _ => panic!("regle de quota attendue"),
    }
    let snap = creer_snapshot("PC-02", 0, 0);
    let alertes = evaluer_regles(&regles, &snap, 9);
    assert_eq!(alertes.len(), 1);
    assert_eq!(alertes[0].kind, AlertKind::QuotaWarning);
}

fn ecrit_comme_un_flottant(d: u64) {
    let t = dixiemes(d as u128);
    assert_eq!(format!("{}.{}", t / 10, t % 10), format!("{:.1}", d as f64 / 1_000_000.0), "debit {}", d);
}

#[test]
fn debit_ecrit_comme_en_virgule_flottante() {
    ecrit_comme_un_flottant(2_550_000);
    ecrit_comme_un_flottant(9_950_000);
    assert_eq!(dixiemes(2_550_000), 25);
    assert_eq!(dixiemes(9_950_000), 99);
    assert_eq!(dixiemes(250_000), 2);
    for d in 0..1_000_000u64 {
        ecrit_comme_un_flottant(d);
    }
    // every rate half-way between two tenths, up to 10^11 bytes per second
    for k in 0..1_000_000u64 {
        ecrit_comme_un_flottant(50_000 + 100_000 * k);
    }
    // half-way rates and their neighbours spread up to 2^53
    let mut x: u64 = 12345;
    for _ in 0..200_000 {
        x = x.wrapping_mul(6364136223846793005).wrapping_add(1442695040888963407);
        let k = (x >> 11) % 90_071_992_547;
        let d = 50_000 + 100_000 * k;
        ecrit_comme_un_flottant(d);
        ecrit_comme_un_flottant(d - 1);
        ecrit_comme_un_flottant(d + 1);
        ecrit_comme_un_flottant(x >> 11);
    }
}

#[test]
fn message_debit_aux_demi_dixiemes() {
    let mut snap = creer_snapshot("A", 0, 0);
    for (pid, rx) in [(1u32, 2_550_000u64), (2, 9_950_000)] {
        snap.processus.push(StatProcessus {
            pid,
            nom: format!("p{}", pid),
            cpu_millipct: 0,
            ram_octets: 0,
            rx_bps: rx,
            tx_bps: 0,
        });
    }
    let a = RegleDebit { seuil_octets_s: 2_550_000 }.evaluer(&snap, 0);
    assert_eq!(a.len(), 1);
    assert_eq!(a[0].message, "⚡ p2 utilise 9.9 MB/s (seuil : 2.5 MB/s)");
    let a = RegleDebit { seuil_octets_s: 1_000_000 }.evaluer(&snap, 0);
    assert_eq!(a[0].message, "⚡ p1 utilise 2.5 MB/s (seuil : 1.0 MB/s)");
}
