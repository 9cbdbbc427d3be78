use netwatch::alerts::{Alert, AlertKind};
use netwatch::collector::Snapshot;
use netwatch::config::{AgentConfig, Config, QuotaConfig};
use netwatch::master::{
    adresse_agent, comptabiliser, cycle_alertes, etat_quota, etats_quotas, octets_de, statut_agent, JournalAlertes,
    TAILLE_JOURNAL,
};
use netwatch::table::TableNoms;

fn creer_snapshot(machine: &str, rx: u64, tx: u64) -> Snapshot {
    Snapshot {
        horodatage: 7,
        machine: machine.to_string(),
        processus: Vec::new(),
        interfaces: Vec::new(),
        total_rx_bps: rx,
        total_tx_bps: tx,
    }
}

fn alerte(n: u64) -> Alert {
    Alert { timestamp: n, machine_id: "M".to_string(), kind: AlertKind::HighBandwidth, message: format!("{}", n) }
}

#[test]
fn table_des_noms() {
    let mut t: TableNoms<u64> = TableNoms::nouvelle();
    let a = "A".to_string();
    let b = "B".to_string();
    assert_eq!(t.valeur(&a), None);
    t.inserer(a.clone(), 1);
    t.inserer(b.clone(), 2);
    t.inserer(a.clone(), 3);
    assert_eq!(t.valeur(&a), Some(3));
    assert_eq!(t.valeur(&b), Some(2));
    t.retirer(&a);
    assert_eq!(t.valeur(&a), None);
    assert_eq!(t.valeur(&b), Some(2));
    t.retirer(&a);
    assert_eq!(t.valeur(&b), Some(2));
}

#[test]
fn comptage_et_remise_a_zero() {
    let mut c: TableNoms<u64> = TableNoms::nouvelle();
    comptabiliser(&mut c, &creer_snapshot("PC-01", 1_500_000, 500_000));
    comptabiliser(&mut c, &creer_snapshot("PC-01", 1_000_000, 0));
    comptabiliser(&mut c, &creer_snapshot("PC-02", 10, 20));
    assert_eq!(octets_de(&c, &"PC-01".to_string()), 3_000_000);
    assert_eq!(octets_de(&c, &"PC-02".to_string()), 30);
    assert_eq!(octets_de(&c, &"PC-03".to_string()), 0);
    c.retirer(&"PC-01".to_string());
    assert_eq!(octets_de(&c, &"PC-01".to_string()), 0);
    assert_eq!(octets_de(&c, &"PC-02".to_string()), 30);
}

#[test]
fn etat_des_quotas() {
    let mut c: TableNoms<u64> = TableNoms::nouvelle();
    c.inserer("PC-01".to_string(), 450_999_999);
    let q = QuotaConfig { machine: "PC-01".to_string(), limite_mb: 500 };
    let e = etat_quota(&q, &c);
    assert_eq!(e.machine, "PC-01");
    assert_eq!(e.utilise_mb, 450);
    assert_eq!(e.limite_mb, 500);
    assert_eq!(e.pct, 90);
    c.inserer("PC-01".to_string(), 2_000_000_000);
    assert_eq!(etat_quota(&q, &c).pct, 100);
    let nul = QuotaConfig { machine: "PC-01".to_string(), limite_mb: 0 };
    assert_eq!(etat_quota(&nul, &c).pct, 0);
    let mut config = Config::default();
    config.quotas.push(q);
    config.quotas.push(QuotaConfig { machine: "PC-02".to_string(), limite_mb: 10 });
    let etats = etats_quotas(&config, &c);
    assert_eq!(etats.len(), 2);
    assert_eq!(etats[1].utilise_mb, 0);
    assert_eq!(etats[1].pct, 0);
}

#[test]
fn alertes_d_un_cycle() {
    let mut config = Config::default();
    config.quotas.push(QuotaConfig { machine: "PC-01".to_string(), limite_mb: 100 });
    let mut c: TableNoms<u64> = TableNoms::nouvelle();
    c.inserer("PC-01".to_string(), 120_000_000);
    let alertes = cycle_alertes(&config, &creer_snapshot("PC-01", 0, 0), &c);
    assert_eq!(alertes.len(), 1);
    assert_eq!(alertes[0].kind, AlertKind::QuotaExceeded);
    assert_eq!(alertes[0].message, "🚫 Quota depasse sur PC-01 : 120 MB / 100 MB (120%)");
    assert!(cycle_alertes(&config, &creer_snapshot("PC-02", 0, 0), &c).is_empty());
}

#[test]
fn journal_borne_a_cent() {
    let mut j = JournalAlertes::nouveau();
    for n in 0..130u64 {
        j.ajouter(alerte(n));
        assert!(j.alertes().len() <= TAILLE_JOURNAL);
    }
    assert_eq!(j.alertes().len(), 100);
    assert_eq!(j.alertes()[0].timestamp, 30);
    assert_eq!(j.alertes()[99].timestamp, 129);
    j.ajouter_tous((130..135u64).map(alerte).collect());
    assert_eq!(j.alertes().len(), 100);
    assert_eq!(j.alertes()[0].timestamp, 35);
    assert_eq!(j.alertes()[99].timestamp, 134);
}

#[test]
fn statut_des_agents() {
    let agent = AgentConfig { nom: "PC-01".to_string(), ip: "192.168.1.101".to_string() };
    let s = statut_agent(&agent, None);
    assert!(!s.en_ligne);
    assert_eq!(s.nom, "PC-01");
    assert_eq!(s.ip, "192.168.1.101");
    let s = statut_agent(&agent, Some(creer_snapshot("PC-01", 1, 2)));
    assert!(s.en_ligne);
    assert_eq!(s.snapshot.unwrap().total_tx_bps, 2);
    assert_eq!(adresse_agent(&agent.ip, 7878), "http://192.168.1.101:7878/api/snapshot");
    assert_eq!(adresse_agent(&agent.ip, 7879), "http://192.168.1.101:7879/api/snapshot");
    assert_eq!(adresse_agent(&"10.0.0.2".to_string(), 80), "http://10.0.0.2:80/api/snapshot");
}
