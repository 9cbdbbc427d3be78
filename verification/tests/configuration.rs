use netwatch::config::{
    avertissement_quota_defaut, debit_max_defaut, port_agent_defaut, port_web_defaut, Config, ReglesAlerte,
};

#[test]
fn test_config_valeurs_defaut() {
    let config = Config::default();
    assert_eq!(config.port_web, 3000, "Le port web par defaut doit etre 3000");
    assert_eq!(config.port_agent, 7878, "Le port agent par defaut doit etre 7878");
    assert!(config.agents.is_empty(), "La liste des agents doit etre vide par defaut");
    assert!(config.quotas.is_empty(), "La liste des quotas doit etre vide par defaut");
}

#[test]
fn test_regles_alerte_defaut() {
    let regles = ReglesAlerte::default();
    // 5.0 MB/s, held in bytes per second
    assert_eq!(regles.debit_max_octets_s, 5_000_000, "Le seuil de debit par defaut doit etre 5.0 MB/s");
    assert_eq!(regles.avertissement_quota_pct, 80, "Le seuil d avertissement quota doit etre 80%");
}

#[test]
fn valeurs_par_defaut_des_champs() {
    assert_eq!(port_web_defaut(), 3000);
    assert_eq!(port_agent_defaut(), 7878);
    assert_eq!(debit_max_defaut(), 5_000_000);
    assert_eq!(avertissement_quota_defaut(), 80);
}

#[test]
fn config_par_defaut_reprend_les_seuils_par_defaut() {
    let config = Config::default();
    assert_eq!(config.alertes.debit_max_octets_s, debit_max_defaut());
    assert_eq!(config.alertes.avertissement_quota_pct, avertissement_quota_defaut());
}
