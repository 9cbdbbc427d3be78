use netwatch::texte::{caracteres, commence_par_car, contient_car, ecrire_decimal};

#[test]
fn caracteres_d_une_chaine() {
    assert_eq!(caracteres("héllo"), vec!['h', 'é', 'l', 'l', 'o']);
    assert!(caracteres("").is_empty());
}

#[test]
fn recherche_de_sous_chaine() {
    let botte = caracteres("software loopback interface");
    assert!(contient_car(&botte, &caracteres("loopback")));
    assert!(contient_car(&botte, &caracteres("interface")));
    assert!(contient_car(&botte, &Vec::new()));
    assert!(!contient_car(&botte, &caracteres("loopbacks!")));
    assert!(!contient_car(&caracteres("loop"), &caracteres("loopback")));
}

#[test]
fn prefixes() {
    assert!(commence_par_car(&caracteres("lo0"), &caracteres("lo")));
    assert!(!commence_par_car(&caracteres("l"), &caracteres("lo")));
    assert!(!commence_par_car(&caracteres("eth0"), &caracteres("lo")));
}

#[test]
fn ecriture_decimale() {
    assert_eq!(ecrire_decimal(0), "0");
    assert_eq!(ecrire_decimal(7), "7");
    assert_eq!(ecrire_decimal(10), "10");
    assert_eq!(ecrire_decimal(12345), "12345");
    assert_eq!(ecrire_decimal(u64::MAX), u64::MAX.to_string());
}
