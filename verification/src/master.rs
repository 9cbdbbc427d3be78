//! The decisions of the master: byte counting per machine for the quotas,
//! the state of each quota, the alerts of a cycle, the bounded alert log and
//! the status of each agent.

use vstd::prelude::*;

use crate::alerts::{build_rules, evaluer_regles, regles_de, alertes_regles, Alert, AlerteVue, vues, Regle};
use crate::collector::Snapshot;
use crate::config::{AgentConfig, Config, QuotaConfig};
use crate::table::TableNoms;
use crate::texte::{decimal, ecrire_decimal};

verus! {

/// Number of alerts the dashboard keeps.
pub const TAILLE_JOURNAL: usize = 100;

/// Bytes per MB in the quota accounts.
pub const OCTETS_PAR_MB: u64 = 1_000_000;

// ── Quota accounts ─────────────────────────────────────────────────────────

/// Bytes counted so far for `machine`; zero for a machine never counted.
pub open spec fn octets_utilises(m: Map<Seq<char>, u64>, machine: Seq<char>) -> u64 {
    if m.contains_key(machine) {
        m[machine]
    } else {
        0
    }
}

/// MB counted so far for `machine`.
pub open spec fn mb_utilises(m: Map<Seq<char>, u64>, machine: Seq<char>) -> u64 {
    octets_utilises(m, machine) / OCTETS_PAR_MB
}

/// The bytes counted for `machine`.
pub fn octets_de(compteurs: &TableNoms<u64>, machine: &String) -> (r: u64)
    ensures
        r == octets_utilises(compteurs@, machine@),
{
    match compteurs.valeur(machine) {
        Some(o) => o,
        None => 0,
    }
}

/// One second of traffic of the snapshot's machine, in and out, added to its account.
pub fn comptabiliser(compteurs: &mut TableNoms<u64>, snap: &Snapshot)
    requires
        octets_utilises(old(compteurs)@, snap.machine@) + snap.total_rx_bps + snap.total_tx_bps <= u64::MAX,
    ensures
        final(compteurs)@ == old(compteurs)@.insert(
            snap.machine@,
            (octets_utilises(old(compteurs)@, snap.machine@) + snap.total_rx_bps + snap.total_tx_bps) as u64,
        ),
{
    let avant = octets_de(compteurs, &snap.machine);
    compteurs.inserer(snap.machine.clone(), avant + snap.total_rx_bps + snap.total_tx_bps);
}

/// Law of the quota accounts: counting a snapshot adds its traffic to its
/// machine's account and to no other; resetting a machine brings its
/// account back to zero and leaves the others as they were.
pub proof fn loi_comptes(m: Map<Seq<char>, u64>, machine: Seq<char>, autre: Seq<char>, octets: u64)
    requires
        autre != machine,
        octets_utilises(m, machine) + octets <= u64::MAX,
    ensures
        octets_utilises(m.insert(machine, (octets_utilises(m, machine) + octets) as u64), machine)
            == octets_utilises(m, machine) + octets,
        octets_utilises(m.insert(machine, (octets_utilises(m, machine) + octets) as u64), autre)
            == octets_utilises(m, autre),
        octets_utilises(m.remove(machine), machine) == 0,
        octets_utilises(m.remove(machine), autre) == octets_utilises(m, autre),
{
}

// ── Quota states ───────────────────────────────────────────────────────────

/// The state of a machine's quota, as the dashboard shows it.
#[derive(Debug, Clone)]
pub struct EtatQuota {
    pub machine: String,
    pub utilise_mb: u64,
    pub limite_mb: u64,
    /// Percentage used, capped at 100; zero for a zero limit.
    pub pct: u64,
}

/// The percentage of a quota shown: capped at 100, zero for a zero limit.
pub open spec fn pourcentage(utilise_mb: u64, limite_mb: u64) -> u64 {
    if limite_mb > 0 {
        let p = (utilise_mb * 100) / (limite_mb as int);
        if p > 100 {
            100
        } else {
            p as u64
        }
    } else {
        0
    }
}

/// The state of the quota `q` given the accounts `m`.
pub open spec fn etat_de(q: QuotaConfig, m: Map<Seq<char>, u64>) -> EtatQuota {
    EtatQuota {
        machine: q.machine,
        utilise_mb: mb_utilises(m, q.machine@),
        limite_mb: q.limite_mb,
        pct: pourcentage(mb_utilises(m, q.machine@), q.limite_mb),
    }
}

/// The state of the quota `q`.
pub fn etat_quota(q: &QuotaConfig, compteurs: &TableNoms<u64>) -> (e: EtatQuota)
    ensures
        e == etat_de(*q, compteurs@),
        e.pct <= 100,
{
    let utilise_mb = octets_de(compteurs, &q.machine) / OCTETS_PAR_MB;
    let pct = if q.limite_mb > 0 {
        let p = utilise_mb * 100 / q.limite_mb;
        if p > 100 {
            100
        } else {
            p
        }
    } else {
        0
    };
    EtatQuota { machine: q.machine.clone(), utilise_mb, limite_mb: q.limite_mb, pct }
}

/// The state of every quota of `cfg`, in the order of the configuration.
pub fn etats_quotas(cfg: &Config, compteurs: &TableNoms<u64>) -> (r: Vec<EtatQuota>)
    ensures
        r@ == cfg.quotas@.map_values(|q: QuotaConfig| etat_de(q, compteurs@)),
{
    let n = cfg.quotas.len();
    let mut r: Vec<EtatQuota> = Vec::new();
    let mut i: usize = 0;
    while i < n
        invariant
            n == cfg.quotas@.len(),
            i <= n,
            r@ == cfg.quotas@.take(i as int).map_values(|q: QuotaConfig| etat_de(q, compteurs@)),
        decreases n - i,
    {
        r.push(etat_quota(&cfg.quotas[i], compteurs));
        proof {
            assert(cfg.quotas@.take(i + 1) =~= cfg.quotas@.take(i as int).push(cfg.quotas@[i as int]));
            assert(r@ =~= cfg.quotas@.take(i + 1).map_values(|q: QuotaConfig| etat_de(q, compteurs@)));
        }
        i = i + 1;
    }
    proof {
        assert(cfg.quotas@.take(n as int) =~= cfg.quotas@);
    }
    r
}

// ── Alerts of a cycle ──────────────────────────────────────────────────────

/// The alerts of one cycle: every rule of `cfg` evaluated on the latest
/// snapshot, with the MB counted for the snapshot's machine.
pub fn cycle_alertes(cfg: &Config, snap: &Snapshot, compteurs: &TableNoms<u64>) -> (r: Vec<Alert>)
    ensures
        vues(r@) == alertes_regles(regles_de(*cfg), *snap, mb_utilises(compteurs@, snap.machine@)),
{
    let quota_mb = octets_de(compteurs, &snap.machine) / OCTETS_PAR_MB;
    let regles = build_rules(cfg);
    proof {
        assert forall|i: int| 0 <= i < regles@.len() implies #[trigger] regles@[i].admet(*snap, quota_mb) by {
            assert(quota_mb * 100 <= u64::MAX);
        }
    }
    evaluer_regles(&regles, snap, quota_mb)
}

// ── Alert log ──────────────────────────────────────────────────────────────

/// The last `TAILLE_JOURNAL` elements of `s`, in order.
pub open spec fn derniers<T>(s: Seq<T>) -> Seq<T> {
    if s.len() > TAILLE_JOURNAL {
        s.subrange(s.len() - TAILLE_JOURNAL, s.len() as int)
    } else {
        s
    }
}

/// The alerts shown on the dashboard: the last `TAILLE_JOURNAL` raised.
pub struct JournalAlertes {
    alertes: Vec<Alert>,
}

impl View for JournalAlertes {
    type V = Seq<Alert>;

    closed spec fn view(&self) -> Seq<Alert> {
        self.alertes@
    }
}

impl JournalAlertes {
    #[verifier::type_invariant]
    closed spec fn borne(self) -> bool {
        self.alertes@.len() <= TAILLE_JOURNAL
    }

    /// An empty log.
    pub fn nouveau() -> (j: Self)
        ensures
            j@ == Seq::<Alert>::empty(),
    {
        JournalAlertes { alertes: Vec::new() }
    }

    /// The alerts held, oldest first.
    pub fn alertes(&self) -> (r: &Vec<Alert>)
        ensures
            r@ == self@,
            r@.len() <= TAILLE_JOURNAL,
    {
        proof {
            use_type_invariant(self);
        }
        &self.alertes
    }

    /// Adds an alert; when the log is full, the oldest one leaves.
    pub fn ajouter(&mut self, a: Alert)
        ensures
            final(self)@ == derniers(old(self)@.push(a)),
    {
        proof {
            use_type_invariant(&*self);
        }
        let mut v: Vec<Alert> = Vec::new();
        std::mem::swap(&mut v, &mut self.alertes);
        let ghost avant = v@;
        if v.len() >= TAILLE_JOURNAL {
            v.remove(0);
        }
        v.push(a);
        proof {
            assert(v@ =~= derniers(avant.push(a)));
        }
        self.alertes = v;
    }

    /// Adds the alerts of `nouvelles`, in order.
    pub fn ajouter_tous(&mut self, nouvelles: Vec<Alert>)
        ensures
            final(self)@ == derniers(old(self)@ + nouvelles@),
    {
        proof {
            use_type_invariant(&*self);
        }
        let ghost depart = self@;
        let ghost toutes = nouvelles@;
        proof {
            assert(depart + toutes.take(0) =~= depart);
        }
        let mut reste = nouvelles;
        let n = reste.len();
        let mut i: usize = 0;
        while i < n
            invariant
                n == toutes.len(),
                i <= n,
                reste@ == toutes.skip(i as int),
                self@ == derniers(depart + toutes.take(i as int)),
            decreases n - i,
        {
            let a = reste.remove(0);
            proof {
                assert(a == toutes[i as int]);
                assert(reste@ =~= toutes.skip(i + 1));
                lemme_derniers(depart + toutes.take(i as int), a);
                assert(depart + toutes.take(i + 1) =~= (depart + toutes.take(i as int)).push(a));
            }
            self.ajouter(a);
            i = i + 1;
        }
        proof {
            assert(toutes.take(n as int) =~= toutes);
        }
    }
}

proof fn lemme_derniers<T>(s: Seq<T>, a: T)
    ensures
        derniers(derniers(s).push(a)) == derniers(s.push(a)),
{
    assert(derniers(derniers(s).push(a)) =~= derniers(s.push(a)));
}

/// The log after adding, one by one and from empty, the alerts of `ajouts`.
pub open spec fn journal_apres(ajouts: Seq<Alert>) -> Seq<Alert>
    decreases ajouts.len(),
{
    if ajouts.len() == 0 {
        Seq::empty()
    } else {
        derniers(journal_apres(ajouts.drop_last()).push(ajouts.last()))
    }
}

/// Law of the alert log: it holds exactly the last `TAILLE_JOURNAL` alerts
/// raised, oldest first.
pub proof fn loi_journal(ajouts: Seq<Alert>)
    ensures
        journal_apres(ajouts) == derniers(ajouts),
        journal_apres(ajouts).len() <= TAILLE_JOURNAL,
    decreases ajouts.len(),
{
    if ajouts.len() > 0 {
        let avant = ajouts.drop_last();
        loi_journal(avant);
        lemme_derniers(avant, ajouts.last());
        assert(avant.push(ajouts.last()) =~= ajouts);
    }
}

// ── Agents ─────────────────────────────────────────────────────────────────

/// The status of a remote agent: online when it answered with a snapshot.
#[derive(Debug, Clone)]
pub struct StatutAgent {
    pub nom: String,
    pub ip: String,
    pub en_ligne: bool,
    pub snapshot: Option<Snapshot>,
}

/// The status of `agent` given what it answered, if anything.
pub fn statut_agent(agent: &AgentConfig, reponse: Option<Snapshot>) -> (s: StatutAgent)
    ensures
        s.nom == agent.nom,
        s.ip == agent.ip,
        s.en_ligne == reponse.is_some(),
        s.snapshot == reponse,
{
    let en_ligne = reponse.is_some();
    StatutAgent { nom: agent.nom.clone(), ip: agent.ip.clone(), en_ligne, snapshot: reponse }
}

/// The address at which the master asks an agent, listening on `port`, for
/// its latest snapshot.
pub open spec fn url_agent(ip: Seq<char>, port: u16) -> Seq<char> {
    "http://"@ + ip + ":"@ + decimal(port as nat) + "/api/snapshot"@
}

/// The address at which the master asks the agent at `ip`, listening on the
/// configured agent `port`, for its latest snapshot.
pub fn adresse_agent(ip: &String, port: u16) -> (r: String)
    ensures
        r@ == url_agent(ip@, port),
{
    String::from_str("http://")
        .concat(ip.as_str())
        .concat(":")
        .concat(ecrire_decimal(port as u64).as_str())
        .concat("/api/snapshot")
}

} // verus!
