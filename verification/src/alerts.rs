//! The alert rules: each rule looks at a snapshot and at the quota used by
//! the snapshot's machine, and produces alerts.

use vstd::prelude::*;

use crate::collector::{Snapshot, StatProcessus};
use crate::config::{Config, QuotaConfig};
use crate::texte::{decimal, ecrire_decimal};

verus! {

/// What an alert is about.
#[derive(Debug, Clone, Copy, PartialEq, Eq, Structural)]
pub enum AlertKind {
    HighBandwidth,
    QuotaWarning,
    QuotaExceeded,
    SuspiciousIp,
}

/// An alert raised on a machine.
#[derive(Debug, Clone)]
pub struct Alert {
    pub timestamp: u64,
    pub machine_id: String,
    pub kind: AlertKind,
    pub message: String,
}

/// An alert seen as plain values.
pub struct AlerteVue {
    pub timestamp: u64,
    pub machine_id: Seq<char>,
    pub kind: AlertKind,
    pub message: Seq<char>,
}

impl View for Alert {
    type V = AlerteVue;

    open spec fn view(&self) -> AlerteVue {
        AlerteVue {
            timestamp: self.timestamp,
            machine_id: self.machine_id@,
            kind: self.kind,
            message: self.message@,
        }
    }
}

/// The views of a list of alerts.
pub open spec fn vues(s: Seq<Alert>) -> Seq<AlerteVue> {
    s.map_values(|a: Alert| a@)
}

// ── Messages ───────────────────────────────────────────────────────────────

/// Message of a process above the rate threshold: its name, its rate and the
/// threshold, both in MB/s with one decimal.
pub open spec fn message_debit(nom: Seq<char>, mo: nat, dixieme: nat, seuil_mo: nat, seuil_dixieme: nat) -> Seq<char> {
    "⚡ "@ + nom + " utilise "@ + decimal(mo) + "."@ + decimal(dixieme) + " MB/s (seuil : "@
        + decimal(seuil_mo) + "."@ + decimal(seuil_dixieme) + " MB/s)"@
}

/// Message of a machine over its quota.
pub open spec fn message_depasse(machine: Seq<char>, utilise: nat, limite: nat, pct: nat) -> Seq<char> {
    "🚫 Quota depasse sur "@ + machine + " : "@ + decimal(utilise) + " MB / "@ + decimal(limite)
        + " MB ("@ + decimal(pct) + "%)"@
}

/// Message of a machine close to its quota.
pub open spec fn message_avertissement(machine: Seq<char>, utilise: nat, limite: nat, pct: nat) -> Seq<char> {
    "⚠️  Quota à "@ + decimal(pct) + "% sur "@ + machine + " : "@ + decimal(utilise) + " MB / "@
        + decimal(limite) + " MB"@
}

/// Writes the rate message.
fn ecrire_message_debit(nom: &str, mo: u64, dixieme: u64, seuil_mo: u64, seuil_dixieme: u64) -> (r: String)
    ensures
        r@ == message_debit(nom@, mo as nat, dixieme as nat, seuil_mo as nat, seuil_dixieme as nat),
{
    String::from_str("⚡ ")
        .concat(nom)
        .concat(" utilise ")
        .concat(ecrire_decimal(mo).as_str())
        .concat(".")
        .concat(ecrire_decimal(dixieme).as_str())
        .concat(" MB/s (seuil : ")
        .concat(ecrire_decimal(seuil_mo).as_str())
        .concat(".")
        .concat(ecrire_decimal(seuil_dixieme).as_str())
        .concat(" MB/s)")
}

/// Writes the over-quota message.
fn ecrire_message_depasse(machine: &str, utilise: u64, limite: u64, pct: u64) -> (r: String)
    ensures
        r@ == message_depasse(machine@, utilise as nat, limite as nat, pct as nat),
{
    String::from_str("🚫 Quota depasse sur ")
        .concat(machine)
        .concat(" : ")
        .concat(ecrire_decimal(utilise).as_str())
        .concat(" MB / ")
        .concat(ecrire_decimal(limite).as_str())
        .concat(" MB (")
        .concat(ecrire_decimal(pct).as_str())
        .concat("%)")
}

/// Writes the quota warning message.
fn ecrire_message_avertissement(machine: &str, utilise: u64, limite: u64, pct: u64) -> (r: String)
    ensures
        r@ == message_avertissement(machine@, utilise as nat, limite as nat, pct as nat),
{
    String::from_str("⚠️  Quota à ")
        .concat(ecrire_decimal(pct).as_str())
        .concat("% sur ")
        .concat(machine)
        .concat(" : ")
        .concat(ecrire_decimal(utilise).as_str())
        .concat(" MB / ")
        .concat(ecrire_decimal(limite).as_str())
        .concat(" MB")
}

// ── The rule trait ─────────────────────────────────────────────────────────

/// A rule looks at a snapshot and at the quota used by its machine (in MB)
/// and produces alerts.
pub trait Regle {
    /// The inputs on which the rule can be evaluated.
    spec fn admet(&self, snap: Snapshot, quota_used_mb: u64) -> bool;

    /// The alerts the rule produces.
    spec fn alertes(&self, snap: Snapshot, quota_used_mb: u64) -> Seq<AlerteVue>;

    fn evaluer(&self, snap: &Snapshot, quota_used_mb: u64) -> (r: Vec<Alert>)
        requires
            self.admet(*snap, quota_used_mb),
        ensures
            vues(r@) == self.alertes(*snap, quota_used_mb),
    ;
}

// ── Rule 1: high rate ──────────────────────────────────────────────────────

/// Alerts on each process whose rate, in and out, is above a threshold.
#[derive(Debug, Clone)]
pub struct RegleDebit {
    /// Threshold in bytes per second.
    pub seuil_octets_s: u64,
}

/// Whether a process goes above the rate threshold.
pub open spec fn au_dessus(p: StatProcessus, seuil: u64) -> bool {
    p.rx_bps + p.tx_bps > seuil
}

/// The largest `k` with `5 * 2^k <= v`, for `v >= 5`.
pub open spec fn rang(v: nat) -> nat
    decreases v,
{
    if v < 10 {
        0
    } else {
        1 + rang(v / 2)
    }
}

/// `2^j` modulo 5, which cycles with period 4.
pub open spec fn deux_puissance_mod5(j: int) -> int {
    let r = j % 4;
    if r == 0 {
        1
    } else if r == 1 {
        2
    } else if r == 2 {
        4
    } else {
        3
    }
}

/// For `m` odd and not a multiple of 5, whether the binary double nearest to
/// `m / 20` lies above it. With `e` the binary exponent of `m / 20`
/// (`e == rang(8 * m) - 5`), the double keeps `m * 2^(50 - e) / 5` rounded to
/// an integer, whose fraction is that product modulo 5, over 5.
pub open spec fn double_au_dessus(m: nat) -> bool {
    ((m % 5) * deux_puissance_mod5(55 - rang(8 * m))) % 5 >= 3
}

/// A rate in bytes per second, in tenths of MB/s, as `{:.1}` writes the binary
/// double nearest to `octets / 10^6`: the nearest tenth, where a rate exactly
/// half-way between two tenths goes the way its double lies (and, when the
/// double is the half-way point itself, to the even tenth). This is what
/// dividing the rate by a million in floating point and writing it with one
/// decimal gives, for every rate below 2^53 bytes per second.
pub open spec fn dixiemes_mo(octets: int) -> int {
    let t = octets / 100_000;
    let r = octets % 100_000;
    let m = (2 * t + 1) as nat;
    if r > 50_000 {
        t + 1
    } else if r < 50_000 {
        t
    } else if m % 5 == 0 {
        if t % 2 == 1 {
            t + 1
        } else {
            t
        }
    } else if double_au_dessus(m) {
        t + 1
    } else {
        t
    }
}

fn rang_de(v: u128) -> (k: u128)
    ensures
        k == rang(v as nat),
        k <= v,
    decreases v,
{
    if v < 10 {
        0
    } else {
        1 + rang_de(v / 2)
    }
}

/// A rate in bytes per second, in tenths of MB/s as the rate alerts write it.
pub fn dixiemes(octets: u128) -> (t: u128)
    ensures
        t == dixiemes_mo(octets as int),
{
    let t = octets / 100_000;
    let r = octets % 100_000;
    if r > 50_000 {
        return t + 1;
    } else if r < 50_000 {
        return t;
    }
    let m: u128 = 2 * t + 1;
    if m % 5 == 0 {
        if t % 2 == 1 {
            t + 1
        } else {
            t
        }
    } else {
        let k = rang_de(8 * m);
        let kk = k % 4;
        let j = (55 - kk) % 4;
        proof {
            assert(((55 - k) as int) % 4 == ((55 - kk) as int) % 4) by (nonlinear_arith)
                requires k == 4 * (k / 4) + kk, 0 <= kk < 4, k >= 0;
        }
        let p: u128 = if j == 0 {
            1
        } else if j == 1 {
            2
        } else if j == 2 {
            4
        } else {
            3
        };
        if ((m % 5) * p) % 5 >= 3 {
            t + 1
        } else {
            t
        }
    }
}

/// The alert on a process above the threshold; the rate and the threshold
/// are written in MB/s rounded to one decimal.
pub open spec fn alerte_debit(p: StatProcessus, seuil: u64, ts: u64, machine: Seq<char>) -> AlerteVue {
    let d = dixiemes_mo(p.rx_bps + p.tx_bps);
    let s = dixiemes_mo(seuil as int);
    AlerteVue {
        timestamp: ts,
        machine_id: machine,
        kind: AlertKind::HighBandwidth,
        message: message_debit(p.nom@, (d / 10) as nat, (d % 10) as nat, (s / 10) as nat, (s % 10) as nat),
    }
}

/// The rate alerts on the processes of `procs`, in their order.
pub open spec fn alertes_debit(procs: Seq<StatProcessus>, seuil: u64, ts: u64, machine: Seq<char>) -> Seq<AlerteVue>
    decreases procs.len(),
{
    if procs.len() == 0 {
        Seq::empty()
    } else if au_dessus(procs.last(), seuil) {
        alertes_debit(procs.drop_last(), seuil, ts, machine).push(alerte_debit(procs.last(), seuil, ts, machine))
    } else {
        alertes_debit(procs.drop_last(), seuil, ts, machine)
    }
}

impl Regle for RegleDebit {
    open spec fn admet(&self, snap: Snapshot, quota_used_mb: u64) -> bool {
        true
    }

    open spec fn alertes(&self, snap: Snapshot, quota_used_mb: u64) -> Seq<AlerteVue> {
        alertes_debit(snap.processus@, self.seuil_octets_s, snap.horodatage, snap.machine@)
    }

    fn evaluer(&self, snap: &Snapshot, quota_used_mb: u64) -> (r: Vec<Alert>) {
        let seuil = self.seuil_octets_s;
        let seuil_dixiemes = dixiemes(seuil as u128);
        let seuil_mo = (seuil_dixiemes / 10) as u64;
        let seuil_dixieme = (seuil_dixiemes % 10) as u64;
        let procs = &snap.processus;
        let n = procs.len();
        let mut r: Vec<Alert> = Vec::new();
        let mut i: usize = 0;
        while i < n
            invariant
                n == procs@.len(),
                i <= n,
                seuil == self.seuil_octets_s,
                seuil_mo == dixiemes_mo(seuil as int) / 10,
                seuil_dixieme == dixiemes_mo(seuil as int) % 10,
                vues(r@) == alertes_debit(procs@.take(i as int), seuil, snap.horodatage, snap.machine@),
            decreases n - i,
        {
            let p = &procs[i];
            proof {
                assert(procs@.take(i + 1).drop_last() =~= procs@.take(i as int));
                assert(procs@.take(i + 1).last() == *p);
            }
            let d: u128 = p.rx_bps as u128 + p.tx_bps as u128;
            if d > seuil as u128 {
                let dix = dixiemes(d);
                let mo = (dix / 10) as u64;
                let dixieme = (dix % 10) as u64;
                let message = ecrire_message_debit(p.nom.as_str(), mo, dixieme, seuil_mo, seuil_dixieme);
                let ghost avant = r@;
                r.push(Alert {
                    timestamp: snap.horodatage,
                    machine_id: snap.machine.clone(),
                    kind: AlertKind::HighBandwidth,
                    message,
                });
                proof {
                    assert(vues(r@) =~= vues(avant).push(r@.last()@));
                }
            }
            i = i + 1;
        }
        proof {
            assert(procs@.take(n as int) =~= procs@);
        }
        r
    }
}


/// The processes of `procs` above the threshold, in their order.
pub open spec fn processus_au_dessus(procs: Seq<StatProcessus>, seuil: u64) -> Seq<StatProcessus>
    decreases procs.len(),
{
    if procs.len() == 0 {
        Seq::empty()
    } else if au_dessus(procs.last(), seuil) {
        processus_au_dessus(procs.drop_last(), seuil).push(procs.last())
    } else {
        processus_au_dessus(procs.drop_last(), seuil)
    }
}

/// Law of the rate rule: it raises one alert per process above the
/// threshold, in the order of the processes, and no other; each alert is
/// about the snapshot's machine and time.
pub proof fn loi_debit(procs: Seq<StatProcessus>, seuil: u64, ts: u64, machine: Seq<char>)
    ensures
        alertes_debit(procs, seuil, ts, machine)
            == processus_au_dessus(procs, seuil).map_values(|p: StatProcessus| alerte_debit(p, seuil, ts, machine)),
        alertes_debit(procs, seuil, ts, machine).len() == processus_au_dessus(procs, seuil).len(),
        processus_au_dessus(procs, seuil).len() <= procs.len(),
        forall|i: int| 0 <= i < processus_au_dessus(procs, seuil).len()
            ==> au_dessus(#[trigger] processus_au_dessus(procs, seuil)[i], seuil),
        (forall|i: int| 0 <= i < procs.len() ==> !au_dessus(#[trigger] procs[i], seuil))
            ==> alertes_debit(procs, seuil, ts, machine).len() == 0,
        forall|i: int| 0 <= i < alertes_debit(procs, seuil, ts, machine).len() ==> {
            let a = #[trigger] alertes_debit(procs, seuil, ts, machine)[i];
            &&& a.kind == AlertKind::HighBandwidth
            &&& a.machine_id == machine
            &&& a.timestamp == ts
        },
    decreases procs.len(),
{
    if procs.len() > 0 {
        let t = procs.drop_last();
        loi_debit(t, seuil, ts, machine);
        assert forall|i: int| 0 <= i < t.len() implies t[i] == procs[i] by {}
        let f = |p: StatProcessus| alerte_debit(p, seuil, ts, machine);
        if au_dessus(procs.last(), seuil) {
            assert(processus_au_dessus(procs, seuil).map_values(f)
                =~= processus_au_dessus(t, seuil).map_values(f).push(f(procs.last())));
        }
    } else {
        assert(processus_au_dessus(procs, seuil).map_values(
            |p: StatProcessus| alerte_debit(p, seuil, ts, machine),
        ) =~= Seq::<AlerteVue>::empty());
    }
}

/// Law of the rate rule on the sum of the rates: a process is above the
/// threshold exactly when its incoming plus outgoing rate exceeds it; every
/// process alerted exceeds it, every process that exceeds it is alerted, and
/// each alert writes that sum and the threshold in MB/s with one decimal.
pub proof fn loi_debit_somme(procs: Seq<StatProcessus>, seuil: u64, ts: u64, machine: Seq<char>)
    ensures
        forall|p: StatProcessus| #[trigger] au_dessus(p, seuil) <==> p.rx_bps + p.tx_bps > seuil,
        forall|i: int| 0 <= i < processus_au_dessus(procs, seuil).len() ==>
            #[trigger] processus_au_dessus(procs, seuil)[i].rx_bps + processus_au_dessus(procs, seuil)[i].tx_bps > seuil,
        forall|i: int| 0 <= i < procs.len() && procs[i].rx_bps + procs[i].tx_bps > seuil ==>
            processus_au_dessus(procs, seuil).contains(#[trigger] procs[i]),
        alertes_debit(procs, seuil, ts, machine).len() == processus_au_dessus(procs, seuil).len(),
        forall|i: int| 0 <= i < processus_au_dessus(procs, seuil).len() ==> {
            let p = #[trigger] processus_au_dessus(procs, seuil)[i];
            let d = dixiemes_mo(p.rx_bps + p.tx_bps);
            let s = dixiemes_mo(seuil as int);
            alertes_debit(procs, seuil, ts, machine)[i] == AlerteVue {
                timestamp: ts,
                machine_id: machine,
                kind: AlertKind::HighBandwidth,
                message: "⚡ "@ + p.nom@ + " utilise "@ + decimal((d / 10) as nat) + "."@ + decimal((d % 10) as nat)
                    + " MB/s (seuil : "@ + decimal((s / 10) as nat) + "."@ + decimal((s % 10) as nat) + " MB/s)"@,
            }
        },
    decreases procs.len(),
{
    loi_debit(procs, seuil, ts, machine);
    if procs.len() > 0 {
        let t = procs.drop_last();
        loi_debit_somme(t, seuil, ts, machine);
        assert forall|i: int| 0 <= i < procs.len() && procs[i].rx_bps + procs[i].tx_bps > seuil implies
            processus_au_dessus(procs, seuil).contains(#[trigger] procs[i]) by {
            if i < t.len() {
                assert(t[i] == procs[i]);
                let u = processus_au_dessus(t, seuil);
                let j = choose|j: int| 0 <= j < u.len() && u[j] == t[i];
                if au_dessus(procs.last(), seuil) {
                    assert(processus_au_dessus(procs, seuil)[j] == u[j]);
                }
            } else {
                assert(processus_au_dessus(procs, seuil).last() == procs[i]);
            }
        }
    }
}

/// Law of the rate threshold: with a higher threshold, the processes alerted
/// are exactly those alerted with the lower one that are also above the
/// higher one; so they are a subsequence of them, and there are no more alerts.
pub proof fn loi_seuil_debit(procs: Seq<StatProcessus>, seuil1: u64, seuil2: u64, ts: u64, machine: Seq<char>)
    requires
        seuil1 <= seuil2,
    ensures
        processus_au_dessus(procs, seuil2) == processus_au_dessus(processus_au_dessus(procs, seuil1), seuil2),
        alertes_debit(procs, seuil2, ts, machine).len() <= alertes_debit(procs, seuil1, ts, machine).len(),
    decreases procs.len(),
{
    loi_debit(procs, seuil1, ts, machine);
    loi_debit(procs, seuil2, ts, machine);
    loi_debit(processus_au_dessus(procs, seuil1), seuil2, ts, machine);
    if procs.len() > 0 {
        let t = procs.drop_last();
        loi_seuil_debit(t, seuil1, seuil2, ts, machine);
        let u = processus_au_dessus(t, seuil1);
        if au_dessus(procs.last(), seuil1) {
            assert(u.push(procs.last()).drop_last() =~= u);
        }
    }
}

// ── Rule 2: quota ──────────────────────────────────────────────────────────

/// Warns when a machine reaches a percentage of its quota, and alerts when it
/// goes over it.
#[derive(Debug, Clone)]
pub struct RegleQuota {
    pub machine: String,
    pub limite_mb: u64,
    /// Percentage of the quota from which a warning is raised.
    pub seuil_pct: u64,
}

/// How far a machine is into its quota: 0 below the warning threshold, 1 at
/// or above it, 2 at or over the limit (for a nonzero limit).
pub open spec fn niveau_quota(utilise: u64, limite: u64, seuil_pct: u64) -> int {
    if utilise >= limite {
        2
    } else if (utilise * 100) / (limite as int) >= seuil_pct {
        1
    } else {
        0
    }
}

/// The quota alerts on a snapshot, when `quota_used_mb` MB are used.
pub open spec fn alertes_quota(r: RegleQuota, snap: Snapshot, quota_used_mb: u64) -> Seq<AlerteVue> {
    if snap.machine@ != r.machine@ || r.limite_mb == 0 {
        Seq::empty()
    } else {
        let pct = ((quota_used_mb * 100) / (r.limite_mb as int)) as nat;
        if quota_used_mb >= r.limite_mb {
            seq![AlerteVue {
                timestamp: snap.horodatage,
                machine_id: snap.machine@,
                kind: AlertKind::QuotaExceeded,
                message: message_depasse(r.machine@, quota_used_mb as nat, r.limite_mb as nat, pct),
            }]
        } else if pct >= r.seuil_pct {
            seq![AlerteVue {
                timestamp: snap.horodatage,
                machine_id: snap.machine@,
                kind: AlertKind::QuotaWarning,
                message: message_avertissement(r.machine@, quota_used_mb as nat, r.limite_mb as nat, pct),
            }]
        } else {
            Seq::empty()
        }
    }
}

impl Regle for RegleQuota {
    /// The percentage must be computable: the MB used, times 100, must fit
    /// in a `u64`.
    open spec fn admet(&self, snap: Snapshot, quota_used_mb: u64) -> bool {
        (snap.machine@ == self.machine@ && self.limite_mb != 0) ==> quota_used_mb * 100 <= u64::MAX
    }

    open spec fn alertes(&self, snap: Snapshot, quota_used_mb: u64) -> Seq<AlerteVue> {
        alertes_quota(*self, snap, quota_used_mb)
    }

    fn evaluer(&self, snap: &Snapshot, quota_used_mb: u64) -> (r: Vec<Alert>) {
        if snap.machine != self.machine || self.limite_mb == 0 {
            return Vec::new();
        }
        let pct = (quota_used_mb * 100) / self.limite_mb;
        if quota_used_mb >= self.limite_mb {
            let message = ecrire_message_depasse(self.machine.as_str(), quota_used_mb, self.limite_mb, pct);
            let mut r: Vec<Alert> = Vec::new();
            r.push(Alert {
                timestamp: snap.horodatage,
                machine_id: snap.machine.clone(),
                kind: AlertKind::QuotaExceeded,
                message,
            });
            proof {
                assert(vues(r@) =~= self.alertes(*snap, quota_used_mb));
            }
            r
        } else if pct >= self.seuil_pct {
            let message = ecrire_message_avertissement(self.machine.as_str(), quota_used_mb, self.limite_mb, pct);
            let mut r: Vec<Alert> = Vec::new();
            r.push(Alert {
                timestamp: snap.horodatage,
                machine_id: snap.machine.clone(),
                kind: AlertKind::QuotaWarning,
                message,
            });
            proof {
                assert(vues(r@) =~= self.alertes(*snap, quota_used_mb));
            }
            r
        } else {
            let r: Vec<Alert> = Vec::new();
            proof {
                assert(vues(r@) =~= self.alertes(*snap, quota_used_mb));
            }
            r
        }
    }
}

/// Law of the quota rule: on its machine and for a nonzero limit, the rule
/// raises at most one alert, none below the warning threshold, a warning from
/// the threshold up to the limit and an over-quota alert from the limit on;
/// and using more never lowers the level (normal, then warning, then over).
pub proof fn loi_quota(r: RegleQuota, snap: Snapshot, u1: u64, u2: u64)
    requires
        snap.machine@ == r.machine@,
        r.limite_mb != 0,
        u1 <= u2,
    ensures
        alertes_quota(r, snap, u1).len() <= 1,
        niveau_quota(u1, r.limite_mb, r.seuil_pct) == 0 <==> alertes_quota(r, snap, u1).len() == 0,
        niveau_quota(u1, r.limite_mb, r.seuil_pct) == 1 <==> (alertes_quota(r, snap, u1).len() == 1
            && alertes_quota(r, snap, u1)[0].kind == AlertKind::QuotaWarning),
        niveau_quota(u1, r.limite_mb, r.seuil_pct) == 2 <==> (alertes_quota(r, snap, u1).len() == 1
            && alertes_quota(r, snap, u1)[0].kind == AlertKind::QuotaExceeded),
        niveau_quota(u1, r.limite_mb, r.seuil_pct) <= niveau_quota(u2, r.limite_mb, r.seuil_pct),
{
    let l = r.limite_mb as int;
    assert((u1 * 100) / l <= (u2 * 100) / l) by (nonlinear_arith)
        requires u1 <= u2, l > 0;
}

/// Law of the quota alerts' content: on its machine and for a nonzero limit,
/// with `pct` the MB used times 100 over the limit, the rule raises an
/// over-quota alert from the limit on, a warning from the warning percentage
/// up to the limit, and nothing below; each message writes the machine, the
/// MB used, the limit and `pct` in their places.
pub proof fn loi_quota_messages(r: RegleQuota, snap: Snapshot, utilise: u64)
    requires
        snap.machine@ == r.machine@,
        r.limite_mb != 0,
    ensures
        ({
            let pct = ((utilise * 100) / (r.limite_mb as int)) as nat;
            &&& utilise >= r.limite_mb ==> alertes_quota(r, snap, utilise) == seq![AlerteVue {
                timestamp: snap.horodatage,
                machine_id: snap.machine@,
                kind: AlertKind::QuotaExceeded,
                message: "🚫 Quota depasse sur "@ + r.machine@ + " : "@ + decimal(utilise as nat) + " MB / "@
                    + decimal(r.limite_mb as nat) + " MB ("@ + decimal(pct) + "%)"@,
            }]
            &&& (utilise < r.limite_mb && pct >= r.seuil_pct) ==> alertes_quota(r, snap, utilise) == seq![AlerteVue {
                timestamp: snap.horodatage,
                machine_id: snap.machine@,
                kind: AlertKind::QuotaWarning,
                message: "⚠️  Quota à "@ + decimal(pct) + "% sur "@ + r.machine@ + " : "@ + decimal(utilise as nat)
                    + " MB / "@ + decimal(r.limite_mb as nat) + " MB"@,
            }]
            &&& (utilise < r.limite_mb && pct < r.seuil_pct) ==> alertes_quota(r, snap, utilise).len() == 0
        }),
{
}

/// Law of the quota rule: it only ever speaks of its own machine.
pub proof fn loi_quota_machine(r: RegleQuota, snap: Snapshot, utilise: u64)
    requires
        snap.machine@ != r.machine@,
    ensures
        alertes_quota(r, snap, utilise).len() == 0,
{
}

// ── Rule 3: suspicious IP ──────────────────────────────────────────────────

/// Alerts on connections to listed addresses; the connection table is not
/// read yet, so the rule raises nothing.
#[derive(Debug, Clone)]
pub struct RegleIpSuspecte {
    pub ips: Vec<String>,
}

impl Regle for RegleIpSuspecte {
    open spec fn admet(&self, snap: Snapshot, quota_used_mb: u64) -> bool {
        true
    }

    open spec fn alertes(&self, snap: Snapshot, quota_used_mb: u64) -> Seq<AlerteVue> {
        Seq::empty()
    }

    fn evaluer(&self, snap: &Snapshot, quota_used_mb: u64) -> (r: Vec<Alert>) {
        let r: Vec<Alert> = Vec::new();
        proof {
            assert(vues(r@) =~= Seq::<AlerteVue>::empty());
        }
        r
    }
}

// ── The active rules ───────────────────────────────────────────────────────

/// One of the rules of the library.
#[derive(Debug, Clone)]
pub enum RegleActive {
    Debit(RegleDebit),
    Quota(RegleQuota),
    IpSuspecte(RegleIpSuspecte),
}

impl Regle for RegleActive {
    open spec fn admet(&self, snap: Snapshot, quota_used_mb: u64) -> bool {
        match self {
            RegleActive::Debit(r) => r.admet(snap, quota_used_mb),
            RegleActive::Quota(r) => r.admet(snap, quota_used_mb),
            RegleActive::IpSuspecte(r) => r.admet(snap, quota_used_mb),
        }
    }

    open spec fn alertes(&self, snap: Snapshot, quota_used_mb: u64) -> Seq<AlerteVue> {
        match self {
            RegleActive::Debit(r) => r.alertes(snap, quota_used_mb),
            RegleActive::Quota(r) => r.alertes(snap, quota_used_mb),
            RegleActive::IpSuspecte(r) => r.alertes(snap, quota_used_mb),
        }
    }

    fn evaluer(&self, snap: &Snapshot, quota_used_mb: u64) -> (r: Vec<Alert>) {
        match self {
            RegleActive::Debit(r) => r.evaluer(snap, quota_used_mb),
            RegleActive::Quota(r) => r.evaluer(snap, quota_used_mb),
            RegleActive::IpSuspecte(r) => r.evaluer(snap, quota_used_mb),
        }
    }
}

/// The rule that a quota of the configuration sets.
pub open spec fn regle_de_quota(q: QuotaConfig, seuil_pct: u64) -> RegleActive {
    RegleActive::Quota(RegleQuota { machine: q.machine, limite_mb: q.limite_mb, seuil_pct })
}

/// The rules that `cfg` sets: the rate rule, then one quota rule per quota,
/// in the order of the configuration.
pub open spec fn regles_de(cfg: Config) -> Seq<RegleActive> {
    seq![RegleActive::Debit(RegleDebit { seuil_octets_s: cfg.alertes.debit_max_octets_s })]
        + cfg.quotas@.map_values(|q: QuotaConfig| regle_de_quota(q, cfg.alertes.avertissement_quota_pct))
}

/// Law of the rules a configuration sets: first the rate rule with the
/// configured threshold, then, for each configured quota in order, a quota
/// rule that alerts exactly as the quota rule of that machine, limit and
/// warning percentage.
pub proof fn loi_regles_de(cfg: Config, snap: Snapshot, quota_used_mb: u64)
    ensures
        regles_de(cfg).len() == cfg.quotas@.len() + 1,
        regles_de(cfg)[0].alertes(snap, quota_used_mb)
            == alertes_debit(snap.processus@, cfg.alertes.debit_max_octets_s, snap.horodatage, snap.machine@),
        forall|i: int| 0 <= i < cfg.quotas@.len() ==> #[trigger] regles_de(cfg)[i + 1].alertes(snap, quota_used_mb)
            == alertes_quota(
                RegleQuota {
                    machine: cfg.quotas@[i].machine,
                    limite_mb: cfg.quotas@[i].limite_mb,
                    seuil_pct: cfg.alertes.avertissement_quota_pct,
                },
                snap,
                quota_used_mb,
            ),
{
}

/// The rules that `cfg` sets.
pub fn build_rules(cfg: &Config) -> (r: Vec<RegleActive>)
    ensures
        r@ == regles_de(*cfg),
{
    let mut r: Vec<RegleActive> = Vec::new();
    r.push(RegleActive::Debit(RegleDebit { seuil_octets_s: cfg.alertes.debit_max_octets_s }));
    let n = cfg.quotas.len();
    let mut i: usize = 0;
    while i < n
        invariant
            n == cfg.quotas@.len(),
            i <= n,
            r@ == seq![RegleActive::Debit(RegleDebit { seuil_octets_s: cfg.alertes.debit_max_octets_s })]
                + cfg.quotas@.take(i as int).map_values(
                |q: QuotaConfig| regle_de_quota(q, cfg.alertes.avertissement_quota_pct),
            ),
        decreases n - i,
    {
        let q = &cfg.quotas[i];
        r.push(RegleActive::Quota(RegleQuota {
            machine: q.machine.clone(),
            limite_mb: q.limite_mb,
            seuil_pct: cfg.alertes.avertissement_quota_pct,
        }));
        proof {
            assert(cfg.quotas@.take(i + 1) =~= cfg.quotas@.take(i as int).push(cfg.quotas@[i as int]));
            assert(r@ =~= seq![RegleActive::Debit(RegleDebit { seuil_octets_s: cfg.alertes.debit_max_octets_s })]
                + cfg.quotas@.take(i + 1).map_values(
                |q: QuotaConfig| regle_de_quota(q, cfg.alertes.avertissement_quota_pct),
            ));
        }
        i = i + 1;
    }
    proof {
        assert(cfg.quotas@.take(n as int) =~= cfg.quotas@);
    }
    r
}

/// The alerts of all the rules of `regles`, rule after rule.
pub open spec fn alertes_regles(regles: Seq<RegleActive>, snap: Snapshot, quota_used_mb: u64) -> Seq<AlerteVue>
    decreases regles.len(),
{
    if regles.len() == 0 {
        Seq::empty()
    } else {
        alertes_regles(regles.drop_last(), snap, quota_used_mb) + regles.last().alertes(snap, quota_used_mb)
    }
}

/// Law of the evaluation of several rules: the alerts of a list of rules are
/// those of its first part followed by those of the rest, and a single rule
/// gives its own alerts; so every rule is evaluated, in order, and the count
/// of alerts is the sum of the rules' counts.
pub proof fn loi_regles_concat(a: Seq<RegleActive>, b: Seq<RegleActive>, x: RegleActive, snap: Snapshot, quota_used_mb: u64)
    ensures
        alertes_regles(a + b, snap, quota_used_mb) == alertes_regles(a, snap, quota_used_mb) + alertes_regles(b, snap, quota_used_mb),
        alertes_regles(seq![x], snap, quota_used_mb) == x.alertes(snap, quota_used_mb),
        alertes_regles(a + b, snap, quota_used_mb).len()
            == alertes_regles(a, snap, quota_used_mb).len() + alertes_regles(b, snap, quota_used_mb).len(),
    decreases b.len(),
{
    assert(seq![x].drop_last() =~= Seq::<RegleActive>::empty());
    assert(seq![x].last() == x);
    assert(alertes_regles(Seq::<RegleActive>::empty(), snap, quota_used_mb) == Seq::<AlerteVue>::empty());
    assert(alertes_regles(seq![x], snap, quota_used_mb)
        == Seq::<AlerteVue>::empty() + x.alertes(snap, quota_used_mb));
    assert(alertes_regles(seq![x], snap, quota_used_mb) =~= x.alertes(snap, quota_used_mb));
    if b.len() == 0 {
        assert(a + b =~= a);
        assert(alertes_regles(a, snap, quota_used_mb) + alertes_regles(b, snap, quota_used_mb)
            =~= alertes_regles(a, snap, quota_used_mb));
    } else {
        let c = b.drop_last();
        loi_regles_concat(a, c, x, snap, quota_used_mb);
        assert((a + b).drop_last() =~= a + c);
        assert((a + b).last() == b.last());
        assert(alertes_regles(a + b, snap, quota_used_mb) =~= alertes_regles(a, snap, quota_used_mb) + alertes_regles(b, snap, quota_used_mb));
    }
}

/// Evaluates every rule of `regles` and gathers their alerts, rule after rule.
pub fn evaluer_regles(regles: &Vec<RegleActive>, snap: &Snapshot, quota_used_mb: u64) -> (r: Vec<Alert>)
    requires
        forall|i: int| 0 <= i < regles@.len() ==> #[trigger] regles@[i].admet(*snap, quota_used_mb),
    ensures
        vues(r@) == alertes_regles(regles@, *snap, quota_used_mb),
{
    let n = regles.len();
    let mut r: Vec<Alert> = Vec::new();
    let mut i: usize = 0;
    while i < n
        invariant
            n == regles@.len(),
            i <= n,
            forall|j: int| 0 <= j < regles@.len() ==> #[trigger] regles@[j].admet(*snap, quota_used_mb),
            vues(r@) == alertes_regles(regles@.take(i as int), *snap, quota_used_mb),
        decreases n - i,
    {
        let mut a = regles[i].evaluer(snap, quota_used_mb);
        let ghost avant = r@;
        let ghost nouvelles = a@;
        r.append(&mut a);
        proof {
            assert(regles@.take(i + 1).drop_last() =~= regles@.take(i as int));
            assert(regles@.take(i + 1).last() == regles@[i as int]);
            assert(vues(r@) =~= vues(avant) + vues(nouvelles));
        }
        i = i + 1;
    }
    proof {
        assert(regles@.take(n as int) =~= regles@);
    }
    r
}

} // verus!
