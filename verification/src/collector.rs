//! Measurements of a machine and their bounded history.
//!
//! Rates are whole bytes per second, CPU usage is in thousandths of a
//! percent and memory is in bytes, so that every figure is an integer.

use vstd::prelude::*;

use crate::table::TableNoms;
use crate::texte::{est_loopback, interface_loopback};

verus! {

/// Number of snapshots the history keeps: one minute at one per second.
pub const TAILLE_HISTORIQUE: usize = 60;

/// Statistics of one process at one instant.
#[derive(Debug, Clone)]
pub struct StatProcessus {
    pub pid: u32,
    pub nom: String,
    /// CPU usage in thousandths of a percent.
    pub cpu_millipct: u32,
    /// Resident memory in bytes.
    pub ram_octets: u64,
    /// Estimated incoming rate, bytes per second.
    pub rx_bps: u64,
    /// Estimated outgoing rate, bytes per second.
    pub tx_bps: u64,
}

impl Default for StatProcessus {
    fn default() -> (p: Self)
        ensures
            p.pid == 0,
            p.nom@ == Seq::<char>::empty(),
            p.cpu_millipct == 0,
            p.ram_octets == 0,
            p.rx_bps == 0,
            p.tx_bps == 0,
    {
        StatProcessus { pid: 0, nom: String::new(), cpu_millipct: 0, ram_octets: 0, rx_bps: 0, tx_bps: 0 }
    }
}

/// Rates of one network interface over the last cycle, bytes per second.
#[derive(Debug, Clone)]
pub struct StatInterface {
    pub nom: String,
    pub rx_octets: u64,
    pub tx_octets: u64,
}

/// Everything measured on a machine at one instant.
#[derive(Debug, Clone)]
pub struct Snapshot {
    /// Seconds since the UNIX epoch.
    pub horodatage: u64,
    pub machine: String,
    pub processus: Vec<StatProcessus>,
    pub interfaces: Vec<StatInterface>,
    pub total_rx_bps: u64,
    pub total_tx_bps: u64,
}

/// The last `TAILLE_HISTORIQUE` elements of `s`, in order.
pub open spec fn fenetre<T>(s: Seq<T>) -> Seq<T> {
    if s.len() > TAILLE_HISTORIQUE {
        s.subrange(s.len() - TAILLE_HISTORIQUE, s.len() as int)
    } else {
        s
    }
}

/// The history after adding, one by one and from empty, the snapshots of `ajouts`.
pub open spec fn historique_apres(ajouts: Seq<Snapshot>) -> Seq<Snapshot>
    decreases ajouts.len(),
{
    if ajouts.len() == 0 {
        Seq::empty()
    } else {
        fenetre(historique_apres(ajouts.drop_last()).push(ajouts.last()))
    }
}

/// The snapshots of the last minute, oldest first.
pub struct Historique {
    instantanes: std::collections::VecDeque<Snapshot>,
}

impl View for Historique {
    type V = Seq<Snapshot>;

    closed spec fn view(&self) -> Seq<Snapshot> {
        self.instantanes@
    }
}

/// A new, empty history.
pub fn nouveau_store() -> (h: Historique)
    ensures
        h@ == Seq::<Snapshot>::empty(),
{
    Historique { instantanes: std::collections::VecDeque::with_capacity(TAILLE_HISTORIQUE) }
}

impl Historique {
    #[verifier::type_invariant]
    closed spec fn borne(self) -> bool {
        self.instantanes@.len() <= TAILLE_HISTORIQUE
    }

    /// Number of snapshots held.
    pub fn len(&self) -> (n: usize)
        ensures
            n == self@.len(),
            n <= TAILLE_HISTORIQUE,
    {
        proof {
            use_type_invariant(self);
        }
        self.instantanes.len()
    }

    /// Adds a snapshot; when the history is full, the oldest one leaves.
    pub fn ajouter(&mut self, s: Snapshot)
        ensures
            final(self)@ == fenetre(old(self)@.push(s)),
    {
        proof {
            use_type_invariant(&*self);
        }
        let mut q: std::collections::VecDeque<Snapshot> = std::collections::VecDeque::new();
        std::mem::swap(&mut q, &mut self.instantanes);
        let ghost avant = q@;
        if q.len() >= TAILLE_HISTORIQUE {
            q.pop_front();
        }
        q.push_back(s);
        proof {
            assert(q@ =~= fenetre(avant.push(s)));
        }
        self.instantanes = q;
    }

    /// The latest snapshot, if any.
    pub fn dernier(&self) -> (r: Option<&Snapshot>)
        ensures
            r == (if self@.len() > 0 { Some(&self@.last()) } else { None::<&Snapshot> }),
    {
        let n = self.instantanes.len();
        if n == 0 {
            None
        } else {
            Some(&self.instantanes[n - 1])
        }
    }

    /// All the snapshots held, oldest first.
    pub fn instantanes(&self) -> (r: &std::collections::VecDeque<Snapshot>)
        ensures
            r@ == self@,
    {
        &self.instantanes
    }

    /// The total incoming rate of each snapshot, oldest first.
    pub fn debits_rx(&self) -> (r: Vec<u64>)
        ensures
            r@ == self@.map_values(|s: Snapshot| s.total_rx_bps),
    {
        let n = self.instantanes.len();
        let mut r: Vec<u64> = Vec::new();
        let mut i: usize = 0;
        while i < n
            invariant
                n == self@.len(),
                i <= n,
                r@ == self@.take(i as int).map_values(|s: Snapshot| s.total_rx_bps),
            decreases n - i,
        {
            r.push(self.instantanes[i].total_rx_bps);
            assert(self@.take(i + 1) =~= self@.take(i as int).push(self@[i as int]));
            i = i + 1;
        }
        assert(self@.take(n as int) =~= self@);
        r
    }

    /// The total outgoing rate of each snapshot, oldest first.
    pub fn debits_tx(&self) -> (r: Vec<u64>)
        ensures
            r@ == self@.map_values(|s: Snapshot| s.total_tx_bps),
    {
        let n = self.instantanes.len();
        let mut r: Vec<u64> = Vec::new();
        let mut i: usize = 0;
        while i < n
            invariant
                n == self@.len(),
                i <= n,
                r@ == self@.take(i as int).map_values(|s: Snapshot| s.total_tx_bps),
            decreases n - i,
        {
            r.push(self.instantanes[i].total_tx_bps);
            assert(self@.take(i + 1) =~= self@.take(i as int).push(self@[i as int]));
            i = i + 1;
        }
        assert(self@.take(n as int) =~= self@);
        r
    }
}

/// Law of the history: whatever was added before, adding a snapshot keeps
/// exactly the last `TAILLE_HISTORIQUE` snapshots added, in order, and the
/// latest one is the one just added.
pub proof fn loi_historique(ajouts: Seq<Snapshot>)
    ensures
        historique_apres(ajouts) == fenetre(ajouts),
        historique_apres(ajouts).len() <= TAILLE_HISTORIQUE,
        ajouts.len() > 0 ==> historique_apres(ajouts).last() == ajouts.last(),
    decreases ajouts.len(),
{
    if ajouts.len() > 0 {
        let avant = ajouts.drop_last();
        loi_historique(avant);
        assert(fenetre(fenetre(avant).push(ajouts.last())) =~= fenetre(ajouts));
    }
}

/// Number of processes a snapshot keeps: the most CPU-hungry ones.
pub const NB_PROCESSUS_MAX: usize = 20;

/// A process is kept when it uses more than 0.05 % CPU or more than 1 MiB of memory.
pub open spec fn consomme(p: StatProcessus) -> bool {
    p.cpu_millipct > 50 || p.ram_octets > 1_048_576
}

/// The processes of `s` that use something, in their order.
pub open spec fn garder_actifs(s: Seq<StatProcessus>) -> Seq<StatProcessus>
    decreases s.len(),
{
    if s.len() == 0 {
        Seq::empty()
    } else if consomme(s.last()) {
        garder_actifs(s.drop_last()).push(s.last())
    } else {
        garder_actifs(s.drop_last())
    }
}

/// `p` placed into `r` after every process that uses at least as much CPU.
pub open spec fn inserer_trie(r: Seq<StatProcessus>, p: StatProcessus) -> Seq<StatProcessus>
    decreases r.len(),
{
    if r.len() == 0 {
        seq![p]
    } else if r.last().cpu_millipct >= p.cpu_millipct {
        r.push(p)
    } else {
        inserer_trie(r.drop_last(), p).push(r.last())
    }
}

/// `s` sorted by decreasing CPU usage; processes with equal usage keep their order.
pub open spec fn trier_cpu(s: Seq<StatProcessus>) -> Seq<StatProcessus>
    decreases s.len(),
{
    if s.len() == 0 {
        Seq::empty()
    } else {
        inserer_trie(trier_cpu(s.drop_last()), s.last())
    }
}

/// The first `NB_PROCESSUS_MAX` processes of `s`.
pub open spec fn premiers(s: Seq<StatProcessus>) -> Seq<StatProcessus> {
    if s.len() > NB_PROCESSUS_MAX {
        s.take(NB_PROCESSUS_MAX as int)
    } else {
        s
    }
}

/// Total CPU usage of `s`.
pub open spec fn somme_cpu(s: Seq<StatProcessus>) -> int
    decreases s.len(),
{
    if s.len() == 0 {
        0
    } else {
        somme_cpu(s.drop_last()) + s.last().cpu_millipct
    }
}

/// The share of `total` that a process using `cpu` out of `somme` gets.
pub open spec fn part(total: u64, cpu: u32, somme: int) -> u64 {
    if somme <= 0 {
        0
    } else {
        (total * cpu / somme) as u64
    }
}

/// The machine's rates shared among the processes in proportion to their CPU usage.
pub open spec fn repartir(s: Seq<StatProcessus>, rx: u64, tx: u64) -> Seq<StatProcessus> {
    Seq::new(
        s.len(),
        |i: int|
            StatProcessus {
                rx_bps: part(rx, s[i].cpu_millipct, somme_cpu(s)),
                tx_bps: part(tx, s[i].cpu_millipct, somme_cpu(s)),
                ..s[i]
            },
    )
}

/// The processes a snapshot shows: those that use something, most CPU-hungry
/// first, at most `NB_PROCESSUS_MAX`, with the machine's rates shared among them.
pub open spec fn selection(procs: Seq<StatProcessus>, rx: u64, tx: u64) -> Seq<StatProcessus> {
    repartir(premiers(trier_cpu(garder_actifs(procs))), rx, tx)
}

/// `s` is ordered by decreasing CPU usage.
pub open spec fn decroissant(s: Seq<StatProcessus>) -> bool {
    forall|i: int, j: int| 0 <= i < j < s.len() ==> s[i].cpu_millipct >= s[j].cpu_millipct
}

proof fn lemme_inserer_position(r: Seq<StatProcessus>, p: StatProcessus, j: int)
    requires
        0 <= j <= r.len(),
        forall|k: int| j <= k < r.len() ==> r[k].cpu_millipct < p.cpu_millipct,
        j == 0 || r[j - 1].cpu_millipct >= p.cpu_millipct,
    ensures
        inserer_trie(r, p) == r.insert(j, p),
    decreases r.len(),
{
    if r.len() == 0 {
        assert(r.insert(j, p) =~= seq![p]);
    } else if r.last().cpu_millipct >= p.cpu_millipct {
        assert(j == r.len());
        assert(r.insert(j, p) =~= r.push(p));
    } else {
        let t = r.drop_last();
        lemme_inserer_position(t, p, j);
        assert(t.insert(j, p).push(r.last()) =~= r.insert(j, p));
    }
}

proof fn lemme_inserer_trie(r: Seq<StatProcessus>, p: StatProcessus)
    requires
        decroissant(r),
    ensures
        decroissant(inserer_trie(r, p)),
        inserer_trie(r, p).to_multiset() == r.to_multiset().insert(p),
        inserer_trie(r, p).len() == r.len() + 1,
    decreases r.len(),
{
    broadcast use vstd::seq_lib::to_multiset_build;
    if r.len() == 0 {
        assert(seq![p] =~= r.push(p));
    } else if r.last().cpu_millipct >= p.cpu_millipct {
    } else {
        let t = r.drop_last();
        lemme_inserer_trie(t, p);
        let u = inserer_trie(t, p);
        assert(r =~= t.push(r.last()));
        assert forall|k: int| 0 <= k < u.len() implies u[k].cpu_millipct >= r.last().cpu_millipct by {
            lemme_inserer_element(t, p, k);
        }
    }
}

proof fn lemme_inserer_element(r: Seq<StatProcessus>, p: StatProcessus, k: int)
    requires
        0 <= k < inserer_trie(r, p).len(),
        decroissant(r),
        inserer_trie(r, p).len() == r.len() + 1,
    ensures
        inserer_trie(r, p)[k] == p || exists|m: int| 0 <= m < r.len() && inserer_trie(r, p)[k] == r[m],
    decreases r.len(),
{
    if r.len() == 0 {
    } else if r.last().cpu_millipct >= p.cpu_millipct {
        if k < r.len() {
            assert(inserer_trie(r, p)[k] == r[k]);
        }
    } else {
        let t = r.drop_last();
        lemme_inserer_trie(t, p);
        if k < t.len() + 1 {
            lemme_inserer_element(t, p, k);
            if inserer_trie(r, p)[k] != p {
                let m = choose|m: int| 0 <= m < t.len() && inserer_trie(t, p)[k] == t[m];
                assert(inserer_trie(r, p)[k] == r[m]);
            }
        } else {
            assert(inserer_trie(r, p)[k] == r[r.len() - 1]);
        }
    }
}

/// The processes of `s` that use exactly `cpu`, in their order.
pub open spec fn de_cpu(s: Seq<StatProcessus>, cpu: u32) -> Seq<StatProcessus>
    decreases s.len(),
{
    if s.len() == 0 {
        Seq::empty()
    } else if s.last().cpu_millipct == cpu {
        de_cpu(s.drop_last(), cpu).push(s.last())
    } else {
        de_cpu(s.drop_last(), cpu)
    }
}

proof fn lemme_inserer_stable(r: Seq<StatProcessus>, p: StatProcessus, cpu: u32)
    ensures
        de_cpu(inserer_trie(r, p), cpu)
            == (if p.cpu_millipct == cpu { de_cpu(r, cpu).push(p) } else { de_cpu(r, cpu) }),
    decreases r.len(),
{
    if r.len() == 0 {
        assert(inserer_trie(r, p).drop_last() =~= r);
    } else if r.last().cpu_millipct >= p.cpu_millipct {
        assert(r.push(p).drop_last() =~= r);
    } else {
        let t = r.drop_last();
        lemme_inserer_stable(t, p, cpu);
        assert(inserer_trie(t, p).push(r.last()).drop_last() =~= inserer_trie(t, p));
    }
}

/// Law of the process ordering: sorting keeps every process once, puts the
/// most CPU-hungry first, and keeps in their order the processes that use
/// the same CPU.
pub proof fn loi_tri_cpu(s: Seq<StatProcessus>)
    ensures
        decroissant(trier_cpu(s)),
        trier_cpu(s).to_multiset() == s.to_multiset(),
        trier_cpu(s).len() == s.len(),
        forall|cpu: u32| #[trigger] de_cpu(trier_cpu(s), cpu) == de_cpu(s, cpu),
    decreases s.len(),
{
    broadcast use vstd::seq_lib::to_multiset_build;
    if s.len() == 0 {
        assert(trier_cpu(s) =~= s);
    } else {
        loi_tri_cpu(s.drop_last());
        lemme_inserer_trie(trier_cpu(s.drop_last()), s.last());
        assert(s =~= s.drop_last().push(s.last()));
        assert forall|cpu: u32| #[trigger] de_cpu(trier_cpu(s), cpu) == de_cpu(s, cpu) by {
            lemme_inserer_stable(trier_cpu(s.drop_last()), s.last(), cpu);
        }
    }
}

/// Every process kept uses something.
pub proof fn lemme_actifs(s: Seq<StatProcessus>)
    ensures
        forall|i: int| 0 <= i < garder_actifs(s).len() ==> consomme(#[trigger] garder_actifs(s)[i]),
        garder_actifs(s).len() <= s.len(),
    decreases s.len(),
{
    if s.len() > 0 {
        lemme_actifs(s.drop_last());
    }
}

proof fn lemme_part(total: u64, cpu: u32, somme: int)
    requires
        cpu <= somme,
    ensures
        somme > 0 ==> 0 <= (total * cpu) / somme <= total,
        part(total, cpu, somme) <= total,
        part(total, cpu, somme) == (if somme > 0 { (total * cpu) / somme } else { 0 }),
{
    if somme > 0 {
        assert(total * cpu <= total * somme) by (nonlinear_arith)
            requires cpu <= somme, total >= 0;
        assert((total * cpu) / somme <= (total * somme) / somme) by (nonlinear_arith)
            requires total * cpu <= total * somme, somme > 0;
        assert((total * somme) / somme == total) by (nonlinear_arith)
            requires somme > 0;
        assert(0 <= (total * cpu) / somme) by (nonlinear_arith)
            requires somme > 0, total >= 0, cpu >= 0;
    }
}

proof fn lemme_somme_cpu(s: Seq<StatProcessus>, i: int)
    requires
        0 <= i < s.len(),
    ensures
        s[i].cpu_millipct <= somme_cpu(s),
        somme_cpu(s) <= s.len() * 0xffff_ffff,
        0 <= somme_cpu(s),
    decreases s.len(),
{
    let t = s.drop_last();
    if i < s.len() - 1 {
        lemme_somme_cpu(t, i);
        assert(t[i] == s[i]);
    } else if s.len() > 1 {
        lemme_somme_cpu(t, 0);
    } else {
        assert(somme_cpu(t) == 0);
    }
}

fn part_de(total: u64, cpu: u32, somme: u64) -> (r: u64)
    requires
        cpu <= somme,
    ensures
        r == part(total, cpu, somme as int),
{
    proof {
        lemme_part(total, cpu, somme as int);
    }
    if somme == 0 {
        0
    } else {
        proof {
            assert(total * cpu <= 0xffff_ffff_ffff_ffffu64 * 0xffff_ffffu32) by (nonlinear_arith)
                requires total <= 0xffff_ffff_ffff_ffffu64, cpu <= 0xffff_ffffu32, total >= 0, cpu >= 0;
        }
        let q: u128 = (total as u128) * (cpu as u128) / (somme as u128);
        proof {
            assert(q == (total * cpu) / (somme as int));
            assert(q <= total);
        }
        q as u64
    }
}

/// The processes a snapshot shows, from the processes read on the machine
/// and the machine's total rates.
pub fn selectionner_processus(procs: Vec<StatProcessus>, total_rx: u64, total_tx: u64) -> (r: Vec<StatProcessus>)
    ensures
        r@ == selection(procs@, total_rx, total_tx),
        r@.len() <= NB_PROCESSUS_MAX,
        decroissant(r@),
        forall|i: int| 0 <= i < r@.len() ==> consomme(#[trigger] r@[i]),
        forall|i: int| 0 <= i < r@.len() ==> #[trigger] r@[i].rx_bps <= total_rx && r@[i].tx_bps <= total_tx,
{
    let ghost origine = procs@;
    let mut reste = procs;
    let mut tries: Vec<StatProcessus> = Vec::new();
    let n = reste.len();
    let mut k: usize = 0;
    while k < n
        invariant
            n == origine.len(),
            k <= n,
            reste@ == origine.skip(k as int),
            tries@ == trier_cpu(garder_actifs(origine.take(k as int))),
            decroissant(tries@),
        decreases n - k,
    {
        let p = reste.remove(0);
        proof {
            assert(origine.take(k + 1).drop_last() =~= origine.take(k as int));
            assert(origine.take(k + 1).last() == p);
            assert(reste@ =~= origine.skip(k + 1));
        }
        let ghost avant = origine.take(k as int);
        let ghost apres = origine.take(k + 1);
        proof {
            assert(apres.drop_last() =~= avant);
            assert(apres.last() == p);
        }
        if p.cpu_millipct > 50 || p.ram_octets > 1_048_576 {
            let mut j = tries.len();
            while j > 0 && tries[j - 1].cpu_millipct < p.cpu_millipct
                invariant
                    j <= tries@.len(),
                    forall|m: int| j <= m < tries@.len() ==> tries@[m].cpu_millipct < p.cpu_millipct,
                decreases j,
            {
                j = j - 1;
            }
            proof {
                lemme_inserer_position(tries@, p, j as int);
                lemme_inserer_trie(tries@, p);
                loi_tri_cpu(garder_actifs(origine.take(k as int)));
            }
            tries.insert(j, p);
            proof {
                let g = garder_actifs(avant);
                assert(garder_actifs(apres) == g.push(p));
                assert(g.push(p).drop_last() =~= g);
                assert(trier_cpu(g.push(p)) == inserer_trie(trier_cpu(g), p));
            }
        } else {
            proof {
                assert(garder_actifs(apres) == garder_actifs(avant));
            }
        }
        k = k + 1;
    }
    proof {
        assert(origine.take(n as int) =~= origine);
        loi_tri_cpu(garder_actifs(origine));
        lemme_actifs(origine);
    }
    tries.truncate(NB_PROCESSUS_MAX);
    let ghost gardes = tries@;
    proof {
        assert(gardes == premiers(trier_cpu(garder_actifs(origine))));
        assert forall|i: int| 0 <= i < gardes.len() implies consomme(#[trigger] gardes[i]) by {
            let t = trier_cpu(garder_actifs(origine));
            assert(gardes[i] == t[i]);
            assert(t.to_multiset().count(t[i]) > 0) by {
                broadcast use vstd::seq_lib::to_multiset_contains;
                assert(t.contains(t[i]));
            }
            assert(garder_actifs(origine).contains(t[i])) by {
                broadcast use vstd::seq_lib::to_multiset_contains;
            }
        }
    }
    let m = tries.len();
    let mut somme: u64 = 0;
    let mut i: usize = 0;
    while i < m
        invariant
            m == gardes.len(),
            m <= NB_PROCESSUS_MAX,
            tries@ == gardes,
            i <= m,
            somme == somme_cpu(gardes.take(i as int)),
            somme <= i * 0xffff_ffff,
        decreases m - i,
    {
        proof {
            assert(gardes.take(i + 1).drop_last() =~= gardes.take(i as int));
        }
        somme = somme + tries[i].cpu_millipct as u64;
        i = i + 1;
    }
    proof {
        assert(gardes.take(m as int) =~= gardes);
    }
    let mut r: Vec<StatProcessus> = Vec::new();
    let mut restants = tries;
    let mut i: usize = 0;
    while i < m
        invariant
            m == gardes.len(),
            i <= m,
            restants@ == gardes.skip(i as int),
            somme == somme_cpu(gardes),
            r@ == repartir(gardes, total_rx, total_tx).take(i as int),
        decreases m - i,
    {
        let p = restants.remove(0);
        proof {
            assert(p == gardes[i as int]);
            lemme_somme_cpu(gardes, i as int);
            assert(restants@ =~= gardes.skip(i + 1));
        }
        let rx = part_de(total_rx, p.cpu_millipct, somme);
        let tx = part_de(total_tx, p.cpu_millipct, somme);
        r.push(StatProcessus { rx_bps: rx, tx_bps: tx, ..p });
        proof {
            assert(r@ =~= repartir(gardes, total_rx, total_tx).take(i + 1));
        }
        i = i + 1;
    }
    proof {
        let t = repartir(gardes, total_rx, total_tx);
        assert(t.take(m as int) =~= t);
        assert forall|a: int| 0 <= a < t.len() implies #[trigger] t[a].rx_bps <= total_rx && t[a].tx_bps <= total_tx by {
            lemme_somme_cpu(gardes, a);
            lemme_part(total_rx, gardes[a].cpu_millipct, somme_cpu(gardes));
            lemme_part(total_tx, gardes[a].cpu_millipct, somme_cpu(gardes));
        }
        let ts = trier_cpu(garder_actifs(origine));
        assert forall|a: int, b: int| 0 <= a < b < t.len() implies t[a].cpu_millipct >= t[b].cpu_millipct by {
            assert(gardes[a] == ts[a] && gardes[b] == ts[b]);
        }
    }
    r
}

/// The cumulative counters of a network interface, as the system reports them.
#[derive(Debug, Clone)]
pub struct LectureInterface {
    pub nom: String,
    /// Bytes received since the interface came up.
    pub recu_total: u64,
    /// Bytes sent since the interface came up.
    pub transmis_total: u64,
}

/// The counters of an interface at the previous cycle.
#[derive(Debug, Clone, Copy, PartialEq, Eq)]
pub struct CompteursInterface {
    pub recu: u64,
    pub transmis: u64,
}

/// `x` capped to what a `u64` holds.
pub open spec fn plafond(x: int) -> u64 {
    if x > u64::MAX {
        u64::MAX
    } else if x < 0 {
        0
    } else {
        x as u64
    }
}

/// The rate, in bytes per second, of a counter that went from `avant` to
/// `actuel` in `ecoule_ms` milliseconds (at least one); a counter that went
/// back counts as no traffic.
pub open spec fn debit(actuel: u64, avant: u64, ecoule_ms: u64) -> u64 {
    let delta: int = if actuel >= avant { actuel - avant } else { 0 };
    let ms: int = if ecoule_ms == 0 { 1 } else { ecoule_ms as int };
    plafond(delta * 1000 / ms)
}

/// The counters kept for the next cycle after reading `lectures`: each
/// interface that is not a loopback one gets its latest counters.
pub open spec fn compteurs_apres(
    prec: Map<Seq<char>, CompteursInterface>,
    lectures: Seq<LectureInterface>,
) -> Map<Seq<char>, CompteursInterface>
    decreases lectures.len(),
{
    if lectures.len() == 0 {
        prec
    } else {
        let m = compteurs_apres(prec, lectures.drop_last());
        let l = lectures.last();
        if est_loopback(l.nom@) {
            m
        } else {
            m.insert(l.nom@, CompteursInterface { recu: l.recu_total, transmis: l.transmis_total })
        }
    }
}

/// The counters an interface had at the previous cycle, or zero.
pub open spec fn compteurs_de(m: Map<Seq<char>, CompteursInterface>, nom: Seq<char>) -> CompteursInterface {
    if m.contains_key(nom) {
        m[nom]
    } else {
        CompteursInterface { recu: 0, transmis: 0 }
    }
}

/// The rates of the interfaces of `lectures` that are not loopback ones, in order.
pub open spec fn stats_interfaces(
    prec: Map<Seq<char>, CompteursInterface>,
    lectures: Seq<LectureInterface>,
    ecoule_ms: u64,
) -> Seq<StatInterface>
    decreases lectures.len(),
{
    if lectures.len() == 0 {
        Seq::empty()
    } else {
        let st = stats_interfaces(prec, lectures.drop_last(), ecoule_ms);
        let l = lectures.last();
        if est_loopback(l.nom@) {
            st
        } else {
            let c = compteurs_de(compteurs_apres(prec, lectures.drop_last()), l.nom@);
            st.push(
                StatInterface {
                    nom: l.nom,
                    rx_octets: debit(l.recu_total, c.recu, ecoule_ms),
                    tx_octets: debit(l.transmis_total, c.transmis, ecoule_ms),
                },
            )
        }
    }
}

/// Sum of the incoming rates of `s`.
pub open spec fn somme_rx(s: Seq<StatInterface>) -> int
    decreases s.len(),
{
    if s.len() == 0 {
        0
    } else {
        somme_rx(s.drop_last()) + s.last().rx_octets
    }
}

/// Sum of the outgoing rates of `s`.
pub open spec fn somme_tx(s: Seq<StatInterface>) -> int
    decreases s.len(),
{
    if s.len() == 0 {
        0
    } else {
        somme_tx(s.drop_last()) + s.last().tx_octets
    }
}


/// Law of the interface measures: a loopback interface is never measured,
/// and there are no more measured interfaces than readings.
pub proof fn loi_interfaces(prec: Map<Seq<char>, CompteursInterface>, lectures: Seq<LectureInterface>, ecoule_ms: u64)
    ensures
        stats_interfaces(prec, lectures, ecoule_ms).len() <= lectures.len(),
        forall|i: int| 0 <= i < stats_interfaces(prec, lectures, ecoule_ms).len()
            ==> !est_loopback(#[trigger] stats_interfaces(prec, lectures, ecoule_ms)[i].nom@),
    decreases lectures.len(),
{
    if lectures.len() > 0 {
        loi_interfaces(prec, lectures.drop_last(), ecoule_ms);
    }
}

proof fn lemme_sommes_positives(s: Seq<StatInterface>)
    ensures
        somme_rx(s) >= 0,
        somme_tx(s) >= 0,
    decreases s.len(),
{
    if s.len() > 0 {
        lemme_sommes_positives(s.drop_last());
    }
}

fn debit_de(actuel: u64, avant: u64, ecoule_ms: u64) -> (d: u64)
    ensures
        d == debit(actuel, avant, ecoule_ms),
{
    let delta = actuel.saturating_sub(avant);
    let ms: u64 = if ecoule_ms == 0 { 1 } else { ecoule_ms };
    proof {
        assert(delta * 1000 <= 0xffff_ffff_ffff_ffffu64 * 1000);
    }
    let q: u128 = (delta as u128) * 1000 / (ms as u128);
    if q > u64::MAX as u128 {
        u64::MAX
    } else {
        q as u64
    }
}

/// The state of the collection from one cycle to the next: the machine's
/// name and the counters of each interface at the previous cycle.
pub struct Collecteur {
    pub machine: String,
    pub compteurs: TableNoms<CompteursInterface>,
}

impl Collecteur {
    /// Starts the collection on the machine named `nom_hote` ("inconnu" when the
    /// system gives no name), taking the current counters as reference.
    pub fn nouveau(nom_hote: Option<String>, lectures: &Vec<LectureInterface>) -> (c: Collecteur)
        ensures
            c.machine@ == (match nom_hote {
                Some(n) => n@,
                None => seq!['i', 'n', 'c', 'o', 'n', 'n', 'u'],
            }),
            c.compteurs@ == compteurs_apres(Map::empty(), lectures@),
    {
        let machine = match nom_hote {
            Some(n) => n,
            None => {
                let n = String::from_str("inconnu");
                proof {
                    reveal_strlit("inconnu");
                    assert(n@ =~= seq!['i', 'n', 'c', 'o', 'n', 'n', 'u']);
                }
                n
            },
        };
        let mut c = Collecteur { machine, compteurs: TableNoms::nouvelle() };
        let _ = c.mesurer_interfaces(lectures, 1);
        c
    }

    /// Rates of the interfaces since the previous cycle, and the counters kept
    /// for the next one.
    fn mesurer_interfaces(&mut self, lectures: &Vec<LectureInterface>, ecoule_ms: u64) -> (r: (Vec<StatInterface>, u64, u64))
        ensures
            final(self).machine == old(self).machine,
            final(self).compteurs@ == compteurs_apres(old(self).compteurs@, lectures@),
            r.0@ == stats_interfaces(old(self).compteurs@, lectures@, ecoule_ms),
            r.1 == plafond(somme_rx(r.0@)),
            r.2 == plafond(somme_tx(r.0@)),
    {
        let ghost prec = self.compteurs@;
        let n = lectures.len();
        let mut stats: Vec<StatInterface> = Vec::new();
        let mut total_rx: u64 = 0;
        let mut total_tx: u64 = 0;
        let mut i: usize = 0;
        while i < n
            invariant
                n == lectures@.len(),
                i <= n,
                self.machine == old(self).machine,
                prec == old(self).compteurs@,
                self.compteurs@ == compteurs_apres(prec, lectures@.take(i as int)),
                stats@ == stats_interfaces(prec, lectures@.take(i as int), ecoule_ms),
                total_rx == plafond(somme_rx(stats@)),
                total_tx == plafond(somme_tx(stats@)),
            decreases n - i,
        {
            let l = &lectures[i];
            let ghost avant = lectures@.take(i as int);
            proof {
                assert(lectures@.take(i + 1).drop_last() =~= avant);
                assert(lectures@.take(i + 1).last() == *l);
            }
            if !interface_loopback(l.nom.as_str()) {
                let c = match self.compteurs.valeur(&l.nom) {
                    Some(c) => c,
                    None => CompteursInterface { recu: 0, transmis: 0 },
                };
                let rx = debit_de(l.recu_total, c.recu, ecoule_ms);
                let tx = debit_de(l.transmis_total, c.transmis, ecoule_ms);
                let ghost st = stats@;
                stats.push(StatInterface { nom: l.nom.clone(), rx_octets: rx, tx_octets: tx });
                proof {
                    assert(stats@.drop_last() =~= st);
                    lemme_sommes_positives(st);
                    assert(somme_rx(stats@) == somme_rx(st) + rx);
                    assert(somme_tx(stats@) == somme_tx(st) + tx);
                }
                total_rx = total_rx.saturating_add(rx);
                total_tx = total_tx.saturating_add(tx);
                self.compteurs.inserer(l.nom.clone(), CompteursInterface { recu: l.recu_total, transmis: l.transmis_total });
            }
            i = i + 1;
        }
        proof {
            assert(lectures@.take(n as int) =~= lectures@);
        }
        (stats, total_rx, total_tx)
    }

    /// One cycle of the collection: from the interface counters and the
    /// processes read now, `ecoule_ms` milliseconds after the previous cycle,
    /// builds the snapshot of the machine at `horodatage` and keeps the
    /// counters for the next cycle.
    pub fn mesurer(
        &mut self,
        lectures: &Vec<LectureInterface>,
        processus: Vec<StatProcessus>,
        ecoule_ms: u64,
        horodatage: u64,
    ) -> (s: Snapshot)
        ensures
            final(self).machine == old(self).machine,
            final(self).compteurs@ == compteurs_apres(old(self).compteurs@, lectures@),
            s.horodatage == horodatage,
            s.machine == old(self).machine,
            s.interfaces@ == stats_interfaces(old(self).compteurs@, lectures@, ecoule_ms),
            s.total_rx_bps == plafond(somme_rx(s.interfaces@)),
            s.total_tx_bps == plafond(somme_tx(s.interfaces@)),
            s.processus@ == selection(processus@, s.total_rx_bps, s.total_tx_bps),
    {
        let (interfaces, total_rx, total_tx) = self.mesurer_interfaces(lectures, ecoule_ms);
        let processus = selectionner_processus(processus, total_rx, total_tx);
        Snapshot {
            horodatage,
            machine: self.machine.clone(),
            processus,
            interfaces,
            total_rx_bps: total_rx,
            total_tx_bps: total_tx,
        }
    }
}

} // verus!
