//! Small text operations on names: prefixes, substrings, lower case, and
//! the decimal writing of integers used in alert messages.

use vstd::prelude::*;

verus! {

/// What `str::to_lowercase` returns for a string whose characters are `s`.
pub uninterp spec fn minuscules(s: Seq<char>) -> Seq<char>;

/// Calls `str::to_lowercase`; its result is named, not stated: Unicode case
/// mapping takes tables, not a few lines.
#[verifier::external_body]
fn en_minuscules(s: &str) -> (r: String)
    ensures
        r@ == minuscules(s@),
{
    s.to_lowercase()
}

/// `aiguille` occurs in `botte` as a run of consecutive characters.
pub open spec fn contient(botte: Seq<char>, aiguille: Seq<char>) -> bool {
    exists|i: int| 0 <= i <= botte.len() - aiguille.len()
        && #[trigger] botte.subrange(i, i + aiguille.len()) == aiguille
}

/// `debut` is a prefix of `s`.
pub open spec fn commence_par(s: Seq<char>, debut: Seq<char>) -> bool {
    debut.len() <= s.len() && s.subrange(0, debut.len() as int) == debut
}

/// The characters of `s`, one by one.
pub fn caracteres(s: &str) -> (r: Vec<char>)
    ensures
        r@ == s@,
{
    let n = s.unicode_len();
    let mut r: Vec<char> = Vec::new();
    let mut i: usize = 0;
    while i < n
        invariant
            n == s@.len(),
            i <= n,
            r@ == s@.take(i as int),
        decreases n - i,
    {
        r.push(s.get_char(i));
        assert(s@.take(i + 1) =~= s@.take(i as int).push(s@[i as int]));
        i = i + 1;
    }
    assert(s@.take(n as int) =~= s@);
    r
}

fn egal_a(botte: &Vec<char>, debut: usize, aiguille: &Vec<char>) -> (r: bool)
    requires
        debut + aiguille@.len() <= botte@.len(),
    ensures
        r == (botte@.subrange(debut as int, debut + aiguille@.len()) == aiguille@),
{
    let m = aiguille.len();
    let nb = botte.len();
    let mut j: usize = 0;
    while j < m
        invariant
            m == aiguille@.len(),
            nb == botte@.len(),
            debut + m <= botte@.len(),
            j <= m,
            forall|k: int| 0 <= k < j ==> botte@[debut + k] == aiguille@[k],
        decreases m - j,
    {
        if botte[debut + j] != aiguille[j] {
            assert(botte@.subrange(debut as int, debut + m)[j as int] != aiguille@[j as int]);
            return false;
        }
        j = j + 1;
    }
    assert(botte@.subrange(debut as int, debut + m) =~= aiguille@);
    true
}

/// Whether `aiguille` occurs in `botte`.
pub fn contient_car(botte: &Vec<char>, aiguille: &Vec<char>) -> (r: bool)
    ensures
        r == contient(botte@, aiguille@),
{
    let n = botte.len();
    let m = aiguille.len();
    if m > n {
        return false;
    }
    if m == 0 {
        assert(botte@.subrange(0, 0 + aiguille@.len() as int) =~= aiguille@);
        return true;
    }
    let mut i: usize = 0;
    while i <= n - m
        invariant
            n == botte@.len(),
            m == aiguille@.len(),
            0 < m <= n,
            i <= n - m + 1,
            forall|k: int| 0 <= k < i ==> #[trigger] botte@.subrange(k, k + m) != aiguille@,
        decreases n - m + 1 - i,
    {
        if egal_a(botte, i, aiguille) {
            return true;
        }
        i = i + 1;
    }
    false
}

/// Whether `debut` is a prefix of `s`.
pub fn commence_par_car(s: &Vec<char>, debut: &Vec<char>) -> (r: bool)
    ensures
        r == commence_par(s@, debut@),
{
    if debut.len() > s.len() {
        return false;
    }
    egal_a(s, 0, debut)
}

/// The interfaces left out of the measures: the loopback ones, whose name
/// starts with "lo" or holds "loopback" in any case.
pub open spec fn est_loopback(nom: Seq<char>) -> bool {
    commence_par(nom, seq!['l', 'o'])
        || contient(minuscules(nom), seq!['l', 'o', 'o', 'p', 'b', 'a', 'c', 'k'])
}

/// Law of the loopback test: an interface is left out exactly when its name
/// starts with the characters 'l' then 'o', or its lower-cased name holds the
/// eight characters of "loopback" one after the other. A name that merely
/// holds "lo" further in (such as "wlo1" or "eno1") is measured.
pub proof fn loi_loopback(nom: Seq<char>)
    ensures
        est_loopback(nom) <==> (
            (nom.len() >= 2 && nom[0] == 'l' && nom[1] == 'o')
            || exists|i: int| 0 <= i && i + 8 <= minuscules(nom).len()
                && minuscules(nom)[i] == 'l' && minuscules(nom)[i + 1] == 'o'
                && minuscules(nom)[i + 2] == 'o' && minuscules(nom)[i + 3] == 'p'
                && minuscules(nom)[i + 4] == 'b' && minuscules(nom)[i + 5] == 'a'
                && minuscules(nom)[i + 6] == 'c' && #[trigger] minuscules(nom)[i + 7] == 'k'
        ),
{
    let m = minuscules(nom);
    let motif = seq!['l', 'o', 'o', 'p', 'b', 'a', 'c', 'k'];
    if nom.len() >= 2 && nom[0] == 'l' && nom[1] == 'o' {
        assert(nom.subrange(0, 2) =~= seq!['l', 'o']);
    }
    if commence_par(nom, seq!['l', 'o']) {
        assert(nom.subrange(0, 2)[0] == 'l' && nom.subrange(0, 2)[1] == 'o');
    }
    if contient(m, motif) {
        let i = choose|i: int| 0 <= i <= m.len() - motif.len() && #[trigger] m.subrange(i, i + motif.len()) == motif;
        let t = m.subrange(i, i + 8);
        assert(t[0] == 'l' && t[1] == 'o' && t[2] == 'o' && t[3] == 'p');
        assert(t[4] == 'b' && t[5] == 'a' && t[6] == 'c' && t[7] == 'k');
        assert(m[i + 7] == 'k');
    }
    if exists|i: int| 0 <= i && i + 8 <= m.len()
        && m[i] == 'l' && m[i + 1] == 'o' && m[i + 2] == 'o' && m[i + 3] == 'p'
        && m[i + 4] == 'b' && m[i + 5] == 'a' && m[i + 6] == 'c' && #[trigger] m[i + 7] == 'k' {
        let i = choose|i: int| 0 <= i && i + 8 <= m.len()
            && m[i] == 'l' && m[i + 1] == 'o' && m[i + 2] == 'o' && m[i + 3] == 'p'
            && m[i + 4] == 'b' && m[i + 5] == 'a' && m[i + 6] == 'c' && #[trigger] m[i + 7] == 'k';
        assert(m.subrange(i, i + motif.len()) =~= motif);
    }
}

/// Whether the interface `nom` is a loopback one.
pub fn interface_loopback(nom: &str) -> (r: bool)
    ensures
        r == est_loopback(nom@),
{
    let c = caracteres(nom);
    let lo = vec!['l', 'o'];
    if commence_par_car(&c, &lo) {
        assert(lo@ =~= seq!['l', 'o']);
        return true;
    }
    let bas = en_minuscules(nom);
    let cb = caracteres(bas.as_str());
    let motif = vec!['l', 'o', 'o', 'p', 'b', 'a', 'c', 'k'];
    proof {
        assert(lo@ =~= seq!['l', 'o']);
        assert(motif@ =~= seq!['l', 'o', 'o', 'p', 'b', 'a', 'c', 'k']);
    }
    contient_car(&cb, &motif)
}

/// The character of a decimal digit.
pub open spec fn chiffre(d: nat) -> char {
    ((d + 48) as u8) as char
}

/// The decimal writing of `n`, without sign or leading zeros.
pub open spec fn decimal(n: nat) -> Seq<char>
    decreases n,
{
    if n < 10 {
        seq![chiffre(n)]
    } else {
        decimal(n / 10).push(chiffre(n % 10))
    }
}

/// The one-character string of the decimal digit `d`.
fn chiffre_texte(d: u64) -> (r: &'static str)
    requires
        d < 10,
    ensures
        r@ == seq![chiffre(d as nat)],
{
    if d == 0 {
        proof { reveal_strlit("0"); }
        "0"
    } else if d == 1 {
        proof { reveal_strlit("1"); }
        "1"
    } else if d == 2 {
        proof { reveal_strlit("2"); }
        "2"
    } else if d == 3 {
        proof { reveal_strlit("3"); }
        "3"
    } else if d == 4 {
        proof { reveal_strlit("4"); }
        "4"
    } else if d == 5 {
        proof { reveal_strlit("5"); }
        "5"
    } else if d == 6 {
        proof { reveal_strlit("6"); }
        "6"
    } else if d == 7 {
        proof { reveal_strlit("7"); }
        "7"
    } else if d == 8 {
        proof { reveal_strlit("8"); }
        "8"
    } else {
        proof { reveal_strlit("9"); }
        "9"
    }
}

/// The decimal writing of `n`, as a string.
pub fn ecrire_decimal(n: u64) -> (r: String)
    ensures
        r@ == decimal(n as nat),
    decreases n,
{
    if n < 10 {
        String::from_str(chiffre_texte(n))
    } else {
        let debut = ecrire_decimal(n / 10);
        debut.concat(chiffre_texte(n % 10))
    }
}

} // verus!
