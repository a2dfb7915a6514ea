//! Following `same_with` alias chains through a keyed table.
//!
//! Both recipe tables and the platform configuration table map a platform id
//! either to a concrete entry or to another platform id. Resolution follows
//! the aliases until it reaches a concrete entry, a missing key, or a key it
//! has already visited; the last case is reported as a cycle, so resolution
//! always terminates.
use vstd::prelude::*;
use vstd::set_lib::{lemma_int_range, lemma_len_subset, set_int_range};

verus! {

/// The shape of a table as far as alias resolution is concerned: each entry
/// is a key and, for an alias, the key it defers to (`None` for a concrete entry).
pub type AliasGraph = Seq<(Seq<char>, Option<Seq<char>>)>;

/// An entry of a table that is either concrete or an alias of another key.
pub trait AliasEntry {
    /// The key this entry defers to, if it is an alias.
    spec fn alias_target(&self) -> Option<Seq<char>>;

    fn same_with(&self) -> (r: Option<&String>)
        ensures
            match r {
                Some(s) => self.alias_target() == Some(s@),
                None => self.alias_target() is None,
            },
    ;
}

/// The alias structure of a table held as a list of key/entry pairs.
pub open spec fn graph_of<E: AliasEntry>(entries: Seq<(String, E)>) -> AliasGraph {
    entries.map_values(|p: (String, E)| (p.0@, p.1.alias_target()))
}

/// `i` is the first position whose key is `key`.
pub open spec fn is_first_key(g: AliasGraph, key: Seq<char>, i: int) -> bool {
    &&& 0 <= i < g.len()
    &&& g[i].0 == key
    &&& forall|j: int| 0 <= j < i ==> g[j].0 != key
}

/// The position of the entry stored under `key`, if any.
pub open spec fn key_index(g: AliasGraph, key: Seq<char>) -> Option<int> {
    if exists|i: int| is_first_key(g, key, i) {
        Some(choose|i: int| is_first_key(g, key, i))
    } else {
        None
    }
}

/// A key at which resolution stops: it is missing, or its entry is concrete.
pub open spec fn is_terminal(g: AliasGraph, key: Seq<char>) -> bool {
    match key_index(g, key) {
        Some(i) => g[i].1 is None,
        None => true,
    }
}

/// One step along the chain: an alias moves to its target, a terminal key stays put.
pub open spec fn next_key(g: AliasGraph, key: Seq<char>) -> Seq<char> {
    match key_index(g, key) {
        Some(i) => match g[i].1 {
            Some(t) => t,
            None => key,
        },
        None => key,
    }
}

/// The key reached from `start` after `n` steps.
pub open spec fn key_at(g: AliasGraph, start: Seq<char>, n: nat) -> Seq<char>
    decreases n,
{
    if n == 0 {
        start
    } else {
        next_key(g, key_at(g, start, (n - 1) as nat))
    }
}

/// The alias chain from `start` is finite: some step reaches a terminal key.
pub open spec fn chain_terminates(g: AliasGraph, start: Seq<char>) -> bool {
    exists|n: nat| is_terminal(g, #[trigger] key_at(g, start, n))
}

/// The terminal key of a finite chain.
pub open spec fn chain_end(g: AliasGraph, start: Seq<char>) -> Seq<char> {
    key_at(g, start, choose|n: nat| is_terminal(g, #[trigger] key_at(g, start, n)))
}

/// What resolution of a key amounts to.
pub enum Resolution {
    /// The chain ends at the concrete entry in this position.
    Found(int),
    /// The chain reaches a key that the table does not hold.
    Missing,
    /// The chain never reaches a terminal key.
    Cyclic,
}

pub open spec fn resolution(g: AliasGraph, start: Seq<char>) -> Resolution {
    if chain_terminates(g, start) {
        match key_index(g, chain_end(g, start)) {
            Some(i) => Resolution::Found(i),
            None => Resolution::Missing,
        }
    } else {
        Resolution::Cyclic
    }
}

/// An alias chain that revisits a key.
#[derive(Debug, PartialEq, Eq, Structural)]
pub struct CycleDetected;

pub proof fn lemma_first_key(g: AliasGraph, key: Seq<char>, i: int)
    requires
        is_first_key(g, key, i),
    ensures
        key_index(g, key) == Some(i),
{
    let j = choose|j: int| is_first_key(g, key, j);
    assert(is_first_key(g, key, j));
    if j < i {
        assert(g[j].0 != key);
    } else if i < j {
        assert(g[i].0 != key);
    }
}

proof fn lemma_key_index_in_range(g: AliasGraph, key: Seq<char>)
    ensures
        key_index(g, key) matches Some(i) ==> is_first_key(g, key, i),
{
}

/// Resolution that finds an entry finds the concrete entry stored under the chain's end.
pub proof fn lemma_found(g: AliasGraph, start: Seq<char>)
    ensures
        resolution(g, start) matches Resolution::Found(i) ==> is_first_key(
            g,
            chain_end(g, start),
            i,
        ) && g[i].1 is None,
{
    if chain_terminates(g, start) {
        let n = choose|n: nat| is_terminal(g, #[trigger] key_at(g, start, n));
        assert(is_terminal(g, key_at(g, start, n)));
    }
}

/// A terminal key is a fixpoint of the chain.
pub proof fn lemma_terminal_stays(g: AliasGraph, start: Seq<char>, n: nat, m: nat)
    requires
        is_terminal(g, key_at(g, start, n)),
        n <= m,
    ensures
        key_at(g, start, m) == key_at(g, start, n),
    decreases m - n,
{
    if m > n {
        lemma_terminal_stays(g, start, n, (m - 1) as nat);
    }
}

/// A chain that reaches a terminal key ends there.
pub proof fn lemma_chain_end(g: AliasGraph, start: Seq<char>, n: nat)
    requires
        is_terminal(g, key_at(g, start, n)),
    ensures
        chain_terminates(g, start),
        chain_end(g, start) == key_at(g, start, n),
{
    assert(chain_terminates(g, start));
    let m = choose|m: nat| is_terminal(g, #[trigger] key_at(g, start, m));
    if m <= n {
        lemma_terminal_stays(g, start, m, n);
    } else {
        lemma_terminal_stays(g, start, n, m);
    }
}

/// Steps from equal keys stay equal.
proof fn lemma_shift(g: AliasGraph, start: Seq<char>, a: nat, b: nat, t: nat)
    requires
        key_at(g, start, a) == key_at(g, start, b),
    ensures
        key_at(g, start, a + t) == key_at(g, start, b + t),
    decreases t,
{
    if t > 0 {
        lemma_shift(g, start, a, b, (t - 1) as nat);
        assert(key_at(g, start, a + t) == next_key(g, key_at(g, start, (a + t - 1) as nat)));
        assert(key_at(g, start, b + t) == next_key(g, key_at(g, start, (b + t - 1) as nat)));
    }
}

proof fn lemma_cycle_step(g: AliasGraph, start: Seq<char>, j: nat, k: nat, n: nat)
    requires
        j <= k,
        key_at(g, start, k + 1) == key_at(g, start, j),
        forall|i: nat| i <= k ==> !is_terminal(g, #[trigger] key_at(g, start, i)),
    ensures
        !is_terminal(g, key_at(g, start, n)),
    decreases n,
{
    if n > k {
        let p = (k + 1 - j) as nat;
        lemma_shift(g, start, k + 1, j, (n - (k + 1)) as nat);
        assert(key_at(g, start, n) == key_at(g, start, (n - p) as nat));
        lemma_cycle_step(g, start, j, k, (n - p) as nat);
    }
}

/// A chain that comes back to a key it visited before reaching a terminal
/// key never terminates: it resolves to a cycle.
pub proof fn lemma_revisit_is_cycle(g: AliasGraph, start: Seq<char>, j: nat, k: nat)
    requires
        j <= k,
        key_at(g, start, k + 1) == key_at(g, start, j),
        forall|i: nat| i <= k ==> !is_terminal(g, #[trigger] key_at(g, start, i)),
    ensures
        !chain_terminates(g, start),
        resolution(g, start) == Resolution::Cyclic,
{
    assert forall|n: nat| !is_terminal(g, #[trigger] key_at(g, start, n)) by {
        lemma_cycle_step(g, start, j, k, n);
    }
}

/// Resolution finds an entry exactly when finitely many alias steps from
/// `start` reach a key whose entry is concrete; a start key that the table
/// does not hold resolves to nothing.
pub proof fn lemma_resolution_finds_concrete(g: AliasGraph, start: Seq<char>)
    ensures
        resolution(g, start) is Found <==> exists|n: nat|
            #[trigger] key_index(g, key_at(g, start, n)) matches Some(i) && g[i].1 is None,
        key_index(g, start) is None ==> resolution(g, start) == Resolution::Missing,
{
    lemma_found(g, start);
    if resolution(g, start) is Found {
        let n = choose|n: nat| is_terminal(g, #[trigger] key_at(g, start, n));
        lemma_chain_end(g, start, n);
        assert(key_index(g, key_at(g, start, n)) matches Some(i) && g[i].1 is None);
    }
    if exists|n: nat| #[trigger] key_index(g, key_at(g, start, n)) matches Some(i) && g[i].1 is None {
        let n = choose|n: nat| #[trigger] key_index(g, key_at(g, start, n)) matches Some(i) && g[i].1 is None;
        lemma_chain_end(g, start, n);
    }
    if key_index(g, start) is None {
        assert(key_at(g, start, 0) == start);
        lemma_chain_end(g, start, 0);
    }
}

/// Distinct positions of a table are no more than its length.
proof fn lemma_distinct_positions(s: Seq<int>, n: int)
    requires
        0 <= n,
        s.no_duplicates(),
        forall|i: int| 0 <= i < s.len() ==> 0 <= #[trigger] s[i] < n,
    ensures
        s.len() <= n,
{
    if s.len() > 0 {
        assert(0 <= s[0] < n);
        s.unique_seq_to_set();
        lemma_int_range(0, n);
        assert(s.to_set().subset_of(set_int_range(0, n)));
        lemma_len_subset(s.to_set(), set_int_range(0, n));
    }
}

/// The position of the first entry stored under `key`.
pub fn find_key<E: AliasEntry>(entries: &Vec<(String, E)>, key: &String) -> (r: Option<usize>)
    ensures
        match r {
            Some(i) => key_index(graph_of(entries@), key@) == Some(i as int),
            None => key_index(graph_of(entries@), key@) is None,
        },
{
    let ghost g = graph_of(entries@);
    let mut i: usize = 0;
    while i < entries.len()
        invariant
            g == graph_of(entries@),
            i <= entries.len(),
            forall|j: int| 0 <= j < i ==> (#[trigger] g[j]).0 != key@,
        decreases entries.len() - i,
    {
        assert(g[i as int].0 == entries@[i as int].0@);
        if entries[i].0 == *key {
            proof {
                lemma_first_key(g, key@, i as int);
            }
            return Some(i);
        }
        i += 1;
    }
    assert forall|j: int| !is_first_key(g, key@, j) by {
        if 0 <= j < g.len() {
            assert(g[j].0 != key@);
        }
    }
    None
}

/// Whether `keys` holds `key`.
fn holds_key(keys: &Vec<String>, key: &String) -> (r: bool)
    ensures
        r == exists|i: int| 0 <= i < keys.len() && (#[trigger] keys@[i])@ == key@,
{
    let mut i: usize = 0;
    while i < keys.len()
        invariant
            i <= keys.len(),
            forall|j: int| 0 <= j < i ==> (#[trigger] keys@[j])@ != key@,
        decreases keys.len() - i,
    {
        if keys[i] == *key {
            return true;
        }
        i += 1;
    }
    false
}

/// Follows the alias chain that starts at `start`, keeping the keys it has
/// visited so that a cycle ends the walk with an error.
pub fn resolve_alias<E: AliasEntry>(entries: &Vec<(String, E)>, start: &String) -> (r: Result<
    Option<usize>,
    CycleDetected,
>)
    ensures
        match resolution(graph_of(entries@), start@) {
            Resolution::Found(i) => r matches Ok(Some(k)) && k == i,
            Resolution::Missing => r matches Ok(None),
            Resolution::Cyclic => r is Err,
        },
{
    let ghost g = graph_of(entries@);
    let mut visited: Vec<String> = Vec::new();
    let ghost mut slots: Seq<int> = Seq::empty();
    let mut current: String = start.clone();
    loop
        invariant
            g == graph_of(entries@),
            g.len() == entries@.len(),
            visited.len() == slots.len(),
            current@ == key_at(g, start@, visited.len() as nat),
            forall|i: int|
                0 <= i < visited.len() ==> (#[trigger] visited@[i])@ == key_at(
                    g,
                    start@,
                    i as nat,
                ),
            forall|i: nat| i < visited.len() ==> !is_terminal(g, #[trigger] key_at(g, start@, i)),
            forall|i: int| 0 <= i < visited.len() ==> (#[trigger] visited@[i])@ != current@,
            forall|i: int|
                0 <= i < slots.len() ==> 0 <= #[trigger] slots[i] < g.len() && g[slots[i]].0
                    == visited@[i]@,
            slots.no_duplicates(),
        decreases entries.len() - visited.len(),
    {
        let k = visited.len();
        match find_key(entries, &current) {
            None => {
                proof {
                    lemma_chain_end(g, start@, k as nat);
                }
                return Ok(None);
            },
            Some(i) => {
                proof {
                    lemma_key_index_in_range(g, current@);
                }
                assert(g[i as int].1 == entries@[i as int].1.alias_target());
                match entries[i].1.same_with() {
                    None => {
                        proof {
                            lemma_chain_end(g, start@, k as nat);
                        }
                        return Ok(Some(i));
                    },
                    Some(target) => {
                        assert(key_at(g, start@, (k + 1) as nat) == target@);
                        if *target == current {
                            proof {
                                lemma_revisit_is_cycle(g, start@, k as nat, k as nat);
                            }
                            return Err(CycleDetected);
                        }
                        if holds_key(&visited, target) {
                            proof {
                                let j = choose|j: int|
                                    0 <= j < visited.len() && (#[trigger] visited@[j])@
                                        == target@;
                                lemma_revisit_is_cycle(g, start@, j as nat, k as nat);
                            }
                            return Err(CycleDetected);
                        }
                        proof {
                            let s2 = slots.push(i as int);
                            assert forall|a: int, b: int|
                                0 <= a < s2.len() && 0 <= b < s2.len() && a != b implies s2[a]
                                != s2[b] by {
                                if a < slots.len() && b < slots.len() {
                                } else if a < slots.len() {
                                    assert(g[s2[a]].0 == visited@[a]@);
                                } else {
                                    assert(g[s2[b]].0 == visited@[b]@);
                                }
                            }
                            lemma_distinct_positions(s2, g.len() as int);
                            slots = s2;
                        }
                        visited.push(current);
                        current = target.clone();
                    },
                }
            },
        }
    }
}

} // verus!
