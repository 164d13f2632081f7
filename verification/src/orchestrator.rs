//! The comparison of several clients: which files name a client or hold a
//! case, the order of the cases, and the order of the work. The clients
//! are measured one after another, since all of them listen on the same
//! port: a client is stopped before the next one is started.

use vstd::prelude::*;
use crate::bench_summary::BenchInput;
use crate::natural::{
    lemma_natural_order_antisymmetric,
    lemma_natural_order_transitive,
    name_order,
    natural_order,
};
use crate::text::chars_of;

verus! {

/// Whether `s` ends with `suffix`.
pub open spec fn ends_with(s: Seq<char>, suffix: Seq<char>) -> bool {
    s.len() >= suffix.len() && s.skip(s.len() - suffix.len()) == suffix
}

/// Whether the file name `name` has the extension `ext`: it ends with a
/// dot and `ext`, and something stands before the dot.
pub open spec fn has_extension(name: Seq<char>, ext: Seq<char>) -> bool {
    name.len() > ext.len() + 1 && ends_with(name, seq!['.'] + ext)
}

/// `s` without `suffix` at its end, however often it stands there.
pub open spec fn without_suffixes(s: Seq<char>, suffix: Seq<char>) -> Seq<char>
    decreases s.len(),
{
    if suffix.len() > 0 && ends_with(s, suffix) {
        without_suffixes(s.take(s.len() - suffix.len()), suffix)
    } else {
        s
    }
}

/// The extension of the compose file of a client.
pub const CLIENT_EXTENSION: &'static str = "yml";

/// The extension of the file of a benchmark case.
pub const CASE_EXTENSION: &'static str = "json";

/// The client that a file of the clients' directory stands for: for a
/// file with the extension `yml`, its name without `.yml` at the end; for
/// any other file, none.
pub open spec fn client_of(file_name: Seq<char>) -> Option<Seq<char>> {
    if has_extension(file_name, CLIENT_EXTENSION@) {
        Some(without_suffixes(file_name, seq!['.'] + CLIENT_EXTENSION@))
    } else {
        None
    }
}

/// Whether the first `end` characters of `s` end with `suffix`.
fn ends_with_at(s: &Vec<char>, end: usize, suffix: &Vec<char>) -> (found: bool)
    requires
        end <= s.len(),
    ensures
        found == ends_with(s@.take(end as int), suffix@),
{
    if suffix.len() > end {
        return false;
    }
    let start = end - suffix.len();
    let ghost tail = s@.take(end as int).skip(start as int);
    let mut k: usize = 0;
    while k < suffix.len()
        invariant
            k <= suffix.len(),
            end <= s.len(),
            start == end - suffix.len(),
            tail == s@.take(end as int).skip(start as int),
            forall|j: int| 0 <= j < k ==> s@[start + j] == suffix@[j],
        decreases suffix.len() - k,
    {
        if s[start + k] != suffix[k] {
            assert(tail[k as int] != suffix@[k as int]);
            return false;
        }
        k = k + 1;
    }
    assert(tail =~= suffix@);
    true
}

/// A dot and then `ext`.
fn dotted(ext: &str) -> (suffix: Vec<char>)
    ensures
        suffix@ == seq!['.'] + ext@,
{
    let mut suffix: Vec<char> = Vec::new();
    suffix.push('.');
    let mut rest = chars_of(ext);
    suffix.append(&mut rest);
    suffix
}

/// Whether a file name has the given extension.
pub fn file_has_extension(file_name: &str, ext: &str) -> (has: bool)
    ensures
        has == has_extension(file_name@, ext@),
{
    let name = chars_of(file_name);
    let suffix = dotted(ext);
    assert(name@.take(name.len() as int) == name@);
    name.len() > suffix.len() && ends_with_at(&name, name.len(), &suffix)
}

/// Whether a file of the suite's directory holds a benchmark case.
pub fn is_case_file(file_name: &str) -> (is: bool)
    ensures
        is == has_extension(file_name@, CASE_EXTENSION@),
{
    file_has_extension(file_name, CASE_EXTENSION)
}

/// Names the client that a file of the clients' directory stands for.
pub fn client_name(file_name: &str) -> (client: Option<String>)
    ensures
        match client {
            Some(name) => client_of(file_name@) == Some(name@),
            None => client_of(file_name@) is None,
        },
{
    let name = chars_of(file_name);
    let suffix = dotted(CLIENT_EXTENSION);
    assert(name@.take(name.len() as int) == name@);
    if !(name.len() > suffix.len() && ends_with_at(&name, name.len(), &suffix)) {
        return None;
    }
    let mut end: usize = name.len();
    while ends_with_at(&name, end, &suffix)
        invariant
            end <= name.len(),
            name@ == file_name@,
            suffix@ == seq!['.'] + CLIENT_EXTENSION@,
            without_suffixes(name@, suffix@) == without_suffixes(name@.take(end as int), suffix@),
        decreases end,
    {
        assert(name@.take(end as int).take(end - suffix.len()) == name@.take(end - suffix.len()));
        end = end - suffix.len();
    }
    let kept = file_name.substring_char(0, end);
    assert(kept@ == name@.take(end as int));
    Some(String::from_str(kept))
}

/// Whether the cases stand in the natural order of their names: no case
/// stands after one that it should stand before.
pub open spec fn names_in_order(cases: Seq<BenchInput>) -> bool {
    forall|i: int, j: int|
        0 <= i < j < cases.len() ==> natural_order(
            (#[trigger] cases[i]).name@,
            (#[trigger] cases[j]).name@,
        ) <= 0
}

/// Whether `after` holds the cases of `before`, each of them once, with
/// `from[k]` the place in `before` of the case that stands at `k` in
/// `after`.
pub open spec fn arranges(before: Seq<BenchInput>, after: Seq<BenchInput>, from: Seq<int>) -> bool {
    &&& from.len() == before.len()
    &&& after.len() == before.len()
    &&& forall|k: int|
        0 <= k < from.len() ==> 0 <= #[trigger] from[k] < before.len() && after[k] == before[from[k]]
    &&& forall|i: int, j: int| 0 <= i < j < from.len() ==> #[trigger] from[i] != #[trigger] from[j]
}

/// Whether cases whose names stand in the same place have kept the order
/// that they had before.
pub open spec fn keeps_ties(after: Seq<BenchInput>, from: Seq<int>) -> bool {
    forall|i: int, j: int|
        0 <= i < j < after.len() && natural_order(
            (#[trigger] after[i]).name@,
            (#[trigger] after[j]).name@,
        ) == 0 ==> from[i] < from[j]
}

/// Whether `after` is `before` sorted by name in the natural order, cases
/// of equal standing in the order in which they came.
pub open spec fn is_stable_sort_of(before: Seq<BenchInput>, after: Seq<BenchInput>) -> bool {
    &&& names_in_order(after)
    &&& exists|from: Seq<int>| arranges(before, after, from) && keeps_ties(after, from)
}

/// Sorts the cases by name in the natural order. Cases whose names stand
/// in the same place keep the order in which they came.
pub fn sort_cases(cases: &mut Vec<BenchInput>)
    ensures
        is_stable_sort_of(old(cases)@, final(cases)@),
{
    let n = cases.len();
    let ghost before = cases@;
    let ghost mut from: Seq<int> = Seq::new(n as nat, |k: int| k);
    if n == 0 {
        assert(arranges(before, cases@, from) && keeps_ties(cases@, from));
        return ;
    }
    let mut i: usize = 1;
    while i < n
        invariant
            1 <= i <= n,
            n == before.len(),
            cases@.len() == n,
            arranges(before, cases@, from),
            forall|k: int| i <= k < n ==> #[trigger] from[k] == k,
            forall|k: int| 0 <= k < i ==> #[trigger] from[k] < i,
            names_in_order(cases@.take(i as int)),
            keeps_ties(cases@.take(i as int), from),
        decreases n - i,
    {
        let ghost old_cases = cases@;
        let ghost old_from = from;
        let item = cases.remove(i);
        let ghost mid = cases@;
        let mut pos: usize = i;
        while pos > 0 && name_order(cases[pos - 1].name.as_str(), item.name.as_str()) > 0
            invariant
                pos <= i < n,
                cases@ == mid,
                mid.len() == n - 1,
                forall|k: int|
                    pos <= k < i ==> natural_order((#[trigger] mid[k]).name@, item.name@) > 0,
            decreases pos,
        {
            pos = pos - 1;
        }
        cases.insert(pos, item);
        proof {
            from = old_from.remove(i as int).insert(pos as int, i as int);
            let now = cases@;
            assert(now.len() == n && from.len() == n);
            assert forall|k: int| 0 <= k < n implies (if k < pos {
                now[k] == old_cases[k] && from[k] == old_from[k]
            } else if k == pos {
                now[k] == old_cases[i as int] && from[k] == i
            } else if k <= i {
                now[k] == old_cases[k - 1] && from[k] == old_from[k - 1]
            } else {
                now[k] == old_cases[k] && from[k] == old_from[k]
            }) by {
                if k < pos {
                    assert(mid[k] == old_cases[k]);
                } else if k == pos {
                } else if k <= i {
                    assert(mid[k - 1] == old_cases[k - 1]);
                } else {
                    assert(mid[k - 1] == old_cases[k]);
                }
            }
            assert(arranges(before, now, from)) by {
                assert forall|k: int| 0 <= k < from.len() implies 0 <= #[trigger] from[k]
                    < before.len() && now[k] == before[from[k]] by {
                    if k < pos {
                        assert(old_from[k] < i);
                    } else if k == pos {
                        assert(old_from[i as int] == i);
                    } else if k <= i {
                        assert(old_from[k - 1] < i);
                    } else {
                        assert(old_from[k] == k);
                    }
                }
                assert forall|a: int, b: int| 0 <= a < b < from.len() implies #[trigger] from[a]
                    != #[trigger] from[b] by {
                    let a0 = if a < pos { a } else if a == pos { i as int } else if a <= i { a - 1 } else { a };
                    let b0 = if b < pos { b } else if b == pos { i as int } else if b <= i { b - 1 } else { b };
                    assert(from[a] == old_from[a0]);
                    assert(from[b] == old_from[b0]);
                    assert(a0 != b0);
                    if a0 < b0 {
                        assert(old_from[a0] != old_from[b0]);
                    } else {
                        assert(old_from[b0] != old_from[a0]);
                    }
                }
            }
            let head = now.take(i + 1);
            let old_head = old_cases.take(i as int);
            assert forall|a: int, b: int| 0 <= a < b < head.len() implies natural_order(
                (#[trigger] head[a]).name@,
                (#[trigger] head[b]).name@,
            ) <= 0 && (natural_order(head[a].name@, head[b].name@) == 0 ==> from[a] < from[b]) by {
                let x = old_cases[i as int];
                if a == pos {
                    assert(head[b] == mid[b - 1]);
                    lemma_natural_order_antisymmetric(mid[b - 1].name@, x.name@);
                } else if b == pos {
                    assert(head[a] == old_head[a]);
                    assert(old_from[a] < i);
                    if a < pos - 1 {
                        assert(old_head[pos - 1] == mid[pos - 1]);
                        assert(natural_order(old_head[a].name@, old_head[pos - 1].name@) <= 0);
                        lemma_natural_order_transitive(
                            old_head[a].name@,
                            old_head[pos - 1].name@,
                            x.name@,
                        );
                    } else {
                        assert(head[a] == mid[pos - 1]);
                    }
                } else {
                    let a0 = if a < pos { a } else { a - 1 };
                    let b0 = if b < pos { b } else { b - 1 };
                    assert(head[a] == old_head[a0]);
                    assert(head[b] == old_head[b0]);
                    assert(natural_order(old_head[a0].name@, old_head[b0].name@) <= 0);
                }
            }
        }
        i = i + 1;
    }
    assert(cases@.take(n as int) == cases@);
    assert(arranges(before, cases@, from) && keeps_ties(cases@, from));
}

/// A stage of the comparison: the work that is to be done next.
#[derive(Debug, Clone, Copy, PartialEq, Eq)]
pub enum Stage {
    /// Start the containers of this client.
    Up(usize),
    /// Wait until this client listens.
    WaitHealthy(usize),
    /// Run the case of this index against this client, and enter what it
    /// leaves into the matrix.
    RunCase { client: usize, case: usize },
    /// Stop the containers of this client.
    Down(usize),
    /// Every client is done: show the table.
    Render,
}

/// The first stage of a comparison of `clients` clients.
pub open spec fn first_stage(clients: usize) -> Stage {
    if clients > 0 {
        Stage::Up(0)
    } else {
        Stage::Render
    }
}

/// The stage that follows `stage` once its work is done. `healthy` says
/// how the wait for the client ended, and counts after that wait only. A
/// client that does not listen is stopped without a single case being run,
/// and a client is always stopped before the next one is started.
pub open spec fn stage_after(stage: Stage, healthy: bool, clients: usize, cases: usize) -> Stage {
    match stage {
        Stage::Up(client) => Stage::WaitHealthy(client),
        Stage::WaitHealthy(client) => if healthy && cases > 0 {
            Stage::RunCase { client, case: 0 }
        } else {
            Stage::Down(client)
        },
        Stage::RunCase { client, case } => if case + 1 < cases {
            Stage::RunCase { client, case: (case + 1) as usize }
        } else {
            Stage::Down(client)
        },
        Stage::Down(client) => if client + 1 < clients {
            Stage::Up((client + 1) as usize)
        } else {
            Stage::Render
        },
        Stage::Render => Stage::Render,
    }
}

/// Whether a stage names only a client and a case that exist.
pub open spec fn stage_in_range(stage: Stage, clients: usize, cases: usize) -> bool {
    match stage {
        Stage::Up(client) => client < clients,
        Stage::WaitHealthy(client) => client < clients,
        Stage::RunCase { client, case } => client < clients && case < cases,
        Stage::Down(client) => client < clients,
        Stage::Render => true,
    }
}

/// The client whose containers run while `stage` is worked on, if any.
pub open spec fn running_client(stage: Stage) -> Option<usize> {
    match stage {
        Stage::Up(client) => Some(client),
        Stage::WaitHealthy(client) => Some(client),
        Stage::RunCase { client, .. } => Some(client),
        Stage::Down(client) => Some(client),
        Stage::Render => None,
    }
}

/// Names the first stage of a comparison.
pub fn start(clients: usize) -> (stage: Stage)
    ensures
        stage == first_stage(clients),
        forall|cases: usize| stage_in_range(stage, clients, cases),
{
    if clients > 0 {
        Stage::Up(0)
    } else {
        Stage::Render
    }
}

/// Names the stage that follows `stage`.
pub fn advance(stage: Stage, healthy: bool, clients: usize, cases: usize) -> (next: Stage)
    requires
        stage_in_range(stage, clients, cases),
    ensures
        next == stage_after(stage, healthy, clients, cases),
        stage_in_range(next, clients, cases),
{
    match stage {
        Stage::Up(client) => Stage::WaitHealthy(client),
        Stage::WaitHealthy(client) => if healthy && cases > 0 {
            Stage::RunCase { client, case: 0 }
        } else {
            Stage::Down(client)
        },
        Stage::RunCase { client, case } => if case + 1 < cases {
            Stage::RunCase { client, case: case + 1 }
        } else {
            Stage::Down(client)
        },
        Stage::Down(client) => if client + 1 < clients {
            Stage::Up(client + 1)
        } else {
            Stage::Render
        },
        Stage::Render => Stage::Render,
    }
}

/// No two clients run at the same time: the work passes from one client to
/// another only by stopping the first and then starting the second, and a
/// client is started only after the one before it was stopped.
pub proof fn lemma_one_client_at_a_time(stage: Stage, healthy: bool, clients: usize, cases: usize)
    requires
        stage_in_range(stage, clients, cases),
    ensures
        ({
            let next = stage_after(stage, healthy, clients, cases);
            &&& running_client(next) != running_client(stage) ==> stage is Down
            &&& next is Up ==> stage is Down && next->Up_0 == stage->Down_0 + 1
            &&& stage is Down ==> !(next is Down) && !(next is RunCase) && !(next is WaitHealthy)
        }),
{
}

/// A client that does not listen in time is stopped at once, and the next
/// client gets its turn: no case is run against it.
pub proof fn lemma_unhealthy_client_is_skipped(client: usize, clients: usize, cases: usize)
    requires
        client < clients,
    ensures
        stage_after(Stage::WaitHealthy(client), false, clients, cases) == Stage::Down(client),
        stage_after(Stage::Down(client), false, clients, cases) == (if client + 1 < clients {
            Stage::Up((client + 1) as usize)
        } else {
            Stage::Render
        }),
{
}

} // verus!
