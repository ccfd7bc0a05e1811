//! The order in which the systems of one schedule run.
//!
//! Systems are numbered by the position at which they were added. A
//! constraint `(dependent, dependency)` makes every system called `dependent`
//! wait for every system called `dependency`; one that names an unknown
//! system, or a system and itself, is ignored.
use vstd::prelude::*;

use crate::ecs::system::SystemId;

verus! {

/// The constraints of a schedule admit no order: they form a cycle.
#[derive(Clone, Copy, PartialEq, Eq, Structural, Debug)]
pub struct OrderingCycle;

/// Some constraint makes system `a` wait for system `b`: it holds of every
/// system that bears a name.
pub open spec fn depends(
    ids: Seq<SystemId>,
    constraints: Seq<(SystemId, SystemId)>,
    a: int,
    b: int,
) -> bool {
    &&& 0 <= a < ids.len()
    &&& 0 <= b < ids.len()
    &&& ids[a] != ids[b]
    &&& constraints.contains((ids[a], ids[b]))
}

/// The constraints admit an order: the systems can be ranked so that each
/// ranks above everything it waits for.
pub open spec fn acyclic(ids: Seq<SystemId>, constraints: Seq<(SystemId, SystemId)>) -> bool {
    exists|rank: spec_fn(int) -> int| #[trigger] is_ranking(ids, constraints, rank)
}

pub open spec fn is_ranking(
    ids: Seq<SystemId>,
    constraints: Seq<(SystemId, SystemId)>,
    rank: spec_fn(int) -> int,
) -> bool {
    forall|a: int, b: int| #[trigger]
        depends(ids, constraints, a, b) ==> rank(b) < rank(a)
}

/// With the systems in `placed` already ordered, system `i` is still to be
/// placed and waits for nothing else.
pub open spec fn is_ready(
    ids: Seq<SystemId>,
    constraints: Seq<(SystemId, SystemId)>,
    placed: Seq<usize>,
    i: int,
) -> bool {
    &&& 0 <= i < ids.len()
    &&& !placed.contains(i as usize)
    &&& forall|b: int| #[trigger]
        depends(ids, constraints, i, b) ==> placed.contains(b as usize)
}

/// System `i` goes before system `j` when nothing orders them: the higher
/// priority first, then the one added first.
pub open spec fn preferred(priorities: Seq<i32>, i: int, j: int) -> bool {
    priorities[i] > priorities[j] || (priorities[i] == priorities[j] && i < j)
}

/// System `i` is the one to run after those in `placed`: of all that are
/// ready it is the preferred one.
pub open spec fn is_next(
    ids: Seq<SystemId>,
    priorities: Seq<i32>,
    constraints: Seq<(SystemId, SystemId)>,
    placed: Seq<usize>,
    i: int,
) -> bool {
    &&& is_ready(ids, constraints, placed, i)
    &&& forall|j: int| #[trigger]
        is_ready(ids, constraints, placed, j) && j != i ==> preferred(priorities, i, j)
}

/// `order` lists all systems, each picked as [`is_next`] says.
pub open spec fn is_order(
    ids: Seq<SystemId>,
    priorities: Seq<i32>,
    constraints: Seq<(SystemId, SystemId)>,
    order: Seq<usize>,
) -> bool {
    &&& order.len() == ids.len()
    &&& forall|i: usize| i < ids.len() ==> #[trigger] order.contains(i)
    &&& forall|k: int|
        0 <= k < order.len() ==> is_next(
            ids,
            priorities,
            constraints,
            order.take(k),
            #[trigger] order[k] as int,
        )
}

/// How often `i` occurs in `list`.
spec fn occurrences(list: Seq<usize>, i: int) -> nat
    decreases list.len(),
{
    if list.len() == 0 {
        0
    } else {
        occurrences(list.drop_last(), i) + if list.last() == i {
            1nat
        } else {
            0nat
        }
    }
}

/// How many waits of system `i` on one of the first `n` systems are open:
/// `dependents[b]` lists who waits for `b`, once per constraint, and a wait
/// is closed once its `b` is done.
spec fn open_waits(dependents: Seq<Vec<usize>>, done: Seq<bool>, i: int, n: nat) -> nat
    decreases n,
{
    if n == 0 {
        0
    } else {
        open_waits(dependents, done, i, (n - 1) as nat) + if done[n - 1] {
            0
        } else {
            occurrences(dependents[n - 1]@, i)
        }
    }
}

proof fn lemma_occurrences_positive(list: Seq<usize>, i: int)
    requires
        0 <= i <= usize::MAX,
    ensures
        occurrences(list, i) > 0 <==> list.contains(i as usize),
    decreases list.len(),
{
    if list.len() > 0 {
        lemma_occurrences_positive(list.drop_last(), i);
        if list.drop_last().contains(i as usize) {
            let k = choose|k: int|
                0 <= k < list.drop_last().len() && list.drop_last()[k] == i as usize;
            assert(list[k] == i as usize);
        }
        if list.contains(i as usize) && list.last() != i {
            let k = choose|k: int| 0 <= k < list.len() && list[k] == i as usize;
            assert(list.drop_last()[k] == i as usize);
        }
        if list.last() == i {
            assert(list[list.len() - 1] == i as usize);
        }
    }
}

proof fn lemma_occurrences_take(list: Seq<usize>, k: int, i: int)
    requires
        0 <= k < list.len(),
    ensures
        occurrences(list.take(k + 1), i) == occurrences(list.take(k), i) + if list[k] == i {
            1nat
        } else {
            0nat
        },
        occurrences(list.take(k + 1), i) <= occurrences(list, i),
    decreases list.len() - k,
{
    assert(list.take(k + 1).drop_last() =~= list.take(k));
    if k + 1 < list.len() {
        lemma_occurrences_take(list, k + 1, i);
    } else {
        assert(list.take(k + 1) =~= list);
    }
}

/// No wait of `i` is open exactly if nobody undone lists `i`.
proof fn lemma_no_open_waits(dependents: Seq<Vec<usize>>, done: Seq<bool>, i: int, n: nat)
    requires
        0 <= i <= usize::MAX,
        n <= dependents.len(),
        n <= done.len(),
    ensures
        open_waits(dependents, done, i, n) == 0 <==> forall|b: int|
            0 <= b < n && !done[b] ==> !#[trigger] dependents[b]@.contains(i as usize),
    decreases n,
{
    if n > 0 {
        lemma_no_open_waits(dependents, done, i, (n - 1) as nat);
        lemma_occurrences_positive(dependents[n - 1]@, i);
    }
}

/// Finishing system `p` closes exactly the waits that `p` lists.
proof fn lemma_close_waits(
    dependents: Seq<Vec<usize>>,
    done: Seq<bool>,
    p: int,
    i: int,
    n: nat,
)
    requires
        n <= dependents.len() == done.len(),
        0 <= p < done.len(),
        !done[p],
    ensures
        open_waits(dependents, done, i, n) == open_waits(dependents, done.update(p, true), i, n)
            + if p < n {
            occurrences(dependents[p]@, i)
        } else {
            0
        },
    decreases n,
{
    if n > 0 {
        lemma_close_waits(dependents, done, p, i, (n - 1) as nat);
    }
}

/// Listing `a` once more under `b` opens one more wait of `a`.
proof fn lemma_open_wait(
    before: Seq<Vec<usize>>,
    after: Seq<Vec<usize>>,
    done: Seq<bool>,
    a: usize,
    b: int,
    i: int,
    n: nat,
)
    requires
        n <= before.len() == after.len() == done.len(),
        0 <= b < before.len(),
        forall|j: int| 0 <= j < done.len() ==> !done[j],
        after[b]@ == before[b]@.push(a),
        forall|j: int| 0 <= j < before.len() && j != b ==> after[j] == before[j],
    ensures
        open_waits(after, done, i, n) == open_waits(before, done, i, n) + if b < n && a == i {
            1nat
        } else {
            0nat
        },
    decreases n,
{
    if n > 0 {
        lemma_open_wait(before, after, done, a, b, i, (n - 1) as nat);
        if b == n - 1 {
            assert(after[b]@.drop_last() =~= before[b]@);
        }
    }
}

proof fn lemma_no_waits_at_first(dependents: Seq<Vec<usize>>, done: Seq<bool>, i: int, n: nat)
    requires
        n <= dependents.len(),
        forall|j: int| 0 <= j < dependents.len() ==> dependents[j]@.len() == 0,
    ensures
        open_waits(dependents, done, i, n) == 0,
    decreases n,
{
    if n > 0 {
        lemma_no_waits_at_first(dependents, done, i, (n - 1) as nat);
    }
}

/// System `a` waits for one of `stuck`.
spec fn waits_within(
    ids: Seq<SystemId>,
    constraints: Seq<(SystemId, SystemId)>,
    stuck: Seq<usize>,
    a: int,
) -> bool {
    exists|b: usize| #[trigger] stuck.contains(b) && depends(ids, constraints, a, b as int)
}

/// A nonempty set of systems, each of which waits for another of the set,
/// admits no ranking.
proof fn lemma_stuck(
    ids: Seq<SystemId>,
    constraints: Seq<(SystemId, SystemId)>,
    stuck: Seq<usize>,
)
    requires
        stuck.len() > 0,
        forall|k: int|
            0 <= k < stuck.len() ==> waits_within(ids, constraints, stuck, #[trigger] stuck[k] as int),
    ensures
        !acyclic(ids, constraints),
{
    if acyclic(ids, constraints) {
        let rank = choose|rank: spec_fn(int) -> int| #[trigger] is_ranking(ids, constraints, rank);
        let least = lemma_least_rank(stuck, rank);
        assert(waits_within(ids, constraints, stuck, stuck[least] as int));
        let b = choose|b: usize| #[trigger]
            stuck.contains(b) && depends(ids, constraints, stuck[least] as int, b as int);
        let k = choose|k: int| 0 <= k < stuck.len() && stuck[k] == b;
        assert(rank(b as int) < rank(stuck[least] as int));
        assert(rank(stuck[least] as int) <= rank(stuck[k] as int));
    }
}

proof fn lemma_least_rank(list: Seq<usize>, rank: spec_fn(int) -> int) -> (least: int)
    requires
        list.len() > 0,
    ensures
        0 <= least < list.len(),
        forall|k: int|
            0 <= k < list.len() ==> rank(list[least] as int) <= rank(#[trigger] list[k] as int),
    decreases list.len(),
{
    if list.len() == 1 {
        0
    } else {
        let least = lemma_least_rank(list.drop_last(), rank);
        let last = list.len() - 1;
        assert(list.drop_last()[least] == list[least]);
        assert forall|k: int| 0 <= k < list.len() - 1 implies rank(list[least] as int) <= rank(
            #[trigger] list[k] as int,
        ) by {
            assert(list.drop_last()[k] == list[k]);
        }
        if rank(list[last] as int) < rank(list[least] as int) {
            last
        } else {
            least
        }
    }
}

/// Whether some constraint makes systems called `dependent` wait for those
/// called `dependency`.
fn is_constrained(
    constraints: &Vec<(SystemId, SystemId)>,
    dependent: SystemId,
    dependency: SystemId,
) -> (constrained: bool)
    ensures
        constrained == constraints@.contains((dependent, dependency)),
{
    let mut c: usize = 0;
    while c < constraints.len()
        invariant
            c <= constraints@.len(),
            forall|k: int| 0 <= k < c ==> #[trigger] constraints@[k] != (dependent, dependency),
        decreases constraints.len() - c,
    {
        let (one, other) = constraints[c];
        if one == dependent && other == dependency {
            assert(constraints@[c as int] == (dependent, dependency));
            return true;
        }
        c += 1;
    }
    false
}

/// Nothing is done yet.
spec fn none_done(n: nat) -> Seq<bool> {
    Seq::new(n, |i: int| false)
}

/// `dependents[b]` lists exactly the systems that wait for `b`.
spec fn lists_waits(
    ids: Seq<SystemId>,
    constraints: Seq<(SystemId, SystemId)>,
    dependents: Seq<Vec<usize>>,
) -> bool {
    &&& dependents.len() == ids.len()
    &&& forall|b: int, k: int|
        0 <= b < dependents.len() && 0 <= k < dependents[b]@.len()
            ==> #[trigger] dependents[b]@[k] < ids.len()
    &&& forall|b: int, a: usize|
        0 <= b < dependents.len() ==> (#[trigger] dependents[b]@.contains(a) <==> depends(
            ids,
            constraints,
            a as int,
            b,
        ))
}

/// `dependents[y]` lists the systems that wait for `y`, as far as the pairs of
/// systems before `(a, b)` go.
spec fn lists_waits_before(
    ids: Seq<SystemId>,
    constraints: Seq<(SystemId, SystemId)>,
    dependents: Seq<Vec<usize>>,
    a: int,
    b: int,
) -> bool {
    &&& dependents.len() == ids.len()
    &&& forall|y: int, k: int|
        0 <= y < dependents.len() && 0 <= k < dependents[y]@.len()
            ==> #[trigger] dependents[y]@[k] < ids.len()
    &&& forall|y: int, x: usize|
        0 <= y < dependents.len() ==> (#[trigger] dependents[y]@.contains(x) <==> {
            &&& depends(ids, constraints, x as int, y)
            &&& x < a || (x == a && y < b)
        })
}

/// Listing `a` under `b`, who waits for it, takes the pair `(a, b)` in.
proof fn lemma_list_wait(
    ids: Seq<SystemId>,
    constraints: Seq<(SystemId, SystemId)>,
    before: Seq<Vec<usize>>,
    after: Seq<Vec<usize>>,
    a: usize,
    b: int,
)
    requires
        a < ids.len(),
        0 <= b < ids.len(),
        depends(ids, constraints, a as int, b),
        lists_waits_before(ids, constraints, before, a as int, b),
        after.len() == before.len(),
        after[b]@ == before[b]@.push(a),
        forall|j: int| 0 <= j < before.len() && j != b ==> after[j] == before[j],
    ensures
        lists_waits_before(ids, constraints, after, a as int, b + 1),
{
    assert forall|y: int, x: usize| 0 <= y < after.len() implies (
    #[trigger] after[y]@.contains(x) <==> {
        &&& depends(ids, constraints, x as int, y)
        &&& x < a || (x == a && y < b + 1)
    }) by {
        assert(before[y]@.contains(x) <==> {
            &&& depends(ids, constraints, x as int, y)
            &&& x < a || (x == a && y < b)
        });
        if y == b {
            if before[y]@.contains(x) {
                let k = choose|k: int| 0 <= k < before[y]@.len() && before[y]@[k] == x;
                assert(after[y]@[k] == x);
            }
            if after[y]@.contains(x) && x != a {
                let k = choose|k: int| 0 <= k < after[y]@.len() && after[y]@[k] == x;
                assert(before[y]@[k] == x);
            }
            assert(after[y]@[before[y]@.len() as int] == a);
        }
    }
    assert forall|y: int, k: int|
        0 <= y < after.len() && 0 <= k < after[y]@.len() implies #[trigger] after[y]@[k]
        < ids.len() by {
        if y != b || k < before[y]@.len() {
            assert(before[y]@[k] < ids.len());
        }
    }
}

/// For each system the number of systems it waits for, and the list of
/// systems that wait for it.
fn collect_waits(ids: &Vec<SystemId>, constraints: &Vec<(SystemId, SystemId)>) -> (waits: (
    Vec<usize>,
    Vec<Vec<usize>>,
))
    ensures
        waits.0@.len() == ids@.len(),
        lists_waits(ids@, constraints@, waits.1@),
        forall|i: int|
            0 <= i < ids@.len() ==> #[trigger] waits.0@[i] == open_waits(
                waits.1@,
                none_done(ids@.len()),
                i,
                ids@.len(),
            ),
{
    let n: usize = ids.len();
    let ghost done = none_done(n as nat);
    let mut in_degree: Vec<usize> = Vec::new();
    let mut dependents: Vec<Vec<usize>> = Vec::new();
    let mut k: usize = 0;
    while k < n
        invariant
            k <= n,
            in_degree@.len() == k,
            dependents@.len() == k,
            forall|i: int| 0 <= i < k ==> in_degree@[i] == 0,
            forall|i: int| 0 <= i < k ==> (#[trigger] dependents@[i])@.len() == 0,
        decreases n - k,
    {
        in_degree.push(0);
        dependents.push(Vec::new());
        k += 1;
    }
    assert forall|i: int| 0 <= i < n implies #[trigger] in_degree@[i] == open_waits(
        dependents@,
        done,
        i,
        n as nat,
    ) by {
        lemma_no_waits_at_first(dependents@, done, i, n as nat);
    }
    assert(lists_waits_before(ids@, constraints@, dependents@, 0, 0));

    let mut a: usize = 0;
    while a < n
        invariant
            a <= n,
            n == ids@.len(),
            done == none_done(n as nat),
            in_degree@.len() == n,
            lists_waits_before(ids@, constraints@, dependents@, a as int, 0),
            forall|i: int|
                0 <= i < n ==> #[trigger] in_degree@[i] == open_waits(
                    dependents@,
                    done,
                    i,
                    n as nat,
                ),
            forall|i: int| a <= i < n ==> #[trigger] in_degree@[i] == 0,
        decreases n - a,
    {
        let mut b: usize = 0;
        while b < n
            invariant
                a < n,
                b <= n,
                n == ids@.len(),
                done == none_done(n as nat),
                in_degree@.len() == n,
                lists_waits_before(ids@, constraints@, dependents@, a as int, b as int),
                forall|i: int|
                    0 <= i < n ==> #[trigger] in_degree@[i] == open_waits(
                        dependents@,
                        done,
                        i,
                        n as nat,
                    ),
                in_degree@[a as int] <= b,
                forall|i: int| a < i < n ==> #[trigger] in_degree@[i] == 0,
            decreases n - b,
        {
            if ids[a] != ids[b] && is_constrained(constraints, ids[a], ids[b]) {
                let ghost before = dependents@;
                let ghost degrees = in_degree@;
                dependents[b].push(a);
                in_degree[a] = in_degree[a] + 1;
                proof {
                    lemma_list_wait(ids@, constraints@, before, dependents@, a, b as int);
                    assert forall|i: int| 0 <= i < n implies #[trigger] in_degree@[i]
                        == open_waits(dependents@, done, i, n as nat) by {
                        lemma_open_wait(before, dependents@, done, a, b as int, i, n as nat);
                        assert(degrees[i] == open_waits(before, done, i, n as nat));
                    }
                }
            }
            b += 1;
        }
        a += 1;
    }
    (in_degree, dependents)
}

/// The place in `remaining` of the system to pick: of those that wait for
/// nothing, the one of highest priority, the first of these in `remaining`.
fn pick(in_degree: &Vec<usize>, priorities: &Vec<i32>, remaining: &Vec<usize>) -> (picked: Option<
    usize,
>)
    requires
        in_degree@.len() == priorities@.len(),
        forall|k: int| 0 <= k < remaining@.len() ==> #[trigger] remaining@[k] < in_degree@.len(),
    ensures
        match picked {
            Some(pos) => {
                &&& pos < remaining@.len()
                &&& in_degree@[remaining@[pos as int] as int] == 0
                &&& forall|k: int|
                    0 <= k < remaining@.len() && in_degree@[#[trigger] remaining@[k] as int] == 0
                        ==> {
                        let mine = priorities@[remaining@[pos as int] as int];
                        let other = priorities@[remaining@[k] as int];
                        mine > other || (mine == other && pos <= k)
                    }
            },
            None => forall|k: int|
                0 <= k < remaining@.len() ==> in_degree@[#[trigger] remaining@[k] as int] != 0,
        },
{
    let mut best: Option<(usize, i32)> = None;
    let mut pos: usize = 0;
    while pos < remaining.len()
        invariant
            pos <= remaining.len(),
            in_degree@.len() == priorities@.len(),
            forall|k: int|
                0 <= k < remaining@.len() ==> #[trigger] remaining@[k] < in_degree@.len(),
            match best {
                Some((at, priority)) => {
                    &&& at < pos
                    &&& in_degree@[remaining@[at as int] as int] == 0
                    &&& priority == priorities@[remaining@[at as int] as int]
                    &&& forall|k: int|
                        0 <= k < pos && in_degree@[#[trigger] remaining@[k] as int] == 0 ==> {
                            let other = priorities@[remaining@[k] as int];
                            priority > other || (priority == other && at <= k)
                        }
                },
                None => forall|k: int|
                    0 <= k < pos ==> in_degree@[#[trigger] remaining@[k] as int] != 0,
            },
        decreases remaining.len() - pos,
    {
        let i: usize = remaining[pos];
        if in_degree[i] == 0 {
            let priority: i32 = priorities[i];
            let better = match best {
                None => true,
                Some((_, best_priority)) => priority > best_priority,
            };
            if better {
                best = Some((pos, priority));
            }
        }
        pos += 1;
    }
    match best {
        Some((at, _)) => Some(at),
        None => None,
    }
}

/// Takes what `picked` lists off the counts: `picked` is done.
fn close_waits(in_degree: &mut Vec<usize>, listed: &Vec<usize>)
    requires
        forall|k: int| 0 <= k < listed@.len() ==> #[trigger] listed@[k] < old(in_degree)@.len(),
        forall|i: int|
            0 <= i < old(in_degree)@.len() ==> #[trigger] old(in_degree)@[i] >= occurrences(
                listed@,
                i,
            ),
    ensures
        final(in_degree)@.len() == old(in_degree)@.len(),
        forall|i: int|
            0 <= i < old(in_degree)@.len() ==> #[trigger] final(in_degree)@[i] == old(
                in_degree,
            )@[i] - occurrences(listed@, i),
{
    let mut k: usize = 0;
    while k < listed.len()
        invariant
            k <= listed.len(),
            in_degree@.len() == old(in_degree)@.len(),
            forall|j: int|
                0 <= j < listed@.len() ==> #[trigger] listed@[j] < old(in_degree)@.len(),
            forall|i: int|
                0 <= i < old(in_degree)@.len() ==> #[trigger] old(in_degree)@[i] >= occurrences(
                    listed@,
                    i,
                ),
            forall|i: int|
                0 <= i < in_degree@.len() ==> #[trigger] in_degree@[i] == old(in_degree)@[i]
                    - occurrences(listed@.take(k as int), i),
        decreases listed.len() - k,
    {
        let dependent: usize = listed[k];
        let ghost before = in_degree@;
        proof {
            lemma_occurrences_take(listed@, k as int, dependent as int);
            assert(before[dependent as int] == old(in_degree)@[dependent as int] - occurrences(
                listed@.take(k as int),
                dependent as int,
            ));
            assert(old(in_degree)@[dependent as int] >= occurrences(listed@, dependent as int));
        }
        in_degree[dependent] = in_degree[dependent] - 1;
        proof {
            assert forall|i: int| 0 <= i < in_degree@.len() implies #[trigger] in_degree@[i] == old(
                in_degree,
            )@[i] - occurrences(listed@.take(k + 1), i) by {
                lemma_occurrences_take(listed@, k as int, i);
                assert(before[i] == old(in_degree)@[i] - occurrences(listed@.take(k as int), i));
            }
        }
        k += 1;
    }
    assert(listed@.take(k as int) =~= listed@);
}

/// Orders the systems so that every constraint holds. Of the systems that
/// could run next, the one with the highest priority is taken, and of
/// several the one added first. Fails exactly if the constraints form a
/// cycle.
pub fn order_systems(
    ids: &Vec<SystemId>,
    priorities: &Vec<i32>,
    constraints: &Vec<(SystemId, SystemId)>,
) -> (ordered: Result<Vec<usize>, OrderingCycle>)
    requires
        ids@.len() == priorities@.len(),
    ensures
        ordered is Ok <==> acyclic(ids@, constraints@),
        ordered matches Ok(order) ==> is_order(ids@, priorities@, constraints@, order@),
{
    let n: usize = ids.len();
    let (mut in_degree, dependents) = collect_waits(ids, constraints);
    let mut remaining: Vec<usize> = Vec::new();
    let mut k: usize = 0;
    while k < n
        invariant
            k <= n,
            remaining@.len() == k,
            forall|i: int| 0 <= i < k ==> remaining@[i] == i,
        decreases n - k,
    {
        remaining.push(k);
        k += 1;
    }
    let mut order: Vec<usize> = Vec::new();
    let ghost mut done = none_done(n as nat);
    assert forall|i: usize| i < n implies remaining@.contains(i) by {
        assert(remaining@[i as int] == i);
    }

    while remaining.len() > 0
        invariant
            n == ids@.len(),
            n == priorities@.len(),
            n == in_degree@.len(),
            n == done.len(),
            n == order@.len() + remaining@.len(),
            lists_waits(ids@, constraints@, dependents@),
            forall|i: int|
                0 <= i < n ==> #[trigger] in_degree@[i] == open_waits(
                    dependents@,
                    done,
                    i,
                    n as nat,
                ),
            forall|i: int| 0 <= i < n ==> (#[trigger] done[i] <==> order@.contains(i as usize)),
            forall|i: usize| i < n ==> (#[trigger] remaining@.contains(i) <==> !done[i as int]),
            forall|i: int, j: int|
                0 <= i < j < remaining@.len() ==> #[trigger] remaining@[i] < #[trigger] remaining@[j],
            forall|i: int| 0 <= i < remaining@.len() ==> #[trigger] remaining@[i] < n,
            forall|i: int| 0 <= i < order@.len() ==> #[trigger] order@[i] < n,
            forall|j: int|
                0 <= j < order@.len() ==> is_next(
                    ids@,
                    priorities@,
                    constraints@,
                    order@.take(j),
                    #[trigger] order@[j] as int,
                ),
        decreases remaining.len(),
    {
        proof {
            // A system is ready exactly if it remains and its count is zero.
            assert forall|i: int| 0 <= i < n && !done[i] implies (in_degree@[i] == 0 <==> #[trigger] is_ready(
                ids@,
                constraints@,
                order@,
                i,
            )) by {
                lemma_no_open_waits(dependents@, done, i, n as nat);
                if in_degree@[i] == 0 {
                    assert forall|b: int| #[trigger] depends(ids@, constraints@, i, b) implies
                        order@.contains(b as usize) by {
                        assert(dependents@[b]@.contains(i as usize));
                        assert(done[b]);
                    }
                }
                if is_ready(ids@, constraints@, order@, i) {
                    assert forall|b: int| 0 <= b < n && !done[b] implies
                        !#[trigger] dependents@[b]@.contains(i as usize) by {
                        if dependents@[b]@.contains(i as usize) {
                            assert(depends(ids@, constraints@, i, b));
                        }
                    }
                }
            }
        }
        match pick(&in_degree, priorities, &remaining) {
            None => {
                proof {
                    assert forall|k: int| 0 <= k < remaining@.len() implies waits_within(
                        ids@,
                        constraints@,
                        remaining@,
                        #[trigger] remaining@[k] as int,
                    ) by {
                        let i = remaining@[k] as int;
                        assert(remaining@.contains(i as usize));
                        lemma_no_open_waits(dependents@, done, i, n as nat);
                        let b = choose|b: int|
                            0 <= b < n && !done[b] && #[trigger] dependents@[b]@.contains(
                                i as usize,
                            );
                        assert(depends(ids@, constraints@, i, b));
                        assert(remaining@.contains(b as usize));
                        assert(depends(ids@, constraints@, i, (b as usize) as int));
                    }
                    lemma_stuck(ids@, constraints@, remaining@);
                }
                return Err(OrderingCycle);
            },
            Some(pos) => {
                let ghost before = remaining@;
                let ghost placed = order@;
                let ghost undone = done;
                let picked: usize = remaining.remove(pos);
                order.push(picked);
                proof {
                    assert(before.contains(picked));
                    assert(is_next(ids@, priorities@, constraints@, placed, picked as int)) by {
                        assert(in_degree@[picked as int] == 0);
                        assert forall|j: int| #[trigger]
                            is_ready(ids@, constraints@, placed, j) && j != picked implies preferred(
                            priorities@,
                            picked as int,
                            j,
                        ) by {
                            assert(!done[j]);
                            assert(before.contains(j as usize));
                            let q = choose|q: int| 0 <= q < before.len() && before[q] == j as usize;
                            assert(in_degree@[before[q] as int] == 0);
                        }
                    }
                    assert forall|j: int| 0 <= j < order@.len() implies is_next(
                        ids@,
                        priorities@,
                        constraints@,
                        order@.take(j),
                        #[trigger] order@[j] as int,
                    ) by {
                        assert(order@.take(j) =~= placed.take(j));
                        if j < placed.len() {
                            assert(order@[j] == placed[j]);
                        } else {
                            assert(placed.take(j) =~= placed);
                        }
                    }
                    done = undone.update(picked as int, true);
                    assert forall|i: int| 0 <= i < n implies (#[trigger] done[i] <==> order@.contains(
                        i as usize,
                    )) by {
                        if i == picked {
                            assert(order@[placed.len() as int] == picked);
                        } else if placed.contains(i as usize) {
                            let q = choose|q: int| 0 <= q < placed.len() && placed[q] == i as usize;
                            assert(order@[q] == i as usize);
                        } else if order@.contains(i as usize) {
                            let q = choose|q: int| 0 <= q < order@.len() && order@[q] == i as usize;
                            assert(placed[q] == i as usize);
                        }
                    }
                    assert forall|i: usize| i < n implies (#[trigger] remaining@.contains(i)
                        <==> !done[i as int]) by {
                        if remaining@.contains(i) {
                            let q = choose|q: int| 0 <= q < remaining@.len() && remaining@[q] == i;
                            if q < pos {
                                assert(before[q] == i);
                                assert(before[q] < before[pos as int]);
                            } else {
                                assert(before[q + 1] == i);
                                assert(before[pos as int] < before[q + 1]);
                            }
                            assert(before.contains(i));
                        } else if !done[i as int] {
                            assert(before.contains(i));
                            let q = choose|q: int| 0 <= q < before.len() && before[q] == i;
                            if q < pos {
                                assert(remaining@[q] == i);
                            } else {
                                assert(q != pos);
                                assert(remaining@[q - 1] == i);
                            }
                        }
                    }
                    assert forall|i: int| 0 <= i < n implies #[trigger] in_degree@[i]
                        >= occurrences(dependents@[picked as int]@, i) by {
                        lemma_close_waits(dependents@, undone, picked as int, i, n as nat);
                    }
                }
                let ghost counts = in_degree@;
                close_waits(&mut in_degree, &dependents[picked]);
                proof {
                    assert forall|i: int| 0 <= i < n implies #[trigger] in_degree@[i] == open_waits(
                        dependents@,
                        done,
                        i,
                        n as nat,
                    ) by {
                        lemma_close_waits(dependents@, undone, picked as int, i, n as nat);
                        assert(counts[i] == open_waits(dependents@, undone, i, n as nat));
                    }
                }
            },
        }
    }
    proof {
        assert forall|i: usize| i < n implies #[trigger] order@.contains(i) by {
            assert(!remaining@.contains(i));
            assert(done[i as int]);
        }
        lemma_order_ranks(ids@, priorities@, constraints@, order@);
    }
    Ok(order)
}

/// Where system `i` stands in `order`.
pub open spec fn place(order: Seq<usize>, i: int) -> int {
    choose|k: int| 0 <= k < order.len() && order[k] == i as usize
}

/// An order proves that there is no cycle: the places in it rank the systems.
proof fn lemma_order_ranks(
    ids: Seq<SystemId>,
    priorities: Seq<i32>,
    constraints: Seq<(SystemId, SystemId)>,
    order: Seq<usize>,
)
    requires
        ids.len() <= usize::MAX,
        is_order(ids, priorities, constraints, order),
    ensures
        acyclic(ids, constraints),
{
    let rank = |i: int| place(order, i);
    assert forall|a: int, b: int| #[trigger] depends(ids, constraints, a, b) implies rank(b) < rank(
        a,
    ) by {
        let k = place(order, a);
        assert(order.contains(a as usize));
        assert(order[k] == a as usize);
        assert(is_next(ids, priorities, constraints, order.take(k), order[k] as int));
        assert(order.take(k).contains(b as usize));
        let j = choose|j: int| 0 <= j < k && order.take(k)[j] == b as usize;
        assert(order[j] == b as usize);
        let p = place(order, b);
        assert(order[p] == b as usize);
        if p > j {
            assert(is_next(ids, priorities, constraints, order.take(p), order[p] as int));
            assert(order.take(p)[j] == b as usize);
        }
        if j > p {
            assert(is_next(ids, priorities, constraints, order.take(j), order[j] as int));
            assert(order.take(j)[p] == b as usize);
        }
    }
    assert(is_ranking(ids, constraints, rank));
}

// ---------------------------------------------------------------------------
// Laws
// ---------------------------------------------------------------------------

/// Every system runs exactly once.
pub proof fn law_every_system_runs_once(
    ids: Seq<SystemId>,
    priorities: Seq<i32>,
    constraints: Seq<(SystemId, SystemId)>,
    order: Seq<usize>,
)
    requires
        is_order(ids, priorities, constraints, order),
    ensures
        order.no_duplicates(),
        forall|i: usize| order.contains(i) <==> i < ids.len(),
{
    assert forall|j: int, k: int| 0 <= j < order.len() && 0 <= k < order.len() && j != k implies
        order[j] != order[k] by {
        let (low, high) = if j < k {
            (j, k)
        } else {
            (k, j)
        };
        assert(is_next(ids, priorities, constraints, order.take(high), order[high] as int));
        assert(order.take(high)[low] == order[low]);
    }
    assert forall|i: usize| order.contains(i) implies i < ids.len() by {
        let k = choose|k: int| 0 <= k < order.len() && order[k] == i;
        assert(is_next(ids, priorities, constraints, order.take(k), order[k] as int));
    }
}

/// Every constraint holds: a system runs after everything it waits for,
/// whatever the priorities and the order of adding.
pub proof fn law_every_constraint_holds(
    ids: Seq<SystemId>,
    priorities: Seq<i32>,
    constraints: Seq<(SystemId, SystemId)>,
    order: Seq<usize>,
    dependent: int,
    dependency: int,
)
    requires
        is_order(ids, priorities, constraints, order),
        0 <= dependent < order.len(),
        0 <= dependency < order.len(),
        depends(ids, constraints, order[dependent] as int, order[dependency] as int),
    ensures
        dependency < dependent,
{
    law_every_system_runs_once(ids, priorities, constraints, order);
    assert(is_next(ids, priorities, constraints, order.take(dependent), order[dependent] as int));
    assert(order.take(dependent).contains(order[dependency]));
    let j = choose|j: int| 0 <= j < dependent && order.take(dependent)[j] == order[dependency];
    assert(order[j] == order[dependency]);
}

/// A system yields its place to one of lower priority, or of equal priority
/// and added later, only because of a constraint: something that it waits
/// for runs no earlier than that other system.
pub proof fn law_priority_yields_only_to_constraints(
    ids: Seq<SystemId>,
    priorities: Seq<i32>,
    constraints: Seq<(SystemId, SystemId)>,
    order: Seq<usize>,
    earlier: int,
    later: int,
)
    requires
        ids.len() <= usize::MAX,
        is_order(ids, priorities, constraints, order),
        0 <= earlier < later < order.len(),
        preferred(priorities, order[later] as int, order[earlier] as int),
    ensures
        exists|k: int|
            earlier <= k < later && depends(
                ids,
                constraints,
                order[later] as int,
                #[trigger] order[k] as int,
            ),
{
    law_every_system_runs_once(ids, priorities, constraints, order);
    let placed = order.take(earlier);
    let late = order[later] as int;
    assert(order.contains(order[later]));
    assert(is_next(ids, priorities, constraints, placed, order[earlier] as int));
    assert(!is_ready(ids, constraints, placed, late));
    assert(!placed.contains(order[later])) by {
        if placed.contains(order[later]) {
            let q = choose|q: int| 0 <= q < placed.len() && placed[q] == order[later];
            assert(order[q] == order[later]);
        }
    }
    let b = choose|b: int| #[trigger]
        depends(ids, constraints, late, b) && !placed.contains(b as usize);
    assert(is_next(ids, priorities, constraints, order.take(later), late));
    assert(order.take(later).contains(b as usize));
    let k = choose|k: int| 0 <= k < later && order.take(later)[k] == b as usize;
    assert(order[k] == b as usize);
    if k < earlier {
        assert(placed[k] == b as usize);
    }
    assert(0 <= b < ids.len());
    assert(order.contains(order[k]));
    assert(order[k] as int == b);
}

/// Without constraints the systems run by priority, the highest first, and
/// at equal priority in the order of adding.
pub proof fn law_unconstrained_systems_run_by_priority(
    ids: Seq<SystemId>,
    priorities: Seq<i32>,
    constraints: Seq<(SystemId, SystemId)>,
    order: Seq<usize>,
    earlier: int,
    later: int,
)
    requires
        ids.len() <= usize::MAX,
        is_order(ids, priorities, constraints, order),
        forall|a: int, b: int| !#[trigger] depends(ids, constraints, a, b),
        0 <= earlier < later < order.len(),
    ensures
        preferred(priorities, order[earlier] as int, order[later] as int),
{
    law_every_system_runs_once(ids, priorities, constraints, order);
    if !preferred(priorities, order[earlier] as int, order[later] as int) {
        assert(order[earlier] != order[later]);
        law_priority_yields_only_to_constraints(
            ids,
            priorities,
            constraints,
            order,
            earlier,
            later,
        );
    }
}

/// Without constraints and with equal priorities the systems run in the order
/// of adding.
pub proof fn law_systems_run_in_the_order_of_adding(
    ids: Seq<SystemId>,
    priorities: Seq<i32>,
    constraints: Seq<(SystemId, SystemId)>,
    order: Seq<usize>,
    k: int,
)
    requires
        ids.len() <= usize::MAX,
        is_order(ids, priorities, constraints, order),
        forall|a: int, b: int| !#[trigger] depends(ids, constraints, a, b),
        forall|i: int, j: int|
            0 <= i < ids.len() && 0 <= j < ids.len() ==> #[trigger] priorities[i]
                == #[trigger] priorities[j],
        0 <= k < order.len(),
    ensures
        order[k] == k,
    decreases order.len() - k,
{
    law_every_system_runs_once(ids, priorities, constraints, order);
    lemma_at_least(ids, priorities, constraints, order, k);
    lemma_at_most(ids, priorities, constraints, order, k);
}

/// In an ascending order the system at place `k` is at least number `k`.
proof fn lemma_at_least(
    ids: Seq<SystemId>,
    priorities: Seq<i32>,
    constraints: Seq<(SystemId, SystemId)>,
    order: Seq<usize>,
    k: int,
)
    requires
        ids.len() <= usize::MAX,
        is_order(ids, priorities, constraints, order),
        forall|a: int, b: int| !#[trigger] depends(ids, constraints, a, b),
        forall|i: int, j: int|
            0 <= i < ids.len() && 0 <= j < ids.len() ==> #[trigger] priorities[i]
                == #[trigger] priorities[j],
        0 <= k < order.len(),
    ensures
        order[k] >= k,
    decreases k,
{
    if k > 0 {
        lemma_at_least(ids, priorities, constraints, order, k - 1);
        lemma_ascending(ids, priorities, constraints, order, k - 1, k);
    }
}

/// In an ascending order the system at place `k` is at most number `k`.
proof fn lemma_at_most(
    ids: Seq<SystemId>,
    priorities: Seq<i32>,
    constraints: Seq<(SystemId, SystemId)>,
    order: Seq<usize>,
    k: int,
)
    requires
        ids.len() <= usize::MAX,
        is_order(ids, priorities, constraints, order),
        forall|a: int, b: int| !#[trigger] depends(ids, constraints, a, b),
        forall|i: int, j: int|
            0 <= i < ids.len() && 0 <= j < ids.len() ==> #[trigger] priorities[i]
                == #[trigger] priorities[j],
        0 <= k < order.len(),
    ensures
        order[k] <= k,
    decreases order.len() - k,
{
    law_every_system_runs_once(ids, priorities, constraints, order);
    if k + 1 < order.len() {
        lemma_at_most(ids, priorities, constraints, order, k + 1);
        lemma_ascending(ids, priorities, constraints, order, k, k + 1);
    } else {
        assert(order.contains(order[k]));
    }
}

proof fn lemma_ascending(
    ids: Seq<SystemId>,
    priorities: Seq<i32>,
    constraints: Seq<(SystemId, SystemId)>,
    order: Seq<usize>,
    j: int,
    k: int,
)
    requires
        ids.len() <= usize::MAX,
        is_order(ids, priorities, constraints, order),
        forall|a: int, b: int| !#[trigger] depends(ids, constraints, a, b),
        forall|i: int, j: int|
            0 <= i < ids.len() && 0 <= j < ids.len() ==> #[trigger] priorities[i]
                == #[trigger] priorities[j],
        0 <= j < k < order.len(),
    ensures
        order[j] < order[k],
{
    law_unconstrained_systems_run_by_priority(ids, priorities, constraints, order, j, k);
    law_every_system_runs_once(ids, priorities, constraints, order);
    assert(order.contains(order[j]) && order.contains(order[k]));
    assert(priorities[order[j] as int] == priorities[order[k] as int]);
}

/// There is only one order: what is added, with which priorities and
/// constraints, decides it.
pub proof fn law_the_order_is_unique(
    ids: Seq<SystemId>,
    priorities: Seq<i32>,
    constraints: Seq<(SystemId, SystemId)>,
    one: Seq<usize>,
    other: Seq<usize>,
)
    requires
        is_order(ids, priorities, constraints, one),
        is_order(ids, priorities, constraints, other),
    ensures
        one == other,
{
    lemma_same_prefix(ids, priorities, constraints, one, other, one.len() as int);
    assert(one.take(one.len() as int) =~= one);
    assert(other.take(other.len() as int) =~= other);
}

proof fn lemma_same_prefix(
    ids: Seq<SystemId>,
    priorities: Seq<i32>,
    constraints: Seq<(SystemId, SystemId)>,
    one: Seq<usize>,
    other: Seq<usize>,
    k: int,
)
    requires
        is_order(ids, priorities, constraints, one),
        is_order(ids, priorities, constraints, other),
        0 <= k <= one.len(),
    ensures
        one.take(k) == other.take(k),
    decreases k,
{
    if k > 0 {
        lemma_same_prefix(ids, priorities, constraints, one, other, k - 1);
        let placed = one.take(k - 1);
        assert(is_next(ids, priorities, constraints, placed, one[k - 1] as int));
        assert(is_next(ids, priorities, constraints, other.take(k - 1), other[k - 1] as int));
        assert(one[k - 1] == other[k - 1]);
        assert(one.take(k) =~= placed.push(one[k - 1]));
        assert(other.take(k) =~= placed.push(other[k - 1]));
    } else {
        assert(one.take(k) =~= other.take(k));
    }
}

/// The system at place `k` of a walk waits for the one after it.
pub open spec fn is_step(
    ids: Seq<SystemId>,
    constraints: Seq<(SystemId, SystemId)>,
    walk: Seq<int>,
    k: int,
) -> bool {
    depends(ids, constraints, walk[k], walk[k + 1])
}

/// A walk along dependencies: each system waits for the next one.
pub open spec fn is_walk(
    ids: Seq<SystemId>,
    constraints: Seq<(SystemId, SystemId)>,
    walk: Seq<int>,
) -> bool {
    forall|k: int| 0 <= k < walk.len() - 1 ==> #[trigger] is_step(ids, constraints, walk, k)
}

/// A walk along dependencies that comes back to where it began.
pub open spec fn is_cycle(
    ids: Seq<SystemId>,
    constraints: Seq<(SystemId, SystemId)>,
    walk: Seq<int>,
) -> bool {
    &&& walk.len() >= 2
    &&& walk.first() == walk.last()
    &&& is_walk(ids, constraints, walk)
}

/// The systems can be ordered exactly if no walk along the constraints comes
/// back to where it began.
pub proof fn law_orderable_exactly_without_cycles(
    ids: Seq<SystemId>,
    constraints: Seq<(SystemId, SystemId)>,
)
    ensures
        acyclic(ids, constraints) <==> !exists|walk: Seq<int>| #[trigger]
            is_cycle(ids, constraints, walk),
{
    if acyclic(ids, constraints) {
        let rank = choose|rank: spec_fn(int) -> int| #[trigger] is_ranking(ids, constraints, rank);
        assert forall|walk: Seq<int>| !#[trigger] is_cycle(ids, constraints, walk) by {
            if is_cycle(ids, constraints, walk) {
                lemma_walk_descends(ids, constraints, rank, walk, walk.len() - 1);
            }
        }
    }
    if !exists|walk: Seq<int>| #[trigger] is_cycle(ids, constraints, walk) {
        let all = Set::new(|i: int| 0 <= i < ids.len());
        assert(all =~= vstd::set_lib::set_int_range(0, ids.len() as int));
        vstd::set_lib::lemma_int_range(0, ids.len() as int);
        let rank = lemma_rank_within(ids, constraints, all);
        assert forall|a: int, b: int| #[trigger] depends(ids, constraints, a, b) implies rank(b)
            < rank(a) by {
            assert(all.contains(a) && all.contains(b));
            assert(ranked(ids, constraints, all, rank, a, b));
        }
        assert(is_ranking(ids, constraints, rank));
    }
}

proof fn lemma_walk_descends(
    ids: Seq<SystemId>,
    constraints: Seq<(SystemId, SystemId)>,
    rank: spec_fn(int) -> int,
    walk: Seq<int>,
    k: int,
)
    requires
        is_ranking(ids, constraints, rank),
        is_walk(ids, constraints, walk),
        0 < k < walk.len(),
    ensures
        rank(walk[k]) < rank(walk[0]),
    decreases k,
{
    assert(is_step(ids, constraints, walk, k - 1));
    if k > 1 {
        lemma_walk_descends(ids, constraints, rank, walk, k - 1);
    }
}

/// If both `a` and `b` are among `rest` and `a` waits for `b`, it ranks above.
spec fn ranked(
    ids: Seq<SystemId>,
    constraints: Seq<(SystemId, SystemId)>,
    rest: Set<int>,
    rank: spec_fn(int) -> int,
    a: int,
    b: int,
) -> bool {
    rest.contains(a) && rest.contains(b) && depends(ids, constraints, a, b) ==> 0 <= rank(b)
        < rank(a)
}

/// System `a` waits for nothing among `rest`.
#[verifier::opaque]
spec fn waits_for_none_of(
    ids: Seq<SystemId>,
    constraints: Seq<(SystemId, SystemId)>,
    rest: Set<int>,
    a: int,
) -> bool {
    forall|b: int| #[trigger] rest.contains(b) ==> !depends(ids, constraints, a, b)
}

proof fn lemma_waits_for_some(
    ids: Seq<SystemId>,
    constraints: Seq<(SystemId, SystemId)>,
    rest: Set<int>,
    a: int,
) -> (b: int)
    requires
        !waits_for_none_of(ids, constraints, rest, a),
    ensures
        rest.contains(b),
        depends(ids, constraints, a, b),
{
    reveal(waits_for_none_of);
    choose|b: int| #[trigger] rest.contains(b) && depends(ids, constraints, a, b)
}

/// Without cycles, any finite set of systems can be ranked.
proof fn lemma_rank_within(
    ids: Seq<SystemId>,
    constraints: Seq<(SystemId, SystemId)>,
    rest: Set<int>,
) -> (rank: spec_fn(int) -> int)
    requires
        rest.finite(),
        !exists|walk: Seq<int>| #[trigger] is_cycle(ids, constraints, walk),
    ensures
        forall|a: int| 0 <= #[trigger] rank(a),
        forall|a: int, b: int| #[trigger] ranked(ids, constraints, rest, rank, a, b),
    decreases rest.len(),
{
    if rest.is_empty() {
        |i: int| 0int
    } else {
        if !exists|i: int| #[trigger]
            rest.contains(i) && waits_for_none_of(ids, constraints, rest, i) {
            lemma_stuck_cycle(ids, constraints, rest);
        }
        let i = choose|i: int| #[trigger]
            rest.contains(i) && waits_for_none_of(ids, constraints, rest, i);
        let inner = lemma_rank_within(ids, constraints, rest.remove(i));
        let rank = |x: int|
            if x == i {
                0int
            } else {
                inner(x) + 1
            };
        assert forall|a: int, b: int| #[trigger] ranked(ids, constraints, rest, rank, a, b) by {
            reveal(waits_for_none_of);
            assert(ranked(ids, constraints, rest.remove(i), inner, a, b));
            assert(0 <= inner(a) && 0 <= inner(b));
        }
        assert forall|a: int| 0 <= #[trigger] rank(a) by {
            assert(0 <= inner(a));
        }
        rank
    }
}

/// A walk longer than the set it stays in visits some place twice.
proof fn lemma_repeats(walk: Seq<int>, rest: Set<int>) -> (twice: (int, int))
    requires
        rest.finite(),
        walk.len() > rest.len(),
        forall|k: int| 0 <= k < walk.len() ==> rest.contains(#[trigger] walk[k]),
    ensures
        0 <= twice.0 < twice.1 < walk.len(),
        walk[twice.0] == walk[twice.1],
{
    if walk.no_duplicates() {
        walk.unique_seq_to_set();
        assert(walk.to_set().subset_of(rest));
        vstd::set_lib::lemma_len_subset(walk.to_set(), rest);
    }
    let (i, j) = choose|i: int, j: int|
        0 <= i < walk.len() && 0 <= j < walk.len() && i != j && walk[i] == walk[j];
    if i < j {
        (i, j)
    } else {
        (j, i)
    }
}

/// If everyone in a finite, nonempty set waits for someone in it, there is a
/// cycle.
proof fn lemma_stuck_cycle(
    ids: Seq<SystemId>,
    constraints: Seq<(SystemId, SystemId)>,
    rest: Set<int>,
)
    requires
        rest.finite(),
        !rest.is_empty(),
        forall|i: int| #[trigger]
            rest.contains(i) ==> !waits_for_none_of(ids, constraints, rest, i),
    ensures
        exists|walk: Seq<int>| #[trigger] is_cycle(ids, constraints, walk),
{
    let walk = lemma_long_walk(ids, constraints, rest, rest.len() + 1);
    let (low, high) = lemma_repeats(walk, rest);
    let cycle = walk.subrange(low, high + 1);
    assert forall|k: int| 0 <= k < cycle.len() - 1 implies #[trigger] is_step(
        ids,
        constraints,
        cycle,
        k,
    ) by {
        assert(is_step(ids, constraints, walk, low + k));
    }
    assert(is_cycle(ids, constraints, cycle));
}

proof fn lemma_long_walk(
    ids: Seq<SystemId>,
    constraints: Seq<(SystemId, SystemId)>,
    rest: Set<int>,
    n: nat,
) -> (walk: Seq<int>)
    requires
        n > 0,
        !rest.is_empty(),
        forall|i: int| #[trigger]
            rest.contains(i) ==> !waits_for_none_of(ids, constraints, rest, i),
    ensures
        walk.len() == n,
        is_walk(ids, constraints, walk),
        forall|k: int| 0 <= k < n ==> rest.contains(#[trigger] walk[k]),
    decreases n,
{
    if n == 1 {
        let i = choose|i: int| rest.contains(i);
        seq![i]
    } else {
        let shorter = lemma_long_walk(ids, constraints, rest, (n - 1) as nat);
        let end = shorter.last();
        assert(rest.contains(end));
        assert(!waits_for_none_of(ids, constraints, rest, end));
        let b = lemma_waits_for_some(ids, constraints, rest, end);
        let walk = shorter.push(b);
        assert forall|k: int| 0 <= k < walk.len() - 1 implies #[trigger] is_step(
            ids,
            constraints,
            walk,
            k,
        ) by {
            if k < shorter.len() - 1 {
                assert(is_step(ids, constraints, shorter, k));
            }
        }
        walk
    }
}

/// A constraint between two systems of different names holds in the order:
/// the dependent has its place after the dependency.
pub proof fn law_a_dependent_runs_after_its_dependency(
    ids: Seq<SystemId>,
    priorities: Seq<i32>,
    constraints: Seq<(SystemId, SystemId)>,
    order: Seq<usize>,
    c: int,
    dependent: int,
    dependency: int,
)
    requires
        is_order(ids, priorities, constraints, order),
        0 <= c < constraints.len(),
        constraints[c].0 != constraints[c].1,
        0 <= dependent < order.len(),
        0 <= dependency < order.len(),
        ids[order[dependent] as int] == constraints[c].0,
        ids[order[dependency] as int] == constraints[c].1,
    ensures
        dependency < dependent,
{
    law_every_system_runs_once(ids, priorities, constraints, order);
    assert(order.contains(order[dependent]) && order.contains(order[dependency]));
    assert(constraints.contains(constraints[c]));
    law_every_constraint_holds(ids, priorities, constraints, order, dependent, dependency);
}

/// A system that no constraint makes wait runs before every system of lower
/// priority, and before every one of equal priority that was added later.
pub proof fn law_a_free_system_runs_by_its_priority(
    ids: Seq<SystemId>,
    priorities: Seq<i32>,
    constraints: Seq<(SystemId, SystemId)>,
    order: Seq<usize>,
    free: int,
    other: int,
)
    requires
        ids.len() <= usize::MAX,
        is_order(ids, priorities, constraints, order),
        0 <= free < order.len(),
        0 <= other < order.len(),
        forall|c: int|
            0 <= c < constraints.len() ==> (#[trigger] constraints[c]).0
                != ids[order[free] as int],
        priorities[order[free] as int] > priorities[order[other] as int] || (
        priorities[order[free] as int] == priorities[order[other] as int] && order[free]
            < order[other]),
    ensures
        free < other,
{
    law_every_system_runs_once(ids, priorities, constraints, order);
    if other < free {
        law_priority_yields_only_to_constraints(ids, priorities, constraints, order, other, free);
        let k = choose|k: int|
            other <= k < free && depends(
                ids,
                constraints,
                order[free] as int,
                #[trigger] order[k] as int,
            );
        let pair = (ids[order[free] as int], ids[order[k] as int]);
        let c = choose|c: int| 0 <= c < constraints.len() && constraints[c] == pair;
        assert(constraints[c].0 == ids[order[free] as int]);
    }
}

/// Only constraints between two different systems of the schedule count: two
/// lists that agree on these give the same order, and the same answer on
/// whether there is one.
pub proof fn law_other_constraints_are_ignored(
    ids: Seq<SystemId>,
    priorities: Seq<i32>,
    one: Seq<(SystemId, SystemId)>,
    other: Seq<(SystemId, SystemId)>,
    order: Seq<usize>,
)
    requires
        forall|a: SystemId, b: SystemId|
            ids.contains(a) && ids.contains(b) && a != b ==> (#[trigger] one.contains((a, b))
                <==> other.contains((a, b))),
    ensures
        is_order(ids, priorities, one, order) == is_order(ids, priorities, other, order),
        acyclic(ids, one) == acyclic(ids, other),
{
    assert forall|a: int, b: int| #[trigger] depends(ids, one, a, b) == depends(
        ids,
        other,
        a,
        b,
    ) by {
        if 0 <= a < ids.len() && 0 <= b < ids.len() {
            assert(ids.contains(ids[a]) && ids.contains(ids[b]));
            assert(ids[a] != ids[b] ==> (one.contains((ids[a], ids[b])) <==> other.contains(
                (ids[a], ids[b]),
            )));
        }
    }
    lemma_same_waits(ids, priorities, one, other, order);
    lemma_same_waits(ids, priorities, other, one, order);
}

proof fn lemma_same_waits(
    ids: Seq<SystemId>,
    priorities: Seq<i32>,
    one: Seq<(SystemId, SystemId)>,
    other: Seq<(SystemId, SystemId)>,
    order: Seq<usize>,
)
    requires
        forall|a: int, b: int|
            depends(ids, one, a, b) == #[trigger] depends(ids, other, a, b),
    ensures
        is_order(ids, priorities, one, order) ==> is_order(ids, priorities, other, order),
        acyclic(ids, one) ==> acyclic(ids, other),
{
    assert forall|placed: Seq<usize>, i: int| #[trigger]
        is_ready(ids, other, placed, i) == is_ready(ids, one, placed, i) by {
        if is_ready(ids, one, placed, i) {
            assert forall|b: int| #[trigger] depends(ids, other, i, b) implies placed.contains(
                b as usize,
            ) by {
                assert(depends(ids, one, i, b));
            }
        }
        if is_ready(ids, other, placed, i) {
            assert forall|b: int| #[trigger] depends(ids, one, i, b) implies placed.contains(
                b as usize,
            ) by {
                assert(depends(ids, other, i, b));
            }
        }
    }
    if is_order(ids, priorities, one, order) {
        assert forall|k: int| 0 <= k < order.len() implies is_next(
            ids,
            priorities,
            other,
            order.take(k),
            #[trigger] order[k] as int,
        ) by {
            assert(is_next(ids, priorities, one, order.take(k), order[k] as int));
            assert forall|j: int| #[trigger]
                is_ready(ids, other, order.take(k), j) && j != order[k] implies preferred(
                priorities,
                order[k] as int,
                j,
            ) by {
                assert(is_ready(ids, one, order.take(k), j));
            }
        }
    }
    if acyclic(ids, one) {
        let rank = choose|rank: spec_fn(int) -> int| #[trigger] is_ranking(ids, one, rank);
        assert forall|a: int, b: int| #[trigger] depends(ids, other, a, b) implies rank(b) < rank(
            a,
        ) by {
            assert(depends(ids, one, a, b));
        }
        assert(is_ranking(ids, other, rank));
    }
}

/// Systems that wait for each other in a ring admit no order: `ring` lists
/// them so that each waits for the next, and ends where it began.
pub proof fn law_a_ring_admits_no_order(
    ids: Seq<SystemId>,
    constraints: Seq<(SystemId, SystemId)>,
    ring: Seq<int>,
)
    requires
        ring.len() >= 2,
        ring.first() == ring.last(),
        forall|k: int| 0 <= k < ring.len() ==> 0 <= #[trigger] ring[k] < ids.len(),
        forall|k: int, l: int|
            0 <= k && l == k + 1 && l < ring.len() ==> ids[#[trigger] ring[k]]
                != ids[#[trigger] ring[l]] && constraints.contains((ids[ring[k]], ids[ring[l]])),
    ensures
        !acyclic(ids, constraints),
{
    assert forall|k: int| 0 <= k < ring.len() - 1 implies #[trigger] is_step(
        ids,
        constraints,
        ring,
        k,
    ) by {
        assert(ids[ring[k]] != ids[ring[k + 1]]);
    }
    assert(is_cycle(ids, constraints, ring));
    law_orderable_exactly_without_cycles(ids, constraints);
}

/// Names that can be ranked so that each constraint goes up from the
/// dependency to the dependent admit an order.
pub proof fn law_ranked_names_admit_an_order(
    ids: Seq<SystemId>,
    constraints: Seq<(SystemId, SystemId)>,
    rank: spec_fn(SystemId) -> int,
)
    requires
        forall|c: int|
            0 <= c < constraints.len() && (#[trigger] constraints[c]).0 != constraints[c].1
                ==> rank(constraints[c].1) < rank(constraints[c].0),
    ensures
        acyclic(ids, constraints),
{
    let by_place = |i: int| rank(ids[i]);
    assert forall|a: int, b: int| #[trigger] depends(ids, constraints, a, b) implies by_place(b)
        < by_place(a) by {
        let c = choose|c: int|
            0 <= c < constraints.len() && constraints[c] == (ids[a], ids[b]);
        assert(constraints[c].0 != constraints[c].1);
    }
    assert(is_ranking(ids, constraints, by_place));
}

/// What is computed is the order: every system once, each after everything
/// that it waits for, by priority and by the order of adding where nothing
/// makes a system wait. There is none exactly if the constraints form a cycle.
pub proof fn law_computing_the_order(
    ids: &Vec<SystemId>,
    priorities: &Vec<i32>,
    constraints: &Vec<(SystemId, SystemId)>,
    ordered: Result<Vec<usize>, OrderingCycle>,
    c: int,
    p: int,
    q: int,
)
    requires
        ids@.len() == priorities@.len(),
        call_ensures(order_systems, (ids, priorities, constraints), ordered),
    ensures
        ordered is Err <==> exists|walk: Seq<int>| #[trigger]
            is_cycle(ids@, constraints@, walk),
        ordered matches Ok(order) ==> {
            &&& order@.len() == ids@.len()
            &&& order@.no_duplicates()
            &&& forall|i: usize| order@.contains(i) <==> i < ids@.len()
            &&& 0 <= c < constraints@.len() && constraints@[c].0 != constraints@[c].1 && 0 <= p
                < order@.len() && 0 <= q < order@.len() && ids@[order@[p] as int]
                == constraints@[c].0 && ids@[order@[q] as int] == constraints@[c].1 ==> q < p
            &&& 0 <= p < order@.len() && 0 <= q < order@.len() && (forall|k: int|
                0 <= k < constraints@.len() ==> (#[trigger] constraints@[k]).0
                    != ids@[order@[p] as int]) && (priorities@[order@[p] as int]
                > priorities@[order@[q] as int] || (priorities@[order@[p] as int]
                == priorities@[order@[q] as int] && order@[p] < order@[q])) ==> p < q
        },
{
    law_orderable_exactly_without_cycles(ids@, constraints@);
    assert(ids.len() == ids@.len());
    if ordered is Ok {
        let order = ordered->Ok_0@;
        law_every_system_runs_once(ids@, priorities@, constraints@, order);
        if 0 <= c < constraints@.len() && constraints@[c].0 != constraints@[c].1 && 0 <= p
            < order.len() && 0 <= q < order.len() && ids@[order[p] as int] == constraints@[c].0
            && ids@[order[q] as int] == constraints@[c].1 {
            law_a_dependent_runs_after_its_dependency(
                ids@,
                priorities@,
                constraints@,
                order,
                c,
                p,
                q,
            );
        }
        if 0 <= p < order.len() && 0 <= q < order.len() && (forall|k: int|
            0 <= k < constraints@.len() ==> (#[trigger] constraints@[k]).0 != ids@[order[p] as int])
            && (priorities@[order[p] as int] > priorities@[order[q] as int] || (
        priorities@[order[p] as int] == priorities@[order[q] as int] && order[p] < order[q])) {
            law_a_free_system_runs_by_its_priority(
                ids@,
                priorities@,
                constraints@,
                order,
                p,
                q,
            );
        }
    }
}

} // verus!
