//! The decisions of the runner: which migrations are pending, whether they
//! may run, which one is reverted next, and what is applied.

use vstd::prelude::*;
use crate::error::{Direction, ErrorView, Failure, FailureView, RunnerError};
use crate::ledger::{is_latest, latest_index, record_names, Ledger, RecordView};
use crate::migration::{migration_names, migration_views, Migration};
use crate::name::{first_index, lemma_first_index, name_less, name_lt};

verus! {

/// The positions held in a list of positions.
pub open spec fn positions(v: Seq<usize>) -> Seq<int> {
    v.map_values(|x: usize| x as int)
}

/// The migration at `i` has yet to run: its name is not recorded, and no
/// migration before it in the list bears the same name.
pub open spec fn is_pending(names: Seq<Seq<char>>, applied: Seq<Seq<char>>, i: int) -> bool {
    &&& 0 <= i < names.len()
    &&& !applied.contains(names[i])
    &&& forall|j: int| 0 <= j < i ==> names[j] != names[i]
}

/// The pending positions among the first `n`, in the order of the list.
pub open spec fn pending_upto(names: Seq<Seq<char>>, applied: Seq<Seq<char>>, n: int) -> Seq<int>
    decreases n,
{
    if n <= 0 {
        Seq::empty()
    } else if is_pending(names, applied, n - 1) {
        pending_upto(names, applied, n - 1).push(n - 1)
    } else {
        pending_upto(names, applied, n - 1)
    }
}

/// The pending positions, in the order of the list: the runner never
/// reorders migrations.
pub open spec fn pending(names: Seq<Seq<char>>, applied: Seq<Seq<char>>) -> Seq<int> {
    pending_upto(names, applied, names.len() as int)
}

/// The name at `i` sorts before a name that is applied by the time its turn
/// comes: a recorded one, or one that stands before it in the list.
pub open spec fn behind(names: Seq<Seq<char>>, applied: Seq<Seq<char>>, i: int) -> bool {
    ||| exists|k: int| 0 <= k < applied.len() && name_lt(names[i], #[trigger] applied[k])
    ||| exists|j: int| 0 <= j < i && name_lt(names[i], #[trigger] names[j])
}

/// The migration at `i` is pending and out of order.
pub open spec fn violates(names: Seq<Seq<char>>, applied: Seq<Seq<char>>, i: int) -> bool {
    is_pending(names, applied, i) && behind(names, applied, i)
}

/// `i` is the first position that is pending and out of order.
pub open spec fn is_first_violation(
    names: Seq<Seq<char>>,
    applied: Seq<Seq<char>>,
    i: int,
) -> bool {
    &&& violates(names, applied, i)
    &&& forall|j: int| 0 <= j < i ==> !violates(names, applied, j)
}

/// The first position that is pending and out of order, where there is one.
pub open spec fn first_violation(names: Seq<Seq<char>>, applied: Seq<Seq<char>>) -> int {
    choose|i: int| is_first_violation(names, applied, i)
}

/// What is to be applied: the pending positions in the order of the list.
/// Unless out-of-order application is allowed, the plan is refused, with the
/// name of the first offender, where a pending migration is out of order.
pub open spec fn plan(names: Seq<Seq<char>>, applied: Seq<Seq<char>>, allow: bool) -> Result<
    Seq<int>,
    Seq<char>,
> {
    if !allow && exists|i: int| violates(names, applied, i) {
        Err(names[first_violation(names, applied)])
    } else {
        Ok(pending(names, applied))
    }
}

/// There is one first violation at most.
pub proof fn lemma_first_violation(names: Seq<Seq<char>>, applied: Seq<Seq<char>>, i: int)
    requires
        is_first_violation(names, applied, i),
    ensures
        first_violation(names, applied) == i,
{
}

/// The pending positions among the first `n` lie below `n`, each of them is
/// pending, and they ascend.
pub proof fn lemma_pending_members(names: Seq<Seq<char>>, applied: Seq<Seq<char>>, n: int)
    requires
        n <= names.len(),
    ensures
        forall|k: int|
            0 <= k < pending_upto(names, applied, n).len() ==> 0 <= (#[trigger] pending_upto(
                names,
                applied,
                n,
            )[k]) < n && is_pending(names, applied, pending_upto(names, applied, n)[k]),
        forall|j: int, k: int|
            0 <= j < k < pending_upto(names, applied, n).len() ==> pending_upto(
                names,
                applied,
                n,
            )[j] < pending_upto(names, applied, n)[k],
    decreases n,
{
    if n > 0 {
        lemma_pending_members(names, applied, n - 1);
        let p = pending_upto(names, applied, n);
        let q = pending_upto(names, applied, n - 1);
        assert(p == q || p == q.push(n - 1));
    }
}

/// Every pending position below `n` is among the pending positions.
pub proof fn lemma_pending_complete(names: Seq<Seq<char>>, applied: Seq<Seq<char>>, n: int, i: int)
    requires
        0 <= i < n <= names.len(),
        is_pending(names, applied, i),
    ensures
        pending_upto(names, applied, n).contains(i),
    decreases n,
{
    if i == n - 1 {
        let p = pending_upto(names, applied, n);
        assert(p[p.len() - 1] == i);
    } else {
        lemma_pending_complete(names, applied, n - 1, i);
        let q = pending_upto(names, applied, n - 1);
        let k = choose|k: int| 0 <= k < q.len() && q[k] == i;
        assert(pending_upto(names, applied, n)[k] == i);
    }
}

/// The positions a plan may hold: each within the list, each the first of
/// its name, none recorded, in ascending order.
pub open spec fn plan_shape(names: Seq<Seq<char>>, applied: Seq<Seq<char>>, planned: Seq<int>) -> bool {
    &&& forall|k: int|
        0 <= k < planned.len() ==> is_pending(names, applied, #[trigger] planned[k])
    &&& forall|j: int, k: int| 0 <= j < k < planned.len() ==> planned[j] < planned[k]
}

/// Whether the migration at `i` has yet to run.
fn pending_at(migrations: &Vec<Migration>, ledger: &Ledger, i: usize) -> (r: bool)
    requires
        i < migrations.len(),
    ensures
        r == is_pending(
            migration_names(migration_views(migrations@)),
            record_names(ledger@),
            i as int,
        ),
{
    let ghost names = migration_names(migration_views(migrations@));
    if ledger.contains(&migrations[i].name) {
        return false;
    }
    let mut j: usize = 0;
    while j < i
        invariant
            j <= i < migrations.len(),
            names == migration_names(migration_views(migrations@)),
            forall|k: int| 0 <= k < j ==> names[k] != names[i as int],
        decreases i - j,
    {
        if migrations[j].name == migrations[i].name {
            assert(names[j as int] == names[i as int]);
            return false;
        }
        j = j + 1;
    }
    true
}

/// Whether the name at `i` sorts before one that is applied by its turn.
fn behind_at(migrations: &Vec<Migration>, ledger: &Ledger, i: usize) -> (r: bool)
    requires
        i < migrations.len(),
    ensures
        r == behind(
            migration_names(migration_views(migrations@)),
            record_names(ledger@),
            i as int,
        ),
{
    let ghost names = migration_names(migration_views(migrations@));
    if ledger.any_name_after(&migrations[i].name) {
        return true;
    }
    let mut j: usize = 0;
    while j < i
        invariant
            j <= i < migrations.len(),
            names == migration_names(migration_views(migrations@)),
            forall|k: int| 0 <= k < j ==> !name_lt(names[i as int], #[trigger] names[k]),
        decreases i - j,
    {
        if name_less(migrations[i].name.as_str(), migrations[j].name.as_str()) {
            assert(name_lt(names[i as int], names[j as int]));
            return true;
        }
        j = j + 1;
    }
    false
}

/// Plans an application: the positions of the pending migrations, in the
/// order of the list. Unless `allow_out_of_order` is set, a pending migration
/// whose name sorts before an applied one, or before one that stands earlier
/// in the list, has the whole plan refused.
pub fn plan_apply(migrations: &Vec<Migration>, ledger: &Ledger, allow_out_of_order: bool) -> (r:
    Result<Vec<usize>, RunnerError>)
    ensures
        match plan(
            migration_names(migration_views(migrations@)),
            record_names(ledger@),
            allow_out_of_order,
        ) {
            Ok(p) => r matches Ok(v) && positions(v@) == p,
            Err(name) => r matches Err(e) && e@ == (ErrorView::OutOfOrder { name }),
        },
{
    let ghost names = migration_names(migration_views(migrations@));
    let ghost applied = record_names(ledger@);
    let mut planned: Vec<usize> = Vec::new();
    let mut i: usize = 0;
    while i < migrations.len()
        invariant
            i <= migrations.len(),
            names == migration_names(migration_views(migrations@)),
            applied == record_names(ledger@),
            positions(planned@) == pending_upto(names, applied, i as int),
            !allow_out_of_order ==> forall|j: int| 0 <= j < i ==> !violates(names, applied, j),
        decreases migrations.len() - i,
    {
        if pending_at(migrations, ledger, i) {
            if !allow_out_of_order && behind_at(migrations, ledger, i) {
                proof {
                    assert(is_first_violation(names, applied, i as int));
                    lemma_first_violation(names, applied, i as int);
                }
                return Err(RunnerError::OutOfOrder { name: migrations[i].name.clone() });
            }
            planned.push(i);
        }
        i = i + 1;
    }
    Ok(planned)
}

/// The migration to revert: the position in the list of the one whose record
/// is the most recent. Where nothing is recorded there is nothing to revert;
/// where the list holds no migration of the recorded name, its backward
/// action cannot be had.
pub open spec fn revert_target(names: Seq<Seq<char>>, ledger: Seq<RecordView>) -> Result<
    int,
    ErrorView,
> {
    if ledger.len() == 0 {
        Err(ErrorView::NothingToRevert)
    } else {
        let name = ledger[latest_index(ledger)].name;
        if names.contains(name) {
            Ok(first_index(names, name))
        } else {
            Err(
                ErrorView::Migration {
                    name,
                    direction: Direction::Down,
                    failure: FailureView::MissingDefinition,
                },
            )
        }
    }
}

/// Picks the migration to revert: the one that was applied most recently,
/// and of those applied at the same time the one with the greatest name.
pub fn select_revert(migrations: &Vec<Migration>, ledger: &Ledger) -> (r: Result<
    usize,
    RunnerError,
>)
    ensures
        match revert_target(migration_names(migration_views(migrations@)), ledger@) {
            Ok(i) => r matches Ok(v) && v == i && 0 <= i < migrations.len() && is_latest(
                ledger@,
                latest_index(ledger@),
            ) && migrations@[i]@.name == ledger@[latest_index(ledger@)].name,
            Err(e) => r matches Err(x) && x@ == e,
        },
{
    let ghost names = migration_names(migration_views(migrations@));
    match ledger.latest() {
        None => Err(RunnerError::NothingToRevert),
        Some(record) => {
            let mut i: usize = 0;
            while i < migrations.len()
                invariant
                    i <= migrations.len(),
                    names == migration_names(migration_views(migrations@)),
                    is_latest(ledger@, latest_index(ledger@)),
                    record@ == ledger@[latest_index(ledger@)],
                    forall|j: int| 0 <= j < i ==> names[j] != record@.name,
                decreases migrations.len() - i,
            {
                if migrations[i].name == record.name {
                    proof {
                        assert(names[i as int] == record@.name);
                        lemma_first_index(names, record@.name, i as int);
                    }
                    return Ok(i);
                }
                i = i + 1;
            }
            Err(
                RunnerError::Migration {
                    name: record.name,
                    direction: Direction::Down,
                    failure: Failure::MissingDefinition,
                },
            )
        },
    }
}

/// A line of a status report, as a mathematical value: the name of a
/// migration, and whether it is applied.
pub open spec fn status_of(names: Seq<Seq<char>>, applied: Seq<Seq<char>>) -> Seq<
    (Seq<char>, bool),
> {
    Seq::new(names.len(), |i: int| (names[i], applied.contains(names[i])))
}

/// The views of the lines of a status report.
pub open spec fn status_views(v: Seq<(String, bool)>) -> Seq<(Seq<char>, bool)> {
    v.map_values(|line: (String, bool)| (line.0@, line.1))
}

/// Reports, for each migration in the order of the list, its name and
/// whether it is applied. Nothing is changed.
pub fn status(migrations: &Vec<Migration>, ledger: &Ledger) -> (r: Vec<(String, bool)>)
    ensures
        r.len() == migrations.len(),
        status_views(r@) == status_of(
            migration_names(migration_views(migrations@)),
            record_names(ledger@),
        ),
{
    let ghost names = migration_names(migration_views(migrations@));
    let ghost applied = record_names(ledger@);
    let mut report: Vec<(String, bool)> = Vec::new();
    let mut i: usize = 0;
    while i < migrations.len()
        invariant
            i <= migrations.len(),
            names == migration_names(migration_views(migrations@)),
            applied == record_names(ledger@),
            report.len() == i,
            forall|j: int|
                0 <= j < i ==> (#[trigger] report@[j]).0@ == names[j] && report@[j].1
                    == applied.contains(names[j]),
        decreases migrations.len() - i,
    {
        let is_applied = ledger.contains(&migrations[i].name);
        report.push((migrations[i].name.clone(), is_applied));
        i = i + 1;
    }
    report
}

} // verus!
