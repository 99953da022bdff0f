//! The cyclic order of a project's views by position.
use vstd::prelude::*;
use vstd::view::View as _;
use crate::model::{Project, RepoError, View};

verus! {

/// Row `i` of `rows` is a view of project `project_id`.
pub open spec fn in_project(rows: Seq<View>, project_id: i64, i: int) -> bool {
    0 <= i < rows.len() && rows[i].project_id == project_id
}

/// Some view of the project has a position above `bound`.
pub open spec fn has_above(rows: Seq<View>, project_id: i64, bound: int) -> bool {
    exists|j: int| in_project(rows, project_id, j) && rows[j].position > bound
}

/// Some view of the project has a position below `bound`.
pub open spec fn has_below(rows: Seq<View>, project_id: i64, bound: int) -> bool {
    exists|j: int| in_project(rows, project_id, j) && rows[j].position < bound
}

/// Row `i` has the smallest position above `bound` in the project.
pub open spec fn least_above(rows: Seq<View>, project_id: i64, bound: int, i: int) -> bool {
    &&& in_project(rows, project_id, i)
    &&& rows[i].position > bound
    &&& forall|j: int|
        #![trigger rows[j]]
        in_project(rows, project_id, j) && rows[j].position > bound ==> rows[i].position
            <= rows[j].position
}

/// Row `i` has the largest position below `bound` in the project.
pub open spec fn greatest_below(rows: Seq<View>, project_id: i64, bound: int, i: int) -> bool {
    &&& in_project(rows, project_id, i)
    &&& rows[i].position < bound
    &&& forall|j: int|
        #![trigger rows[j]]
        in_project(rows, project_id, j) && rows[j].position < bound ==> rows[j].position
            <= rows[i].position
}

/// Below every position a view can have.
pub open spec fn below_all() -> int {
    i64::MIN - 1
}

/// Above every position a view can have.
pub open spec fn above_all() -> int {
    i64::MAX + 1
}

/// Row `i` follows position `p` in the project's cycle: the smallest position
/// above `p`, or the smallest of all where none is above.
pub open spec fn is_next(rows: Seq<View>, project_id: i64, p: int, i: int) -> bool {
    if has_above(rows, project_id, p) {
        least_above(rows, project_id, p, i)
    } else {
        least_above(rows, project_id, below_all(), i)
    }
}

/// Row `i` precedes position `p` in the project's cycle: the largest position
/// below `p`, or the largest of all where none is below.
pub open spec fn is_prev(rows: Seq<View>, project_id: i64, p: int, i: int) -> bool {
    if has_below(rows, project_id, p) {
        greatest_below(rows, project_id, p, i)
    } else {
        greatest_below(rows, project_id, above_all(), i)
    }
}

/// No two views of the project share a position.
pub open spec fn positions_unique(rows: Seq<View>, project_id: i64) -> bool {
    forall|i: int, j: int|
        #![trigger rows[i], rows[j]]
        in_project(rows, project_id, i) && in_project(rows, project_id, j) && i != j
            ==> rows[i].position != rows[j].position
}

/// No earlier view of the project stands at the position of row `i`.
pub open spec fn first_at_its_position(rows: Seq<View>, project_id: i64, i: int) -> bool {
    forall|j: int|
        #![trigger rows[j]]
        0 <= j < i && in_project(rows, project_id, j) ==> rows[j].position != rows[i].position
}

/// The bound that `bound` stands for, where `None` is below every position.
pub open spec fn lower_bound(bound: Option<i64>) -> int {
    match bound {
        Some(b) => b as int,
        None => below_all(),
    }
}

/// The bound that `bound` stands for, where `None` is above every position.
pub open spec fn upper_bound(bound: Option<i64>) -> int {
    match bound {
        Some(b) => b as int,
        None => above_all(),
    }
}

/// The first row of the project with the smallest position above `bound`
/// (above none where `bound` is `None`).
pub fn least_above_index(rows: &Vec<View>, project_id: i64, bound: Option<i64>) -> (r: Option<usize>)
    ensures
        r is None <==> !has_above(rows@, project_id, lower_bound(bound)),
        r matches Some(i) ==> least_above(rows@, project_id, lower_bound(bound), i as int)
            && first_at_its_position(rows@, project_id, i as int),
{
    let ghost b = lower_bound(bound);
    let mut best: Option<usize> = None;
    let mut k: usize = 0;
    while k < rows.len()
        invariant
            k <= rows.len(),
            b == lower_bound(bound),
            match best {
                None => forall|j: int|
                    #![trigger rows@[j]]
                    0 <= j < k && in_project(rows@, project_id, j) ==> rows@[j].position <= b,
                Some(i) => i < k && in_project(rows@, project_id, i as int) && rows@[i as int].position
                    > b && first_at_its_position(rows@, project_id, i as int) && forall|j: int|
                    #![trigger rows@[j]]
                    0 <= j < k && in_project(rows@, project_id, j) && rows@[j].position > b
                        ==> rows@[i as int].position <= rows@[j].position,
            },
        decreases rows.len() - k,
    {
        let row = &rows[k];
        let above = match bound {
            Some(p) => row.position > p,
            None => true,
        };
        if row.project_id == project_id && above {
            let better = match best {
                None => true,
                Some(i) => row.position < rows[i].position,
            };
            if better {
                best = Some(k);
            }
        }
        k += 1;
    }
    best
}

/// The first row of the project with the largest position below `bound`
/// (below none where `bound` is `None`).
pub fn greatest_below_index(rows: &Vec<View>, project_id: i64, bound: Option<i64>) -> (r: Option<
    usize,
>)
    ensures
        r is None <==> !has_below(rows@, project_id, upper_bound(bound)),
        r matches Some(i) ==> greatest_below(rows@, project_id, upper_bound(bound), i as int)
            && first_at_its_position(rows@, project_id, i as int),
{
    let ghost b = upper_bound(bound);
    let mut best: Option<usize> = None;
    let mut k: usize = 0;
    while k < rows.len()
        invariant
            k <= rows.len(),
            b == upper_bound(bound),
            match best {
                None => forall|j: int|
                    #![trigger rows@[j]]
                    0 <= j < k && in_project(rows@, project_id, j) ==> rows@[j].position >= b,
                Some(i) => i < k && in_project(rows@, project_id, i as int) && rows@[i as int].position
                    < b && first_at_its_position(rows@, project_id, i as int) && forall|j: int|
                    #![trigger rows@[j]]
                    0 <= j < k && in_project(rows@, project_id, j) && rows@[j].position < b
                        ==> rows@[j].position <= rows@[i as int].position,
            },
        decreases rows.len() - k,
    {
        let row = &rows[k];
        let below = match bound {
            Some(p) => row.position < p,
            None => true,
        };
        if row.project_id == project_id && below {
            let better = match best {
                None => true,
                Some(i) => row.position > rows[i].position,
            };
            if better {
                best = Some(k);
            }
        }
        k += 1;
    }
    best
}

/// The row of the view that follows position `position` in the project's
/// cycle; `None` when the project has no view.
pub fn next_view_index(rows: &Vec<View>, project_id: i64, position: i64) -> (r: Option<usize>)
    ensures
        r is None <==> !has_above(rows@, project_id, below_all()),
        r matches Some(i) ==> is_next(rows@, project_id, position as int, i as int)
            && first_at_its_position(rows@, project_id, i as int),
{
    match least_above_index(rows, project_id, Some(position)) {
        Some(i) => Some(i),
        None => {
            let r = least_above_index(rows, project_id, None);
            proof {
                if has_above(rows@, project_id, position as int) {
                    let j = choose|j: int| in_project(rows@, project_id, j) && rows@[j].position > position;
                    assert(rows@[j].position > below_all());
                }
            }
            r
        },
    }
}

/// The row of the view that precedes position `position` in the project's
/// cycle; `None` when the project has no view.
pub fn prev_view_index(rows: &Vec<View>, project_id: i64, position: i64) -> (r: Option<usize>)
    ensures
        r is None <==> !has_below(rows@, project_id, above_all()),
        r matches Some(i) ==> is_prev(rows@, project_id, position as int, i as int)
            && first_at_its_position(rows@, project_id, i as int),
{
    match greatest_below_index(rows, project_id, Some(position)) {
        Some(i) => Some(i),
        None => {
            let r = greatest_below_index(rows, project_id, None);
            proof {
                if has_below(rows@, project_id, position as int) {
                    let j = choose|j: int| in_project(rows@, project_id, j) && rows@[j].position < position;
                    assert(rows@[j].position < above_all());
                }
            }
            r
        },
    }
}

/// The row that follows row `i` in its project's cycle.
pub open spec fn next_of(rows: Seq<View>, project_id: i64, i: int) -> int {
    choose|j: int| is_next(rows, project_id, rows[i].position as int, j)
}

/// The row that precedes row `i` in its project's cycle.
pub open spec fn prev_of(rows: Seq<View>, project_id: i64, i: int) -> int {
    choose|j: int| is_prev(rows, project_id, rows[i].position as int, j)
}

/// The row reached from row `i` by `n` steps forward.
pub open spec fn walk_next(rows: Seq<View>, project_id: i64, i: int, n: nat) -> int
    decreases n,
{
    if n == 0 {
        i
    } else {
        next_of(rows, project_id, walk_next(rows, project_id, i, (n - 1) as nat))
    }
}

/// The row reached from row `i` by `n` steps backward.
pub open spec fn walk_prev(rows: Seq<View>, project_id: i64, i: int, n: nat) -> int
    decreases n,
{
    if n == 0 {
        i
    } else {
        walk_prev(rows, project_id, prev_of(rows, project_id, i), (n - 1) as nat)
    }
}

proof fn lemma_least_above_exists(rows: Seq<View>, project_id: i64, bound: int, j: int)
    requires
        in_project(rows, project_id, j),
        rows[j].position > bound,
    ensures
        exists|i: int| least_above(rows, project_id, bound, i),
    decreases rows[j].position - bound,
{
    if !least_above(rows, project_id, bound, j) {
        let k = choose|k: int|
            in_project(rows, project_id, k) && rows[k].position > bound && rows[k].position
                < rows[j].position;
        lemma_least_above_exists(rows, project_id, bound, k);
    }
}

proof fn lemma_greatest_below_exists(rows: Seq<View>, project_id: i64, bound: int, j: int)
    requires
        in_project(rows, project_id, j),
        rows[j].position < bound,
    ensures
        exists|i: int| greatest_below(rows, project_id, bound, i),
    decreases bound - rows[j].position,
{
    if !greatest_below(rows, project_id, bound, j) {
        let k = choose|k: int|
            in_project(rows, project_id, k) && rows[k].position < bound && rows[k].position
                > rows[j].position;
        lemma_greatest_below_exists(rows, project_id, bound, k);
    }
}

proof fn lemma_next_of(rows: Seq<View>, project_id: i64, i: int)
    requires
        in_project(rows, project_id, i),
    ensures
        is_next(rows, project_id, rows[i].position as int, next_of(rows, project_id, i)),
        in_project(rows, project_id, next_of(rows, project_id, i)),
{
    let p = rows[i].position as int;
    if has_above(rows, project_id, p) {
        let j = choose|j: int| in_project(rows, project_id, j) && rows[j].position > p;
        lemma_least_above_exists(rows, project_id, p, j);
        let w = choose|w: int| least_above(rows, project_id, p, w);
        assert(is_next(rows, project_id, p, w));
    } else {
        lemma_least_above_exists(rows, project_id, below_all(), i);
        let w = choose|w: int| least_above(rows, project_id, below_all(), w);
        assert(is_next(rows, project_id, p, w));
    }
}

proof fn lemma_prev_of(rows: Seq<View>, project_id: i64, i: int)
    requires
        in_project(rows, project_id, i),
    ensures
        is_prev(rows, project_id, rows[i].position as int, prev_of(rows, project_id, i)),
        in_project(rows, project_id, prev_of(rows, project_id, i)),
{
    let p = rows[i].position as int;
    if has_below(rows, project_id, p) {
        let j = choose|j: int| in_project(rows, project_id, j) && rows[j].position < p;
        lemma_greatest_below_exists(rows, project_id, p, j);
        let w = choose|w: int| greatest_below(rows, project_id, p, w);
        assert(is_prev(rows, project_id, p, w));
    } else {
        lemma_greatest_below_exists(rows, project_id, above_all(), i);
        let w = choose|w: int| greatest_below(rows, project_id, above_all(), w);
        assert(is_prev(rows, project_id, p, w));
    }
}

/// One step back undoes one step forward.
proof fn lemma_prev_of_next(rows: Seq<View>, project_id: i64, i: int)
    requires
        positions_unique(rows, project_id),
        in_project(rows, project_id, i),
    ensures
        prev_of(rows, project_id, next_of(rows, project_id, i)) == i,
{
    lemma_next_of(rows, project_id, i);
    let j = next_of(rows, project_id, i);
    lemma_prev_of(rows, project_id, j);
    let k = prev_of(rows, project_id, j);
    let pi = rows[i].position as int;
    if has_above(rows, project_id, pi) {
        assert(has_below(rows, project_id, rows[j].position as int));
        assert(rows[k].position >= rows[i].position);
        if rows[k].position > rows[i].position {
            assert(rows[j].position <= rows[k].position);
        }
    } else {
        if has_below(rows, project_id, rows[j].position as int) {
            let m = choose|m: int| in_project(rows, project_id, m) && rows[m].position < rows[j].position;
            assert(rows[j].position <= rows[m].position);
        }
        assert(rows[i].position < above_all());
        assert(rows[i].position <= rows[k].position);
        assert(!(rows[k].position > pi));
    }
    assert(rows[k].position == rows[i].position);
}

/// One step forward undoes one step back.
proof fn lemma_next_of_prev(rows: Seq<View>, project_id: i64, i: int)
    requires
        positions_unique(rows, project_id),
        in_project(rows, project_id, i),
    ensures
        next_of(rows, project_id, prev_of(rows, project_id, i)) == i,
{
    lemma_prev_of(rows, project_id, i);
    let j = prev_of(rows, project_id, i);
    lemma_next_of(rows, project_id, j);
    let k = next_of(rows, project_id, j);
    let pi = rows[i].position as int;
    if has_below(rows, project_id, pi) {
        assert(has_above(rows, project_id, rows[j].position as int));
        assert(rows[k].position <= rows[i].position);
        if rows[k].position < rows[i].position {
            assert(rows[k].position <= rows[j].position);
        }
    } else {
        if has_above(rows, project_id, rows[j].position as int) {
            let m = choose|m: int| in_project(rows, project_id, m) && rows[m].position > rows[j].position;
            assert(rows[m].position <= rows[j].position);
        }
        assert(rows[i].position > below_all());
        assert(rows[k].position <= rows[i].position);
        assert(!(rows[k].position < pi));
    }
    assert(rows[k].position == rows[i].position);
}

/// Where no two views of a project share a position, stepping forward is a
/// one-to-one map of the project's views onto themselves: no view is reached
/// from two views, and every view is reached from one.
pub proof fn lemma_next_is_bijective(rows: Seq<View>, project_id: i64, i: int, j: int)
    requires
        positions_unique(rows, project_id),
        in_project(rows, project_id, i),
        in_project(rows, project_id, j),
    ensures
        next_of(rows, project_id, i) == next_of(rows, project_id, j) ==> i == j,
        in_project(rows, project_id, prev_of(rows, project_id, j)),
        next_of(rows, project_id, prev_of(rows, project_id, j)) == j,
{
    lemma_prev_of_next(rows, project_id, i);
    lemma_prev_of_next(rows, project_id, j);
    lemma_prev_of(rows, project_id, j);
    lemma_next_of_prev(rows, project_id, j);
}

proof fn lemma_walk_next_in_project(rows: Seq<View>, project_id: i64, i: int, n: nat)
    requires
        in_project(rows, project_id, i),
    ensures
        in_project(rows, project_id, walk_next(rows, project_id, i, n)),
    decreases n,
{
    if n > 0 {
        lemma_walk_next_in_project(rows, project_id, i, (n - 1) as nat);
        lemma_next_of(rows, project_id, walk_next(rows, project_id, i, (n - 1) as nat));
    }
}

/// Where no two views of a project share a position, taking `n` steps forward
/// through its cycle and then `n` steps backward returns to the view one
/// started from.
pub proof fn lemma_prev_walk_undoes_next_walk(rows: Seq<View>, project_id: i64, i: int, n: nat)
    requires
        positions_unique(rows, project_id),
        in_project(rows, project_id, i),
    ensures
        walk_prev(rows, project_id, walk_next(rows, project_id, i, n), n) == i,
    decreases n,
{
    if n > 0 {
        let a = walk_next(rows, project_id, i, (n - 1) as nat);
        lemma_walk_next_in_project(rows, project_id, i, (n - 1) as nat);
        lemma_prev_of_next(rows, project_id, a);
        lemma_prev_walk_undoes_next_walk(rows, project_id, i, (n - 1) as nat);
    }
}

/// Position `q` is one past the largest position of the project, or `0` in
/// a project without views.
pub open spec fn appended_at(rows: Seq<View>, project_id: i64, q: int) -> bool {
    if has_below(rows, project_id, above_all()) {
        exists|m: int| greatest_below(rows, project_id, above_all(), m) && q == rows[m].position + 1
    } else {
        q == 0
    }
}

/// Where a view appended to the project goes: one past the largest position,
/// or `0` in a project without views; `None` when the largest position is
/// already the largest an `i64` holds.
pub fn append_position(rows: &Vec<View>, project_id: i64) -> (r: Option<i64>)
    ensures
        r is None <==> exists|j: int| in_project(rows@, project_id, j) && rows@[j].position == i64::MAX,
        r matches Some(q) ==> appended_at(rows@, project_id, q as int),
{
    match greatest_below_index(rows, project_id, None) {
        None => Some(0),
        Some(m) => {
            if rows[m].position == i64::MAX {
                None
            } else {
                Some(rows[m].position + 1)
            }
        },
    }
}

/// Some project row has id `project_id`.
pub open spec fn project_listed(projects: Seq<Project>, project_id: i64) -> bool {
    exists|j: int| 0 <= j < projects.len() && projects[j].id == project_id
}

/// Some view of the project stands at the largest position an `i64` holds.
pub open spec fn positions_full(rows: Seq<View>, project_id: i64) -> bool {
    exists|j: int| in_project(rows, project_id, j) && rows[j].position == i64::MAX
}

/// Where a view appended to project `project_id` goes, given the project rows
/// and the view rows that the store returned: `ProjectNotFound` when no
/// project row has that id, `ConstraintViolation` when no position is left
/// past the largest.
pub fn append_plan(projects: &Vec<Project>, rows: &Vec<View>, project_id: i64) -> (r: Result<
    i64,
    RepoError,
>)
    ensures
        r == Err::<i64, RepoError>(RepoError::ProjectNotFound) <==> !project_listed(
            projects@,
            project_id,
        ),
        r == Err::<i64, RepoError>(RepoError::ConstraintViolation) <==> project_listed(
            projects@,
            project_id,
        ) && positions_full(rows@, project_id),
        r matches Ok(q) ==> appended_at(rows@, project_id, q as int),
        r matches Err(e) ==> e == RepoError::ProjectNotFound || e == RepoError::ConstraintViolation,
{
    let mut k: usize = 0;
    let mut found = false;
    while k < projects.len()
        invariant
            k <= projects@.len(),
            found <==> exists|j: int| 0 <= j < k && projects@[j].id == project_id,
        decreases projects.len() - k,
    {
        if projects[k].id == project_id {
            found = true;
        }
        k += 1;
    }
    if !found {
        return Err(RepoError::ProjectNotFound);
    }
    match append_position(rows, project_id) {
        Some(q) => Ok(q),
        None => Err(RepoError::ConstraintViolation),
    }
}

/// Row `a` is the active view of `project`.
pub open spec fn is_active_row(rows: Seq<View>, project: Project, a: int) -> bool {
    &&& in_project(rows, project.id, a)
    &&& rows[a].id == project.active_view_id
}

/// The row of the view after (`forward`) or before the active view of
/// `project` in its cycle; `NoActiveView` when no row is that active view.
pub fn neighbour_view(rows: &Vec<View>, project: &Project, forward: bool) -> (r: Result<
    usize,
    RepoError,
>)
    ensures
        r is Err <==> !exists|a: int| is_active_row(rows@, *project, a),
        r matches Err(e) ==> e == RepoError::NoActiveView,
        r matches Ok(i) ==> exists|a: int|
            is_active_row(rows@, *project, a) && (if forward {
                is_next(rows@, project.id, rows@[a].position as int, i as int)
            } else {
                is_prev(rows@, project.id, rows@[a].position as int, i as int)
            }) && first_at_its_position(rows@, project.id, i as int),
{
    let mut k: usize = 0;
    while k < rows.len()
        invariant
            k <= rows@.len(),
            forall|j: int| 0 <= j < k ==> !is_active_row(rows@, *project, j),
        decreases rows.len() - k,
    {
        if rows[k].project_id == project.id && rows[k].id == project.active_view_id {
            assert(is_active_row(rows@, *project, k as int));
            assert(rows@[k as int].position > below_all());
            assert(rows@[k as int].position < above_all());
            let found = if forward {
                next_view_index(rows, project.id, rows[k].position)
            } else {
                prev_view_index(rows, project.id, rows[k].position)
            };
            return match found {
                Some(i) => Ok(i),
                None => Err(RepoError::NoActiveView),
            };
        }
        k += 1;
    }
    Err(RepoError::NoActiveView)
}

} // verus!
