use vstd::prelude::*;
use crate::builder::{Cell, MAX_WEEKS};

verus! {

/// Why a calendar of week bands could not be turned into cells.
#[derive(Clone, Copy, PartialEq, Eq, Structural, Debug)]
pub enum GridError {
    /// This week band held more than seven day entries.
    TooManyDays { week: u32 },
    /// The calendar held more week bands than the plate has columns.
    TooManyWeeks,
}

/// The cells of one week band: the entry at position `j` becomes the cell
/// for 1-based day `j + 1` of week `w`.
pub open spec fn week_cells(counts: Seq<u64>, w: int) -> Seq<Cell> {
    Seq::new(
        counts.len(),
        |j: int|
            (Cell { week: w as u32, day: (j + 1) as u32, count: counts[j], label: None }),
    )
}

/// All cells of a calendar, week band after week band.
pub open spec fn calendar_cells(weeks: Seq<Seq<u64>>) -> Seq<Cell>
    decreases weeks.len(),
{
    if weeks.len() == 0 {
        Seq::empty()
    } else {
        calendar_cells(weeks.drop_last()) + week_cells(weeks.last(), weeks.len() - 1)
    }
}

/// Flattens an activity calendar — one count per day, grouped into week
/// bands — into the cell sequence the mesh builder consumes.  A band with
/// more than seven days, or a calendar with more bands than the plate has
/// columns, is rejected; the scan stops at the first violation.
pub fn cells_from_calendar(weeks: &Vec<Vec<u64>>) -> (r: Result<Vec<Cell>, GridError>)
    ensures
        (r matches Ok(cells) ==> {
            &&& weeks.deep_view().len() <= MAX_WEEKS
            &&& forall|w: int|
                0 <= w < weeks.deep_view().len() ==> (#[trigger] weeks.deep_view()[w]).len() <= 7
            &&& cells@ == calendar_cells(weeks.deep_view())
        }),
        (r matches Err(e) ==> match e {
            GridError::TooManyDays { week } => {
                &&& week < weeks.deep_view().len()
                &&& week < MAX_WEEKS
                &&& weeks.deep_view()[week as int].len() > 7
                &&& forall|w: int|
                    0 <= w < week ==> (#[trigger] weeks.deep_view()[w]).len() <= 7
            },
            GridError::TooManyWeeks => {
                &&& weeks.deep_view().len() > MAX_WEEKS
                &&& forall|w: int|
                    0 <= w < MAX_WEEKS ==> (#[trigger] weeks.deep_view()[w]).len() <= 7
            },
        }),
        (r is Err <==> (weeks.deep_view().len() > MAX_WEEKS || exists|w: int|
            0 <= w < weeks.deep_view().len() && (#[trigger] weeks.deep_view()[w]).len() > 7)),
{
    let ghost dv = weeks.deep_view();
    let mut cells: Vec<Cell> = Vec::new();
    let n = weeks.len();
    let mut w: usize = 0;
    proof {
        assert(dv.len() == weeks@.len());
    }
    while w < n
        invariant
            dv == weeks.deep_view(),
            n == dv.len(),
            n == weeks@.len(),
            w <= n,
            w <= MAX_WEEKS,
            forall|u: int| 0 <= u < w ==> (#[trigger] dv[u]).len() <= 7,
            cells@ == calendar_cells(dv.take(w as int)),
        decreases n - w,
    {
        if w >= MAX_WEEKS as usize {
            return Err(GridError::TooManyWeeks);
        }
        let band = &weeks[w];
        proof {
            assert(band@ == dv[w as int]);
        }
        if band.len() > 7 {
            return Err(GridError::TooManyDays { week: w as u32 });
        }
        let m = band.len();
        let mut j: usize = 0;
        while j < m
            invariant
                dv == weeks.deep_view(),
                n == dv.len(),
                w < n,
                w < MAX_WEEKS,
                band@ == dv[w as int],
                m == band@.len(),
                m <= 7,
                j <= m,
                cells@ == calendar_cells(dv.take(w as int)) + week_cells(
                    band@.take(j as int),
                    w as int,
                ),
            decreases m - j,
        {
            cells.push(Cell { week: w as u32, day: (j + 1) as u32, count: band[j], label: None });
            proof {
                assert(cells@ =~= calendar_cells(dv.take(w as int)) + week_cells(
                    band@.take(j + 1 as int),
                    w as int,
                ));
            }
            j += 1;
        }
        proof {
            assert(band@.take(m as int) =~= band@);
            let next = dv.take(w + 1 as int);
            assert(next.drop_last() =~= dv.take(w as int));
            assert(next.last() == dv[w as int]);
            assert(cells@ =~= calendar_cells(next));
        }
        w += 1;
    }
    proof {
        assert(dv.take(n as int) =~= dv);
    }
    Ok(cells)
}

/// Turns one count per day into cells row by row: position `i` becomes
/// 1-based day `i % 7 + 1` of week `i / 7`.  The bound keeps every week
/// within the plate's columns.
pub fn cells_from_daily_counts(counts: &Vec<u64>) -> (r: Vec<Cell>)
    requires
        counts@.len() <= 7 * MAX_WEEKS,
    ensures
        r@.len() == counts@.len(),
        forall|i: int|
            0 <= i < counts@.len() ==> r@[i] == (Cell {
                week: (i / 7) as u32,
                day: (i % 7 + 1) as u32,
                count: counts@[i],
                label: None,
            }),
{
    let mut cells: Vec<Cell> = Vec::new();
    let n = counts.len();
    let mut i: usize = 0;
    while i < n
        invariant
            n == counts@.len(),
            n <= 7 * MAX_WEEKS,
            i <= n,
            cells@.len() == i,
            forall|k: int|
                0 <= k < i ==> cells@[k] == (Cell {
                    week: (k / 7) as u32,
                    day: (k % 7 + 1) as u32,
                    count: counts@[k],
                    label: None,
                }),
        decreases n - i,
    {
        cells.push(
            Cell { week: (i / 7) as u32, day: (i % 7 + 1) as u32, count: counts[i], label: None },
        );
        i += 1;
    }
    cells
}

/// How many entries of `s` equal `d`.
pub open spec fn count_eq(s: Seq<usize>, d: int) -> nat
    decreases s.len(),
{
    if s.len() == 0 {
        0
    } else {
        count_eq(s.drop_last(), d) + (if s.last() == d {
            1nat
        } else {
            0nat
        })
    }
}

proof fn lemma_count_eq_le_len(s: Seq<usize>, d: int)
    ensures
        count_eq(s, d) <= s.len(),
    decreases s.len(),
{
    if s.len() > 0 {
        lemma_count_eq_le_len(s.drop_last(), d);
    }
}

/// Buckets day offsets into a per-day activity tally: slot `d` of the
/// result holds exactly the number of offsets equal to `d`.
pub fn day_histogram(num_days: usize, offsets: &Vec<usize>) -> (r: Vec<u64>)
    requires
        forall|i: int| 0 <= i < offsets@.len() ==> #[trigger] offsets@[i] < num_days,
    ensures
        r@.len() == num_days,
        forall|d: int| 0 <= d < num_days ==> #[trigger] r@[d] == count_eq(offsets@, d),
{
    let mut tally: Vec<u64> = Vec::new();
    let mut i: usize = 0;
    while i < num_days
        invariant
            i <= num_days,
            tally@.len() == i,
            forall|d: int| 0 <= d < i ==> #[trigger] tally@[d] == 0,
        decreases num_days - i,
    {
        tally.push(0);
        i += 1;
    }
    proof {
        assert forall|d: int| 0 <= d < num_days implies #[trigger] tally@[d] == count_eq(
            offsets@.take(0),
            d,
        ) by {
            assert(count_eq(offsets@.take(0), d) == 0);
        }
    }
    let n = offsets.len();
    let mut i: usize = 0;
    while i < n
        invariant
            n == offsets@.len(),
            i <= n,
            tally@.len() == num_days,
            forall|k: int| 0 <= k < n ==> #[trigger] offsets@[k] < num_days,
            forall|d: int|
                0 <= d < num_days ==> #[trigger] tally@[d] == count_eq(offsets@.take(i as int), d),
        decreases n - i,
    {
        let o = offsets[i];
        proof {
            lemma_count_eq_le_len(offsets@.take(i as int), o as int);
        }
        let bumped = tally[o] + 1;
        tally[o] = bumped;
        proof {
            assert forall|d: int|
                0 <= d < num_days implies #[trigger] tally@[d] == count_eq(
                offsets@.take(i + 1 as int),
                d,
            ) by {
                let prev = offsets@.take(i as int);
                let cur = offsets@.take(i + 1 as int);
                assert(cur.drop_last() =~= prev);
                assert(cur.last() == offsets@[i as int]);
            }
        }
        i += 1;
    }
    proof {
        assert(offsets@.take(n as int) =~= offsets@);
    }
    tally
}

/// Commits are tallied backwards from the end of the query window: a
/// commit `delta` days after the window's first day lands in slot
/// `num_days - 1 - delta`; a commit outside the window gets no slot.
pub fn reverse_slot(num_days: usize, delta: u64) -> (r: Option<usize>)
    ensures
        delta < num_days ==> r == Some((num_days - 1 - delta) as usize),
        delta >= num_days ==> r is None,
{
    if delta < num_days as u64 {
        Some(num_days - 1 - (delta as usize))
    } else {
        None
    }
}

} // verus!
