use skyline_generator::builder::Cell;
use skyline_generator::grid::{
    cells_from_calendar, cells_from_daily_counts, day_histogram, reverse_slot, GridError,
};
use skyline_generator::ids::user_id_text;
use skyline_generator::timestamps::{year_window, year_window_at, SimpleDate, YearError};

fn date(year: i32, month: u32, day: u32) -> SimpleDate {
    SimpleDate { year, month, day }
}

fn assert_cell(c: &Cell, week: u32, day: u32, count: u64) {
    assert_eq!(c.week, week);
    assert_eq!(c.day, day);
    assert_eq!(c.count, count);
    assert!(c.label.is_none());
}

#[test]
fn calendar_flattens_in_order() {
    let weeks = vec![vec![5, 10], vec![0], vec![]];
    let cells = cells_from_calendar(&weeks).unwrap();
    assert_eq!(cells.len(), 3);
    assert_cell(&cells[0], 0, 1, 5);
    assert_cell(&cells[1], 0, 2, 10);
    assert_cell(&cells[2], 1, 1, 0);
}

#[test]
fn calendar_rejects_eight_day_band() {
    let weeks = vec![vec![1], vec![0, 0, 0, 0, 0, 0, 0, 0]];
    match cells_from_calendar(&weeks) {
        Err(GridError::TooManyDays { week }) => assert_eq!(week, 1),
        other => panic!("expected TooManyDays, got {other:?}"),
    }
}

#[test]
fn calendar_rejects_fifty_fourth_week() {
    let weeks: Vec<Vec<u64>> = (0..54).map(|_| vec![1, 2, 3]).collect();
    match cells_from_calendar(&weeks) {
        Err(GridError::TooManyWeeks) => {}
        other => panic!("expected TooManyWeeks, got {other:?}"),
    }
    let ok: Vec<Vec<u64>> = (0..53).map(|_| vec![1]).collect();
    assert_eq!(cells_from_calendar(&ok).unwrap().len(), 53);
}

#[test]
fn daily_counts_wrap_at_seven() {
    let counts = vec![1, 2, 3, 4, 5, 6, 7, 8, 9];
    let cells = cells_from_daily_counts(&counts);
    assert_eq!(cells.len(), 9);
    assert_cell(&cells[0], 0, 1, 1);
    assert_cell(&cells[6], 0, 7, 7);
    assert_cell(&cells[7], 1, 1, 8);
    assert_cell(&cells[8], 1, 2, 9);
}

#[test]
fn histogram_counts_each_slot() {
    let offsets = vec![0usize, 4, 4, 2, 4];
    let tally = day_histogram(5, &offsets);
    assert_eq!(tally, vec![1, 0, 1, 0, 3]);
    let empty: Vec<usize> = vec![];
    assert_eq!(day_histogram(3, &empty), vec![0, 0, 0]);
}

#[test]
fn reverse_slot_counts_from_the_end() {
    assert_eq!(reverse_slot(10, 0), Some(9));
    assert_eq!(reverse_slot(10, 9), Some(0));
    assert_eq!(reverse_slot(10, 10), None);
    assert_eq!(reverse_slot(0, 0), None);
}

#[test]
fn year_window_picks_the_year_span() {
    let today = date(2026, 10, 8);
    let back = date(2025, 10, 8);
    let (start, end) = year_window_at(2020, today, back).unwrap();
    assert_eq!((start.year, start.month, start.day), (2020, 1, 1));
    assert_eq!((start.hour, start.minute, start.second), (0, 0, 0));
    assert_eq!((end.year, end.month, end.day), (2020, 12, 31));
    assert_eq!((end.hour, end.minute, end.second), (11, 59, 59));
}

#[test]
fn year_window_zero_is_the_trailing_year() {
    let today = date(2026, 10, 8);
    let back = date(2025, 10, 8);
    let (start, end) = year_window_at(0, today, back).unwrap();
    assert_eq!((start.year, start.month, start.day), (2025, 10, 8));
    assert_eq!((end.year, end.month, end.day), (2026, 10, 8));
    assert_eq!((end.hour, end.minute, end.second), (0, 0, 0));
}

#[test]
fn year_window_rejects_out_of_range_years() {
    let today = date(2026, 10, 8);
    let back = date(2025, 10, 8);
    assert_eq!(year_window_at(2007, today, back), Err(YearError::InvalidYear));
    assert_eq!(year_window_at(2026, today, back), Err(YearError::InvalidYear));
    assert_eq!(year_window_at(2027, today, back), Err(YearError::InvalidYear));
    assert!(year_window_at(2008, today, back).is_ok());
    assert_eq!(year_window(1999), Err(YearError::InvalidYear));
}

#[test]
fn year_window_against_the_clock() {
    // Whatever today is, the trailing-year window ends on a sane calendar
    // date and starts 365 days earlier, so on a different date.
    let (start, end) = year_window(0).unwrap();
    assert!((1..=12).contains(&end.month));
    assert!((1..=31).contains(&end.day));
    assert!((1..=12).contains(&start.month));
    assert!((1..=31).contains(&start.day));
    assert_ne!((start.year, start.month, start.day), (end.year, end.month, end.day));
    assert!(start.year == end.year - 1 || (start.year == end.year && start.month < end.month));
}

#[test]
fn user_id_decodes_base64_text() {
    assert_eq!(user_id_text("VXNlcjoxMjM0NQ=="), Some("User:12345".to_string()));
    assert_eq!(user_id_text("!!!"), None);
    // Valid base64 that is not UTF-8.
    assert_eq!(user_id_text("//4="), None);
}
