use bountycatch::intake::{collect, Intake, LineClass};
use bountycatch::strategy::{
    next_piece_end, select_strategy, Strategy, BULK_THRESHOLD, COPY_CHUNK_SIZE, DELETE_BATCH_SIZE,
    INSERT_BATCH_SIZE,
};

fn lines(v: &[&str]) -> Vec<String> {
    v.iter().map(|s| s.to_string()).collect()
}

#[test]
fn blank_lines_are_not_counted() {
    let intake = collect(&lines(&["", "   ", "\t", "a.com", "\n", " \u{a0} "]), true);
    assert_eq!(intake.total(), 1);
    assert_eq!(intake.invalid(), 0);
    assert_eq!(intake.candidates(), &lines(&["a.com"]));
}

#[test]
fn lines_are_trimmed() {
    let intake = collect(&lines(&["  a.com  ", "\tb.com\r", "\u{2003}c.com\u{3000}", "d .com"]), false);
    assert_eq!(intake.total(), 4);
    assert_eq!(intake.candidates(), &lines(&["a.com", "b.com", "c.com", "d .com"]));
}

#[test]
fn invalid_lines_are_counted_and_left_out() {
    let intake = collect(&lines(&["a.com", "not a domain", "*.b.com", "b.*", " c.com"]), true);
    assert_eq!(intake.total(), 5);
    assert_eq!(intake.invalid(), 2);
    assert_eq!(intake.valid(), 3);
    assert_eq!(intake.candidates(), &lines(&["a.com", "*.b.com", "c.com"]));
}

#[test]
fn without_validation_every_line_is_a_candidate() {
    let intake = collect(&lines(&["a.com", "not a domain", "b.*"]), false);
    assert_eq!(intake.total(), 3);
    assert_eq!(intake.invalid(), 0);
    assert_eq!(intake.candidates(), &lines(&["a.com", "not a domain", "b.*"]));
}

#[test]
fn duplicates_stay_in_the_candidates() {
    let intake = collect(&lines(&["a.com", "a.com", "b.com"]), true);
    assert_eq!(intake.total(), 3);
    assert_eq!(intake.invalid(), 0);
    assert_eq!(intake.candidates(), &lines(&["a.com", "a.com", "b.com"]));
}

#[test]
fn offering_line_by_line_is_collecting() {
    let input = lines(&[" a.com", "", "bad domain", "b.com "]);
    let mut intake = Intake::new();
    let mut classes = Vec::new();
    for line in &input {
        classes.push(intake.offer(line, true));
    }
    assert_eq!(
        classes,
        vec![LineClass::Accepted, LineClass::Blank, LineClass::Invalid, LineClass::Accepted]
    );
    let all = collect(&input, true);
    assert_eq!(intake.total(), all.total());
    assert_eq!(intake.invalid(), all.invalid());
    assert_eq!(intake.candidates(), all.candidates());
}

#[test]
fn reading_back_clean_rows_gives_the_rows() {
    let rows = lines(&["a.com", "*.b.org", "c-d.example.net"]);
    let intake = collect(&rows, true);
    assert_eq!(intake.total(), 3);
    assert_eq!(intake.invalid(), 0);
    assert_eq!(intake.candidates(), &rows);
    let again = collect(intake.candidates(), true);
    assert_eq!(again.candidates(), &rows);
}

#[test]
fn the_sizes() {
    assert_eq!(BULK_THRESHOLD, 100_000);
    assert_eq!(INSERT_BATCH_SIZE, 10_000);
    assert_eq!(DELETE_BATCH_SIZE, 10_000);
    assert_eq!(COPY_CHUNK_SIZE, 5_000_000);
}

#[test]
fn below_the_threshold_direct_at_the_threshold_bulk() {
    assert_eq!(select_strategy(0), Strategy::DirectInsert);
    assert_eq!(select_strategy(1), Strategy::DirectInsert);
    assert_eq!(select_strategy(BULK_THRESHOLD - 1), Strategy::DirectInsert);
    assert_eq!(select_strategy(BULK_THRESHOLD), Strategy::BulkLoad);
    assert_eq!(select_strategy(BULK_THRESHOLD + 1), Strategy::BulkLoad);
    assert_eq!(select_strategy(usize::MAX), Strategy::BulkLoad);
}

#[test]
fn pieces_end_after_the_size_or_at_the_count() {
    assert_eq!(next_piece_end(0, 25, 10), 10);
    assert_eq!(next_piece_end(10, 25, 10), 20);
    assert_eq!(next_piece_end(20, 25, 10), 25);
    assert_eq!(next_piece_end(25, 25, 10), 25);
    assert_eq!(next_piece_end(0, 10, 10), 10);
    assert_eq!(next_piece_end(0, 0, 10), 0);
    assert_eq!(next_piece_end(usize::MAX - 3, usize::MAX, 10), usize::MAX);
}
