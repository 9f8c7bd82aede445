use subtrim::time::TimePoint;
use subtrim::window::{blocks_in_range, validate_blocks, Block, InvalidWindowError, WindowRule};

fn blocks(pairs: &[(i64, i64)]) -> Vec<Block> {
    pairs
        .iter()
        .map(|&(s, e)| Block::new(TimePoint::from_msecs(s), TimePoint::from_msecs(e)))
        .collect()
}

fn refused(index: usize, rule: WindowRule) -> Result<(), InvalidWindowError> {
    Err(InvalidWindowError { index, rule })
}

#[test]
fn blocks_that_go_back_are_refused() {
    let b = blocks(&[(5000, 10_000), (3000, 8000)]);
    assert_eq!(validate_blocks(&b), refused(1, WindowRule::AfterPrevious));
}

#[test]
fn blocks_that_touch_are_accepted() {
    let b = blocks(&[(5000, 10_000), (10_000, 15_000)]);
    assert_eq!(validate_blocks(&b), Ok(()));
}

#[test]
fn a_block_without_length_is_refused() {
    let b = blocks(&[(5000, 5000)]);
    assert_eq!(validate_blocks(&b), refused(0, WindowRule::StartBeforeEnd));
}

#[test]
fn an_inverted_block_is_refused() {
    let b = blocks(&[(0, 1000), (9000, 8000)]);
    assert_eq!(validate_blocks(&b), refused(1, WindowRule::StartBeforeEnd));
}

#[test]
fn blocks_that_overlap_are_refused() {
    let b = blocks(&[(0, 5000), (4999, 6000)]);
    assert_eq!(validate_blocks(&b), refused(1, WindowRule::AfterPrevious));
}

#[test]
fn no_blocks_are_accepted() {
    assert_eq!(validate_blocks(&[]), Ok(()));
}

#[test]
fn one_block_from_zero_is_accepted() {
    assert_eq!(validate_blocks(&blocks(&[(0, 1)])), Ok(()));
}

#[test]
fn a_first_block_may_start_before_zero() {
    assert_eq!(validate_blocks(&blocks(&[(-1000, 5000)])), Ok(()));
    assert_eq!(validate_blocks(&blocks(&[(-5000, -1000), (-1000, 0), (0, 1)])), Ok(()));
}

#[test]
fn the_block_behind_a_first_block_before_zero_is_held_to_it() {
    let b = blocks(&[(-1000, 5000), (3000, 4000)]);
    assert_eq!(validate_blocks(&b), refused(1, WindowRule::AfterPrevious));
}

#[test]
fn a_first_block_is_held_to_end_after_it_starts() {
    assert_eq!(validate_blocks(&blocks(&[(-1, -1)])), refused(0, WindowRule::StartBeforeEnd));
    assert_eq!(validate_blocks(&blocks(&[(-1, -2)])), refused(0, WindowRule::StartBeforeEnd));
}

#[test]
fn blocks_behind_the_first_broken_one_do_not_count() {
    let short = blocks(&[(0, 1000), (500, 2000)]);
    let long = blocks(&[(0, 1000), (500, 2000), (7, 7), (0, 1)]);
    assert_eq!(validate_blocks(&short), refused(1, WindowRule::AfterPrevious));
    assert_eq!(validate_blocks(&long), refused(1, WindowRule::AfterPrevious));
}

#[test]
fn lengths_beyond_the_range_are_told() {
    assert!(blocks_in_range(&[]));
    assert!(blocks_in_range(&blocks(&[(0, i64::MAX), (i64::MIN + 1, 0), (-1, i64::MAX - 1)])));
    assert!(!blocks_in_range(&blocks(&[(i64::MIN, 0)])));
    assert!(!blocks_in_range(&blocks(&[(0, 1), (-1, i64::MAX)])));
    assert!(!blocks_in_range(&blocks(&[(i64::MIN, i64::MAX)])));
    assert!(blocks(&[(-1, i64::MAX - 1)])[0].length_fits());
    assert!(!blocks(&[(-1, i64::MAX)])[0].length_fits());
    assert!(!blocks(&[(1, i64::MIN)])[0].length_fits());
}

#[test]
fn the_first_broken_block_is_reported() {
    let b = blocks(&[(0, 1000), (2000, 2000), (1000, 500), (0, 1)]);
    assert_eq!(validate_blocks(&b), refused(1, WindowRule::StartBeforeEnd));
}

#[test]
fn start_before_end_is_checked_first() {
    // The second block breaks both rules.
    let b = blocks(&[(0, 5000), (3000, 2000)]);
    assert_eq!(validate_blocks(&b), refused(1, WindowRule::StartBeforeEnd));
}

#[test]
fn blocks_with_gaps_are_accepted() {
    let b = blocks(&[(0, 2000), (6000, 9000), (9001, 20_000)]);
    assert_eq!(validate_blocks(&b), Ok(()));
}

#[test]
fn a_block_turns_into_a_window_of_its_length() {
    let b = Block::new(TimePoint::from_msecs(6000), TimePoint::from_msecs(9000));
    let w = b.window();
    assert_eq!(w.start.msecs(), 6000);
    assert_eq!(w.extent.msecs(), 3000);
}
