use immix_core::block::Block;
use immix_core::bump::BumpBlock;
use immix_core::meta::BlockMeta;
use immix_core::{BLOCK_SIZE, LINE_COUNT, LINE_SIZE};

fn fresh_bump_block(base: usize) -> BumpBlock {
    BumpBlock::new(Block::new(base, BLOCK_SIZE).ok().unwrap())
}

#[test]
fn bump_allocate_it_works() {}

#[test]
fn unmarked_block_is_one_giant_hole() {
    let meta = BlockMeta::new();
    assert_eq!(meta.find_next_available_hole(0), Some((0, BLOCK_SIZE)));
}

#[test]
fn fully_marked_block_has_no_hole() {
    let mut meta = BlockMeta::new();
    let mut line: usize = 0;
    while line < LINE_COUNT {
        meta.mark_line(line);
        line += 1;
    }
    assert_eq!(meta.find_next_available_hole(0), None);
    assert!(meta.block_mark());
}

#[test]
fn hole_scan_applies_conservative_skip() {
    // lines 1 and 4 marked: line 0 alone is a hole (no skip at line 0); the
    // run {2, 3} gives up line 2 and yields only line 3; the run {5, ...}
    // gives up line 5.
    let mut meta = BlockMeta::new();
    meta.mark_line(1);
    meta.mark_line(4);
    assert_eq!(meta.find_next_available_hole(0), Some((0, LINE_SIZE)));
    assert_eq!(
        meta.find_next_available_hole(LINE_SIZE),
        Some((3 * LINE_SIZE, 4 * LINE_SIZE))
    );
    assert_eq!(
        meta.find_next_available_hole(4 * LINE_SIZE),
        Some((6 * LINE_SIZE, BLOCK_SIZE))
    );
    assert_eq!(meta.find_next_available_hole(BLOCK_SIZE), None);
}

#[test]
fn hole_enumeration_is_ordered() {
    // marks on lines 3, 4 and 9: repeated queries restarting at the previous
    // limit enumerate every hole, in increasing, non-overlapping order.
    let mut meta = BlockMeta::new();
    meta.mark_line(3);
    meta.mark_line(4);
    meta.mark_line(9);
    let first = meta.find_next_available_hole(0).unwrap();
    assert_eq!(first, (0, 3 * LINE_SIZE));
    let second = meta.find_next_available_hole(first.1).unwrap();
    assert_eq!(second, (6 * LINE_SIZE, 9 * LINE_SIZE));
    let third = meta.find_next_available_hole(second.1).unwrap();
    assert_eq!(third, (11 * LINE_SIZE, BLOCK_SIZE));
    assert_eq!(meta.find_next_available_hole(third.1), None);
    assert!(first.1 <= second.0 && second.1 <= third.0);
}

#[test]
fn bump_addresses_increase_without_overlap() {
    let base: usize = 8 * BLOCK_SIZE;
    let mut bb = fresh_bump_block(base);
    let a1 = bb.inner_alloc(64).unwrap();
    let a2 = bb.inner_alloc(32).unwrap();
    let a3 = bb.inner_alloc(100).unwrap();
    assert_eq!(a1, base);
    assert_eq!(a2, base + 64);
    assert_eq!(a3, base + 96);
    assert!(a1 + 64 <= a2);
    assert!(a2 + 32 <= a3);
}

#[test]
fn exhausted_hole_fails_without_moving_cursor() {
    let mut bb = fresh_bump_block(BLOCK_SIZE);
    assert!(bb.inner_alloc(BLOCK_SIZE).is_some());
    assert_eq!(bb.cursor(), bb.limit());
    assert_eq!(bb.inner_alloc(1), None);
    assert_eq!(bb.cursor(), BLOCK_SIZE);
    assert_eq!(bb.inner_alloc(17), None);
    assert_eq!(bb.cursor(), BLOCK_SIZE);
}

#[test]
fn oversized_request_fails_cleanly() {
    let mut bb = fresh_bump_block(BLOCK_SIZE);
    assert_eq!(bb.inner_alloc(BLOCK_SIZE + 1), None);
    assert_eq!(bb.cursor(), 0);
    assert_eq!(bb.inner_alloc(usize::MAX), None);
    assert_eq!(bb.cursor(), 0);
    assert!(bb.inner_alloc(BLOCK_SIZE).is_some());
}

#[test]
fn recycled_block_bumps_into_holes_only() {
    let base: usize = 2 * BLOCK_SIZE;
    let mut bb = fresh_bump_block(base);
    // fill the fresh block completely
    assert!(bb.inner_alloc(BLOCK_SIZE).is_some());
    // a collection finds live data on lines 1 and 4
    bb.mark_line(1);
    bb.mark_line(4);
    assert!(bb.meta().block_mark());
    // allocation restarts in the first hole: line 0 alone
    assert!(bb.recycle());
    assert_eq!(bb.cursor(), 0);
    assert_eq!(bb.limit(), LINE_SIZE);
    assert_eq!(bb.inner_alloc(LINE_SIZE), Some(base));
    // the hole is exhausted: refresh skips the marked and reserved lines
    assert_eq!(bb.inner_alloc(1), None);
    assert!(bb.refresh_hole());
    assert_eq!(bb.cursor(), 3 * LINE_SIZE);
    assert_eq!(bb.limit(), 4 * LINE_SIZE);
    assert_eq!(bb.inner_alloc(LINE_SIZE), Some(base + 3 * LINE_SIZE));
    // next and last hole: everything after the reserved line 5
    assert!(bb.refresh_hole());
    assert_eq!(bb.cursor(), 6 * LINE_SIZE);
    assert_eq!(bb.limit(), BLOCK_SIZE);
    // the rest of the block is one run; exhaust it and the block is done
    assert!(bb.inner_alloc(BLOCK_SIZE - 6 * LINE_SIZE).is_some());
    assert!(!bb.refresh_hole());
    assert_eq!(bb.cursor(), BLOCK_SIZE);
}

#[test]
fn marks_can_be_cleared_for_a_new_cycle() {
    let mut meta = BlockMeta::new();
    assert!(!meta.block_mark());
    meta.mark_line(7);
    assert!(meta.block_mark());
    meta.clear_marks();
    assert!(!meta.block_mark());
    assert_eq!(meta.find_next_available_hole(0), Some((0, BLOCK_SIZE)));
}
