use dook::RangeUnion;

fn ranges(u: &RangeUnion, gap: usize) -> Vec<(usize, usize)> {
    u.merged_ranges(gap).into_iter().map(|r| (r.start, r.end)).collect()
}

#[test]
fn push_merges_overlapping_ranges() {
    let mut u = RangeUnion::default();
    u.push(1..3);
    u.push(2..5);
    u.push(10..12);
    assert_eq!(ranges(&u, 0), vec![(1, 5), (10, 12)]);
}

#[test]
fn touching_ranges_merge_without_gap() {
    let mut u = RangeUnion::default();
    u.push(1..3);
    u.push(3..4);
    assert_eq!(ranges(&u, 0), vec![(1, 4)]);
}

#[test]
fn gap_of_one_line_is_filled() {
    let mut u = RangeUnion::default();
    u.push(1..3);
    u.push(4..6);
    assert_eq!(ranges(&u, 0), vec![(1, 3), (4, 6)]);
    assert_eq!(ranges(&u, 1), vec![(1, 6)]);
}
